//! Character-level text helpers: decimal numbers, whitespace, ASCII case,
//! and the splitting operations the legacy-config migrator needs.
//!
//! Everything works on sequences of `char`, with the standard library's
//! meaning: whitespace is Unicode `White_Space` (as `char::is_whitespace`),
//! integers are parsed as `FromStr` for the primitive types parses them.

use vstd::prelude::*;

verus! {

broadcast use vstd::string::group_string_axioms;

/// `String::push`: appends one character.
#[verifier::external_body]
pub(crate) fn push_char(s: &mut String, c: char)
    ensures
        final(s)@ == old(s)@.push(c),
{
    s.push(c);
}

/// The characters of `s`, in order.
pub fn chars_of(s: &str) -> (r: Vec<char>)
    ensures
        r@ == s@,
{
    let mut out: Vec<char> = Vec::new();
    for c in it: s.chars()
        invariant
            it.seq() == s@,
            out@ == it.seq().take(it.index() as int),
    {
        out.push(c);
    }
    proof {
        assert(out@ =~= s@);
    }
    out
}


/// A copy of `s`.
pub fn string_of(s: &[char]) -> (r: String)
    ensures
        r@ == s@,
{
    let mut out = String::new();
    for i in 0..s.len()
        invariant
            out@ == s@.take(i as int),
    {
        push_char(&mut out, s[i]);
        proof {
            assert(s@.take(i + 1) =~= s@.take(i as int).push(s@[i as int]));
        }
    }
    proof {
        assert(s@.take(s@.len() as int) =~= s@);
    }
    out
}

/// The characters `s[lo..hi]`.
pub fn subvec(s: &[char], lo: usize, hi: usize) -> (r: Vec<char>)
    requires
        lo <= hi <= s@.len(),
    ensures
        r@ == s@.subrange(lo as int, hi as int),
{
    let mut out: Vec<char> = Vec::new();
    let mut i = lo;
    while i < hi
        invariant
            lo <= i <= hi <= s@.len(),
            out@ == s@.subrange(lo as int, i as int),
        decreases hi - i,
    {
        out.push(s[i]);
        i += 1;
        proof {
            assert(out@ =~= s@.subrange(lo as int, i as int));
        }
    }
    out
}

/// Whether `s` spells exactly the literal `lit`.
pub fn eq_lit(s: &[char], lit: &str) -> (r: bool)
    ensures
        r == (s@ == lit@),
{
    let n = lit.unicode_len();
    if s.len() != n {
        return false;
    }
    for i in 0..n
        invariant
            n == lit@.len(),
            s@.len() == n,
            forall|j: int| 0 <= j < i ==> s@[j] == lit@[j],
    {
        if s[i] != lit.get_char(i) {
            return false;
        }
    }
    proof {
        assert(s@ =~= lit@);
    }
    true
}

/// Whether `s` begins with `p`.
pub open spec fn starts_with(s: Seq<char>, p: Seq<char>) -> bool {
    p.len() <= s.len() && s.take(p.len() as int) == p
}

/// Whether `s` begins with the literal `lit`.
pub fn starts_with_lit(s: &[char], lit: &str) -> (r: bool)
    ensures
        r == starts_with(s@, lit@),
{
    let n = lit.unicode_len();
    if s.len() < n {
        return false;
    }
    for i in 0..n
        invariant
            n == lit@.len(),
            n <= s@.len(),
            forall|j: int| 0 <= j < i ==> s@[j] == lit@[j],
    {
        if s[i] != lit.get_char(i) {
            proof {
                assert(s@.take(n as int)[i as int] != lit@[i as int]);
            }
            return false;
        }
    }
    proof {
        assert(s@.take(n as int) =~= lit@);
    }
    true
}

/// Unicode `White_Space`, which is what `char::is_whitespace` tests.
pub open spec fn is_ws(c: char) -> bool {
    let u = c as u32;
    ||| 0x9 <= u <= 0xd
    ||| u == 0x20
    ||| u == 0x85
    ||| u == 0xa0
    ||| u == 0x1680
    ||| 0x2000 <= u <= 0x200a
    ||| u == 0x2028
    ||| u == 0x2029
    ||| u == 0x202f
    ||| u == 0x205f
    ||| u == 0x3000
}

/// Whether `c` is whitespace.
pub fn is_whitespace(c: char) -> (r: bool)
    ensures
        r == is_ws(c),
{
    let u = c as u32;
    (0x9 <= u && u <= 0xd) || u == 0x20 || u == 0x85 || u == 0xa0 || u == 0x1680 || (0x2000 <= u
        && u <= 0x200a) || u == 0x2028 || u == 0x2029 || u == 0x202f || u == 0x205f || u == 0x3000
}

/// `s` without trailing whitespace (`str::trim_end`).
pub open spec fn trim_end(s: Seq<char>) -> Seq<char>
    decreases s.len(),
{
    if s.len() > 0 && is_ws(s.last()) {
        trim_end(s.drop_last())
    } else {
        s
    }
}

/// `s` without leading whitespace (`str::trim_start`).
pub open spec fn trim_start(s: Seq<char>) -> Seq<char>
    decreases s.len(),
{
    if s.len() > 0 && is_ws(s[0]) {
        trim_start(s.drop_first())
    } else {
        s
    }
}

/// `s` without leading or trailing whitespace (`str::trim`).
pub open spec fn trim(s: Seq<char>) -> Seq<char> {
    trim_start(trim_end(s))
}

/// Length of `s` once trailing whitespace is dropped.
fn trim_end_len(s: &[char], hi: usize) -> (r: usize)
    requires
        hi <= s@.len(),
    ensures
        r <= hi,
        s@.take(r as int) == trim_end(s@.take(hi as int)),
    decreases hi,
{
    if hi > 0 && is_whitespace(s[hi - 1]) {
        proof {
            assert(s@.take(hi as int).drop_last() =~= s@.take(hi - 1));
        }
        trim_end_len(s, hi - 1)
    } else {
        hi
    }
}

/// Index of the first non-whitespace character of `s[lo..hi]`.
fn trim_start_idx(s: &[char], lo: usize, hi: usize) -> (r: usize)
    requires
        lo <= hi <= s@.len(),
    ensures
        lo <= r <= hi,
        s@.subrange(r as int, hi as int) == trim_start(s@.subrange(lo as int, hi as int)),
    decreases hi - lo,
{
    if lo < hi && is_whitespace(s[lo]) {
        proof {
            assert(s@.subrange(lo as int, hi as int).drop_first() =~= s@.subrange(lo + 1, hi as int));
        }
        trim_start_idx(s, lo + 1, hi)
    } else {
        lo
    }
}

/// `s` without trailing whitespace.
pub fn trim_end_chars(s: &[char]) -> (r: Vec<char>)
    ensures
        r@ == trim_end(s@),
{
    let n = trim_end_len(s, s.len());
    proof {
        assert(s@.take(s@.len() as int) =~= s@);
    }
    subvec(s, 0, n)
}

/// `s` without leading or trailing whitespace.
pub fn trim_chars(s: &[char]) -> (r: Vec<char>)
    ensures
        r@ == trim(s@),
{
    let n = trim_end_len(s, s.len());
    let lo = trim_start_idx(s, 0, n);
    proof {
        assert(s@.take(s@.len() as int) =~= s@);
        assert(s@.subrange(0, n as int) =~= s@.take(n as int));
    }
    subvec(s, lo, n)
}

/// Index of the first `c` in `s` at or after `start`, or -1.
pub open spec fn index_of_from(s: Seq<char>, c: char, start: int) -> int
    decreases s.len() - start,
{
    if start < 0 || start >= s.len() {
        -1
    } else if s[start] == c {
        start
    } else {
        index_of_from(s, c, start + 1)
    }
}

/// Index of the first `c` in `s`, or -1 (`str::find` with a `char`).
pub open spec fn index_of(s: Seq<char>, c: char) -> int {
    index_of_from(s, c, 0)
}

/// What [`index_of_from`] finds.
pub proof fn lemma_index_of_from(s: Seq<char>, c: char, start: int)
    requires
        0 <= start,
    ensures
        ({
            let r = index_of_from(s, c, start);
            &&& -1 <= r < s.len()
            &&& r >= 0 ==> start <= r && s[r] == c
            &&& forall|j: int| start <= j < s.len() && (r < 0 || j < r) ==> s[j] != c
        }),
    decreases s.len() - start,
{
    if start < s.len() && s[start] != c {
        lemma_index_of_from(s, c, start + 1);
    }
}

/// Position of the first `c` in `s`.
pub fn find_char(s: &[char], c: char) -> (r: Option<usize>)
    ensures
        match r {
            Some(i) => index_of(s@, c) == i,
            None => index_of(s@, c) == -1,
        },
{
    let mut i: usize = 0;
    while i < s.len()
        invariant
            i <= s@.len(),
            index_of(s@, c) == index_of_from(s@, c, i as int),
        decreases s@.len() - i,
    {
        if s[i] == c {
            return Some(i);
        }
        i += 1;
    }
    None
}

/// ASCII lower-casing of one character (`char::to_ascii_lowercase`).
pub open spec fn lower_char(c: char) -> char {
    if 'A' <= c <= 'Z' {
        ((c as u32) + 32) as char
    } else {
        c
    }
}

/// ASCII lower-casing (`str::to_ascii_lowercase`).
pub open spec fn lower(s: Seq<char>) -> Seq<char> {
    s.map_values(|c: char| lower_char(c))
}

/// `s` with ASCII letters lower-cased.
pub fn to_ascii_lower(s: &[char]) -> (r: Vec<char>)
    ensures
        r@ == lower(s@),
{
    let mut out: Vec<char> = Vec::new();
    for i in 0..s.len()
        invariant
            out@ == lower(s@.take(i as int)),
    {
        let c = s[i];
        let l = if 'A' <= c && c <= 'Z' {
            ((c as u8) + 32) as char
        } else {
            c
        };
        out.push(l);
        proof {
            assert(lower(s@.take(i + 1)) =~= lower(s@.take(i as int)).push(lower_char(c)));
        }
    }
    proof {
        assert(s@.take(s@.len() as int) =~= s@);
    }
    out
}


/// The character for a decimal digit `d < 10`.
pub open spec fn digit_char(d: nat) -> char {
    (('0' as u32) + d) as char
}

/// Decimal representation of `n`, as `Display` prints an unsigned
/// integer.
pub open spec fn decimal(n: nat) -> Seq<char>
    decreases n,
{
    if n < 10 {
        seq![digit_char(n)]
    } else {
        decimal(n / 10).push(digit_char(n % 10))
    }
}

/// Appends the decimal representation of `n` to `out`.
pub fn push_decimal(out: &mut String, n: u32)
    ensures
        final(out)@ == old(out)@ + decimal(n as nat),
    decreases n,
{
    if n >= 10 {
        push_decimal(out, n / 10);
    }
    let d = (n % 10) as u8;
    push_char(out, (48u8 + d) as char);
    proof {
        if n >= 10 {
            assert(old(out)@ + decimal(n as nat) =~= (old(out)@ + decimal((n / 10) as nat)).push(
                digit_char((n % 10) as nat),
            ));
        } else {
            assert(old(out)@ + decimal(n as nat) =~= old(out)@.push(digit_char(n as nat)));
        }
    }
}

/// `n` in decimal.
pub fn decimal_string(n: u32) -> (r: String)
    ensures
        r@ == decimal(n as nat),
{
    let mut s = String::new();
    push_decimal(&mut s, n);
    proof {
        assert(Seq::<char>::empty() + decimal(n as nat) =~= decimal(n as nat));
    }
    s
}

/// An ASCII decimal digit.
pub open spec fn is_digit(c: char) -> bool {
    '0' <= c <= '9'
}

/// The value of a decimal digit.
pub open spec fn digit_val(c: char) -> nat {
    ((c as u32) - ('0' as u32)) as nat
}

/// Every character of `s` is a decimal digit.
pub open spec fn all_digits(s: Seq<char>) -> bool {
    forall|i: int| 0 <= i < s.len() ==> is_digit(#[trigger] s[i])
}

/// The number a string of decimal digits spells.
pub open spec fn digits_value(s: Seq<char>) -> nat
    decreases s.len(),
{
    if s.len() == 0 {
        0
    } else {
        digits_value(s.drop_last()) * 10 + digit_val(s.last())
    }
}

/// The digits of an unsigned number: what follows an optional `+`.
pub open spec fn unsigned_body(s: Seq<char>) -> Seq<char> {
    if s.len() > 0 && s[0] == '+' {
        s.drop_first()
    } else {
        s
    }
}

/// The number `FromStr` reads from `s` for an unsigned type with no
/// upper limit: an optional `+`, then one or more decimal digits.
pub open spec fn parse_unsigned(s: Seq<char>) -> Option<nat> {
    let b = unsigned_body(s);
    if b.len() > 0 && all_digits(b) {
        Some(digits_value(b))
    } else {
        None
    }
}

/// `FromStr` for an unsigned type whose largest value is `max`.
pub open spec fn parse_bounded(s: Seq<char>, max: nat) -> Option<nat> {
    match parse_unsigned(s) {
        Some(v) => if v <= max {
            Some(v)
        } else {
            None
        },
        None => None,
    }
}

/// `FromStr` for `i32`: an optional `+` or `-`, then one or more decimal
/// digits, the value in range.
pub open spec fn parse_i32_spec(s: Seq<char>) -> Option<int> {
    if s.len() > 0 && s[0] == '-' {
        let b = s.drop_first();
        if b.len() > 0 && all_digits(b) && digits_value(b) <= 0x8000_0000 {
            Some(-digits_value(b))
        } else {
            None
        }
    } else {
        match parse_bounded(s, 0x7fff_ffff) {
            Some(v) => Some(v as int),
            None => None,
        }
    }
}

/// `min(digits_value(s[lo..]), cap)` when `s[lo..]` is a non-empty run
/// of digits, else `None`.
fn digits_capped(s: &[char], lo: usize, cap: u64) -> (r: Option<u64>)
    requires
        lo <= s@.len(),
        cap <= 0x1_0000_0000,
    ensures
        ({
            let b = s@.subrange(lo as int, s@.len() as int);
            match r {
                Some(v) => b.len() > 0 && all_digits(b) && v == (if digits_value(b) < cap {
                    digits_value(b)
                } else {
                    cap as nat
                }),
                None => !(b.len() > 0 && all_digits(b)),
            }
        }),
{
    let n = s.len();
    if lo == n {
        return None;
    }
    let mut acc: u64 = 0;
    let mut i = lo;
    while i < n
        invariant
            lo <= i <= n == s@.len(),
            cap <= 0x1_0000_0000,
            all_digits(s@.subrange(lo as int, i as int)),
            acc == (if digits_value(s@.subrange(lo as int, i as int)) < cap {
                digits_value(s@.subrange(lo as int, i as int))
            } else {
                cap as nat
            }),
        decreases n - i,
    {
        let c = s[i];
        if !('0' <= c && c <= '9') {
            proof {
                let b = s@.subrange(lo as int, n as int);
                assert(b[i - lo] == c);
            }
            return None;
        }
        let d = (c as u32 - '0' as u32) as u64;
        let next = acc * 10 + d;
        acc = if next < cap {
            next
        } else {
            cap
        };
        proof {
            let pre = s@.subrange(lo as int, i as int);
            let cur = s@.subrange(lo as int, i + 1);
            assert(cur.drop_last() =~= pre);
            assert(cur.last() == c);
            assert(forall|j: int| 0 <= j < cur.len() ==> #[trigger] cur[j] == s@[lo + j]);
            assert(all_digits(cur)) by {
                assert forall|j: int| 0 <= j < cur.len() implies is_digit(#[trigger] cur[j]) by {
                    if j < pre.len() {
                        assert(cur[j] == pre[j]);
                    }
                }
            }
        }
        i += 1;
    }
    Some(acc)
}

/// `s.parse::<u8>()`.
pub fn parse_u8(s: &[char]) -> (r: Option<u8>)
    ensures
        r matches Some(v) ==> parse_bounded(s@, 255) == Some(v as nat),
        r is None ==> parse_bounded(s@, 255) is None,
{
    match parse_bounded_u64(s, 255) {
        Some(v) => Some(v as u8),
        None => None,
    }
}

/// `s.parse::<u32>()`.
pub fn parse_u32(s: &[char]) -> (r: Option<u32>)
    ensures
        r matches Some(v) ==> parse_bounded(s@, 0xffff_ffff) == Some(v as nat),
        r is None ==> parse_bounded(s@, 0xffff_ffff) is None,
{
    match parse_bounded_u64(s, 0xffff_ffff) {
        Some(v) => Some(v as u32),
        None => None,
    }
}

/// `FromStr` for an unsigned type whose largest value is `max`.
fn parse_bounded_u64(s: &[char], max: u64) -> (r: Option<u64>)
    requires
        max < 0x1_0000_0000,
    ensures
        r matches Some(v) ==> parse_bounded(s@, max as nat) == Some(v as nat),
        r is None ==> parse_bounded(s@, max as nat) is None,
{
    let lo: usize = if s.len() > 0 && s[0] == '+' {
        1
    } else {
        0
    };
    proof {
        assert(unsigned_body(s@) =~= s@.subrange(lo as int, s@.len() as int));
    }
    match digits_capped(s, lo, max + 1) {
        Some(v) => if v <= max {
            Some(v)
        } else {
            None
        },
        None => None,
    }
}

/// `s.parse::<i32>()`.
pub fn parse_i32(s: &[char]) -> (r: Option<i32>)
    ensures
        r matches Some(v) ==> parse_i32_spec(s@) == Some(v as int),
        r is None ==> parse_i32_spec(s@) is None,
{
    if s.len() > 0 && s[0] == '-' {
        proof {
            assert(s@.drop_first() =~= s@.subrange(1, s@.len() as int));
        }
        match digits_capped(s, 1, 0x8000_0001) {
            Some(v) => if v <= 0x8000_0000 {
                Some((0 - (v as i64)) as i32)
            } else {
                None
            },
            None => None,
        }
    } else {
        match parse_bounded_u64(s, 0x7fff_ffff) {
            Some(v) => Some(v as i32),
            None => None,
        }
    }
}


/// Position of the first `c` in `s` at or after `lo`.
pub fn find_char_from(s: &[char], c: char, lo: usize) -> (r: Option<usize>)
    requires
        lo <= s@.len(),
    ensures
        match r {
            Some(i) => index_of_from(s@, c, lo as int) == i,
            None => index_of_from(s@, c, lo as int) == -1,
        },
{
    let mut i: usize = lo;
    while i < s.len()
        invariant
            lo <= i <= s@.len(),
            index_of_from(s@, c, lo as int) == index_of_from(s@, c, i as int),
        decreases s@.len() - i,
    {
        if s[i] == c {
            return Some(i);
        }
        i += 1;
    }
    None
}

/// `s` without one trailing carriage return.
pub open spec fn strip_cr(s: Seq<char>) -> Seq<char> {
    if s.len() > 0 && s.last() == '\r' {
        s.drop_last()
    } else {
        s
    }
}

/// The lines of `s[lo..]`: split after each `\n`, which is dropped
/// together with a `\r` just before it; a final line ending adds no
/// empty line.
pub open spec fn lines_from(s: Seq<char>, lo: int) -> Seq<Seq<char>>
    decreases s.len() - lo,
{
    if lo < 0 || lo >= s.len() {
        Seq::empty()
    } else {
        let i = index_of_from(s, '\n', lo);
        if i < 0 {
            seq![s.subrange(lo, s.len() as int)]
        } else {
            proof {
                lemma_index_of_from(s, '\n', lo);
            }
            seq![strip_cr(s.subrange(lo, i))] + lines_from(s, i + 1)
        }
    }
}

/// The lines of `s`, as `str::lines` yields them.
pub open spec fn lines(s: Seq<char>) -> Seq<Seq<char>> {
    lines_from(s, 0)
}

/// The views of a vector of character vectors.
pub open spec fn views(v: Seq<Vec<char>>) -> Seq<Seq<char>> {
    v.map_values(|l: Vec<char>| l@)
}

/// The lines of `s`.
pub fn split_lines(s: &[char]) -> (r: Vec<Vec<char>>)
    ensures
        views(r@) == lines(s@),
{
    let mut out: Vec<Vec<char>> = Vec::new();
    let n = s.len();
    let mut lo: usize = 0;
    while lo < n
        invariant
            lo <= n == s@.len(),
            views(out@) + lines_from(s@, lo as int) == lines(s@),
        decreases n - lo,
    {
        let ghost old_out = out@;
        match find_char_from(s, '\n', lo) {
            None => {
                let line = subvec(s, lo, n);
                out.push(line);
                proof {
                    assert(views(out@) =~= views(old_out).push(s@.subrange(lo as int, n as int)));
                    assert(lines_from(s@, n as int) =~= Seq::<Seq<char>>::empty());
                    assert(views(out@) + lines_from(s@, n as int) =~= views(old_out)
                        + lines_from(s@, lo as int));
                }
                lo = n;
            },
            Some(i) => {
                proof {
                    lemma_index_of_from(s@, '\n', lo as int);
                }
                let mut line = subvec(s, lo, i);
                let len = line.len();
                if len > 0 && line[len - 1] == '\r' {
                    line.pop();
                    proof {
                        assert(line@ =~= strip_cr(s@.subrange(lo as int, i as int)));
                    }
                }
                out.push(line);
                proof {
                    assert(views(out@) =~= views(old_out).push(
                        strip_cr(s@.subrange(lo as int, i as int)),
                    ));
                    assert(views(out@) + lines_from(s@, i + 1) =~= views(old_out) + lines_from(
                        s@,
                        lo as int,
                    ));
                }
                lo = i + 1;
            },
        }
    }
    proof {
        assert(lines_from(s@, lo as int) =~= Seq::<Seq<char>>::empty());
        assert(views(out@) + lines_from(s@, lo as int) =~= views(out@));
    }
    out
}

/// First index at or after `i` that does not hold whitespace.
pub open spec fn skip_ws(s: Seq<char>, i: int) -> int
    decreases s.len() - i,
{
    if 0 <= i < s.len() && is_ws(s[i]) {
        skip_ws(s, i + 1)
    } else {
        i
    }
}

/// First index at or after `i` that holds whitespace (or the end).
pub open spec fn skip_word(s: Seq<char>, i: int) -> int
    decreases s.len() - i,
{
    if 0 <= i < s.len() && !is_ws(s[i]) {
        skip_word(s, i + 1)
    } else {
        i
    }
}

/// Where [`skip_ws`] stops.
pub proof fn lemma_skip_ws(s: Seq<char>, i: int)
    requires
        0 <= i,
    ensures
        i <= skip_ws(s, i),
        skip_ws(s, i) <= s.len() || skip_ws(s, i) == i,
        skip_ws(s, i) < s.len() ==> !is_ws(s[skip_ws(s, i)]),
        forall|j: int| i <= j < skip_ws(s, i) ==> is_ws(#[trigger] s[j]),
    decreases s.len() - i,
{
    if 0 <= i < s.len() && is_ws(s[i]) {
        lemma_skip_ws(s, i + 1);
    }
}

/// Where [`skip_word`] stops.
pub proof fn lemma_skip_word(s: Seq<char>, i: int)
    requires
        0 <= i,
    ensures
        i <= skip_word(s, i),
        skip_word(s, i) <= s.len() || skip_word(s, i) == i,
        i < s.len() && !is_ws(s[i]) ==> i < skip_word(s, i),
        forall|j: int| i <= j < skip_word(s, i) ==> !is_ws(#[trigger] s[j]),
    decreases s.len() - i,
{
    if 0 <= i < s.len() && !is_ws(s[i]) {
        lemma_skip_word(s, i + 1);
    }
}

/// The whitespace-separated words of `s[lo..]`.
pub open spec fn words_from(s: Seq<char>, lo: int) -> Seq<Seq<char>>
    decreases s.len() - lo,
{
    if lo < 0 || lo >= s.len() {
        Seq::empty()
    } else {
        let a = skip_ws(s, lo);
        if a >= s.len() {
            Seq::empty()
        } else {
            proof {
                lemma_skip_ws(s, lo);
                lemma_skip_word(s, a);
            }
            let b = skip_word(s, a);
            seq![s.subrange(a, b)] + words_from(s, b)
        }
    }
}

/// The whitespace-separated words of `s` (`str::split_whitespace`).
pub open spec fn words(s: Seq<char>) -> Seq<Seq<char>> {
    words_from(s, 0)
}

/// The whitespace-separated words of `s`.
pub fn split_words(s: &[char]) -> (r: Vec<Vec<char>>)
    ensures
        views(r@) == words(s@),
{
    let mut out: Vec<Vec<char>> = Vec::new();
    let n = s.len();
    let mut lo: usize = 0;
    while lo < n
        invariant
            lo <= n == s@.len(),
            views(out@) + words_from(s@, lo as int) == words(s@),
        decreases n - lo,
    {
        let ghost old_out = out@;
        proof {
            lemma_skip_ws(s@, lo as int);
        }
        let mut a = lo;
        while a < n && is_whitespace(s[a])
            invariant
                lo <= a <= n == s@.len(),
                skip_ws(s@, lo as int) == skip_ws(s@, a as int),
            decreases n - a,
        {
            a += 1;
        }
        if a >= n {
            proof {
                assert(words_from(s@, lo as int) =~= Seq::<Seq<char>>::empty());
                assert(words_from(s@, n as int) =~= Seq::<Seq<char>>::empty());
            }
            lo = n;
        } else {
            proof {
                lemma_skip_word(s@, a as int);
            }
            let mut b = a;
            while b < n && !is_whitespace(s[b])
                invariant
                    a <= b <= n == s@.len(),
                    skip_word(s@, a as int) == skip_word(s@, b as int),
                decreases n - b,
            {
                b += 1;
            }
            let word = subvec(s, a, b);
            out.push(word);
            proof {
                assert(views(out@) =~= views(old_out).push(s@.subrange(a as int, b as int)));
                assert(views(out@) + words_from(s@, b as int) =~= views(old_out) + words_from(
                    s@,
                    lo as int,
                ));
            }
            lo = b;
        }
    }
    proof {
        assert(words_from(s@, lo as int) =~= Seq::<Seq<char>>::empty());
        assert(views(out@) + words_from(s@, lo as int) =~= views(out@));
    }
    out
}

/// Whether `s[at..]` begins with the literal `lit`.
pub fn starts_with_lit_at(s: &[char], at: usize, lit: &str) -> (r: bool)
    requires
        at <= s@.len(),
    ensures
        r == (at + lit@.len() <= s@.len() && s@.subrange(at as int, at + lit@.len()) == lit@),
{
    let n = lit.unicode_len();
    let len = s.len();
    if len - at < n {
        return false;
    }
    for i in 0..n
        invariant
            n == lit@.len(),
            len == s@.len(),
            at + n <= s@.len(),
            forall|j: int| 0 <= j < i ==> s@[at + j] == lit@[j],
    {
        if s[at + i] != lit.get_char(i) {
            proof {
                assert(s@.subrange(at as int, at + n)[i as int] != lit@[i as int]);
            }
            return false;
        }
    }
    proof {
        assert(s@.subrange(at as int, at + n) =~= lit@);
    }
    true
}

/// Whether `s` ends with `p`.
pub open spec fn ends_with(s: Seq<char>, p: Seq<char>) -> bool {
    p.len() <= s.len() && s.skip(s.len() - p.len()) == p
}

/// Whether `s` ends with the literal `lit`.
pub fn ends_with_lit(s: &[char], lit: &str) -> (r: bool)
    ensures
        r == ends_with(s@, lit@),
{
    let n = lit.unicode_len();
    let len = s.len();
    if len < n {
        return false;
    }
    let at = len - n;
    let r = starts_with_lit_at(s, at, lit);
    proof {
        assert(s@.subrange(at as int, at + lit@.len()) =~= s@.skip(s@.len() - lit@.len()));
    }
    r
}

/// Decimal representation of a signed number, `-` first when negative.
pub open spec fn signed_decimal(v: int) -> Seq<char> {
    if v < 0 {
        seq!['-'] + decimal((-v) as nat)
    } else {
        decimal(v as nat)
    }
}

/// Appends the decimal representation of `v` to `out`.
pub fn push_i32(out: &mut String, v: i32)
    ensures
        final(out)@ == old(out)@ + signed_decimal(v as int),
{
    if v < 0 {
        push_char(out, '-');
        let mag: u32 = (0 - (v as i64)) as u32;
        push_decimal(out, mag);
        proof {
            assert(old(out)@.push('-') + decimal(mag as nat) =~= old(out)@ + (seq!['-'] + decimal(
                mag as nat,
            )));
        }
    } else {
        push_decimal(out, v as u32);
    }
}

/// Every character of a decimal representation is a digit.
pub proof fn lemma_decimal_digits(n: nat)
    ensures
        decimal(n).len() > 0,
        all_digits(decimal(n)),
    decreases n,
{
    if n >= 10 {
        lemma_decimal_digits(n / 10);
        let d = decimal(n / 10);
        assert forall|i: int| 0 <= i < decimal(n).len() implies is_digit(#[trigger] decimal(n)[i]) by {
            if i < d.len() {
                assert(decimal(n)[i] == d[i]);
            }
        }
    }
}

/// Reading back a number printed in decimal gives the number.
pub proof fn lemma_decimal_parses_back(n: nat)
    ensures
        parse_unsigned(decimal(n)) == Some(n),
    decreases n,
{
    lemma_decimal_digits(n);
    lemma_decimal_value(n);
    assert(unsigned_body(decimal(n)) == decimal(n));
}

/// The value of a decimal representation is the number.
proof fn lemma_decimal_value(n: nat)
    ensures
        digits_value(decimal(n)) == n,
    decreases n,
{
    assert(digit_val(digit_char(n % 10)) == n % 10);
    if n >= 10 {
        lemma_decimal_value(n / 10);
        let d = decimal(n);
        let q = n / 10;
        let r = n % 10;
        assert(d.drop_last() =~= decimal(q));
        assert(d.last() == digit_char(r));
        assert(d.len() > 0);
        assert(digits_value(d) == digits_value(d.drop_last()) * 10 + digit_val(d.last()));
        assert(digits_value(d) == q * 10 + r);
        assert(q * 10 + r == n) by (nonlinear_arith)
            requires
                q == n / 10,
                r == n % 10,
        ;
    } else {
        let d = decimal(n);
        assert(n % 10 == n);
        assert(d.drop_last() =~= Seq::<char>::empty());
        assert(digits_value(Seq::<char>::empty()) == 0);
        assert(digits_value(d) == digits_value(d.drop_last()) * 10 + digit_val(d.last()));
    }
}

} // verus!
