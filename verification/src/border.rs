//! Border drawing on top of an already-rendered [`PixelBuffer`].
//!
//! The border is a ring of opaque pixels along the four edges of the
//! image, as wide as configured but never wider than half the smaller
//! image dimension.

use vstd::prelude::*;

use crate::pixels::PixelBuffer;
use crate::text::chars_of;

verus! {

/// An RGB color (alpha is handled separately).
#[derive(Debug, Clone, Copy, PartialEq, Eq, Structural, Hash)]
pub struct Rgb(pub u8, pub u8, pub u8);

/// An ASCII hexadecimal digit.
pub open spec fn is_hex(c: char) -> bool {
    ||| '0' <= c <= '9'
    ||| 'a' <= c <= 'f'
    ||| 'A' <= c <= 'F'
}

/// The value of a hexadecimal digit.
pub open spec fn hex_val(c: char) -> nat {
    if '0' <= c <= '9' {
        ((c as u32) - ('0' as u32)) as nat
    } else if 'a' <= c <= 'f' {
        ((c as u32) - ('a' as u32) + 10) as nat
    } else {
        ((c as u32) - ('A' as u32) + 10) as nat
    }
}

/// `s` without one leading `#`.
pub open spec fn hash_stripped(s: Seq<char>) -> Seq<char> {
    if s.len() > 0 && s[0] == '#' {
        s.drop_first()
    } else {
        s
    }
}

/// Exactly six hexadecimal digits.
pub open spec fn hex_color_text(t: Seq<char>) -> bool {
    t.len() == 6 && forall|i: int| 0 <= i < 6 ==> is_hex(#[trigger] t[i])
}

/// A hexadecimal digit is worth less than 16.
proof fn lemma_hex_val_small(c: char)
    requires
        is_hex(c),
    ensures
        hex_val(c) < 16,
{
}

/// Two hexadecimal digits read as a `u8`.
pub open spec fn hex_pair(a: char, b: char) -> Option<u8> {
    if is_hex(a) && is_hex(b) {
        Some((16 * hex_val(a) + hex_val(b)) as u8)
    } else {
        None
    }
}

/// `#RRGGBB` or `RRGGBB` read as a color: exactly six hexadecimal
/// digits after an optional `#`; anything else is no color.
pub open spec fn parse_rgb(s: Seq<char>) -> Option<Rgb> {
    let t = if s.len() > 0 && s[0] == '#' {
        s.drop_first()
    } else {
        s
    };
    if t.len() != 6 {
        None
    } else {
        match (hex_pair(t[0], t[1]), hex_pair(t[2], t[3]), hex_pair(t[4], t[5])) {
            (Some(r), Some(g), Some(b)) => Some(Rgb(r, g, b)),
            _ => None,
        }
    }
}

/// The value of a hexadecimal digit, if `c` is one.
fn hex_digit(c: char) -> (r: Option<u8>)
    ensures
        match r {
            Some(v) => is_hex(c) && v == hex_val(c),
            None => !is_hex(c),
        },
{
    if '0' <= c && c <= '9' {
        Some((c as u32 - '0' as u32) as u8)
    } else if 'a' <= c && c <= 'f' {
        Some((c as u32 - 'a' as u32 + 10) as u8)
    } else if 'A' <= c && c <= 'F' {
        Some((c as u32 - 'A' as u32 + 10) as u8)
    } else {
        None
    }
}

/// Two characters read as a hexadecimal `u8`.
fn read_hex_pair(a: char, b: char) -> (r: Option<u8>)
    ensures
        r == hex_pair(a, b),
{
    match (hex_digit(a), hex_digit(b)) {
        (Some(x), Some(y)) => Some(16 * x + y),
        _ => None,
    }
}

impl Rgb {
    /// Parses `#RRGGBB`; the `#` is optional. Only six hexadecimal digits
    /// parse; anything else (signs and non-ASCII text included) gives
    /// `None`.
    pub fn parse_hex(s: &str) -> (r: Option<Self>)
        ensures
            r == parse_rgb(s@),
            r is Some <==> hex_color_text(hash_stripped(s@)),
            r matches Some(c) ==> {
                let t = hash_stripped(s@);
                &&& c.0 == 16 * hex_val(t[0]) + hex_val(t[1])
                &&& c.1 == 16 * hex_val(t[2]) + hex_val(t[3])
                &&& c.2 == 16 * hex_val(t[4]) + hex_val(t[5])
            },
    {
        let cs = chars_of(s);
        let start: usize = if cs.len() > 0 && cs[0] == '#' {
            1
        } else {
            0
        };
        if cs.len() - start != 6 {
            return None;
        }
        proof {
            let t = if s@.len() > 0 && s@[0] == '#' {
                s@.drop_first()
            } else {
                s@
            };
            assert(forall|i: int| 0 <= i < t.len() ==> t[i] == cs@[start + i]);
        }
        let r = read_hex_pair(cs[start], cs[start + 1]);
        let g = read_hex_pair(cs[start + 2], cs[start + 3]);
        let b = read_hex_pair(cs[start + 4], cs[start + 5]);
        proof {
            let t = if s@.len() > 0 && s@[0] == '#' {
                s@.drop_first()
            } else {
                s@
            };
            assert(forall|i: int| 0 <= i < t.len() ==> t[i] == cs@[start + i]);
            if r is Some && g is Some && b is Some {
                assert forall|i: int| 0 <= i < 6 implies is_hex(#[trigger] t[i]) by {
                    if i == 0 || i == 1 {
                        assert(r is Some);
                    } else if i == 2 || i == 3 {
                        assert(g is Some);
                    }
                }
                lemma_hex_val_small(t[0]);
                lemma_hex_val_small(t[1]);
                lemma_hex_val_small(t[2]);
                lemma_hex_val_small(t[3]);
                lemma_hex_val_small(t[4]);
                lemma_hex_val_small(t[5]);
                assert(hex_pair(t[0], t[1]) == Some((16 * hex_val(t[0]) + hex_val(t[1])) as u8));
                assert(r == Some((16 * hex_val(t[0]) + hex_val(t[1])) as u8));
                assert(r->0 == 16 * hex_val(t[0]) + hex_val(t[1]));
                assert(g->0 == 16 * hex_val(t[2]) + hex_val(t[3]));
                assert(b->0 == 16 * hex_val(t[4]) + hex_val(t[5]));
            } else {
                if forall|i: int| 0 <= i < 6 ==> is_hex(#[trigger] t[i]) {
                    assert(is_hex(t[0]) && is_hex(t[1]) && is_hex(t[2]) && is_hex(t[3]));
                    assert(is_hex(t[4]) && is_hex(t[5]));
                }
            }
        }
        match (r, g, b) {
            (Some(r), Some(g), Some(b)) => Some(Rgb(r, g, b)),
            _ => None,
        }
    }
}

/// Border style. Disabled or zero-width means no border.
#[derive(Debug, Clone, Copy, PartialEq, Eq, Structural, Hash)]
pub struct BorderStyle {
    /// Whether to draw.
    pub enabled: bool,
    /// Stroke color, always drawn fully opaque.
    pub color: Rgb,
    /// Border width in pixels.
    pub width_px: u32,
}

impl Default for BorderStyle {
    fn default() -> (r: Self)
        ensures
            r == (BorderStyle { enabled: false, color: Rgb(0, 0, 0), width_px: 0 }),
    {
        BorderStyle { enabled: false, color: Rgb(0, 0, 0), width_px: 0 }
    }
}

impl BorderStyle {
    /// Builds a style from its parts.
    pub fn new(enabled: bool, color: Rgb, width_px: u32) -> (r: Self)
        ensures
            r == (BorderStyle { enabled, color, width_px }),
    {
        BorderStyle { enabled, color, width_px }
    }
}

/// Width of the ring drawn on a `w` by `h` image: the configured width,
/// at most half of each dimension; 0 when disabled.
pub open spec fn ring_width(style: BorderStyle, w: u32, h: u32) -> u32 {
    if !style.enabled || style.width_px == 0 {
        0
    } else {
        let half = if w / 2 < h / 2 {
            w / 2
        } else {
            h / 2
        };
        if style.width_px < half {
            style.width_px
        } else {
            half as u32
        }
    }
}

/// Whether pixel `(x, y)` of a `w` by `h` image lies on a ring of width
/// `bw`.
pub open spec fn on_edge(x: int, y: int, w: int, h: int, bw: int) -> bool {
    x < bw || x >= w - bw || y < bw || y >= h - bw
}

/// Index of byte `c` of pixel `(x, y)`.
pub open spec fn byte_at(stride: int, x: int, y: int, c: int) -> int {
    y * stride + 4 * x + c
}

/// Whether byte `i` belongs to some pixel of a `w` by `h` image.
pub open spec fn in_image(i: int, stride: int, w: int, h: int) -> bool {
    exists|x: int, y: int, c: int|
        0 <= x < w && 0 <= y < h && 0 <= c < 4 && i == #[trigger] byte_at(stride, x, y, c)
}

/// Byte `c` of an opaque pixel of color `col`, in BGRA order.
pub open spec fn bgra_byte(col: Rgb, c: int) -> u8 {
    if c == 0 {
        col.2
    } else if c == 1 {
        col.1
    } else if c == 2 {
        col.0
    } else {
        255
    }
}

/// Bytes of distinct pixels (or distinct bytes of one pixel) are at
/// distinct indices when rows do not overlap.
proof fn lemma_bytes_distinct(
    stride: int,
    w: int,
    x1: int,
    y1: int,
    c1: int,
    x2: int,
    y2: int,
    c2: int,
)
    requires
        4 * w <= stride,
        0 <= x1 < w,
        0 <= x2 < w,
        0 <= y1,
        0 <= y2,
        0 <= c1 < 4,
        0 <= c2 < 4,
        x1 != x2 || y1 != y2 || c1 != c2,
    ensures
        byte_at(stride, x1, y1, c1) != byte_at(stride, x2, y2, c2),
{
    if y1 < y2 {
        assert((y1 + 1) * stride <= y2 * stride) by (nonlinear_arith)
            requires
                y1 + 1 <= y2,
                stride >= 0,
        ;
        assert(y1 * stride + stride == (y1 + 1) * stride) by (nonlinear_arith);
    } else if y2 < y1 {
        assert((y2 + 1) * stride <= y1 * stride) by (nonlinear_arith)
            requires
                y2 + 1 <= y1,
                stride >= 0,
        ;
        assert(y2 * stride + stride == (y2 + 1) * stride) by (nonlinear_arith);
    }
}

/// Every byte of every pixel lies inside a buffer long enough for the
/// last pixel.
proof fn lemma_byte_in_range(stride: int, w: int, h: int, len: int, x: int, y: int, c: int)
    requires
        4 * w <= stride,
        0 <= x < w,
        0 <= y < h,
        0 <= c < 4,
        (h - 1) * stride + 4 * w <= len,
    ensures
        0 <= byte_at(stride, x, y, c),
        byte_at(stride, x, y, c) + 4 - c <= len,
{
    assert(y * stride <= (h - 1) * stride) by (nonlinear_arith)
        requires
            y <= h - 1,
            stride >= 0,
    ;
    assert(0 <= y * stride) by (nonlinear_arith)
        requires
            y >= 0,
            stride >= 0,
    ;
}

/// `after` is `before` with the ring of `style` painted on a `w` by `h`
/// image of row stride `s`: every pixel on the ring takes the style's
/// color, fully opaque; every other byte keeps its value.
pub open spec fn border_applied(
    w: u32,
    h: u32,
    s: usize,
    before: Seq<u8>,
    after: Seq<u8>,
    style: BorderStyle,
) -> bool {
    let bw = ring_width(style, w, h) as int;
    &&& after.len() == before.len()
    &&& bw == 0 ==> after == before
    &&& bw > 0 ==> forall|x: int, y: int, c: int|
        0 <= x < w && 0 <= y < h && 0 <= c < 4 ==> after[#[trigger] byte_at(s as int, x, y, c)]
            == if on_edge(x, y, w as int, h as int, bw) {
            bgra_byte(style.color, c)
        } else {
            before[byte_at(s as int, x, y, c)]
        }
    &&& bw > 0 ==> forall|i: int|
        0 <= i < before.len() && !in_image(i, s as int, w as int, h as int) ==> after[i]
            == before[i]
}

/// Painting a border twice gives the same bytes as painting it once.
pub proof fn lemma_border_idempotent(
    w: u32,
    h: u32,
    s: usize,
    d0: Seq<u8>,
    d1: Seq<u8>,
    d2: Seq<u8>,
    style: BorderStyle,
)
    requires
        border_applied(w, h, s, d0, d1, style),
        border_applied(w, h, s, d1, d2, style),
    ensures
        d2 == d1,
{
    let bw = ring_width(style, w, h) as int;
    if bw > 0 {
        assert forall|i: int| 0 <= i < d1.len() implies d2[i] == d1[i] by {
            if in_image(i, s as int, w as int, h as int) {
                let (x, y, c) = choose|x: int, y: int, c: int|
                    0 <= x < w && 0 <= y < h && 0 <= c < 4 && i == #[trigger] byte_at(
                        s as int,
                        x,
                        y,
                        c,
                    );
                assert(d1[byte_at(s as int, x, y, c)] == if on_edge(
                    x,
                    y,
                    w as int,
                    h as int,
                    bw,
                ) {
                    bgra_byte(style.color, c)
                } else {
                    d0[byte_at(s as int, x, y, c)]
                });
            }
        }
        assert(d2 =~= d1);
    }
}

/// Paints `style` onto `buf`: every pixel on the ring becomes the style's
/// color, fully opaque; all other bytes keep their value.
pub fn apply_border(buf: &mut PixelBuffer, style: &BorderStyle)
    requires
        ring_width(*style, old(buf).width, old(buf).height) > 0 ==> 4 * (old(buf).width as int)
            <= old(buf).stride && (old(buf).height - 1) * old(buf).stride + 4 * old(buf).width
            <= old(buf).data@.len(),
    ensures
        final(buf).width == old(buf).width,
        final(buf).height == old(buf).height,
        final(buf).stride == old(buf).stride,
        border_applied(
            old(buf).width,
            old(buf).height,
            old(buf).stride,
            old(buf).data@,
            final(buf).data@,
            *style,
        ),
{
    if !style.enabled || style.width_px == 0 {
        return;
    }
    let w = buf.width;
    let h = buf.height;
    let half = if w / 2 < h / 2 {
        w / 2
    } else {
        h / 2
    };
    let bw = if style.width_px < half {
        style.width_px
    } else {
        half
    };
    if bw == 0 {
        return;
    }
    let stride = buf.stride;
    let len = buf.data.len();
    let ghost old_data = buf.data@;
    let Rgb(r, g, b) = style.color;
    let ghost col = style.color;
    for y in 0..h
        invariant
            w == buf.width,
            h == buf.height,
            stride == buf.stride,
            len == buf.data@.len() == old_data.len(),
            0 < bw <= w / 2,
            bw <= h / 2,
            col == Rgb(r, g, b),
            4 * (w as int) <= stride,
            (h - 1) * stride + 4 * w <= len,
            forall|x1: int, y1: int, c1: int|
                0 <= x1 < w && 0 <= y1 < h && 0 <= c1 < 4 ==> buf.data@[#[trigger] byte_at(
                    stride as int,
                    x1,
                    y1,
                    c1,
                )] == if y1 < y && on_edge(x1, y1, w as int, h as int, bw as int) {
                    bgra_byte(col, c1)
                } else {
                    old_data[byte_at(stride as int, x1, y1, c1)]
                },
            forall|i: int|
                0 <= i < len && !in_image(i, stride as int, w as int, h as int) ==> buf.data@[i]
                    == old_data[i],
    {
        for x in 0..w
            invariant
                w == buf.width,
                h == buf.height,
                stride == buf.stride,
                len == buf.data@.len() == old_data.len(),
                0 < bw <= w / 2,
                bw <= h / 2,
                y < h,
                col == Rgb(r, g, b),
                4 * (w as int) <= stride,
                (h - 1) * stride + 4 * w <= len,
                forall|x1: int, y1: int, c1: int|
                    0 <= x1 < w && 0 <= y1 < h && 0 <= c1 < 4 ==> buf.data@[#[trigger] byte_at(
                        stride as int,
                        x1,
                        y1,
                        c1,
                    )] == if (y1 < y || (y1 == y && x1 < x)) && on_edge(
                        x1,
                        y1,
                        w as int,
                        h as int,
                        bw as int,
                    ) {
                        bgra_byte(col, c1)
                    } else {
                        old_data[byte_at(stride as int, x1, y1, c1)]
                    },
                forall|i: int|
                    0 <= i < len && !in_image(i, stride as int, w as int, h as int)
                        ==> buf.data@[i] == old_data[i],
        {
            let edge = x < bw || x >= w - bw || y < bw || y >= h - bw;
            if edge {
                proof {
                    lemma_byte_in_range(
                        stride as int,
                        w as int,
                        h as int,
                        len as int,
                        x as int,
                        y as int,
                        0,
                    );
                }
                let idx = (y as usize) * stride + (x as usize) * 4;
                let ghost before = buf.data@;
                buf.data.set(idx, b);
                buf.data.set(idx + 1, g);
                buf.data.set(idx + 2, r);
                buf.data.set(idx + 3, 255);
                proof {
                    let si = stride as int;
                    assert(idx == byte_at(si, x as int, y as int, 0));
                    assert forall|c: int| 0 <= c < 4 implies buf.data@[byte_at(
                        si,
                        x as int,
                        y as int,
                        c,
                    )] == bgra_byte(col, c) by {
                        assert(byte_at(si, x as int, y as int, c) == idx + c);
                    }
                    assert forall|i: int| 0 <= i < len && i != idx && i != idx + 1 && i != idx + 2
                        && i != idx + 3 implies buf.data@[i] == before[i] by {}
                    assert forall|x1: int, y1: int, c1: int|
                        0 <= x1 < w && 0 <= y1 < h && 0 <= c1 < 4 && (x1 != x || y1 != y)
                            implies buf.data@[byte_at(si, x1, y1, c1)] == before[byte_at(
                        si,
                        x1,
                        y1,
                        c1,
                    )] by {
                        lemma_byte_in_range(si, w as int, h as int, len as int, x1, y1, c1);
                        lemma_bytes_distinct(si, w as int, x1, y1, c1, x as int, y as int, 0);
                        lemma_bytes_distinct(si, w as int, x1, y1, c1, x as int, y as int, 1);
                        lemma_bytes_distinct(si, w as int, x1, y1, c1, x as int, y as int, 2);
                        lemma_bytes_distinct(si, w as int, x1, y1, c1, x as int, y as int, 3);
                    }
                    assert forall|i: int|
                        0 <= i < len && !in_image(
                            i,
                            si,
                            w as int,
                            h as int,
                        ) implies buf.data@[i] == old_data[i] by {
                        if i == idx || i == idx + 1 || i == idx + 2 || i == idx + 3 {
                            let c = i - idx;
                            assert(i == byte_at(si, x as int, y as int, c));
                            assert(in_image(i, si, w as int, h as int));
                        }
                    }
                }
            }
        }
    }
}

} // verus!
