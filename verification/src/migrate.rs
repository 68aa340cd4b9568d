//! Conversion of a legacy `~/.xxkbrc` into a [`Config`].
//!
//! The legacy file is in X-resources style:
//!
//! ```text
//! XXkb.group.base: 1
//! XXkb.mainwindow.geometry: 48x48
//! XXkb.app_list.wm_class_class.ignore: *clock Fvwm*
//! ```
//!
//! It is read line by line: `!` starts a comment, a trailing `\` joins a
//! line with the next one, and each remaining `key: value` line is
//! mapped onto the configuration. Keys are matched without regard to
//! ASCII case; unknown keys and unparsable values are ignored.

use vstd::prelude::*;

use crate::config::{
    default_config, Config, ConfigView, GeneralConfig, MainView, ModifierName, PerWindowView,
    SoundMode, SoundView, BorderView,
};
use crate::geometry::Offset;
use crate::layout::Group;
use crate::rules::{AppMatch, AppRule, MatchField, RuleAction, RuleModel, rules_view};
use crate::text::{
    eq_lit, find_char, index_of, lemma_index_of_from, lines, lower, parse_bounded, parse_i32,
    parse_i32_spec, parse_u32, parse_u8, split_lines, split_words, starts_with_lit, string_of,
    subvec, to_ascii_lower, trim, trim_chars, trim_end, trim_end_chars, views, words, chars_of,
    starts_with_lit_at, index_of_from, find_char_from, starts_with,
};

verus! {

/// `s` up to its first `!`.
pub open spec fn strip_comment(s: Seq<char>) -> Seq<char> {
    let i = index_of(s, '!');
    if i >= 0 {
        s.take(i)
    } else {
        s
    }
}

/// `s` without its trailing backslashes (`trim_end_matches('\\')`).
pub open spec fn trim_backslashes(s: Seq<char>) -> Seq<char>
    decreases s.len(),
{
    if s.len() > 0 && s.last() == '\\' {
        trim_backslashes(s.drop_last())
    } else {
        s
    }
}

/// `key: value`, both trimmed, split at the first colon.
pub open spec fn split_kv(line: Seq<char>) -> Option<(Seq<char>, Seq<char>)> {
    let i = index_of(line, ':');
    if i >= 0 {
        Some((trim(line.take(i)), trim(line.skip(i + 1))))
    } else {
        None
    }
}

/// A legacy boolean: `yes`/`true`/`on`/`1` or `no`/`false`/`off`/`0`,
/// in any ASCII case, surrounding whitespace ignored.
pub open spec fn parse_bool(v: Seq<char>) -> Option<bool> {
    let t = lower(trim(v));
    if t == "yes"@ || t == "true"@ || t == "on"@ || t == "1"@ {
        Some(true)
    } else if t == "no"@ || t == "false"@ || t == "off"@ || t == "0"@ {
        Some(false)
    } else {
        None
    }
}

/// A legacy modifier name, in any ASCII case.
pub open spec fn parse_modifier(v: Seq<char>) -> Option<ModifierName> {
    let t = lower(v);
    if t == "none"@ {
        Some(ModifierName::NoModifier)
    } else if t == "shift"@ {
        Some(ModifierName::Shift)
    } else if t == "lock"@ {
        Some(ModifierName::Lock)
    } else if t == "ctrl"@ || t == "control"@ {
        Some(ModifierName::Ctrl)
    } else if t == "alt"@ {
        Some(ModifierName::Alt)
    } else if t == "mod1"@ {
        Some(ModifierName::Mod1)
    } else if t == "mod2"@ {
        Some(ModifierName::Mod2)
    } else if t == "mod3"@ {
        Some(ModifierName::Mod3)
    } else if t == "mod4"@ {
        Some(ModifierName::Mod4)
    } else if t == "mod5"@ {
        Some(ModifierName::Mod5)
    } else {
        None
    }
}

/// Index of the first `+` or `-` in `s` at or after `i`, or `s.len()`.
pub open spec fn sign_index_from(s: Seq<char>, i: int) -> int
    decreases s.len() - i,
{
    if i < 0 || i >= s.len() {
        s.len() as int
    } else if s[i] == '+' || s[i] == '-' {
        i
    } else {
        sign_index_from(s, i + 1)
    }
}

/// Two signed numbers written back to back, such as `-60+7`: the first
/// runs up to the next sign after its first character.
pub open spec fn read_signed_pair(s: Seq<char>) -> Option<(i32, i32)> {
    if s.len() == 0 {
        None
    } else {
        let j = sign_index_from(s, 1);
        match (parse_i32_spec(s.take(j)), parse_i32_spec(s.skip(j))) {
            (Some(x), Some(y)) => Some((x as i32, y as i32)),
            _ => None,
        }
    }
}

/// A legacy geometry `WxH`, optionally followed by an offset such as
/// `+10+20` or `-60+7`: the width, and the offset when there is one.
pub open spec fn parse_geometry(v: Seq<char>) -> Option<(u32, Option<(i32, i32)>)> {
    let p = sign_index_from(v, 0);
    let size = v.take(p);
    let rest = v.skip(p);
    let xi = index_of(size, 'x');
    if xi < 0 {
        None
    } else {
        match parse_bounded(size.take(xi), 0xffff_ffff) {
            None => None,
            Some(w) => if rest.len() == 0 {
                Some((w as u32, None))
            } else {
                match read_signed_pair(rest) {
                    Some(xy) => Some((w as u32, Some(xy))),
                    None => None,
                }
            },
        }
    }
}

/// The hex form of a legacy color: `#...` is kept as it is, the common
/// X11 color names are converted, and any other name becomes black with
/// a note naming it.
pub open spec fn normalize_color(v: Seq<char>) -> Seq<char> {
    let t = trim(v);
    if t.len() > 0 && t[0] == '#' {
        t
    } else {
        let l = lower(t);
        if l == "black"@ {
            "#000000"@
        } else if l == "white"@ {
            "#FFFFFF"@
        } else if l == "red"@ {
            "#FF0000"@
        } else if l == "green"@ {
            "#00FF00"@
        } else if l == "blue"@ {
            "#0000FF"@
        } else if l == "yellow"@ {
            "#FFFF00"@
        } else if l == "cyan"@ {
            "#00FFFF"@
        } else if l == "magenta"@ {
            "#FF00FF"@
        } else if l == "blue4"@ {
            "#00008B"@
        } else {
            "#000000 /* xxkb-migrate: unknown colour '"@ + l + "' */"@
        }
    }
}

/// `s` with every leading copy of `p` removed (`trim_start_matches`).
pub open spec fn strip_prefix_all(s: Seq<char>, p: Seq<char>) -> Seq<char>
    decreases s.len(),
{
    if p.len() > 0 && p.len() <= s.len() && s.take(p.len() as int) == p {
        strip_prefix_all(s.skip(p.len() as int), p)
    } else {
        s
    }
}

/// The window property a legacy `app_list` key names.
pub open spec fn list_field(prop: Seq<char>) -> Option<MatchField> {
    if prop == "wm_class_class"@ {
        Some(MatchField::WmClassClass)
    } else if prop == "wm_class_name"@ {
        Some(MatchField::WmClassName)
    } else if prop == "wm_name"@ {
        Some(MatchField::WmName)
    } else {
        None
    }
}

/// The action a legacy `app_list` key names: `ignore`, `start_alt`, or
/// `alt_groupN` (group `N`, 2 when `N` does not parse; none when `N` is
/// outside `1..=4`).
pub open spec fn list_action(action: Seq<char>) -> Option<RuleAction> {
    if action == "ignore"@ {
        Some(RuleAction::Ignore)
    } else if action == "start_alt"@ {
        Some(RuleAction::StartAlt)
    } else if starts_with(action, "alt_group"@) {
        let n: nat = match parse_bounded(strip_prefix_all(action, "alt_group"@), 255) {
            Some(n) => n,
            None => 2,
        };
        if 1 <= n <= 4 {
            Some(RuleAction::AltGroup(Group::spec_from_index((n - 1) as u8)))
        } else {
            None
        }
    } else {
        None
    }
}

/// The rules an `xxkb.app_list.<property>.<action>` line adds: one per
/// whitespace-separated pattern, when property and action are known.
pub open spec fn app_list_rules(key_lower: Seq<char>, patterns: Seq<char>) -> Seq<RuleModel> {
    let rest = strip_prefix_all(key_lower, "xxkb.app_list."@);
    let d = index_of(rest, '.');
    if d < 0 {
        Seq::empty()
    } else {
        match (list_field(rest.take(d)), list_action(rest.skip(d + 1))) {
            (Some(f), Some(a)) => words(patterns).map_values(
                |w: Seq<char>| RuleModel { field: f, pattern: w, action: a },
            ),
            _ => Seq::empty(),
        }
    }
}

/// The effect of one `key: value` line on the configuration.
pub open spec fn kv_effect(c: ConfigView, key: Seq<char>, value: Seq<char>) -> ConfigView {
    let k = lower(key);
    if k == "xxkb.group.base"@ {
        match parse_bounded(value, 255) {
            Some(n) => ConfigView { general: GeneralConfig { base_group: n as u8, ..c.general }, ..c },
            None => c,
        }
    } else if k == "xxkb.group.alt"@ {
        match parse_bounded(value, 255) {
            Some(n) => ConfigView { general: GeneralConfig { alt_group: n as u8, ..c.general }, ..c },
            None => c,
        }
    } else if k == "xxkb.controls.two_state"@ {
        match parse_bool(value) {
            Some(b) => ConfigView { general: GeneralConfig { two_state: b, ..c.general }, ..c },
            None => c,
        }
    } else if k == "xxkb.keymask.cycle"@ {
        match parse_modifier(value) {
            Some(m) => ConfigView {
                general: GeneralConfig { cycle_modifier: m, ..c.general },
                ..c
            },
            None => c,
        }
    } else if k == "xxkb.ignore.reverse"@ {
        match parse_bool(value) {
            Some(b) => ConfigView {
                general: GeneralConfig { ignore_reverse: b, ..c.general },
                ..c
            },
            None => c,
        }
    } else if k == "xxkb.mainwindow.enable"@ {
        match parse_bool(value) {
            Some(b) => ConfigView { main_indicator: MainView { enable: b, ..c.main_indicator }, ..c },
            None => c,
        }
    } else if k == "xxkb.mainwindow.geometry"@ {
        match parse_geometry(value) {
            Some((w, _)) => ConfigView {
                main_indicator: MainView { size_px: w, ..c.main_indicator },
                ..c
            },
            None => c,
        }
    } else if k == "xxkb.mainwindow.border.color"@ {
        let b = c.main_indicator.border;
        ConfigView {
            main_indicator: MainView {
                border: BorderView {
                    enabled: true,
                    color: normalize_color(value),
                    width: if b.width == 0 {
                        1
                    } else {
                        b.width
                    },
                },
                ..c.main_indicator
            },
            ..c
        }
    } else if k == "xxkb.mainwindow.border.width"@ {
        match parse_bounded(value, 0xffff_ffff) {
            Some(n) => ConfigView {
                main_indicator: MainView {
                    border: BorderView {
                        width: n as u32,
                        enabled: n > 0,
                        ..c.main_indicator.border
                    },
                    ..c.main_indicator
                },
                ..c
            },
            None => c,
        }
    } else if k == "xxkb.button.enable"@ {
        match parse_bool(value) {
            Some(b) => ConfigView {
                per_window_indicator: PerWindowView { enable: b, ..c.per_window_indicator },
                ..c
            },
            None => c,
        }
    } else if k == "xxkb.button.geometry"@ {
        match parse_geometry(value) {
            Some((w, Some((x, y)))) => ConfigView {
                per_window_indicator: PerWindowView {
                    size_px: w,
                    offset: Offset { x, y },
                    ..c.per_window_indicator
                },
                ..c
            },
            Some((w, None)) => ConfigView {
                per_window_indicator: PerWindowView { size_px: w, ..c.per_window_indicator },
                ..c
            },
            None => c,
        }
    } else if k == "xxkb.bell.enable"@ {
        match parse_bool(value) {
            Some(b) => ConfigView {
                sound: SoundView {
                    mode: if b {
                        SoundMode::Both
                    } else {
                        SoundMode::Off
                    },
                    ..c.sound
                },
                ..c
            },
            None => c,
        }
    } else if starts_with(k, "xxkb.app_list."@) {
        ConfigView { app_rules: c.app_rules + app_list_rules(k, value), ..c }
    } else {
        c
    }
}

/// Reading state: the configuration so far and a pending continued line.
pub struct MigrateState {
    /// Configuration so far.
    pub cfg: ConfigView,
    /// Text of the lines ending in `\` read so far, not yet applied.
    pub continued: Seq<char>,
}

/// The effect of one physical line.
pub open spec fn line_step(st: MigrateState, raw: Seq<char>) -> MigrateState {
    let line = trim_end(strip_comment(raw));
    if line.len() == 0 {
        st
    } else if line.last() == '\\' {
        MigrateState { continued: st.continued + trim_backslashes(line) + seq![' '], ..st }
    } else {
        let full = st.continued + line;
        MigrateState {
            cfg: match split_kv(full) {
                Some((k, v)) => kv_effect(st.cfg, k, trim(v)),
                None => st.cfg,
            },
            continued: Seq::empty(),
        }
    }
}

/// The state after reading `ls`, starting from the default configuration.
pub open spec fn read_lines(ls: Seq<Seq<char>>) -> MigrateState
    decreases ls.len(),
{
    if ls.len() == 0 {
        MigrateState { cfg: default_config(), continued: Seq::empty() }
    } else {
        line_step(read_lines(ls.drop_last()), ls.last())
    }
}

/// The configuration a legacy file describes.
pub open spec fn migrated(text: Seq<char>) -> ConfigView {
    read_lines(lines(text)).cfg
}

/// `s` up to its first `!`.
fn strip_comment_chars(s: &[char]) -> (r: Vec<char>)
    ensures
        r@ == strip_comment(s@),
{
    match find_char(s, '!') {
        Some(i) => {
            proof {
                lemma_index_of_from(s@, '!', 0);
            }
            subvec(s, 0, i)
        },
        None => {
            proof {
                assert(s@.subrange(0, s@.len() as int) =~= s@);
            }
            subvec(s, 0, s.len())
        },
    }
}

/// Length of `s` without its trailing backslashes.
fn trim_backslashes_len(s: &[char], hi: usize) -> (r: usize)
    requires
        hi <= s@.len(),
    ensures
        r <= hi,
        s@.take(r as int) == trim_backslashes(s@.take(hi as int)),
    decreases hi,
{
    if hi > 0 && s[hi - 1] == '\\' {
        proof {
            assert(s@.take(hi as int).drop_last() =~= s@.take(hi - 1));
        }
        trim_backslashes_len(s, hi - 1)
    } else {
        hi
    }
}

/// `key: value`, both trimmed.
fn split_kv_chars(line: &[char]) -> (r: Option<(Vec<char>, Vec<char>)>)
    ensures
        match r {
            Some((k, v)) => split_kv(line@) == Some((k@, v@)),
            None => split_kv(line@) is None,
        },
{
    let len = line.len();
    match find_char(line, ':') {
        Some(i) => {
            proof {
                lemma_index_of_from(line@, ':', 0);
                assert(line@.subrange(0, i as int) =~= line@.take(i as int));
                assert(line@.subrange(i + 1, line@.len() as int) =~= line@.skip(i + 1));
                assert(i < line@.len());
            }
            let k = subvec(line, 0, i);
            let v = subvec(line, i + 1, len);
            Some((trim_chars(&k), trim_chars(&v)))
        },
        None => None,
    }
}

/// A legacy boolean.
fn parse_bool_chars(v: &[char]) -> (r: Option<bool>)
    ensures
        r == parse_bool(v@),
{
    let t = to_ascii_lower(&trim_chars(v));
    if eq_lit(&t, "yes") || eq_lit(&t, "true") || eq_lit(&t, "on") || eq_lit(&t, "1") {
        Some(true)
    } else if eq_lit(&t, "no") || eq_lit(&t, "false") || eq_lit(&t, "off") || eq_lit(&t, "0") {
        Some(false)
    } else {
        None
    }
}

/// A legacy modifier name.
fn parse_modifier_chars(v: &[char]) -> (r: Option<ModifierName>)
    ensures
        r == parse_modifier(v@),
{
    let t = to_ascii_lower(v);
    if eq_lit(&t, "none") {
        Some(ModifierName::NoModifier)
    } else if eq_lit(&t, "shift") {
        Some(ModifierName::Shift)
    } else if eq_lit(&t, "lock") {
        Some(ModifierName::Lock)
    } else if eq_lit(&t, "ctrl") || eq_lit(&t, "control") {
        Some(ModifierName::Ctrl)
    } else if eq_lit(&t, "alt") {
        Some(ModifierName::Alt)
    } else if eq_lit(&t, "mod1") {
        Some(ModifierName::Mod1)
    } else if eq_lit(&t, "mod2") {
        Some(ModifierName::Mod2)
    } else if eq_lit(&t, "mod3") {
        Some(ModifierName::Mod3)
    } else if eq_lit(&t, "mod4") {
        Some(ModifierName::Mod4)
    } else if eq_lit(&t, "mod5") {
        Some(ModifierName::Mod5)
    } else {
        None
    }
}

/// Where [`sign_index_from`] stops.
proof fn lemma_sign_index_from(s: Seq<char>, i: int)
    requires
        0 <= i <= s.len(),
    ensures
        i <= sign_index_from(s, i) <= s.len(),
    decreases s.len() - i,
{
    if i < s.len() && !(s[i] == '+' || s[i] == '-') {
        lemma_sign_index_from(s, i + 1);
    }
}

/// Index of the first `+` or `-` in `s` at or after `i`, or `s.len()`.
fn sign_index(s: &[char], i: usize) -> (r: usize)
    requires
        i <= s@.len(),
    ensures
        r == sign_index_from(s@, i as int),
        i <= r <= s@.len(),
{
    proof {
        lemma_sign_index_from(s@, i as int);
    }
    let mut j = i;
    while j < s.len()
        invariant
            i <= j <= s@.len(),
            sign_index_from(s@, i as int) == sign_index_from(s@, j as int),
        decreases s@.len() - j,
    {
        if s[j] == '+' || s[j] == '-' {
            return j;
        }
        j += 1;
    }
    j
}

/// Two signed numbers written back to back.
fn read_signed_pair_chars(s: &[char]) -> (r: Option<(i32, i32)>)
    ensures
        r == read_signed_pair(s@),
{
    if s.len() == 0 {
        return None;
    }
    let j = sign_index(s, 1);
    let xs = subvec(s, 0, j);
    let ys = subvec(s, j, s.len());
    proof {
        assert(xs@ =~= s@.take(j as int));
        assert(ys@ =~= s@.skip(j as int));
    }
    match (parse_i32(&xs), parse_i32(&ys)) {
        (Some(x), Some(y)) => Some((x, y)),
        _ => None,
    }
}

/// A legacy geometry: the width, and the offset when there is one.
fn parse_geometry_chars(v: &[char]) -> (r: Option<(u32, Option<(i32, i32)>)>)
    ensures
        r == parse_geometry(v@),
{
    let p = sign_index(v, 0);
    let size = subvec(v, 0, p);
    let rest = subvec(v, p, v.len());
    proof {
        assert(size@ =~= v@.take(p as int));
        assert(rest@ =~= v@.skip(p as int));
    }
    match find_char(&size, 'x') {
        None => None,
        Some(xi) => {
            proof {
                lemma_index_of_from(size@, 'x', 0);
            }
            let wtext = subvec(&size, 0, xi);
            proof {
                assert(wtext@ =~= size@.take(xi as int));
            }
            match parse_u32(&wtext) {
                None => None,
                Some(w) => if rest.len() == 0 {
                    Some((w, None))
                } else {
                    match read_signed_pair_chars(&rest) {
                        Some(xy) => Some((w, Some(xy))),
                        None => None,
                    }
                },
            }
        },
    }
}

/// A legacy color in hex form.
fn normalize_color_chars(v: &[char]) -> (r: String)
    ensures
        r@ == normalize_color(v@),
{
    let t = trim_chars(v);
    if t.len() > 0 && t[0] == '#' {
        return string_of(&t);
    }
    let l = to_ascii_lower(&t);
    if eq_lit(&l, "black") {
        "#000000".to_owned()
    } else if eq_lit(&l, "white") {
        "#FFFFFF".to_owned()
    } else if eq_lit(&l, "red") {
        "#FF0000".to_owned()
    } else if eq_lit(&l, "green") {
        "#00FF00".to_owned()
    } else if eq_lit(&l, "blue") {
        "#0000FF".to_owned()
    } else if eq_lit(&l, "yellow") {
        "#FFFF00".to_owned()
    } else if eq_lit(&l, "cyan") {
        "#00FFFF".to_owned()
    } else if eq_lit(&l, "magenta") {
        "#FF00FF".to_owned()
    } else if eq_lit(&l, "blue4") {
        "#00008B".to_owned()
    } else {
        let mut out = "#000000 /* xxkb-migrate: unknown colour '".to_owned();
        let name = string_of(&l);
        out.append(name.as_str());
        out.append("' */");
        out
    }
}

/// Index in `s` after every leading copy of `lit`.
fn strip_prefix_all_idx(s: &[char], lit: &str) -> (r: usize)
    ensures
        r <= s@.len(),
        s@.skip(r as int) == strip_prefix_all(s@, lit@),
{
    let n = lit.unicode_len();
    if n == 0 {
        proof {
            assert(s@.skip(0) =~= s@);
        }
        return 0;
    }
    let len = s.len();
    let mut i: usize = 0;
    proof {
        assert(s@.skip(0) =~= s@);
    }
    while starts_with_lit_at(s, i, lit)
        invariant
            len == s@.len(),
            n == lit@.len() > 0,
            i <= s@.len(),
            strip_prefix_all(s@, lit@) == strip_prefix_all(s@.skip(i as int), lit@),
        decreases s@.len() - i,
    {
        proof {
            let t = s@.skip(i as int);
            assert(t.take(n as int) =~= s@.subrange(i as int, i + n));
            assert(t.skip(n as int) =~= s@.skip(i + n));
            assert(i + n <= s@.len());
        }
        i = i + n;
    }
    proof {
        let t = s@.skip(i as int);
        if n <= t.len() {
            assert(t.take(n as int) =~= s@.subrange(i as int, i + n));
        }
    }
    i
}

/// The window property a legacy `app_list` key names.
fn list_field_chars(prop: &[char]) -> (r: Option<MatchField>)
    ensures
        r == list_field(prop@),
{
    if eq_lit(prop, "wm_class_class") {
        Some(MatchField::WmClassClass)
    } else if eq_lit(prop, "wm_class_name") {
        Some(MatchField::WmClassName)
    } else if eq_lit(prop, "wm_name") {
        Some(MatchField::WmName)
    } else {
        None
    }
}

/// The action a legacy `app_list` key names.
fn list_action_chars(action: &[char]) -> (r: Option<RuleAction>)
    ensures
        r == list_action(action@),
{
    if eq_lit(action, "ignore") {
        Some(RuleAction::Ignore)
    } else if eq_lit(action, "start_alt") {
        Some(RuleAction::StartAlt)
    } else if starts_with_lit(action, "alt_group") {
        let j = strip_prefix_all_idx(action, "alt_group");
        let rest = subvec(action, j, action.len());
        proof {
            assert(rest@ =~= action@.skip(j as int));
        }
        let n: u8 = match parse_u8(&rest) {
            Some(n) => n,
            None => 2,
        };
        match Group::from_one_based(n, 4) {
            Ok(g) => Some(RuleAction::AltGroup(g)),
            Err(_) => None,
        }
    } else {
        None
    }
}

/// A rule built from its parts.
pub open spec fn make_rule(f: MatchField, a: RuleAction) -> spec_fn(Seq<char>) -> RuleModel {
    |w: Seq<char>| RuleModel { field: f, pattern: w, action: a }
}

/// Appends the rules of an `xxkb.app_list.<property>.<action>` line.
fn push_app_list_rules(rules: &mut Vec<AppRule>, key_lower: &[char], patterns: &[char])
    ensures
        rules_view(final(rules)@) == rules_view(old(rules)@) + app_list_rules(
            key_lower@,
            patterns@,
        ),
{
    let ghost start = rules@;
    let j = strip_prefix_all_idx(key_lower, "xxkb.app_list.");
    let rest = subvec(key_lower, j, key_lower.len());
    proof {
        assert(rest@ =~= key_lower@.skip(j as int));
    }
    let rlen = rest.len();
    match find_char(&rest, '.') {
        None => {
            proof {
                assert(rules_view(rules@) + Seq::<RuleModel>::empty() =~= rules_view(rules@));
            }
        },
        Some(d) => {
            proof {
                lemma_index_of_from(rest@, '.', 0);
            }
            let prop = subvec(&rest, 0, d);
            let action = subvec(&rest, d + 1, rlen);
            proof {
                assert(prop@ =~= rest@.take(d as int));
                assert(action@ =~= rest@.skip(d + 1));
            }
            match (list_field_chars(&prop), list_action_chars(&action)) {
                (Some(f), Some(a)) => {
                    let ws = split_words(patterns);
                    let n = ws.len();
                    for i in 0..n
                        invariant
                            n == ws@.len(),
                            views(ws@) == words(patterns@),
                            rules_view(rules@) == rules_view(start) + views(ws@).take(
                                i as int,
                            ).map_values(make_rule(f, a)),
                    {
                        let p = string_of(&ws[i]);
                        let m = match f {
                            MatchField::WmClassClass => AppMatch::WmClassClass(p),
                            MatchField::WmClassName => AppMatch::WmClassName(p),
                            MatchField::WmName => AppMatch::WmName(p),
                        };
                        let ghost before = rules@;
                        let rule = AppRule { match_: m, action: a };
                        assert(rule@ == make_rule(f, a)(views(ws@)[i as int]));
                        rules.push(rule);
                        proof {
                            assert(rules_view(rules@) =~= rules_view(before).push(rule@));
                            assert(views(ws@).take(i + 1) =~= views(ws@).take(i as int).push(
                                views(ws@)[i as int],
                            ));
                            assert(views(ws@).take(i + 1).map_values(make_rule(f, a)) =~= views(
                                ws@,
                            ).take(i as int).map_values(make_rule(f, a)).push(rule@));
                            assert(rules_view(rules@) =~= rules_view(start) + views(ws@).take(
                                i + 1,
                            ).map_values(make_rule(f, a)));
                        }
                    }
                    proof {
                        assert(views(ws@).take(n as int) =~= views(ws@));
                        assert(app_list_rules(key_lower@, patterns@) =~= words(patterns@).map_values(
                            make_rule(f, a),
                        ));
                    }
                },
                _ => {
                    proof {
                        assert(rules_view(rules@) + Seq::<RuleModel>::empty() =~= rules_view(
                            rules@,
                        ));
                    }
                },
            }
        },
    }
}

/// Applies one `key: value` line to the configuration.
fn apply_kv(cfg: &mut Config, key: &[char], value: &[char])
    ensures
        final(cfg)@ == kv_effect(old(cfg)@, key@, value@),
{
    let k = to_ascii_lower(key);
    if eq_lit(&k, "xxkb.group.base") {
        if let Some(n) = parse_u8(value) {
            cfg.general.base_group = n;
        }
    } else if eq_lit(&k, "xxkb.group.alt") {
        if let Some(n) = parse_u8(value) {
            cfg.general.alt_group = n;
        }
    } else if eq_lit(&k, "xxkb.controls.two_state") {
        if let Some(b) = parse_bool_chars(value) {
            cfg.general.two_state = b;
        }
    } else if eq_lit(&k, "xxkb.keymask.cycle") {
        if let Some(m) = parse_modifier_chars(value) {
            cfg.general.cycle_modifier = m;
        }
    } else if eq_lit(&k, "xxkb.ignore.reverse") {
        if let Some(b) = parse_bool_chars(value) {
            cfg.general.ignore_reverse = b;
        }
    } else if eq_lit(&k, "xxkb.mainwindow.enable") {
        if let Some(b) = parse_bool_chars(value) {
            cfg.main_indicator.enable = b;
        }
    } else if eq_lit(&k, "xxkb.mainwindow.geometry") {
        if let Some((w, _)) = parse_geometry_chars(value) {
            cfg.main_indicator.size_px = w;
        }
    } else if eq_lit(&k, "xxkb.mainwindow.border.color") {
        cfg.main_indicator.border.color = normalize_color_chars(value);
        if cfg.main_indicator.border.width == 0 {
            cfg.main_indicator.border.width = 1;
        }
        cfg.main_indicator.border.enabled = true;
    } else if eq_lit(&k, "xxkb.mainwindow.border.width") {
        if let Some(n) = parse_u32(value) {
            cfg.main_indicator.border.width = n;
            cfg.main_indicator.border.enabled = n > 0;
        }
    } else if eq_lit(&k, "xxkb.button.enable") {
        if let Some(b) = parse_bool_chars(value) {
            cfg.per_window_indicator.enable = b;
        }
    } else if eq_lit(&k, "xxkb.button.geometry") {
        if let Some((w, xy)) = parse_geometry_chars(value) {
            cfg.per_window_indicator.size_px = w;
            if let Some((x, y)) = xy {
                cfg.per_window_indicator.offset = Offset { x, y };
            }
        }
    } else if eq_lit(&k, "xxkb.bell.enable") {
        if let Some(b) = parse_bool_chars(value) {
            cfg.sound.mode = if b {
                SoundMode::Both
            } else {
                SoundMode::Off
            };
        }
    } else if starts_with_lit(&k, "xxkb.app_list.") {
        push_app_list_rules(&mut cfg.app_rules, &k, value);
    }
}

/// Migrates the text of a legacy `~/.xxkbrc`: starting from the default
/// configuration, every recognised `key: value` line is applied in
/// order.
pub fn migrate_string(text: &str) -> (r: Config)
    ensures
        r@ == migrated(text@),
{
    let chars = chars_of(text);
    let ls = split_lines(&chars);
    let mut cfg = Config::default();
    let mut continued: Vec<char> = Vec::new();
    let n = ls.len();
    proof {
        assert(views(ls@).take(0) =~= Seq::<Seq<char>>::empty());
        assert(continued@ =~= Seq::<char>::empty());
    }
    for i in 0..n
        invariant
            n == ls@.len(),
            views(ls@) == lines(text@),
            read_lines(views(ls@).take(i as int)) == (MigrateState {
                cfg: cfg@,
                continued: continued@,
            }),
    {
        let ghost st = MigrateState { cfg: cfg@, continued: continued@ };
        let ghost raw = views(ls@)[i as int];
        proof {
            assert(views(ls@).take(i + 1).drop_last() =~= views(ls@).take(i as int));
            assert(views(ls@).take(i + 1).last() == raw);
        }
        let stripped = strip_comment_chars(&ls[i]);
        let line = trim_end_chars(&stripped);
        let len = line.len();
        if len == 0 {
        } else if line[len - 1] == '\\' {
            let t = trim_backslashes_len(&line, len);
            let mut part = subvec(&line, 0, t);
            proof {
                assert(line@.take(len as int) =~= line@);
                assert(part@ =~= line@.take(t as int));
            }
            continued.append(&mut part);
            continued.push(' ');
            proof {
                assert(continued@ =~= st.continued + trim_backslashes(line@) + seq![' ']);
            }
        } else {
            let mut full: Vec<char> = Vec::new();
            full.append(&mut continued);
            let mut rest = subvec(&line, 0, len);
            full.append(&mut rest);
            proof {
                assert(line@.subrange(0, len as int) =~= line@);
                assert(full@ =~= st.continued + line@);
                assert(continued@ =~= Seq::<char>::empty());
            }
            match split_kv_chars(&full) {
                Some((k, v)) => {
                    let tv = trim_chars(&v);
                    apply_kv(&mut cfg, &k, &tv);
                },
                None => {},
            }
        }
    }
    proof {
        assert(views(ls@).take(n as int) =~= views(ls@));
    }
    cfg
}

/// A text whose lines are all blank once comments are removed (the
/// empty text among them) migrates to the default configuration.
pub proof fn lemma_blank_text_gives_defaults(text: Seq<char>)
    requires
        forall|i: int|
            0 <= i < lines(text).len() ==> trim_end(strip_comment(#[trigger] lines(text)[i])).len()
                == 0,
    ensures
        migrated(text) == default_config(),
{
    let ls = lines(text);
    assert forall|k: int| 0 <= k <= ls.len() implies #[trigger] read_lines(ls.take(k)) == (
    MigrateState { cfg: default_config(), continued: Seq::empty() }) by {
        lemma_blank_prefix(ls, k);
    }
    assert(ls.take(ls.len() as int) =~= ls);
}

/// Reading blank lines changes nothing.
proof fn lemma_blank_prefix(ls: Seq<Seq<char>>, k: int)
    requires
        0 <= k <= ls.len(),
        forall|i: int| 0 <= i < ls.len() ==> trim_end(strip_comment(#[trigger] ls[i])).len() == 0,
    ensures
        read_lines(ls.take(k)) == (MigrateState {
            cfg: default_config(),
            continued: Seq::empty(),
        }),
    decreases k,
{
    if k > 0 {
        lemma_blank_prefix(ls, k - 1);
        assert(ls.take(k).drop_last() =~= ls.take(k - 1));
        assert(ls.take(k).last() == ls[k - 1]);
    }
}

/// Whether the lower-cased key `k` is none of those the migrator reads.
pub open spec fn unknown_key(k: Seq<char>) -> bool {
    &&& k != "xxkb.group.base"@
    &&& k != "xxkb.group.alt"@
    &&& k != "xxkb.controls.two_state"@
    &&& k != "xxkb.keymask.cycle"@
    &&& k != "xxkb.ignore.reverse"@
    &&& k != "xxkb.mainwindow.enable"@
    &&& k != "xxkb.mainwindow.geometry"@
    &&& k != "xxkb.mainwindow.border.color"@
    &&& k != "xxkb.mainwindow.border.width"@
    &&& k != "xxkb.button.enable"@
    &&& k != "xxkb.button.geometry"@
    &&& k != "xxkb.bell.enable"@
    &&& !starts_with(k, "xxkb.app_list."@)
}

/// A key the migrator does not know leaves the configuration unchanged.
pub proof fn lemma_unknown_key_ignored(c: ConfigView, key: Seq<char>, value: Seq<char>)
    requires
        unknown_key(lower(key)),
    ensures
        kv_effect(c, key, value) == c,
{
}

/// Whether `text` ends inside a continued line: its last non-blank line
/// ends with a backslash, so its text waits for a line that never comes.
pub open spec fn ends_in_continuation(text: Seq<char>) -> bool {
    read_lines(lines(text)).continued.len() > 0
}

/// A line with a key the migrator does not know changes nothing:
/// appending `key: value` as a new line to a text that is empty or ends
/// with a newline (and does not end inside a continued line) migrates to
/// the same configuration.
#[verifier::spinoff_prover]
#[verifier::rlimit(30)]
pub proof fn lemma_unknown_key_line_changes_nothing(
    text: Seq<char>,
    key: Seq<char>,
    value: Seq<char>,
)
    requires
        text.len() == 0 || text.last() == '\n',
        !ends_in_continuation(text),
        !key.contains(':'),
        !key.contains('!'),
        !key.contains('\n'),
        !value.contains('\n'),
        unknown_key(lower(trim(key))),
    ensures
        migrated(text + key + ": "@ + value) == migrated(text),
{
    let l = key + ": "@ + value;
    assert(lines(text + l) =~= lines(text).push(l)) by {
        reveal_strlit(": ");
        let n = key.len() as int;
        assert forall|j: int| 0 <= j < l.len() implies l[j] != '\n' by {
            if j < n {
                assert(l[j] == key[j]);
                if key[j] == '\n' {
                    assert(key.contains('\n'));
                }
            } else if j >= n + 2 {
                assert(l[j] == value[j - n - 2]);
                if value[j - n - 2] == '\n' {
                    assert(value.contains('\n'));
                }
            } else {
                assert(l[j] == ": "@[j - n]);
            }
        }
        lemma_lines_of_appended(text, l);
    }
    let ls = lines(text);
    assert((text + key + ": "@ + value) =~= text + l);
    assert(lines(text + l).drop_last() =~= ls);
    lemma_unknown_key_line_step(read_lines(ls), key, value);
}

/// The lines of a text that is empty or ends with a newline, followed by
/// one more line without a line break, are its lines and that line.
proof fn lemma_lines_of_appended(text: Seq<char>, l: Seq<char>)
    requires
        text.len() == 0 || text.last() == '\n',
        l.len() > 0,
        forall|j: int| 0 <= j < l.len() ==> l[j] != '\n',
    ensures
        lines(text + l) =~= lines(text).push(l),
{
    if text.len() == 0 {
        assert(text + l =~= l);
        lemma_index_of_from(l, '\n', 0);
        assert(l.subrange(0, l.len() as int) =~= l);
    } else {
        lemma_lines_append(text, l, 0);
    }
}

/// One `key: value` line with an unknown key, read with nothing pending,
/// leaves the configuration as it was.
proof fn lemma_unknown_key_line_step(st: MigrateState, key: Seq<char>, value: Seq<char>)
    requires
        st.continued.len() == 0,
        !key.contains(':'),
        !key.contains('!'),
        unknown_key(lower(trim(key))),
    ensures
        line_step(st, key + ": "@ + value).cfg == st.cfg,
{
    reveal_strlit(": ");
    let l = key + ": "@ + value;
    let n = key.len() as int;
    assert(l[n] == ':');
    assert forall|j: int| 0 <= j < n implies l[j] != ':' && l[j] != '!' by {
        assert(l[j] == key[j]);
    }
    assert(l[n + 1] == ' ');
    lemma_index_of_from(l, '!', 0);
    let sc = strip_comment(l);
    assert(sc.len() > n && sc[n] == ':');
    assert(forall|j: int| 0 <= j <= n ==> sc[j] == l[j]);
    lemma_trim_end_keeps(sc, n);
    let line = trim_end(sc);
    assert(line[n] == ':');
    assert forall|j: int| 0 <= j < n implies line[j] != ':' by {
        assert(line[j] == l[j]);
    }
    if line.last() != '\\' {
        let full = st.continued + line;
        assert(full =~= line);
        lemma_index_of_from(line, ':', 0);
        assert(index_of(line, ':') == n);
        assert(line.take(n) =~= key);
        lemma_unknown_key_ignored(st.cfg, trim(key), trim(trim(line.skip(n + 1))));
    }
}

/// Trailing whitespace stops at a character that is not whitespace: the
/// trimmed text is a prefix that keeps it.
proof fn lemma_trim_end_keeps(s: Seq<char>, p: int)
    requires
        0 <= p < s.len(),
        !crate::text::is_ws(s[p]),
    ensures
        p < trim_end(s).len() <= s.len(),
        trim_end(s) =~= s.take(trim_end(s).len() as int),
    decreases s.len(),
{
    if s.len() > 0 && crate::text::is_ws(s.last()) {
        assert(trim_end(s) == trim_end(s.drop_last()));
        lemma_trim_end_keeps(s.drop_last(), p);
        assert(s.drop_last().take(trim_end(s).len() as int) =~= s.take(trim_end(s).len() as int));
    } else {
        assert(s.take(s.len() as int) =~= s);
    }
}

/// The first `c` from `lo` on is found alike in two texts that agree up
/// to and including a position `p` that holds `c`.
proof fn lemma_index_of_from_agree(s: Seq<char>, s2: Seq<char>, c: char, lo: int, p: int)
    requires
        0 <= lo <= p < s.len(),
        p < s2.len(),
        s[p] == c,
        forall|j: int| 0 <= j <= p ==> s[j] == s2[j],
    ensures
        index_of_from(s, c, lo) == index_of_from(s2, c, lo),
    decreases p - lo,
{
    if s[lo] != c {
        lemma_index_of_from_agree(s, s2, c, lo + 1, p);
    }
}

/// The lines of a text ending with a newline, followed by one more line
/// without a line break, are its lines and that line.
proof fn lemma_lines_append(u: Seq<char>, l: Seq<char>, lo: int)
    requires
        u.len() > 0,
        u.last() == '\n',
        l.len() > 0,
        forall|j: int| 0 <= j < l.len() ==> l[j] != '\n',
        0 <= lo <= u.len(),
    ensures
        crate::text::lines_from(u + l, lo) =~= crate::text::lines_from(u, lo).push(l),
    decreases u.len() - lo,
{
    let s = u + l;
    lemma_index_of_from(s, '\n', lo);
    if lo == u.len() {
        assert(forall|j: int| u.len() <= j < s.len() ==> s[j] == l[j - u.len()]);
        assert(index_of_from(s, '\n', lo) == -1);
        assert(s.subrange(lo, s.len() as int) =~= l);
    } else {
        assert(forall|j: int| 0 <= j < u.len() ==> s[j] == u[j]);
        lemma_index_of_from_agree(u, s, '\n', lo, u.len() - 1);
        lemma_index_of_from(u, '\n', lo);
        let i = index_of_from(u, '\n', lo);
        assert(i >= 0);
        lemma_lines_append(u, l, i + 1);
        assert(s.subrange(lo, i) =~= u.subrange(lo, i));
    }
}

/// The reading state after `text` and a line break is the state after
/// `text`: the break adds at most a blank line, or drops a `\r` that
/// ends the last line, and neither changes what is read.
proof fn lemma_final_newline_changes_nothing(text: Seq<char>)
    ensures
        read_lines(lines(text + seq!['\n'])) == read_lines(lines(text)),
{
    let a = lines(text);
    let b = lines(text + seq!['\n']);
    lemma_lines_newline(text, 0);
    if b == a.push(Seq::<char>::empty()) {
        assert(b.drop_last() =~= a);
        lemma_index_of_from(Seq::<char>::empty(), '!', 0);
        assert(strip_comment(Seq::<char>::empty()) =~= Seq::<char>::empty());
    } else {
        assert(b.drop_last() =~= a.drop_last());
        lemma_strip_cr_same_step(read_lines(a.drop_last()), a.last());
    }
}

/// A `\r` ending a line changes nothing of how the line is read.
proof fn lemma_strip_cr_same_step(st: MigrateState, x: Seq<char>)
    ensures
        line_step(st, crate::text::strip_cr(x)) == line_step(st, x),
{
    if x.len() > 0 && x.last() == '\r' {
        let y = x.drop_last();
        lemma_index_of_from(x, '!', 0);
        lemma_index_of_from(y, '!', 0);
        let ix = index_of(x, '!');
        if ix >= 0 {
            assert(ix < y.len());
            lemma_index_of_from_agree(x, y, '!', 0, ix);
            assert(strip_comment(y) =~= strip_comment(x));
        } else {
            assert(index_of(y, '!') < 0) by {
                if index_of(y, '!') >= 0 {
                    assert(x[index_of(y, '!')] == y[index_of(y, '!')]);
                }
            }
            assert(crate::text::is_ws(x.last()));
            assert(trim_end(x) == trim_end(y));
        }
    }
}

/// The lines of `text` followed by a line break, from `lo` on: the lines
/// of `text` with a blank line added, or with a `\r` dropped from the end
/// of the last one.
proof fn lemma_lines_newline(text: Seq<char>, lo: int)
    requires
        0 <= lo <= text.len(),
    ensures
        ({
            let a = crate::text::lines_from(text, lo);
            let b = crate::text::lines_from(text + seq!['\n'], lo);
            ||| b == a.push(Seq::<char>::empty())
            ||| (a.len() > 0 && b == a.drop_last().push(crate::text::strip_cr(a.last())))
        }),
    decreases text.len() - lo,
{
    let s = text + seq!['\n'];
    let a = crate::text::lines_from(text, lo);
    let b = crate::text::lines_from(s, lo);
    lemma_index_of_from(s, '\n', lo);
    lemma_index_of_from(text, '\n', lo);
    assert(s[text.len() as int] == '\n');
    assert(forall|j: int| 0 <= j < text.len() ==> s[j] == text[j]);
    if lo == text.len() {
        assert(index_of_from(s, '\n', lo) == lo);
        assert(s.subrange(lo, lo) =~= Seq::<char>::empty());
        assert(crate::text::strip_cr(Seq::<char>::empty()) =~= Seq::<char>::empty());
        assert(crate::text::lines_from(s, lo + 1) =~= Seq::<Seq<char>>::empty());
        assert(a =~= Seq::<Seq<char>>::empty());
        assert(b =~= a.push(Seq::<char>::empty()));
    } else {
        let i = index_of_from(text, '\n', lo);
        if i >= 0 {
            lemma_index_of_from_agree(text, s, '\n', lo, i);
            lemma_lines_newline(text, i + 1);
            let x = crate::text::strip_cr(text.subrange(lo, i));
            assert(s.subrange(lo, i) =~= text.subrange(lo, i));
            let a2 = crate::text::lines_from(text, i + 1);
            let b2 = crate::text::lines_from(s, i + 1);
            assert(a == seq![x] + a2);
            assert(b == seq![x] + b2);
            if b2 == a2.push(Seq::<char>::empty()) {
                assert(b =~= a.push(Seq::<char>::empty()));
            } else {
                assert(a.last() == a2.last());
                assert(b =~= a.drop_last().push(crate::text::strip_cr(a.last())));
            }
        } else {
            assert(index_of_from(s, '\n', lo) == text.len());
            assert(s.subrange(lo, text.len() as int) =~= text.subrange(lo, text.len() as int));
            assert(a == seq![text.subrange(lo, text.len() as int)]);
            assert(crate::text::lines_from(s, text.len() + 1int) =~= Seq::<Seq<char>>::empty());
            assert(b =~= a.drop_last().push(crate::text::strip_cr(a.last())));
        }
    }
}

/// A line with a key the migrator does not know is ignored: adding
/// `key: value` on a new line after `text` (which does not end inside a
/// continued line) migrates to the same configuration. Keys are matched
/// trimmed and in lower case, so it is that form of the key that must be
/// unknown.
pub proof fn lemma_unknown_key_line_ignored(text: Seq<char>, key: Seq<char>, value: Seq<char>)
    requires
        !ends_in_continuation(text),
        !key.contains(':'),
        !key.contains('!'),
        !key.contains('\n'),
        !value.contains('\n'),
        unknown_key(lower(trim(key))),
    ensures
        migrated(text + "\n"@ + key + ": "@ + value) == migrated(text),
{
    reveal_strlit("\n");
    let u = text + seq!['\n'];
    assert(text + "\n"@ =~= u);
    lemma_final_newline_changes_nothing(text);
    lemma_unknown_key_line_changes_nothing(u, key, value);
}


/// `ignore.reverse` takes any legacy truth word: for every configuration,
/// a key that reads `xxkb.ignore.reverse` in any ASCII case with a value
/// that is, blanks and case aside, `yes`, `true`, `on` or `1` turns
/// `ignore_reverse` on, one that is `no`, `false`, `off` or `0` turns it
/// off, and nothing else of the configuration changes.
pub proof fn lemma_ignore_reverse_follows_the_value(c: ConfigView, key: Seq<char>, value: Seq<char>)
    requires
        lower(key) == "xxkb.ignore.reverse"@,
    ensures
        ({
            let t = lower(trim(value));
            let r = kv_effect(c, key, value);
            &&& (t == "yes"@ || t == "true"@ || t == "on"@ || t == "1"@) ==> r.general.ignore_reverse
            &&& (t == "no"@ || t == "false"@ || t == "off"@ || t == "0"@) ==> !r.general.ignore_reverse
            &&& (ConfigView {
                general: GeneralConfig { ignore_reverse: c.general.ignore_reverse, ..r.general },
                ..r
            }) == c
        }),
{
    reveal_strlit("xxkb.group.base");
    reveal_strlit("xxkb.group.alt");
    reveal_strlit("xxkb.controls.two_state");
    reveal_strlit("xxkb.keymask.cycle");
    reveal_strlit("xxkb.ignore.reverse");
    reveal_strlit("yes");
    reveal_strlit("true");
    reveal_strlit("on");
    reveal_strlit("1");
    reveal_strlit("no");
    reveal_strlit("false");
    reveal_strlit("off");
    reveal_strlit("0");
    let t = lower(trim(value));
    if t == "yes"@ || t == "true"@ || t == "on"@ || t == "1"@ {
        assert(t != "no"@ && t != "false"@ && t != "off"@ && t != "0"@) by {
            assert(t[0] == 'y' || t[0] == 't' || t[0] == 'o' || t[0] == '1');
            assert(t.len() == 3 ==> t[0] == 'y');
            assert(t.len() == 2 ==> t[1] == 'n');
        }
    }
}

/// The RGB value of an X11 color name the migrator knows, from the X11
/// color database.
pub open spec fn x11_rgb(name: Seq<char>) -> Option<crate::border::Rgb> {
    if name == "black"@ {
        Some(crate::border::Rgb(0, 0, 0))
    } else if name == "white"@ {
        Some(crate::border::Rgb(255, 255, 255))
    } else if name == "red"@ {
        Some(crate::border::Rgb(255, 0, 0))
    } else if name == "green"@ {
        Some(crate::border::Rgb(0, 255, 0))
    } else if name == "blue"@ {
        Some(crate::border::Rgb(0, 0, 255))
    } else if name == "yellow"@ {
        Some(crate::border::Rgb(255, 255, 0))
    } else if name == "cyan"@ {
        Some(crate::border::Rgb(0, 255, 255))
    } else if name == "magenta"@ {
        Some(crate::border::Rgb(255, 0, 255))
    } else if name == "blue4"@ {
        Some(crate::border::Rgb(0, 0, 139))
    } else {
        None
    }
}

/// A known X11 color name, in any ASCII case and with surrounding blanks,
/// becomes a `#RRGGBB` color that reads back as that name's RGB value.
pub proof fn lemma_color_names_keep_their_rgb(v: Seq<char>)
    requires
        x11_rgb(lower(trim(v))) is Some,
    ensures
        crate::border::parse_rgb(normalize_color(v)) == x11_rgb(lower(trim(v))),
{
    reveal_strlit("black");
    reveal_strlit("white");
    reveal_strlit("red");
    reveal_strlit("green");
    reveal_strlit("blue");
    reveal_strlit("yellow");
    reveal_strlit("cyan");
    reveal_strlit("magenta");
    reveal_strlit("blue4");
    reveal_strlit("#000000");
    reveal_strlit("#FFFFFF");
    reveal_strlit("#FF0000");
    reveal_strlit("#00FF00");
    reveal_strlit("#0000FF");
    reveal_strlit("#FFFF00");
    reveal_strlit("#00FFFF");
    reveal_strlit("#FF00FF");
    reveal_strlit("#00008B");
    let t = trim(v);
    let l = lower(t);
    assert(t.len() == l.len());
    assert(t[0] != '#') by {
        assert(l[0] == crate::text::lower_char(t[0]));
    }
}

/// Distinct X11 color names the migrator knows become distinct colors.
pub proof fn lemma_color_names_distinct(a: Seq<char>, b: Seq<char>)
    requires
        x11_rgb(lower(trim(a))) is Some,
        x11_rgb(lower(trim(b))) is Some,
        lower(trim(a)) != lower(trim(b)),
    ensures
        normalize_color(a) != normalize_color(b),
{
    lemma_color_names_keep_their_rgb(a);
    lemma_color_names_keep_their_rgb(b);
}

} // verus!
