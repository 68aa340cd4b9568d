//! The daemon's decisions.
//!
//! The daemon's main loop waits for backend events and performs X11,
//! D-Bus, rendering and file work; what it decides lives here. Each
//! event goes to [`Daemon::handle_event`], which updates the daemon's
//! state and returns the [`Effect`]s to carry out, in order. The other
//! functions derive what the effects need from the configuration: the
//! two-state setup, the rule set, border styles, icon resolution and
//! indicator placement.

use vstd::prelude::*;

use crate::border::{parse_rgb, BorderStyle, Rgb};
use crate::config::{strings_view, BorderConfig, Config, ConfigView, MainIndicatorMode, PerWindowView};
use crate::events::{BackendEvent, IndicatorTarget, MouseButton, WindowGeom};
use crate::geometry::{placement_fits, placement_fits_check, spec_placement, IndicatorPlacement, Point};
use crate::icons::{
    candidates_from, home_view, icon_candidates, resolve_from, resolve_icon, IconsError,
    ResolvedIcon,
};
use crate::layout::{
    spec_next_cycle, spec_observe, Group, LayoutModel, LayoutState, TwoStateConfig,
};
use crate::monitors::{
    default_position_fits, default_position_fits_check, first_output, is_active, is_active_primary, MonitorLayout,
    MonitorModel, Output, OutputName, OutputView, outputs_view, spec_default_position,
};
use crate::ordered_map::{
    entries_insert, entries_lookup, position_entries, positions_entry, positions_get,
    positions_insert, positions_len,
};
use crate::registry::{spec_forget, spec_lookup, RememberedLayout, WindowId, WindowRegistry};
use crate::rules::{
    rules_view, spec_verdict, AppRules, RuleModel, RulesModel, Verdict, WindowProps,
};
use crate::text::{chars_of, decimal, eq_lit, push_decimal, push_i32, signed_decimal};
use crate::sound::{plays, should_play, trigger_for, trigger_of, Trigger};
use crate::wire::WireOutput;

verus! {

broadcast use crate::layout::lemma_from_index_view;

/// The group with 1-based index `one_based` when it is in `1..=4`,
/// otherwise the group with 0-based index `fallback`.
pub open spec fn group_or(one_based: u8, fallback: u8) -> Group {
    if 1 <= one_based <= 4 {
        Group::spec_from_index((one_based - 1) as u8)
    } else {
        Group::spec_from_index(fallback)
    }
}

/// The two-state setup a configuration describes; an out-of-range base
/// group falls back to the first group, an alt group to the second.
pub open spec fn two_state_of(c: ConfigView) -> TwoStateConfig {
    TwoStateConfig {
        enabled: c.general.two_state,
        base: group_or(c.general.base_group, 0),
        alt: group_or(c.general.alt_group, 1),
    }
}

/// The group with 1-based index `g`, or the one with 0-based `fallback`.
fn group_from_one_based_or(g: u8, fallback: u8) -> (r: Group)
    requires
        fallback < 4,
    ensures
        r == group_or(g, fallback),
{
    match Group::from_one_based(g, 4) {
        Ok(x) => x,
        Err(_) => match Group::new(fallback, 4) {
            Ok(x) => x,
            Err(_) => {
                proof {
                    assert(false);
                }
                Group::from_one_based(1, 4).unwrap()
            },
        },
    }
}

/// The two-state setup of `cfg`.
pub fn build_two_state(cfg: &Config) -> (r: TwoStateConfig)
    ensures
        r == two_state_of(cfg@),
{
    TwoStateConfig {
        enabled: cfg.general.two_state,
        base: group_from_one_based_or(cfg.general.base_group, 0),
        alt: group_from_one_based_or(cfg.general.alt_group, 1),
    }
}

/// Whether every rule pattern of `c` compiles.
pub open spec fn all_patterns_compile(rules: Seq<RuleModel>) -> bool {
    forall|i: int|
        0 <= i < rules.len() ==> crate::glob::pattern_error(#[trigger] rules[i].pattern) is None
}

/// The rule set a configuration gives: its rules, or, when one of the
/// patterns does not compile, no rules at all (and no inversion).
pub open spec fn rules_of(c: ConfigView) -> RulesModel {
    if all_patterns_compile(c.app_rules) {
        RulesModel { rules: c.app_rules, ignore_reverse: c.general.ignore_reverse }
    } else {
        RulesModel { rules: Seq::empty(), ignore_reverse: false }
    }
}

/// The rule set of `cfg`: disabled entirely when a pattern is bad.
pub fn build_rules(cfg: &Config) -> (r: AppRules)
    ensures
        r@ == rules_of(cfg@),
{
    match AppRules::build(cfg.app_rules.as_slice(), cfg.general.ignore_reverse) {
        Ok(rs) => {
            proof {
                assert forall|i: int| 0 <= i < cfg@.app_rules.len() implies crate::glob::pattern_error(
                    #[trigger] cfg@.app_rules[i].pattern,
                ) is None by {
                    assert(cfg@.app_rules[i] == cfg.app_rules@[i]@);
                }
            }
            rs
        },
        Err(_) => {
            proof {
                let i = choose|i: int|
                    0 <= i < cfg.app_rules@.len() && crate::glob::pattern_error(
                        #[trigger] cfg.app_rules@[i]@.pattern,
                    ) is Some;
                assert(cfg@.app_rules[i] == cfg.app_rules@[i]@);
                assert(!all_patterns_compile(cfg@.app_rules));
            }
            let empty: Vec<crate::rules::AppRule> = Vec::new();
            match AppRules::build(empty.as_slice(), false) {
                Ok(rs) => {
                    proof {
                        assert(rules_view(empty@) =~= Seq::<RuleModel>::empty());
                    }
                    rs
                },
                Err(_) => {
                    proof {
                        assert(false);
                    }
                    AppRules::build(empty.as_slice(), false).unwrap()
                },
            }
        },
    }
}

/// The border style a border configuration gives: its color when it
/// parses as `#RRGGBB`, else black.
pub open spec fn border_style_of(b: crate::config::BorderView) -> BorderStyle {
    BorderStyle {
        enabled: b.enabled,
        color: match parse_rgb(b.color) {
            Some(c) => c,
            None => Rgb(0, 0, 0),
        },
        width_px: b.width,
    }
}

/// The border style of a border configuration.
pub fn to_border_style(cfg: &BorderConfig) -> (r: BorderStyle)
    ensures
        r == border_style_of(cfg@),
{
    let color = match Rgb::parse_hex(cfg.color.as_str()) {
        Some(c) => c,
        None => Rgb(0, 0, 0),
    };
    BorderStyle::new(cfg.enabled, color, cfg.width)
}

/// The configured search paths, with `"builtin"` appended when absent,
/// so that the bundled flags are always tried last.
pub open spec fn search_paths_with_builtin(paths: Seq<Seq<char>>) -> Seq<Seq<char>> {
    if paths.contains("builtin"@) {
        paths
    } else {
        paths.push("builtin"@)
    }
}

/// The search paths of `cfg`, with `"builtin"` appended when absent.
pub fn icon_search_paths(cfg: &Config) -> (r: Vec<String>)
    ensures
        strings_view(r@) == search_paths_with_builtin(cfg@.icons.search_paths),
{
    let paths = crate::config::clone_strings(&cfg.icons.search_paths);
    let mut found = false;
    for i in 0..paths.len()
        invariant
            found == exists|j: int| 0 <= j < i && (#[trigger] paths@[j])@ == "builtin"@,
    {
        if eq_lit(&chars_of(paths[i].as_str()), "builtin") {
            found = true;
        }
    }
    let ghost pv = strings_view(paths@);
    proof {
        if found {
            let j = choose|j: int| 0 <= j < paths@.len() && (#[trigger] paths@[j])@ == "builtin"@;
            assert(pv[j] == "builtin"@);
        } else {
            assert forall|j: int| 0 <= j < pv.len() implies pv[j] != "builtin"@ by {
                assert(pv[j] == paths@[j]@);
            }
        }
    }
    let mut out = paths;
    if !found {
        let ghost before = out@;
        out.push("builtin".to_owned());
        proof {
            assert(strings_view(out@) =~= strings_view(before).push("builtin"@));
        }
    }
    out
}

/// The icon shown for `group`: the configured name for its 1-based
/// index, looked up along the search paths with the bundled flags last.
/// `None` name means the group has no icon configured.
pub open spec fn group_icon(
    c: ConfigView,
    group: Group,
    home: Option<Seq<char>>,
    existing: Seq<Seq<char>>,
) -> Option<crate::icons::ResolvedView> {
    match entries_lookup(c.icons.mapping, decimal((group@ + 1) as nat)) {
        Some(name) => resolve_from(
            name,
            search_paths_with_builtin(c.icons.search_paths),
            0,
            c.icons.prefer_svg,
            home,
            existing,
        ),
        None => None,
    }
}

/// The files whose existence decides [`resolve_for_group`].
pub fn icon_candidates_for_group(cfg: &Config, group: Group, home: Option<String>) -> (r: Vec<
    String,
>)
    ensures
        match entries_lookup(cfg@.icons.mapping, decimal((group@ + 1) as nat)) {
            Some(name) => strings_view(r@) == candidates_from(
                name,
                search_paths_with_builtin(cfg@.icons.search_paths),
                0,
                cfg@.icons.prefer_svg,
                home_view(home),
            ),
            None => r@.len() == 0,
        },
{
    let one_based = group.as_one_based();
    match cfg.icons.icon_for(one_based) {
        Some(name) => {
            let paths = icon_search_paths(cfg);
            icon_candidates(name, paths.as_slice(), cfg.icons.prefer_svg, home)
        },
        None => Vec::new(),
    }
}

/// Resolves the icon for `group` (see [`group_icon`]), given the
/// candidate files that exist. A group without a configured name is
/// `NotFound` under the name `group:<n>`, `n` its 1-based index.
pub fn resolve_for_group(
    cfg: &Config,
    group: Group,
    home: Option<String>,
    existing: &[String],
) -> (r: Result<ResolvedIcon, IconsError>)
    ensures
        match entries_lookup(cfg@.icons.mapping, decimal((group@ + 1) as nat)) {
            None => r matches Err(IconsError::NotFound { name }) && name@ == "group:"@ + decimal(
                (group@ + 1) as nat,
            ),
            Some(n) => match group_icon(cfg@, group, home_view(home), strings_view(existing@)) {
                Some(found) => r matches Ok(icon) && icon@ == found,
                None => r matches Err(IconsError::NotFound { name }) && name@ == n,
            },
        },
{
    let one_based = group.as_one_based();
    match cfg.icons.icon_for(one_based) {
        Some(name) => {
            let paths = icon_search_paths(cfg);
            resolve_icon(name, paths.as_slice(), cfg.icons.prefer_svg, home, existing)
        },
        None => {
            let mut n = "group:".to_owned();
            push_decimal(&mut n, one_based as u32);
            Err(IconsError::NotFound { name: n })
        },
    }
}

/// Where the per-window indicator of a window with geometry `geom` goes,
/// if anywhere: nowhere when the indicator is disabled or the geometry
/// is unknown.
pub open spec fn window_indicator_at(pw: PerWindowView, geom: Option<WindowGeom>) -> Option<Point> {
    match geom {
        Some(g) => if pw.enable {
            let p = spec_placement(g.origin, g.width, g.frame, pw.offset, pw.size_px);
            Some(Point { x: p.0 as i32, y: p.1 as i32 })
        } else {
            None
        },
        None => None,
    }
}

/// Whether placing an indicator over `geom` stays within `i32`.
pub open spec fn window_fits(pw: PerWindowView, geom: Option<WindowGeom>) -> bool {
    match geom {
        Some(g) => pw.enable ==> placement_fits(g.origin, g.width, g.frame, pw.offset, pw.size_px),
        None => true,
    }
}

/// Where the per-window indicator goes for a window with geometry `geom`.
pub fn per_window_placement(cfg: &Config, geom: Option<WindowGeom>) -> (r: Option<Point>)
    requires
        window_fits(cfg@.per_window_indicator, geom),
    ensures
        r == window_indicator_at(cfg@.per_window_indicator, geom),
{
    let pw = &cfg.per_window_indicator;
    if !pw.enable {
        return None;
    }
    match geom {
        Some(g) => {
            let p = IndicatorPlacement::compute(g.origin, g.width, g.frame, pw.offset, pw.size_px);
            Some(p)
        },
        None => None,
    }
}

/// Whether output `o` gets a main indicator: with `only` set (primary-only
/// mode with a primary output), only the output of that name does.
pub open spec fn gets_main(o: OutputView, only: Option<Seq<char>>) -> bool {
    match only {
        Some(n) => o.name == n,
        None => true,
    }
}

/// Where the main indicator goes on `o`: its saved position, else the
/// default one.
pub open spec fn main_position(saved: Seq<(Seq<char>, Point)>, o: OutputView, size: u32) -> Point {
    match entries_lookup(saved, o.name) {
        Some(p) => p,
        None => Point {
            x: spec_default_position(o.geometry, size).0 as i32,
            y: spec_default_position(o.geometry, size).1 as i32,
        },
    }
}

/// The main indicators to place, for the outputs `outs` in order.
pub open spec fn placements_of(
    outs: Seq<OutputView>,
    only: Option<Seq<char>>,
    saved: Seq<(Seq<char>, Point)>,
    size: u32,
) -> Seq<(Seq<char>, Point)>
    decreases outs.len(),
{
    if outs.len() == 0 {
        Seq::empty()
    } else {
        let prev = placements_of(outs.drop_last(), only, saved, size);
        let o = outs.last();
        if gets_main(o, only) {
            prev.push((o.name, main_position(saved, o, size)))
        } else {
            prev
        }
    }
}

/// Which output alone gets a main indicator: the active primary one, in
/// primary-only mode, when there is one.
pub open spec fn main_only(c: ConfigView, m: MonitorModel) -> Option<Seq<char>> {
    if c.main_indicator.mode == MainIndicatorMode::PrimaryOnly {
        match first_output(m.current, is_active_primary()) {
            Some(p) => Some(p.name),
            None => None,
        }
    } else {
        None
    }
}

/// Every main indicator to place, with its output name and position:
/// none when the main indicator is disabled; otherwise one per active
/// output (only the primary one in primary-only mode, when there is a
/// primary), in RandR order.
pub open spec fn main_placements(c: ConfigView, m: MonitorModel) -> Seq<(Seq<char>, Point)> {
    if !c.main_indicator.enable {
        Seq::empty()
    } else {
        placements_of(
            m.current.filter(is_active()),
            main_only(c, m),
            m.saved,
            c.main_indicator.size_px,
        )
    }
}

/// Whether the default position of every output that gets an indicator
/// without a saved position stays within `i32`.
pub open spec fn main_fits(c: ConfigView, m: MonitorModel) -> bool {
    let outs = m.current.filter(is_active());
    forall|i: int|
        0 <= i < outs.len() && gets_main(outs[i], main_only(c, m)) && entries_lookup(
            m.saved,
            outs[i].name,
        ) is None ==> default_position_fits(#[trigger] outs[i].geometry, c.main_indicator.size_px)
}

/// The views of placement pairs.
pub open spec fn placements_view(v: Seq<(String, Point)>) -> Seq<(Seq<char>, Point)> {
    v.map_values(|e: (String, Point)| (e.0@, e.1))
}

/// The main indicators to place (see [`main_placements`]).
pub fn main_indicator_placements(cfg: &Config, ml: &MonitorLayout) -> (r: Vec<(String, Point)>)
    requires
        cfg@.main_indicator.enable ==> main_fits(cfg@, ml@),
    ensures
        placements_view(r@) == main_placements(cfg@, ml@),
{
    let mut out: Vec<(String, Point)> = Vec::new();
    if !cfg.main_indicator.enable {
        proof {
            assert(placements_view(out@) =~= Seq::<(Seq<char>, Point)>::empty());
        }
        return out;
    }
    let outs = ml.active();
    let primary_only = cfg.main_indicator.mode == MainIndicatorMode::PrimaryOnly;
    let only: Option<String> = if primary_only {
        match ml.primary() {
            Some(p) => Some(p.name.0.clone()),
            None => None,
        }
    } else {
        None
    };
    let ghost ov = outputs_view(outs@);
    let ghost only_v = main_only(cfg@, ml@);
    let size = cfg.main_indicator.size_px;
    proof {
        assert(placements_view(out@) =~= Seq::<(Seq<char>, Point)>::empty());
        assert(ov.take(0) =~= Seq::<OutputView>::empty());
        assert(only_v == match only {
            Some(n) => Some(n@),
            None => None::<Seq<char>>,
        });
    }
    let n = outs.len();
    for i in 0..n
        invariant
            n == outs@.len() == ov.len(),
            ov == outputs_view(outs@),
            ov == ml@.current.filter(is_active()),
            only_v == main_only(cfg@, ml@),
            only_v == match only {
                Some(s) => Some(s@),
                None => None::<Seq<char>>,
            },
            size == cfg@.main_indicator.size_px,
            main_fits(cfg@, ml@),
            placements_view(out@) == placements_of(ov.take(i as int), only_v, ml@.saved, size),
    {
        let o = &outs[i];
        proof {
            assert(ov.take(i + 1).drop_last() =~= ov.take(i as int));
            assert(ov.take(i + 1).last() == ov[i as int]);
            assert(ov[i as int] == o@);
        }
        let keep = match &only {
            Some(name) => o.name.0 == *name,
            None => true,
        };
        if keep {
            proof {
                assert(gets_main(ov[i as int], only_v));
                let outs_v = ml@.current.filter(is_active());
                assert(outs_v[i as int].geometry == o.geometry);
            }
            let p = ml.position_for(o, size);
            let ghost before = out@;
            out.push((o.name.0.clone(), p));
            proof {
                assert(placements_view(out@) =~= placements_view(before).push((o.name.0@, p)));
            }
        }
    }
    proof {
        assert(ov.take(n as int) =~= ov);
    }
    out
}

/// Whether every main indicator can be placed within `i32`: exactly the
/// `requires` of [`main_indicator_placements`].
pub fn main_fits_check(cfg: &Config, ml: &MonitorLayout) -> (r: bool)
    ensures
        r == (cfg@.main_indicator.enable ==> main_fits(cfg@, ml@)),
{
    if !cfg.main_indicator.enable {
        return true;
    }
    let outs = ml.active();
    let only: Option<String> = if cfg.main_indicator.mode == MainIndicatorMode::PrimaryOnly {
        match ml.primary() {
            Some(p) => Some(p.name.0.clone()),
            None => None,
        }
    } else {
        None
    };
    let ghost ov = outputs_view(outs@);
    let ghost only_v = main_only(cfg@, ml@);
    let ghost saved = ml@.saved;
    let size = cfg.main_indicator.size_px;
    let saved_map = ml.saved();
    let n = outs.len();
    let mut i: usize = 0;
    while i < n
        invariant
            n == outs@.len() == ov.len(),
            ov == outputs_view(outs@),
            ov == ml@.current.filter(is_active()),
            only_v == main_only(cfg@, ml@),
            only_v == match only {
                Some(s) => Some(s@),
                None => None::<Seq<char>>,
            },
            saved == ml@.saved,
            cfg@.main_indicator.enable,
            position_entries(*saved_map) == saved,
            size == cfg@.main_indicator.size_px,
            0 <= i <= n,
            forall|k: int|
                0 <= k < i && gets_main(ov[k], only_v) && entries_lookup(saved, ov[k].name) is None
                    ==> default_position_fits(#[trigger] ov[k].geometry, size),
        decreases n - i,
    {
        let o = &outs[i];
        proof {
            assert(ov[i as int] == o@);
        }
        let keep = match &only {
            Some(name) => o.name.0 == *name,
            None => true,
        };
        if keep {
            let is_saved = match positions_get(saved_map, o.name.0.as_str()) {
                Some(_) => true,
                None => false,
            };
            if !is_saved && !default_position_fits_check(o.geometry, size) {
                proof {
                    assert(gets_main(ov[i as int], only_v));
                    assert(entries_lookup(saved, ov[i as int].name) is None);
                    assert(!default_position_fits(ov[i as int].geometry, size));
                    let outs_v = ml@.current.filter(is_active());
                    assert(outs_v[i as int] == ov[i as int]);
                    assert(!main_fits(cfg@, ml@));
                }
                return false;
            }
        }
        i = i + 1;
    }
    true
}

/// Whether `ev` keeps the placement arithmetic of
/// [`Daemon::handle_event`] within `i32` under `cfg`: exactly its
/// `requires`.
pub fn event_fits_check(cfg: &Config, ev: &BackendEvent) -> (r: bool)
    ensures
        r == event_fits(cfg@, *ev),
{
    let pw = &cfg.per_window_indicator;
    let geom = match ev {
        BackendEvent::ActiveWindowChanged { wid: Some(_), props: Some(_), geom } => *geom,
        BackendEvent::WindowGeometryChanged { geom, .. } => Some(*geom),
        _ => None,
    };
    match geom {
        Some(g) => !pw.enable || placement_fits_check(
            g.origin,
            g.width,
            g.frame,
            pw.offset,
            pw.size_px,
        ),
        None => true,
    }
}

/// The names of the active outputs, in RandR order: where main
/// indicators are repainted.
pub fn active_output_names(ml: &MonitorLayout) -> (r: Vec<String>)
    ensures
        strings_view(r@) == ml@.current.filter(is_active()).map_values(|o: OutputView| o.name),
{
    let outs = ml.active();
    let mut names: Vec<String> = Vec::new();
    let ghost ov = outputs_view(outs@);
    for i in 0..outs.len()
        invariant
            ov == outputs_view(outs@),
            strings_view(names@) == ov.take(i as int).map_values(|o: OutputView| o.name),
    {
        let ghost before = names@;
        names.push(outs[i].name.0.clone());
        proof {
            assert(ov.take(i + 1) =~= ov.take(i as int).push(ov[i as int]));
            assert(strings_view(names@) =~= strings_view(before).push(outs@[i as int].name.0@));
            assert(strings_view(names@) =~= ov.take(i + 1).map_values(|o: OutputView| o.name));
        }
    }
    proof {
        assert(ov.take(outs@.len() as int) =~= ov);
    }
    names
}

/// The wire form of the active outputs, in RandR order.
pub fn wire_outputs(ml: &MonitorLayout) -> (r: Vec<WireOutput>)
    ensures
        r@.len() == ml@.current.filter(is_active()).len(),
        forall|i: int|
            0 <= i < r@.len() ==> {
                let o = #[trigger] ml@.current.filter(is_active())[i];
                &&& r@[i].name@ == o.name
                &&& r@[i].x == o.geometry.origin.x
                &&& r@[i].y == o.geometry.origin.y
                &&& r@[i].width == o.geometry.width
                &&& r@[i].height == o.geometry.height
                &&& r@[i].is_primary == o.is_primary
                &&& r@[i].is_active == o.is_active
            },
{
    let outs = ml.active();
    let mut v: Vec<WireOutput> = Vec::new();
    for i in 0..outs.len()
        invariant
            outputs_view(outs@) == ml@.current.filter(is_active()),
            v@.len() == i,
            forall|k: int|
                0 <= k < i ==> {
                    let o = #[trigger] outputs_view(outs@)[k];
                    &&& v@[k].name@ == o.name
                    &&& v@[k].x == o.geometry.origin.x
                    &&& v@[k].y == o.geometry.origin.y
                    &&& v@[k].width == o.geometry.width
                    &&& v@[k].height == o.geometry.height
                    &&& v@[k].is_primary == o.is_primary
                    &&& v@[k].is_active == o.is_active
                },
    {
        v.push(WireOutput::from_output(&outs[i]));
        proof {
            assert(outputs_view(outs@)[i as int] == outs@[i as int]@);
        }
    }
    v
}

/// What the main loop is to do after an event, in order.
#[derive(Debug)]
pub enum Effect {
    /// Repaint every main indicator with the flag of `group`.
    RepaintMain {
        /// The group shown.
        group: Group,
    },
    /// Repaint the indicators over every registered window.
    RepaintWindows {
        /// The group shown.
        group: Group,
    },
    /// Emit the `LayoutChanged` signal.
    EmitLayoutChanged {
        /// 1-based group.
        group_one_based: u8,
        /// The active window last seen (0 when none yet).
        wid: u32,
    },
    /// Ask the X server to switch to a group.
    SetGroup(Group),
    /// Remember a window's properties and, when known, its geometry.
    CacheWindow {
        /// The window.
        wid: WindowId,
        /// Its properties.
        props: WindowProps,
        /// Its geometry.
        geom: Option<WindowGeom>,
    },
    /// Remember a window's new geometry.
    CacheGeometry {
        /// The window.
        wid: WindowId,
        /// Its geometry.
        geom: WindowGeom,
    },
    /// Place the indicator over a window and paint the flag of `group`.
    PlaceWindowIndicator {
        /// The window.
        wid: WindowId,
        /// Top-left corner.
        point: Point,
        /// Side length.
        size: u32,
        /// Group shown.
        group: Group,
    },
    /// Forget a destroyed window: drop its cached data and its indicator.
    ForgetWindow {
        /// The window.
        wid: WindowId,
    },
    /// Place (and paint) every main indicator anew
    /// (see [`main_indicator_placements`]).
    PlaceMainIndicators,
    /// Write the configuration to its file.
    SaveConfig,
    /// Ask the user whether to keep a dragged main-indicator position;
    /// the answer goes to [`Daemon::drag_answered`].
    ConfirmDrag {
        /// The output whose indicator was dragged.
        output: String,
        /// Where it was dropped.
        origin: Point,
    },
    /// Take the indicator off a window that is not managed.
    HideWindowIndicator {
        /// The window.
        wid: WindowId,
    },
    /// Play the layout-switch sound for a switch with this trigger.
    PlaySound {
        /// Manual or automatic switch.
        trigger: Trigger,
    },
}

/// The daemon's state between events.
pub struct Daemon {
    /// Keyboard group state.
    pub layout: LayoutState,
    /// Per-window remembered layouts.
    pub registry: WindowRegistry,
    /// Saved positions and live outputs.
    pub monitors: MonitorLayout,
    /// Compiled application rules.
    pub rules: AppRules,
    /// The active window last reported (0 when none yet).
    pub last_active_wid: u32,
    /// The active window whose layout switches are remembered: none
    /// while no window, or an ignored one, is active.
    pub remember_for: Option<WindowId>,
    /// The alternative group an `alt_group = N` rule gives the active
    /// window; none when no such rule matched it.
    pub window_alt: Option<Group>,
}

/// The layout state whose two-state toggle uses `alt` as its alternative
/// group, when there is one.
pub open spec fn with_window_alt(m: LayoutModel, alt: Option<Group>) -> LayoutModel {
    match alt {
        Some(g) => LayoutModel { two_state: TwoStateConfig { alt: g, ..m.two_state }, ..m },
        None => m,
    }
}

/// The alternative group a rule verdict gives a window.
pub open spec fn verdict_alt(v: Verdict) -> Option<Group> {
    match v {
        Verdict::AltGroup(g) => Some(g),
        _ => None,
    }
}

/// The group a click cycles to: the next one of `layout`, toggling to
/// the active window's own alternative group when it has one.
fn cycle_target(layout: &LayoutState, alt: Option<Group>) -> (r: Group)
    ensures
        r == spec_next_cycle(with_window_alt(layout@, alt)),
{
    match alt {
        None => layout.next_cycle(),
        Some(g) => {
            let ts = layout.two_state();
            if ts.enabled {
                if layout.current() == ts.base {
                    g
                } else {
                    ts.base
                }
            } else {
                layout.next_cycle()
            }
        },
    }
}

/// The registry after a switch to `g`: the switch is remembered for the
/// window in `remember_for`, if any.
pub open spec fn switch_registry(
    m: Map<u32, RememberedLayout>,
    remember_for: Option<WindowId>,
    g: Group,
) -> Map<u32, RememberedLayout> {
    match remember_for {
        Some(w) => m.insert(w.0, RememberedLayout { group: g, forgotten: false }),
        None => m,
    }
}

/// The group a window starts with when it first gets focus: the alt
/// group under a `start_alt` rule, otherwise the group that is current.
pub open spec fn start_group(rules: RulesModel, layout: LayoutModel, p: WindowProps) -> Group {
    if spec_verdict(rules, p) == Verdict::StartAlt {
        layout.two_state.alt
    } else {
        layout.current
    }
}

/// The group to switch to when window `w` with properties `p` gets
/// focus: its remembered group; for a window seen for the first time the
/// alt group under a `start_alt` rule and no switch otherwise; none for an
/// ignored window.
pub open spec fn focus_group(
    m: Map<u32, RememberedLayout>,
    rules: RulesModel,
    layout: LayoutModel,
    w: WindowId,
    p: WindowProps,
) -> Option<Group> {
    if spec_verdict(rules, p) == Verdict::Ignore {
        None
    } else if spec_lookup(m, w) is Some {
        spec_lookup(m, w)
    } else if spec_verdict(rules, p) == Verdict::StartAlt {
        Some(layout.two_state.alt)
    } else {
        None
    }
}

/// The registry after window `w` with properties `p` gets focus: an
/// ignored window is forgotten; a window seen for the first time (or
/// forgotten before) starts remembering its [`start_group`].
pub open spec fn focus_registry(
    m: Map<u32, RememberedLayout>,
    rules: RulesModel,
    layout: LayoutModel,
    w: WindowId,
    p: WindowProps,
) -> Map<u32, RememberedLayout> {
    if spec_verdict(rules, p) == Verdict::Ignore {
        spec_forget(m, w)
    } else if spec_lookup(m, w) is Some {
        m
    } else {
        m.insert(w.0, RememberedLayout { group: start_group(rules, layout, p), forgotten: false })
    }
}

/// Layouts follow windows: after a switch to `g` while managed window
/// `w` is active, giving focus to another managed window `v`, switching
/// there to `h`, and giving focus back to `w` switches to `g` again.
pub proof fn lemma_layout_follows_window(
    m: Map<u32, RememberedLayout>,
    rules: RulesModel,
    layout1: LayoutModel,
    layout2: LayoutModel,
    w: WindowId,
    pw: WindowProps,
    v: WindowId,
    pv: WindowProps,
    g: Group,
    h: Group,
)
    requires
        w != v,
        spec_verdict(rules, pw) != Verdict::Ignore,
        spec_verdict(rules, pv) != Verdict::Ignore,
    ensures
        ({
            let m1 = switch_registry(m, Some(w), g);
            let m2 = focus_registry(m1, rules, layout1, v, pv);
            let m3 = switch_registry(m2, Some(v), h);
            focus_group(m3, rules, layout2, w, pw) == Some(g)
        }),
{
}

/// An ignored window is never switched to a remembered group, and
/// giving it focus leaves nothing to restore for it.
pub proof fn lemma_ignored_window_not_restored(
    m: Map<u32, RememberedLayout>,
    rules: RulesModel,
    layout: LayoutModel,
    w: WindowId,
    p: WindowProps,
)
    requires
        spec_verdict(rules, p) == Verdict::Ignore,
    ensures
        focus_group(m, rules, layout, w, p) is None,
        spec_lookup(focus_registry(m, rules, layout, w, p), w) is None,
{
}

/// Whether `e` is a per-window placement of `wid` at the spot
/// [`window_indicator_at`] gives, showing `group`.
pub open spec fn is_placement(
    e: Effect,
    wid: WindowId,
    at: Point,
    pw: PerWindowView,
    group: Group,
) -> bool {
    e matches Effect::PlaceWindowIndicator { wid: w, point, size, group: g } && w == wid && point
        == at && size == pw.size_px && g == group
}

/// The placement effects for a window: one when the indicator is to be
/// placed, none otherwise.
pub open spec fn placement_effects(
    effects: Seq<Effect>,
    wid: WindowId,
    pw: PerWindowView,
    geom: Option<WindowGeom>,
    group: Group,
) -> bool {
    match window_indicator_at(pw, geom) {
        Some(at) => effects.len() == 1 && is_placement(effects[0], wid, at, pw, group),
        None => effects.len() == 0,
    }
}

/// What an event needs from the configuration for placement arithmetic
/// to stay within `i32`.
pub open spec fn event_fits(c: ConfigView, ev: BackendEvent) -> bool {
    match ev {
        BackendEvent::ActiveWindowChanged { wid: Some(_), props: Some(_), geom } => window_fits(
            c.per_window_indicator,
            geom,
        ),
        BackendEvent::WindowGeometryChanged { geom, .. } => window_fits(
            c.per_window_indicator,
            Some(geom),
        ),
        _ => true,
    }
}

impl Daemon {
    /// A daemon starting with `layout` and the rule set and saved
    /// positions of `cfg`; no outputs and no windows are known yet.
    pub fn new(layout: LayoutState, cfg: &Config) -> (r: Self)
        ensures
            r.layout@ == layout@,
            r.registry@ == Map::<u32, RememberedLayout>::empty(),
            r.monitors@.saved == cfg@.main_indicator.positions,
            r.monitors@.current == Seq::<OutputView>::empty(),
            r.rules@ == rules_of(cfg@),
            r.last_active_wid == 0,
            r.remember_for is None,
            r.window_alt is None,
    {
        let positions = crate::ordered_map::positions_clone(&cfg.main_indicator.positions);
        Daemon {
            layout,
            registry: WindowRegistry::new(),
            monitors: MonitorLayout::new(positions),
            rules: build_rules(cfg),
            last_active_wid: 0,
            remember_for: None,
            window_alt: None,
        }
    }

    /// Handles one backend event: updates the state (and, for a dragged
    /// main indicator, the configuration's saved positions) and returns
    /// what to do, in order.
    ///
    /// * `LayoutChanged` to a group below 4: the group is observed; both
    ///   kinds of indicators are repainted, the signal is emitted, and the
    ///   switch sound follows when the sound mode plays for its trigger.
    /// * `ActiveWindowChanged` with a window and its properties: an
    ///   ignored window is forgotten, cached, and its indicator taken off;
    ///   a managed one gets its remembered group back (a window seen for
    ///   the first time is switched to the alt group under a `start_alt`
    ///   rule and otherwise keeps the current group; that [`start_group`]
    ///   is then remembered), is cached, and its indicator placed; an
    ///   `alt_group = N` rule makes N its alternative group while it is
    ///   active. Layout switches
    ///   while a managed window is active are remembered for it.
    /// * `WindowGeometryChanged`: cached and placed again.
    /// * `WindowDestroyed`: dropped from the registry and forgotten.
    /// * `MonitorsChanged`: the outputs are replaced and the main
    ///   indicators placed anew.
    /// * `IndicatorClicked` with the left button and no Ctrl: the group
    ///   cycles; in two-state mode the toggle goes to the active window's
    ///   own alternative group when an `alt_group = N` rule gave it one.
    /// * `IndicatorDragged` on a main indicator: the new position is saved
    ///   and the configuration written; with `confirm_drag_save` set, the
    ///   user is asked first (see [`Daemon::drag_answered`]).
    pub fn handle_event(&mut self, cfg: &mut Config, event: BackendEvent) -> (r: Vec<Effect>)
        requires
            event_fits(old(cfg)@, event),
        ensures
            final(self).remember_for == match event {
                BackendEvent::ActiveWindowChanged { wid: Some(w), props: Some(p), .. } => if spec_verdict(
                    old(self).rules@,
                    p,
                ) == Verdict::Ignore {
                    None
                } else {
                    Some(w)
                },
                BackendEvent::ActiveWindowChanged { .. } => None,
                BackendEvent::WindowDestroyed { wid } => if old(self).remember_for == Some(wid) {
                    None
                } else {
                    old(self).remember_for
                },
                _ => old(self).remember_for,
            },
            final(self).window_alt == match event {
                BackendEvent::ActiveWindowChanged { wid: Some(w), props: Some(p), .. } => verdict_alt(
                    spec_verdict(old(self).rules@, p),
                ),
                BackendEvent::ActiveWindowChanged { .. } => None,
                BackendEvent::WindowDestroyed { wid } => if old(self).remember_for == Some(wid) {
                    None
                } else {
                    old(self).window_alt
                },
                _ => old(self).window_alt,
            },
            match event {
                BackendEvent::LayoutChanged { new_group, kind } => if new_group < 4 {
                    let g = Group::spec_from_index(new_group);
                    let sound = plays(old(cfg)@.sound.mode, trigger_for(kind));
                    &&& final(self).layout@ == spec_observe(old(self).layout@, g)
                    &&& final(self).registry@ == switch_registry(
                        old(self).registry@,
                        old(self).remember_for,
                        g,
                    )
                    &&& final(self).monitors@ == old(self).monitors@
                    &&& final(self).rules@ == old(self).rules@
                    &&& final(self).last_active_wid == old(self).last_active_wid
                    &&& final(cfg)@ == old(cfg)@
                    &&& r@.len() == (if sound {
                        4int
                    } else {
                        3int
                    })
                    &&& r@[0] == Effect::RepaintMain { group: g }
                    &&& r@[1] == Effect::RepaintWindows { group: g }
                    &&& r@[2] == Effect::EmitLayoutChanged {
                        group_one_based: (new_group + 1) as u8,
                        wid: old(self).last_active_wid,
                    }
                    &&& sound ==> r@[3] == Effect::PlaySound { trigger: trigger_for(kind) }
                } else {
                    &&& final(self).layout@ == old(self).layout@
                    &&& final(self).registry@ == old(self).registry@
                    &&& final(self).monitors@ == old(self).monitors@
                    &&& final(self).last_active_wid == old(self).last_active_wid
                    &&& final(cfg)@ == old(cfg)@
                    &&& r@.len() == 0
                },
                BackendEvent::ActiveWindowChanged { wid, props, geom } => {
                    &&& final(self).layout@ == old(self).layout@
                    &&& final(self).monitors@ == old(self).monitors@
                    &&& final(self).rules@ == old(self).rules@
                    &&& final(cfg)@ == old(cfg)@
                    &&& final(self).last_active_wid == match wid {
                        Some(w) => w.0,
                        None => old(self).last_active_wid,
                    }
                    &&& match (wid, props) {
                        (Some(w), Some(p)) => {
                            let ignored = spec_verdict(old(self).rules@, p) == Verdict::Ignore;
                            let set = focus_group(
                                old(self).registry@,
                                old(self).rules@,
                                old(self).layout@,
                                w,
                                p,
                            );
                            let n: int = if set is Some {
                                1
                            } else {
                                0
                            };
                            &&& final(self).registry@ == focus_registry(
                                old(self).registry@,
                                old(self).rules@,
                                old(self).layout@,
                                w,
                                p,
                            )
                            &&& n == 1 ==> r@[0] == Effect::SetGroup(set->0)
                            &&& r@.len() >= n + 1
                            &&& r@[n] matches Effect::CacheWindow { wid: cw, props: cp, geom: cg }
                                && cw == w && cg == geom && cp.wm_class_class@ == p.wm_class_class@
                                && cp.wm_class_name@ == p.wm_class_name@ && cp.wm_name@
                                == p.wm_name@
                            &&& if ignored {
                                r@.len() == n + 2 && r@[n + 1] == Effect::HideWindowIndicator { wid: w }
                            } else {
                                placement_effects(
                                    r@.skip(n + 1),
                                    w,
                                    old(cfg)@.per_window_indicator,
                                    geom,
                                    old(self).layout@.current,
                                )
                            }
                        },
                        _ => final(self).registry@ == old(self).registry@ && r@.len() == 0,
                    }
                },
                BackendEvent::WindowGeometryChanged { wid, geom } => {
                    &&& final(self).layout@ == old(self).layout@
                    &&& final(self).registry@ == old(self).registry@
                    &&& final(self).monitors@ == old(self).monitors@
                    &&& final(self).rules@ == old(self).rules@
                    &&& final(self).last_active_wid == old(self).last_active_wid
                    &&& final(cfg)@ == old(cfg)@
                    &&& r@.len() >= 1
                    &&& r@[0] == Effect::CacheGeometry { wid, geom }
                    &&& placement_effects(
                        r@.skip(1),
                        wid,
                        old(cfg)@.per_window_indicator,
                        Some(geom),
                        old(self).layout@.current,
                    )
                },
                BackendEvent::WindowDestroyed { wid } => {
                    &&& final(self).layout@ == old(self).layout@
                    &&& final(self).registry@ == old(self).registry@.remove(wid.0)
                    &&& final(self).monitors@ == old(self).monitors@
                    &&& final(self).rules@ == old(self).rules@
                    &&& final(self).last_active_wid == old(self).last_active_wid
                    &&& final(cfg)@ == old(cfg)@
                    &&& r@.len() == 1
                    &&& r@[0] == Effect::ForgetWindow { wid }
                },
                BackendEvent::MonitorsChanged { outputs } => {
                    &&& final(self).layout@ == old(self).layout@
                    &&& final(self).registry@ == old(self).registry@
                    &&& final(self).monitors@ == (MonitorModel {
                        saved: old(self).monitors@.saved,
                        current: outputs_view(outputs@),
                    })
                    &&& final(self).rules@ == old(self).rules@
                    &&& final(self).last_active_wid == old(self).last_active_wid
                    &&& final(cfg)@ == old(cfg)@
                    &&& r@.len() == 1
                    &&& r@[0] == Effect::PlaceMainIndicators
                },
                BackendEvent::IndicatorClicked { button, ctrl, .. } => {
                    &&& final(self).layout@ == old(self).layout@
                    &&& final(self).registry@ == old(self).registry@
                    &&& final(self).monitors@ == old(self).monitors@
                    &&& final(self).rules@ == old(self).rules@
                    &&& final(self).last_active_wid == old(self).last_active_wid
                    &&& final(cfg)@ == old(cfg)@
                    &&& if !ctrl && button == MouseButton::Left {
                        r@.len() == 1 && r@[0] == Effect::SetGroup(
                            spec_next_cycle(with_window_alt(old(self).layout@, old(self).window_alt)),
                        )
                    } else {
                        r@.len() == 0
                    }
                },
                BackendEvent::IndicatorDragged { target, new_origin } => {
                    &&& final(self).layout@ == old(self).layout@
                    &&& final(self).registry@ == old(self).registry@
                    &&& final(self).rules@ == old(self).rules@
                    &&& final(self).last_active_wid == old(self).last_active_wid
                    &&& match target {
                        IndicatorTarget::Main(name) => if old(cfg)@.main_indicator.confirm_drag_save {
                            &&& final(self).monitors@ == old(self).monitors@
                            &&& final(cfg)@ == old(cfg)@
                            &&& r@.len() == 1
                            &&& r@[0] matches Effect::ConfirmDrag { output, origin } && output@
                                == name@ && origin == new_origin
                        } else {
                            &&& final(self).monitors@ == (MonitorModel {
                                saved: entries_insert(old(self).monitors@.saved, name@, new_origin),
                                current: old(self).monitors@.current,
                            })
                            &&& final(cfg)@ == (ConfigView {
                                main_indicator: crate::config::MainView {
                                    positions: entries_insert(
                                        old(cfg)@.main_indicator.positions,
                                        name@,
                                        new_origin,
                                    ),
                                    ..old(cfg)@.main_indicator
                                },
                                ..old(cfg)@
                            })
                            &&& r@.len() == 1
                            &&& r@[0] == Effect::SaveConfig
                        }
                        IndicatorTarget::Window(_) => {
                            &&& final(self).monitors@ == old(self).monitors@
                            &&& final(cfg)@ == old(cfg)@
                            &&& r@.len() == 0
                        },
                    }
                },
                BackendEvent::WindowCreated { .. } => {
                    &&& final(self).layout@ == old(self).layout@
                    &&& final(self).registry@ == old(self).registry@
                    &&& final(self).monitors@ == old(self).monitors@
                    &&& final(self).rules@ == old(self).rules@
                    &&& final(self).last_active_wid == old(self).last_active_wid
                    &&& final(cfg)@ == old(cfg)@
                    &&& r@.len() == 0
                },
            },
    {
        let mut effects: Vec<Effect> = Vec::new();
        match event {
            BackendEvent::LayoutChanged { new_group, kind } => {
                if new_group < 4 {
                    let g = match Group::new(new_group, 4) {
                        Ok(g) => g,
                        Err(_) => {
                            proof {
                                assert(false);
                            }
                            return effects;
                        },
                    };
                    self.layout.observe(g);
                    match self.remember_for {
                        Some(w) => {
                            self.registry.remember(w, g);
                        },
                        None => {},
                    }
                    effects.push(Effect::RepaintMain { group: g });
                    effects.push(Effect::RepaintWindows { group: g });
                    effects.push(
                        Effect::EmitLayoutChanged {
                            group_one_based: g.as_one_based(),
                            wid: self.last_active_wid,
                        },
                    );
                    let trigger = trigger_of(kind);
                    if should_play(cfg.sound.mode, trigger) {
                        effects.push(Effect::PlaySound { trigger });
                    }
                }
            },
            BackendEvent::ActiveWindowChanged { wid, props, geom } => {
                if let Some(w) = wid {
                    self.last_active_wid = w.0;
                }
                match (wid, props) {
                    (Some(w), Some(p)) => {
                        let verdict = self.rules.verdict(&p);
                        self.window_alt = match verdict {
                            Verdict::AltGroup(g) => Some(g),
                            _ => None,
                        };
                        if verdict == Verdict::Ignore {
                            self.registry.forget(w);
                            self.remember_for = None;
                            effects.push(Effect::CacheWindow { wid: w, props: p, geom });
                            effects.push(Effect::HideWindowIndicator { wid: w });
                            return effects;
                        }
                        self.remember_for = Some(w);
                        match self.registry.get(w) {
                            Some(g) => {
                                effects.push(Effect::SetGroup(g));
                            },
                            None => {
                                let start = if verdict == Verdict::StartAlt {
                                    let alt = self.layout.two_state().alt;
                                    effects.push(Effect::SetGroup(alt));
                                    alt
                                } else {
                                    self.layout.current()
                                };
                                self.registry.remember(w, start);
                            },
                        }
                        let ghost n: int = effects@.len() as int;
                        effects.push(Effect::CacheWindow { wid: w, props: p, geom });
                        let current = self.layout.current();
                        match per_window_placement(cfg, geom) {
                            Some(point) => {
                                effects.push(
                                    Effect::PlaceWindowIndicator {
                                        wid: w,
                                        point,
                                        size: cfg.per_window_indicator.size_px,
                                        group: current,
                                    },
                                );
                                proof {
                                    assert(effects@.skip(n + 1) =~= seq![effects@[n + 1]]);
                                }
                            },
                            None => {
                                proof {
                                    assert(effects@.skip(n + 1) =~= Seq::<Effect>::empty());
                                }
                            },
                        }
                    },
                    _ => {
                        self.remember_for = None;
                        self.window_alt = None;
                    },
                }
            },
            BackendEvent::WindowGeometryChanged { wid, geom } => {
                effects.push(Effect::CacheGeometry { wid, geom });
                let current = self.layout.current();
                match per_window_placement(cfg, Some(geom)) {
                    Some(point) => {
                        effects.push(
                            Effect::PlaceWindowIndicator {
                                wid,
                                point,
                                size: cfg.per_window_indicator.size_px,
                                group: current,
                            },
                        );
                        proof {
                            assert(effects@.skip(1) =~= seq![effects@[1]]);
                        }
                    },
                    None => {
                        proof {
                            assert(effects@.skip(1) =~= Seq::<Effect>::empty());
                        }
                    },
                }
            },
            BackendEvent::WindowDestroyed { wid } => {
                self.registry.drop_window(wid);
                match self.remember_for {
                    Some(w) => {
                        if w == wid {
                            self.remember_for = None;
                            self.window_alt = None;
                        }
                    },
                    None => {},
                }
                effects.push(Effect::ForgetWindow { wid });
            },
            BackendEvent::MonitorsChanged { outputs } => {
                self.monitors.update_outputs(outputs);
                effects.push(Effect::PlaceMainIndicators);
            },
            BackendEvent::IndicatorClicked { button, ctrl, .. } => {
                if !ctrl && button == MouseButton::Left {
                    let next = cycle_target(&self.layout, self.window_alt);
                    effects.push(Effect::SetGroup(next));
                }
            },
            BackendEvent::IndicatorDragged { target, new_origin } => {
                match target {
                    IndicatorTarget::Main(name) => {
                        if cfg.main_indicator.confirm_drag_save {
                            effects.push(Effect::ConfirmDrag { output: name, origin: new_origin });
                        } else {
                            let key = name.clone();
                            self.monitors.save_position(OutputName(name), new_origin);
                            positions_insert(&mut cfg.main_indicator.positions, key, new_origin);
                            effects.push(Effect::SaveConfig);
                        }
                    },
                    IndicatorTarget::Window(_) => {},
                }
            },
            BackendEvent::WindowCreated { .. } => {},
        }
        effects
    }

    /// Acts on the answer to [`Effect::ConfirmDrag`]: a kept position is
    /// saved (in the live layout and the configuration, which is then
    /// written); a declined one snaps the indicators back to their saved
    /// places.
    pub fn drag_answered(&mut self, cfg: &mut Config, output: &str, origin: Point, keep: bool) -> (r: Vec<
        Effect,
    >)
        ensures
            final(self).layout@ == old(self).layout@,
            final(self).registry@ == old(self).registry@,
            final(self).rules@ == old(self).rules@,
            final(self).last_active_wid == old(self).last_active_wid,
            final(self).remember_for == old(self).remember_for,
            final(self).window_alt == old(self).window_alt,
            keep ==> final(self).monitors@ == (MonitorModel {
                saved: entries_insert(old(self).monitors@.saved, output@, origin),
                current: old(self).monitors@.current,
            }),
            keep ==> final(cfg)@ == (ConfigView {
                main_indicator: crate::config::MainView {
                    positions: entries_insert(old(cfg)@.main_indicator.positions, output@, origin),
                    ..old(cfg)@.main_indicator
                },
                ..old(cfg)@
            }),
            keep ==> r@ == seq![Effect::SaveConfig],
            !keep ==> final(self).monitors@ == old(self).monitors@,
            !keep ==> final(cfg)@ == old(cfg)@,
            !keep ==> r@ == seq![Effect::PlaceMainIndicators],
    {
        let mut effects: Vec<Effect> = Vec::new();
        if keep {
            record_main_position(cfg, &mut self.monitors, output, origin);
            effects.push(Effect::SaveConfig);
        } else {
            effects.push(Effect::PlaceMainIndicators);
        }
        proof {
            if keep {
                assert(effects@ =~= seq![Effect::SaveConfig]);
            } else {
                assert(effects@ =~= seq![Effect::PlaceMainIndicators]);
            }
        }
        effects
    }

    /// Applies a reloaded configuration: the layout keeps its group count
    /// and current group but takes the new two-state setup, the rules are
    /// rebuilt, and the new saved positions are merged into the known
    /// ones. Afterwards the icon cache is to be cleared and the main
    /// indicators placed anew.
    pub fn reload(&mut self, cfg: &mut Config, new_cfg: Config)
        ensures
            final(self).layout@ == (LayoutModel {
                max_groups: old(self).layout@.max_groups,
                current: old(self).layout@.current,
                previous: old(self).layout@.current,
                two_state: two_state_of(new_cfg@),
            }),
            final(self).rules@ == rules_of(new_cfg@),
            final(self).monitors@.saved == merge_positions(
                old(self).monitors@.saved,
                new_cfg@.main_indicator.positions,
            ),
            final(self).monitors@.current == old(self).monitors@.current,
            final(self).registry@ == old(self).registry@,
            final(self).last_active_wid == old(self).last_active_wid,
            final(self).remember_for == old(self).remember_for,
            final(self).window_alt == old(self).window_alt,
            final(cfg)@ == new_cfg@,
    {
        let cur = self.layout.current();
        let max = self.layout.max_groups();
        let mut s = LayoutState::new(max, cur, build_two_state(&new_cfg));
        s.observe(cur);
        self.layout = s;
        self.rules = build_rules(&new_cfg);
        let n = positions_len(&new_cfg.main_indicator.positions);
        let ghost start = self.monitors@.saved;
        let ghost newp = position_entries(new_cfg.main_indicator.positions);
        for i in 0..n
            invariant
                n == newp.len(),
                newp == position_entries(new_cfg.main_indicator.positions),
                self.layout@ == (LayoutModel {
                    max_groups: old(self).layout@.max_groups,
                    current: old(self).layout@.current,
                    previous: old(self).layout@.current,
                    two_state: two_state_of(new_cfg@),
                }),
                self.rules@ == rules_of(new_cfg@),
                self.registry@ == old(self).registry@,
                self.last_active_wid == old(self).last_active_wid,
                self.remember_for == old(self).remember_for,
                self.window_alt == old(self).window_alt,
                self.monitors@.saved == merge_positions(start, newp.take(i as int)),
                self.monitors@.current == old(self).monitors@.current,
        {
            let (k, v) = positions_entry(&new_cfg.main_indicator.positions, i);
            self.monitors.save_position(OutputName(k), v);
            proof {
                assert(newp.take(i + 1).drop_last() =~= newp.take(i as int));
                assert(newp.take(i + 1).last() == newp[i as int]);
            }
        }
        proof {
            assert(newp.take(n as int) =~= newp);
        }
        *cfg = new_cfg;
    }
}

/// `base` with every entry of `added` inserted in order.
pub open spec fn merge_positions(
    base: Seq<(Seq<char>, Point)>,
    added: Seq<(Seq<char>, Point)>,
) -> Seq<(Seq<char>, Point)>
    decreases added.len(),
{
    if added.len() == 0 {
        base
    } else {
        let prev = merge_positions(base, added.drop_last());
        entries_insert(prev, added.last().0, added.last().1)
    }
}

/// Records a dragged main-indicator position both in the live layout and
/// in the configuration (which is then to be written out).
pub fn record_main_position(cfg: &mut Config, ml: &mut MonitorLayout, output_name: &str, new_origin: Point)
    ensures
        final(ml)@.saved == entries_insert(old(ml)@.saved, output_name@, new_origin),
        final(ml)@.current == old(ml)@.current,
        final(cfg)@ == (ConfigView {
            main_indicator: crate::config::MainView {
                positions: entries_insert(
                    old(cfg)@.main_indicator.positions,
                    output_name@,
                    new_origin,
                ),
                ..old(cfg)@.main_indicator
            },
            ..old(cfg)@
        }),
{
    ml.save_position(OutputName(output_name.to_owned()), new_origin);
    positions_insert(&mut cfg.main_indicator.positions, output_name.to_owned(), new_origin);
}

/// Records positions sent over D-Bus, in the order given, both in the
/// live layout and in the configuration.
pub fn record_positions(cfg: &mut Config, ml: &mut MonitorLayout, positions: &[(String, i32, i32)])
    ensures
        final(ml)@.saved == merge_positions(old(ml)@.saved, sent_positions(positions@)),
        final(ml)@.current == old(ml)@.current,
        final(cfg)@ == (ConfigView {
            main_indicator: crate::config::MainView {
                positions: merge_positions(
                    old(cfg)@.main_indicator.positions,
                    sent_positions(positions@),
                ),
                ..old(cfg)@.main_indicator
            },
            ..old(cfg)@
        }),
{
    let ghost ml0 = ml@.saved;
    let ghost cfg0 = cfg@;
    let ghost sent = sent_positions(positions@);
    for i in 0..positions.len()
        invariant
            sent == sent_positions(positions@),
            ml@.saved == merge_positions(ml0, sent.take(i as int)),
            ml@.current == old(ml)@.current,
            cfg@ == (ConfigView {
                main_indicator: crate::config::MainView {
                    positions: merge_positions(cfg0.main_indicator.positions, sent.take(i as int)),
                    ..cfg0.main_indicator
                },
                ..cfg0
            }),
    {
        let (name, x, y) = &positions[i];
        let p = Point::new(*x, *y);
        record_main_position(cfg, ml, name.as_str(), p);
        proof {
            assert(sent.take(i + 1).drop_last() =~= sent.take(i as int));
            assert(sent.take(i + 1).last() == sent[i as int]);
        }
    }
    proof {
        assert(sent.take(positions@.len() as int) =~= sent);
    }
}

/// `(name, x, y)` triples as position entries.
pub open spec fn sent_positions(v: Seq<(String, i32, i32)>) -> Seq<(Seq<char>, Point)> {
    v.map_values(|e: (String, i32, i32)| (e.0@, Point { x: e.1, y: e.2 }))
}

/// The question asked before a dragged main-indicator position is saved.
pub open spec fn drag_question(name: Seq<char>, x: i32, y: i32) -> Seq<char> {
    "Save new main-indicator position for "@ + name + " at screen coordinates ("@
        + signed_decimal(x as int) + ", "@ + signed_decimal(y as int) + ")?"@
}

/// The question asked before a dragged main-indicator position is saved.
pub fn drag_confirm_text(output_name: &str, x: i32, y: i32) -> (r: String)
    ensures
        r@ == drag_question(output_name@, x, y),
{
    let mut s = "Save new main-indicator position for ".to_owned();
    s.append(output_name);
    s.append(" at screen coordinates (");
    push_i32(&mut s, x);
    s.append(", ");
    push_i32(&mut s, y);
    s.append(")?");
    proof {
        assert(s@ =~= drag_question(output_name@, x, y));
    }
    s
}

/// Whether to save a dragged position, given the answers of the two
/// dialog tools tried in turn (`None` when a tool could not be run):
/// the first tool that ran decides; when neither could run, the
/// position is saved anyway.
pub fn dialog_verdict(zenity: Option<bool>, kdialog: Option<bool>) -> (r: bool)
    ensures
        r == match zenity {
            Some(ok) => ok,
            None => match kdialog {
                Some(ok) => ok,
                None => true,
            },
        },
{
    match zenity {
        Some(ok) => ok,
        None => match kdialog {
            Some(ok) => ok,
            None => true,
        },
    }
}

/// A fresh install always renders something: with the bundled flags
/// tried last, a name that has a builtin flag always resolves, whatever
/// the other search paths hold.
pub proof fn lemma_builtin_name_always_resolves(
    name: Seq<char>,
    paths: Seq<Seq<char>>,
    prefer_svg: bool,
    home: Option<Seq<char>>,
    existing: Seq<Seq<char>>,
)
    requires
        crate::bundle::builtin_id(name) is Some,
    ensures
        resolve_from(name, search_paths_with_builtin(paths), 0, prefer_svg, home, existing) is Some,
{
    let p = search_paths_with_builtin(paths);
    let j = if paths.contains("builtin"@) {
        choose|j: int| 0 <= j < paths.len() && paths[j] == "builtin"@
    } else {
        paths.len() as int
    };
    assert(p[j] == "builtin"@);
    lemma_resolves_before(name, p, j, 0, prefer_svg, home, existing);
}

/// Resolution from any index up to one holding `"builtin"` succeeds for
/// a builtin name.
proof fn lemma_resolves_before(
    name: Seq<char>,
    p: Seq<Seq<char>>,
    j: int,
    i: int,
    prefer_svg: bool,
    home: Option<Seq<char>>,
    existing: Seq<Seq<char>>,
)
    requires
        crate::bundle::builtin_id(name) is Some,
        0 <= i <= j < p.len(),
        p[j] == "builtin"@,
    ensures
        resolve_from(name, p, i, prefer_svg, home, existing) is Some,
    decreases j - i,
{
    if i < j {
        lemma_resolves_before(name, p, j, i + 1, prefer_svg, home, existing);
    }
}

} // verus!
