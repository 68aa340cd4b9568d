//! Configuration schema.
//!
//! The on-disk format is TOML at `$XDG_CONFIG_HOME/xxkb/config.toml`
//! (by default `~/.config/xxkb/config.toml`). Reading and writing the
//! file is the binary's business; this module holds the schema, its
//! defaults, the cross-field validation run after loading, and value
//! equality (used to tell whether there are unsaved changes).

use indexmap::IndexMap;
use vstd::prelude::*;

use crate::geometry::{Offset, Point};
use crate::ordered_map::{
    entries_equiv, entries_insert, entries_lookup, key_index, lemma_key_index, mapping_clone,
    mapping_entries, mapping_eq, mapping_get_ref, mapping_insert, mapping_new, position_entries,
    positions_clone, positions_eq, positions_new,
};
use crate::rules::{clone_app_rule, rules_view, AppRule, RuleModel};
use crate::text::{chars_of, decimal, decimal_string, push_decimal};

verus! {

/// Errors loading, saving or validating the configuration.
#[derive(Debug, Clone)]
pub enum ConfigError {
    /// I/O error, with the system's message.
    Io(String),
    /// The TOML file (or an `XXKB_*` variable) could not be read into
    /// the schema.
    Load(String),
    /// The configuration could not be written as TOML.
    Serialize(String),
    /// Validation failed after parsing.
    Validation(String),
}

/// Keyboard modifier name (mirrors legacy `XXkb.keymask.cycle`).
#[derive(Debug, Clone, Copy, PartialEq, Eq, Structural)]
pub enum ModifierName {
    /// No modifier required.
    NoModifier,
    /// Shift.
    Shift,
    /// CapsLock (legacy `lock`).
    Lock,
    /// Control.
    Ctrl,
    /// Alt.
    Alt,
    /// Mod1.
    Mod1,
    /// Mod2.
    Mod2,
    /// Mod3.
    Mod3,
    /// Mod4.
    Mod4,
    /// Mod5.
    Mod5,
}

/// Global flags.
#[derive(Debug, Clone, Copy, PartialEq, Eq, Structural)]
pub struct GeneralConfig {
    /// Two-state cycle between `base_group` and `alt_group`.
    pub two_state: bool,
    /// Primary group (1-based).
    pub base_group: u8,
    /// Alternative group (1-based).
    pub alt_group: u8,
    /// Modifier required to cycle layouts via the legacy hotkey.
    pub cycle_modifier: ModifierName,
    /// If true, the meaning of the `Ignore` rules is inverted.
    pub ignore_reverse: bool,
}

impl GeneralConfig {
    /// Defaults: no two-state, base group 1, alt group 2, no modifier.
    pub open spec fn spec_default() -> GeneralConfig {
        GeneralConfig {
            two_state: false,
            base_group: 1,
            alt_group: 2,
            cycle_modifier: ModifierName::NoModifier,
            ignore_reverse: false,
        }
    }
}

impl Default for GeneralConfig {
    fn default() -> (r: Self)
        ensures
            r == GeneralConfig::spec_default(),
    {
        GeneralConfig {
            two_state: false,
            base_group: 1,
            alt_group: 2,
            cycle_modifier: ModifierName::NoModifier,
            ignore_reverse: false,
        }
    }
}

/// Display mode for the main indicator.
#[derive(Debug, Clone, Copy, PartialEq, Eq, Structural)]
pub enum MainIndicatorMode {
    /// Only on the RandR primary output.
    PrimaryOnly,
    /// On every active output.
    AllDisplays,
}

impl Default for MainIndicatorMode {
    fn default() -> (r: Self)
        ensures
            r == MainIndicatorMode::AllDisplays,
    {
        MainIndicatorMode::AllDisplays
    }
}

/// Border around an indicator window.
#[derive(Debug)]
pub struct BorderConfig {
    /// Master switch.
    pub enabled: bool,
    /// Hex color string `#RRGGBB` or `#RRGGBBAA`.
    pub color: String,
    /// Border width in pixels.
    pub width: u32,
}

/// Abstract value of a [`BorderConfig`].
pub struct BorderView {
    /// Master switch.
    pub enabled: bool,
    /// Color text.
    pub color: Seq<char>,
    /// Width in pixels.
    pub width: u32,
}

impl View for BorderConfig {
    type V = BorderView;

    open spec fn view(&self) -> BorderView {
        BorderView { enabled: self.enabled, color: self.color@, width: self.width }
    }
}

impl BorderConfig {
    /// Defaults: disabled, black, one pixel wide.
    pub open spec fn spec_default() -> BorderView {
        BorderView { enabled: false, color: "#000000"@, width: 1 }
    }
}

impl Default for BorderConfig {
    fn default() -> (r: Self)
        ensures
            r@ == BorderConfig::spec_default(),
    {
        BorderConfig { enabled: false, color: "#000000".to_owned(), width: 1 }
    }
}

impl Clone for BorderConfig {
    fn clone(&self) -> (r: Self)
        ensures
            r@ == self@,
    {
        BorderConfig { enabled: self.enabled, color: self.color.clone(), width: self.width }
    }
}

impl PartialEq for BorderConfig {
    fn eq(&self, other: &Self) -> (r: bool) {
        self.enabled == other.enabled && self.color == other.color && self.width == other.width
    }
}

impl vstd::std_specs::cmp::PartialEqSpecImpl for BorderConfig {
    open spec fn obeys_eq_spec() -> bool {
        true
    }

    open spec fn eq_spec(&self, other: &Self) -> bool {
        self@ == other@
    }
}

impl Eq for BorderConfig {}

/// Main (per-display) indicator settings.
#[derive(Debug)]
pub struct MainIndicatorConfig {
    /// Master switch.
    pub enable: bool,
    /// Primary-only or all displays.
    pub mode: MainIndicatorMode,
    /// Side length in pixels (square).
    pub size_px: u32,
    /// Optional border.
    pub border: BorderConfig,
    /// Saved positions, keyed by RandR output name.
    pub positions: IndexMap<String, Point>,
    /// Ask before a dragged position is saved.
    pub confirm_drag_save: bool,
}

/// Abstract value of a [`MainIndicatorConfig`].
pub struct MainView {
    /// Master switch.
    pub enable: bool,
    /// Display mode.
    pub mode: MainIndicatorMode,
    /// Side length in pixels.
    pub size_px: u32,
    /// Border.
    pub border: BorderView,
    /// Saved positions, in insertion order.
    pub positions: Seq<(Seq<char>, Point)>,
    /// Ask before a dragged position is saved.
    pub confirm_drag_save: bool,
}

impl View for MainIndicatorConfig {
    type V = MainView;

    open spec fn view(&self) -> MainView {
        MainView {
            enable: self.enable,
            mode: self.mode,
            size_px: self.size_px,
            border: self.border@,
            positions: position_entries(self.positions),
            confirm_drag_save: self.confirm_drag_save,
        }
    }
}

impl MainIndicatorConfig {
    /// Defaults: enabled on all displays, 48 px, no border, no saved
    /// positions, no confirmation of dragged positions.
    pub open spec fn spec_default() -> MainView {
        MainView {
            enable: true,
            mode: MainIndicatorMode::AllDisplays,
            size_px: 48,
            border: BorderConfig::spec_default(),
            positions: Seq::empty(),
            confirm_drag_save: false,
        }
    }
}

impl Default for MainIndicatorConfig {
    fn default() -> (r: Self)
        ensures
            r@ == MainIndicatorConfig::spec_default(),
    {
        MainIndicatorConfig {
            enable: true,
            mode: MainIndicatorMode::AllDisplays,
            size_px: 48,
            border: BorderConfig::default(),
            positions: positions_new(),
            confirm_drag_save: false,
        }
    }
}

impl Clone for MainIndicatorConfig {
    fn clone(&self) -> (r: Self)
        ensures
            r@ == self@,
            crate::ordered_map::keys_unique(r@.positions),
    {
        MainIndicatorConfig {
            enable: self.enable,
            mode: self.mode,
            size_px: self.size_px,
            border: self.border.clone(),
            positions: positions_clone(&self.positions),
            confirm_drag_save: self.confirm_drag_save,
        }
    }
}

/// Equality of main-indicator settings, positions compared as maps.
pub open spec fn main_equiv(a: MainView, b: MainView) -> bool {
    &&& a.enable == b.enable
    &&& a.mode == b.mode
    &&& a.size_px == b.size_px
    &&& a.border == b.border
    &&& entries_equiv(a.positions, b.positions)
    &&& a.confirm_drag_save == b.confirm_drag_save
}

impl PartialEq for MainIndicatorConfig {
    fn eq(&self, other: &Self) -> (r: bool) {
        self.enable == other.enable && self.mode == other.mode && self.size_px == other.size_px
            && self.border == other.border && positions_eq(&self.positions, &other.positions)
            && self.confirm_drag_save == other.confirm_drag_save
    }
}

impl vstd::std_specs::cmp::PartialEqSpecImpl for MainIndicatorConfig {
    open spec fn obeys_eq_spec() -> bool {
        true
    }

    open spec fn eq_spec(&self, other: &Self) -> bool {
        main_equiv(self@, other@)
    }
}

impl Eq for MainIndicatorConfig {}

/// Per-window indicator settings.
#[derive(Debug)]
pub struct PerWindowIndicatorConfig {
    /// Master switch.
    pub enable: bool,
    /// Side length in pixels.
    pub size_px: u32,
    /// Offset relative to the title bar.
    pub offset: Offset,
    /// Optional border.
    pub border: BorderConfig,
}

/// Abstract value of a [`PerWindowIndicatorConfig`].
pub struct PerWindowView {
    /// Master switch.
    pub enable: bool,
    /// Side length in pixels.
    pub size_px: u32,
    /// Offset relative to the title bar.
    pub offset: Offset,
    /// Border.
    pub border: BorderView,
}

impl View for PerWindowIndicatorConfig {
    type V = PerWindowView;

    open spec fn view(&self) -> PerWindowView {
        PerWindowView {
            enable: self.enable,
            size_px: self.size_px,
            offset: self.offset,
            border: self.border@,
        }
    }
}

impl PerWindowIndicatorConfig {
    /// Defaults: enabled, 15 px, offset `-60+7`, no border.
    pub open spec fn spec_default() -> PerWindowView {
        PerWindowView {
            enable: true,
            size_px: 15,
            offset: Offset::spec_default(),
            border: BorderConfig::spec_default(),
        }
    }
}

impl Default for PerWindowIndicatorConfig {
    fn default() -> (r: Self)
        ensures
            r@ == PerWindowIndicatorConfig::spec_default(),
    {
        PerWindowIndicatorConfig {
            enable: true,
            size_px: 15,
            offset: Offset { x: -60, y: 7 },
            border: BorderConfig::default(),
        }
    }
}

impl Clone for PerWindowIndicatorConfig {
    fn clone(&self) -> (r: Self)
        ensures
            r@ == self@,
    {
        PerWindowIndicatorConfig {
            enable: self.enable,
            size_px: self.size_px,
            offset: self.offset,
            border: self.border.clone(),
        }
    }
}

impl PartialEq for PerWindowIndicatorConfig {
    fn eq(&self, other: &Self) -> (r: bool) {
        self.enable == other.enable && self.size_px == other.size_px && self.offset
            == other.offset && self.border == other.border
    }
}

impl vstd::std_specs::cmp::PartialEqSpecImpl for PerWindowIndicatorConfig {
    open spec fn obeys_eq_spec() -> bool {
        true
    }

    open spec fn eq_spec(&self, other: &Self) -> bool {
        self@ == other@
    }
}

impl Eq for PerWindowIndicatorConfig {}

/// Icon (flag) configuration.
#[derive(Debug)]
pub struct IconsConfig {
    /// Prefer SVG over raster when both are available.
    pub prefer_svg: bool,
    /// Search paths, in order. The literals `"system"` and `"builtin"`
    /// stand for the system-wide directory and the bundled icons.
    pub search_paths: Vec<String>,
    /// Mapping from a 1-based group, written in decimal, to an icon name.
    pub mapping: IndexMap<String, String>,
}

/// Abstract value of an [`IconsConfig`].
pub struct IconsView {
    /// SVG preference.
    pub prefer_svg: bool,
    /// Search paths, in order.
    pub search_paths: Seq<Seq<char>>,
    /// Group-to-icon mapping, in insertion order.
    pub mapping: Seq<(Seq<char>, Seq<char>)>,
}

/// The views of a list of strings.
pub open spec fn strings_view(v: Seq<String>) -> Seq<Seq<char>> {
    v.map_values(|s: String| s@)
}

impl View for IconsConfig {
    type V = IconsView;

    open spec fn view(&self) -> IconsView {
        IconsView {
            prefer_svg: self.prefer_svg,
            search_paths: strings_view(self.search_paths@),
            mapping: mapping_entries(self.mapping),
        }
    }
}

/// The default icon mapping: groups 1 to 4 show `en`, `ru`, `ua`, `by`.
pub open spec fn default_mapping() -> Seq<(Seq<char>, Seq<char>)> {
    seq![("1"@, "en"@), ("2"@, "ru"@), ("3"@, "ua"@), ("4"@, "by"@)]
}

/// The default search paths: the user's icon directory, then the
/// system one, then the bundled icons.
pub open spec fn default_search_paths() -> Seq<Seq<char>> {
    seq!["~/.local/share/icons/xxkb"@, "system"@, "builtin"@]
}

impl IconsConfig {
    /// Defaults: prefer SVG, the default search paths and mapping.
    pub open spec fn spec_default() -> IconsView {
        IconsView {
            prefer_svg: true,
            search_paths: default_search_paths(),
            mapping: default_mapping(),
        }
    }

    /// The icon name configured for a 1-based group.
    pub fn icon_for(&self, group_one_based: u8) -> (r: Option<&str>)
        ensures
            match r {
                Some(name) => entries_lookup(self@.mapping, decimal(group_one_based as nat))
                    == Some(name@),
                None => entries_lookup(self@.mapping, decimal(group_one_based as nat)) is None,
            },
    {
        let key = decimal_string(group_one_based as u32);
        match mapping_get_ref(&self.mapping, key.as_str()) {
            Some(name) => Some(name.as_str()),
            None => None,
        }
    }
}

impl Default for IconsConfig {
    fn default() -> (r: Self)
        ensures
            r@ == IconsConfig::spec_default(),
    {
        let mut search_paths: Vec<String> = Vec::new();
        search_paths.push("~/.local/share/icons/xxkb".to_owned());
        search_paths.push("system".to_owned());
        search_paths.push("builtin".to_owned());
        let mut mapping = mapping_new();
        mapping_insert(&mut mapping, "1".to_owned(), "en".to_owned());
        mapping_insert(&mut mapping, "2".to_owned(), "ru".to_owned());
        mapping_insert(&mut mapping, "3".to_owned(), "ua".to_owned());
        mapping_insert(&mut mapping, "4".to_owned(), "by".to_owned());
        proof {
            reveal_strlit("1");
            reveal_strlit("2");
            reveal_strlit("3");
            reveal_strlit("4");
            assert("1"@[0] != "2"@[0] && "1"@[0] != "3"@[0] && "1"@[0] != "4"@[0]);
            assert("2"@[0] != "3"@[0] && "2"@[0] != "4"@[0] && "3"@[0] != "4"@[0]);
            let e0 = Seq::<(Seq<char>, Seq<char>)>::empty();
            let e1 = e0.push(("1"@, "en"@));
            let e2 = e1.push(("2"@, "ru"@));
            let e3 = e2.push(("3"@, "ua"@));
            lemma_key_index(e0, "1"@);
            lemma_key_index(e1, "2"@);
            assert(e1[0].0 != "2"@);
            lemma_key_index(e2, "3"@);
            assert(e2[0].0 != "3"@);
            assert(e2[1].0 != "3"@);
            lemma_key_index(e3, "4"@);
            assert(e3[0].0 != "4"@);
            assert(e3[1].0 != "4"@);
            assert(e3[2].0 != "4"@);
            assert(mapping_entries(mapping) =~= default_mapping());
            assert(strings_view(search_paths@) =~= default_search_paths());
        }
        IconsConfig { prefer_svg: true, search_paths, mapping }
    }
}

/// A copy of a list of strings.
pub fn clone_strings(v: &Vec<String>) -> (r: Vec<String>)
    ensures
        strings_view(r@) == strings_view(v@),
{
    let mut out: Vec<String> = Vec::new();
    for i in 0..v.len()
        invariant
            strings_view(out@) == strings_view(v@.take(i as int)),
    {
        let ghost before = out@;
        out.push(v[i].clone());
        proof {
            assert(v@.take(i + 1) =~= v@.take(i as int).push(v@[i as int]));
            assert(strings_view(out@) =~= strings_view(before).push(v@[i as int]@));
            assert(strings_view(v@.take(i + 1)) =~= strings_view(v@.take(i as int)).push(
                v@[i as int]@,
            ));
        }
    }
    proof {
        assert(v@.take(v@.len() as int) =~= v@);
    }
    out
}

/// Element-wise equality of two lists of strings.
pub fn strings_eq(a: &Vec<String>, b: &Vec<String>) -> (r: bool)
    ensures
        r == (strings_view(a@) == strings_view(b@)),
{
    if a.len() != b.len() {
        proof {
            assert(strings_view(a@).len() != strings_view(b@).len());
        }
        return false;
    }
    for i in 0..a.len()
        invariant
            a@.len() == b@.len(),
            forall|j: int| 0 <= j < i ==> a@[j]@ == b@[j]@,
    {
        if a[i] != b[i] {
            proof {
                assert(strings_view(a@)[i as int] != strings_view(b@)[i as int]);
            }
            return false;
        }
    }
    proof {
        assert(strings_view(a@) =~= strings_view(b@));
    }
    true
}

impl Clone for IconsConfig {
    fn clone(&self) -> (r: Self)
        ensures
            r@ == self@,
            crate::ordered_map::keys_unique(r@.mapping),
    {
        IconsConfig {
            prefer_svg: self.prefer_svg,
            search_paths: clone_strings(&self.search_paths),
            mapping: mapping_clone(&self.mapping),
        }
    }
}

/// Equality of icon settings, the mapping compared as a map.
pub open spec fn icons_equiv(a: IconsView, b: IconsView) -> bool {
    &&& a.prefer_svg == b.prefer_svg
    &&& a.search_paths == b.search_paths
    &&& entries_equiv(a.mapping, b.mapping)
}

impl PartialEq for IconsConfig {
    fn eq(&self, other: &Self) -> (r: bool) {
        self.prefer_svg == other.prefer_svg && strings_eq(&self.search_paths, &other.search_paths)
            && mapping_eq(&self.mapping, &other.mapping)
    }
}

impl vstd::std_specs::cmp::PartialEqSpecImpl for IconsConfig {
    open spec fn obeys_eq_spec() -> bool {
        true
    }

    open spec fn eq_spec(&self, other: &Self) -> bool {
        icons_equiv(self@, other@)
    }
}

impl Eq for IconsConfig {}

/// When to play the layout-switch sound.
#[derive(Debug, Clone, Copy, PartialEq, Eq, Structural)]
pub enum SoundMode {
    /// Never.
    Off,
    /// Only when the user pressed the hotkey or clicked.
    ManualOnly,
    /// Only on programmatic switches (focus change).
    AutoOnly,
    /// Always.
    Both,
}

/// Sound configuration.
#[derive(Debug)]
pub struct SoundConfig {
    /// Playback mode.
    pub mode: SoundMode,
    /// Sound file; empty means the built-in click.
    pub file: String,
}

/// Abstract value of a [`SoundConfig`].
pub struct SoundView {
    /// Playback mode.
    pub mode: SoundMode,
    /// Sound file path.
    pub file: Seq<char>,
}

impl View for SoundConfig {
    type V = SoundView;

    open spec fn view(&self) -> SoundView {
        SoundView { mode: self.mode, file: self.file@ }
    }
}

impl SoundConfig {
    /// Defaults: off, built-in click.
    pub open spec fn spec_default() -> SoundView {
        SoundView { mode: SoundMode::Off, file: Seq::empty() }
    }
}

impl Default for SoundConfig {
    fn default() -> (r: Self)
        ensures
            r@ == SoundConfig::spec_default(),
    {
        SoundConfig { mode: SoundMode::Off, file: String::new() }
    }
}

impl Clone for SoundConfig {
    fn clone(&self) -> (r: Self)
        ensures
            r@ == self@,
    {
        SoundConfig { mode: self.mode, file: self.file.clone() }
    }
}

impl PartialEq for SoundConfig {
    fn eq(&self, other: &Self) -> (r: bool) {
        self.mode == other.mode && self.file == other.file
    }
}

impl vstd::std_specs::cmp::PartialEqSpecImpl for SoundConfig {
    open spec fn obeys_eq_spec() -> bool {
        true
    }

    open spec fn eq_spec(&self, other: &Self) -> bool {
        self@ == other@
    }
}

impl Eq for SoundConfig {}

/// Top-level configuration.
#[derive(Debug)]
pub struct Config {
    /// Global, mode-affecting flags.
    pub general: GeneralConfig,
    /// The indicator shown on each display.
    pub main_indicator: MainIndicatorConfig,
    /// The indicator drawn over each window's title bar.
    pub per_window_indicator: PerWindowIndicatorConfig,
    /// Icons.
    pub icons: IconsConfig,
    /// Sound.
    pub sound: SoundConfig,
    /// Per-application rules, in order.
    pub app_rules: Vec<AppRule>,
}

/// Abstract value of a [`Config`].
pub struct ConfigView {
    /// Global flags.
    pub general: GeneralConfig,
    /// Main indicator.
    pub main_indicator: MainView,
    /// Per-window indicator.
    pub per_window_indicator: PerWindowView,
    /// Icons.
    pub icons: IconsView,
    /// Sound.
    pub sound: SoundView,
    /// Rules, in order.
    pub app_rules: Seq<RuleModel>,
}

impl View for Config {
    type V = ConfigView;

    open spec fn view(&self) -> ConfigView {
        ConfigView {
            general: self.general,
            main_indicator: self.main_indicator@,
            per_window_indicator: self.per_window_indicator@,
            icons: self.icons@,
            sound: self.sound@,
            app_rules: rules_view(self.app_rules@),
        }
    }
}

/// The default configuration.
pub open spec fn default_config() -> ConfigView {
    ConfigView {
        general: GeneralConfig::spec_default(),
        main_indicator: MainIndicatorConfig::spec_default(),
        per_window_indicator: PerWindowIndicatorConfig::spec_default(),
        icons: IconsConfig::spec_default(),
        sound: SoundConfig::spec_default(),
        app_rules: Seq::empty(),
    }
}

/// Value equality of configurations, the two maps compared as maps
/// (order does not matter) and everything else exactly.
pub open spec fn config_equiv(a: ConfigView, b: ConfigView) -> bool {
    &&& a.general == b.general
    &&& main_equiv(a.main_indicator, b.main_indicator)
    &&& a.per_window_indicator == b.per_window_indicator
    &&& icons_equiv(a.icons, b.icons)
    &&& a.sound == b.sound
    &&& a.app_rules == b.app_rules
}

/// A copy of a list of rules.
pub fn clone_rules(v: &Vec<AppRule>) -> (r: Vec<AppRule>)
    ensures
        rules_view(r@) == rules_view(v@),
{
    let mut out: Vec<AppRule> = Vec::new();
    for i in 0..v.len()
        invariant
            rules_view(out@) == rules_view(v@.take(i as int)),
    {
        let ghost before = out@;
        out.push(clone_app_rule(&v[i]));
        proof {
            assert(v@.take(i + 1) =~= v@.take(i as int).push(v@[i as int]));
            assert(rules_view(out@) =~= rules_view(before).push(v@[i as int]@));
            assert(rules_view(v@.take(i + 1)) =~= rules_view(v@.take(i as int)).push(
                v@[i as int]@,
            ));
        }
    }
    proof {
        assert(v@.take(v@.len() as int) =~= v@);
    }
    out
}

/// Element-wise equality of two lists of rules.
pub fn rules_eq(a: &Vec<AppRule>, b: &Vec<AppRule>) -> (r: bool)
    ensures
        r == (rules_view(a@) == rules_view(b@)),
{
    if a.len() != b.len() {
        proof {
            assert(rules_view(a@).len() != rules_view(b@).len());
        }
        return false;
    }
    for i in 0..a.len()
        invariant
            a@.len() == b@.len(),
            forall|j: int| 0 <= j < i ==> a@[j]@ == b@[j]@,
    {
        if a[i] != b[i] {
            proof {
                assert(rules_view(a@)[i as int] != rules_view(b@)[i as int]);
            }
            return false;
        }
    }
    proof {
        assert(rules_view(a@) =~= rules_view(b@));
    }
    true
}

impl Default for Config {
    fn default() -> (r: Self)
        ensures
            r@ == default_config(),
    {
        let r = Config {
            general: GeneralConfig::default(),
            main_indicator: MainIndicatorConfig::default(),
            per_window_indicator: PerWindowIndicatorConfig::default(),
            icons: IconsConfig::default(),
            sound: SoundConfig::default(),
            app_rules: Vec::new(),
        };
        proof {
            assert(rules_view(r.app_rules@) =~= Seq::<RuleModel>::empty());
        }
        r
    }
}

impl Clone for Config {
    fn clone(&self) -> (r: Self)
        ensures
            r@ == self@,
            maps_well_formed(r@),
    {
        Config {
            general: self.general,
            main_indicator: self.main_indicator.clone(),
            per_window_indicator: self.per_window_indicator.clone(),
            icons: self.icons.clone(),
            sound: self.sound.clone(),
            app_rules: clone_rules(&self.app_rules),
        }
    }
}

impl PartialEq for Config {
    fn eq(&self, other: &Self) -> (r: bool) {
        self.general == other.general && self.main_indicator == other.main_indicator
            && self.per_window_indicator == other.per_window_indicator && self.icons
            == other.icons && self.sound == other.sound && rules_eq(
            &self.app_rules,
            &other.app_rules,
        )
    }
}

impl vstd::std_specs::cmp::PartialEqSpecImpl for Config {
    open spec fn obeys_eq_spec() -> bool {
        true
    }

    open spec fn eq_spec(&self, other: &Self) -> bool {
        config_equiv(self@, other@)
    }
}

impl Eq for Config {}

/// The first cross-field constraint `c` breaks, as the message
/// [`Config::validate`] reports, or `None` when there is none.
pub open spec fn validation_message(c: ConfigView) -> Option<Seq<char>> {
    if c.general.base_group == 0 || c.general.base_group > 4 {
        Some("general.base_group must be in 1..=4, got "@ + decimal(c.general.base_group as nat))
    } else if c.general.alt_group == 0 || c.general.alt_group > 4 {
        Some("general.alt_group must be in 1..=4, got "@ + decimal(c.general.alt_group as nat))
    } else if c.main_indicator.size_px == 0 {
        Some("main_indicator.size_px must be > 0"@)
    } else if c.per_window_indicator.size_px == 0 {
        Some("per_window_indicator.size_px must be > 0"@)
    } else if !(c.main_indicator.border.color.len() > 0 && c.main_indicator.border.color[0]
        == '#') {
        Some("main_indicator.border.color must start with '#', got "@
            + c.main_indicator.border.color)
    } else {
        None
    }
}

impl Config {
    /// Cross-field validation, run after loading: both groups in
    /// `1..=4`, both sizes positive, and the main border color starting
    /// with `#`. The first violation is reported.
    pub fn validate(&self) -> (r: Result<(), ConfigError>)
        ensures
            match r {
                Ok(()) => validation_message(self@) is None,
                Err(ConfigError::Validation(m)) => validation_message(self@) == Some(m@),
                Err(_) => false,
            },
    {
        let base = self.general.base_group;
        if base == 0 || base > 4 {
            let mut m = "general.base_group must be in 1..=4, got ".to_owned();
            push_decimal(&mut m, base as u32);
            return Err(ConfigError::Validation(m));
        }
        let alt = self.general.alt_group;
        if alt == 0 || alt > 4 {
            let mut m = "general.alt_group must be in 1..=4, got ".to_owned();
            push_decimal(&mut m, alt as u32);
            return Err(ConfigError::Validation(m));
        }
        if self.main_indicator.size_px == 0 {
            return Err(ConfigError::Validation("main_indicator.size_px must be > 0".to_owned()));
        }
        if self.per_window_indicator.size_px == 0 {
            return Err(
                ConfigError::Validation("per_window_indicator.size_px must be > 0".to_owned()),
            );
        }
        let color = chars_of(self.main_indicator.border.color.as_str());
        if !(color.len() > 0 && color[0] == '#') {
            let mut m = "main_indicator.border.color must start with '#', got ".to_owned();
            m.append(self.main_indicator.border.color.as_str());
            return Err(ConfigError::Validation(m));
        }
        Ok(())
    }
}

/// The default configuration passes validation.
pub proof fn lemma_default_config_valid()
    ensures
        validation_message(default_config()) is None,
{
    reveal_strlit("#000000");
}

/// Whether the two maps of a configuration have distinct keys, as every
/// `IndexMap` does.
pub open spec fn maps_well_formed(c: ConfigView) -> bool {
    crate::ordered_map::keys_unique(c.main_indicator.positions)
        && crate::ordered_map::keys_unique(c.icons.mapping)
}

/// A configuration equals itself.
pub proof fn lemma_config_equiv_reflexive(c: ConfigView)
    requires
        maps_well_formed(c),
    ensures
        config_equiv(c, c),
{
    crate::ordered_map::lemma_equiv_refl(c.main_indicator.positions);
    crate::ordered_map::lemma_equiv_refl(c.icons.mapping);
}


/// A configuration passes validation exactly when both groups lie in
/// `1..=4`, both indicator sizes are positive, and the main border color
/// starts with `#`.
pub proof fn lemma_valid_exactly_when_in_range(c: ConfigView)
    ensures
        validation_message(c) is None <==> {
            &&& 1 <= c.general.base_group <= 4
            &&& 1 <= c.general.alt_group <= 4
            &&& c.main_indicator.size_px > 0
            &&& c.per_window_indicator.size_px > 0
            &&& c.main_indicator.border.color.len() > 0
            &&& c.main_indicator.border.color[0] == '#'
        },
{
}

} // verus!
