//! In-memory editor around a [`Config`], for the configurator GUI.
//!
//! The editor keeps two snapshots: `baseline`, the state last persisted
//! to (or loaded from) disk, and `current`, the working copy the GUI
//! mutates. [`ConfigEditor::dirty`] tells whether they differ. Every
//! setter validates its input first and leaves the editor untouched when
//! it refuses, so the working copy is never half-updated.
//!
//! Reading and writing the file is the binary's part: it loads a
//! [`Config`] and hands it to [`ConfigEditor::from_parts`] or
//! [`ConfigEditor::replace_all`]; to save, it asks
//! [`ConfigEditor::check_before_save`], writes the file, then calls
//! [`ConfigEditor::mark_saved`].

use vstd::prelude::*;

use crate::config::{
    BorderConfig, BorderView, Config, ConfigError, ConfigView, MainIndicatorMode, ModifierName,
    SoundMode, config_equiv, strings_view, validation_message,
};
use crate::geometry::{Offset, Point};
use crate::glob::{check_glob, glob_error};
use crate::monitors::OutputName;
use crate::ordered_map::{
    entries_insert, entries_lookup, entries_remove, mapping_insert, positions_insert,
    positions_shift_remove,
};
use crate::rules::{AppRule, RuleAction, RuleModel, rules_view};
use crate::text::{
    chars_of, decimal, decimal_string, find_char_from, index_of_from, lemma_index_of_from,
    string_of, subvec, trim, trim_chars,
};
use crate::validation::{ValidationError, ValidationErrorView};

verus! {

/// Editor wrapping a [`Config`] with dirty-tracking.
#[derive(Debug)]
pub struct ConfigEditor {
    baseline: Config,
    current: Config,
    path: String,
}

/// Abstract state of a [`ConfigEditor`].
pub struct EditorView {
    /// Last persisted snapshot.
    pub baseline: ConfigView,
    /// Working copy.
    pub current: ConfigView,
    /// The file the editor saves to.
    pub path: Seq<char>,
}

impl View for ConfigEditor {
    type V = EditorView;

    closed spec fn view(&self) -> EditorView {
        EditorView { baseline: self.baseline@, current: self.current@, path: self.path@ }
    }
}

/// `e` with its working copy replaced by `c`.
pub open spec fn with_current(e: EditorView, c: ConfigView) -> EditorView {
    EditorView { current: c, ..e }
}

/// Why a rule cannot be added: its pattern does not parse as a glob, or
/// its alt group lies outside `1..=4`.
pub open spec fn rule_error(r: RuleModel) -> Option<ValidationErrorView> {
    match glob_error(r.pattern) {
        Some(reason) => Some(ValidationErrorView::BadGlob { pattern: r.pattern, reason }),
        None => match r.action {
            RuleAction::AltGroup(g) => if g@ + 1 <= 4 {
                None
            } else {
                Some(ValidationErrorView::BadGroup((g@ + 1) as u8))
            },
            _ => None,
        },
    }
}

/// Parses the rule's pattern as a glob and checks an explicit alt group.
pub fn validate_rule(rule: &AppRule) -> (r: Result<(), ValidationError>)
    ensures
        match r {
            Ok(()) => rule_error(rule@) is None,
            Err(e) => rule_error(rule@) == Some(e@),
        },
{
    let pattern = rule.match_.pattern();
    match check_glob(pattern.as_str()) {
        Ok(()) => {},
        Err(reason) => {
            return Err(ValidationError::BadGlob { pattern: pattern.clone(), reason });
        },
    }
    match rule.action {
        RuleAction::AltGroup(g) => ValidationError::check_group(g.as_one_based()),
        _ => Ok(()),
    }
}

impl ConfigEditor {
    /// An editor whose baseline and working copy are both `cfg`.
    pub fn from_parts(cfg: Config, path: String) -> (r: Self)
        ensures
            r@ == (EditorView { baseline: cfg@, current: cfg@, path: path@ }),
            crate::config::maps_well_formed(r@.current),
            config_equiv(r@.current, r@.baseline),
    {
        let baseline = cfg.clone();
        proof {
            lemma_same_snapshots_clean(EditorView { baseline: cfg@, current: cfg@, path: path@ });
        }
        ConfigEditor { baseline, current: cfg, path }
    }

    /// The working copy.
    pub fn config(&self) -> (r: &Config)
        ensures
            r@ == self@.current,
    {
        &self.current
    }

    /// The last persisted snapshot.
    pub fn baseline(&self) -> (r: &Config)
        ensures
            r@ == self@.baseline,
    {
        &self.baseline
    }

    /// The file the editor saves to.
    pub fn path(&self) -> (r: &str)
        ensures
            r@ == self@.path,
    {
        self.path.as_str()
    }

    /// Are there unsaved changes?
    pub fn dirty(&self) -> (r: bool)
        ensures
            r == !config_equiv(self@.current, self@.baseline),
    {
        self.current != self.baseline
    }

    /// Drops pending changes: the working copy goes back to the baseline.
    pub fn discard(&mut self)
        ensures
            final(self)@ == with_current(old(self)@, old(self)@.baseline),
            config_equiv(final(self)@.current, final(self)@.baseline),
    {
        self.current = self.baseline.clone();
        proof {
            lemma_same_snapshots_clean(self@);
        }
    }

    /// What must hold before the working copy is written out: it passes
    /// [`Config::validate`] (setters that take free-form values do not
    /// run the cross-field checks).
    pub fn check_before_save(&self) -> (r: Result<(), ConfigError>)
        ensures
            match r {
                Ok(()) => validation_message(self@.current) is None,
                Err(ConfigError::Validation(m)) => validation_message(self@.current) == Some(m@),
                Err(_) => false,
            },
    {
        self.current.validate()
    }

    /// The working copy has been written: it becomes the baseline.
    pub fn mark_saved(&mut self)
        ensures
            final(self)@ == (EditorView { baseline: old(self)@.current, ..old(self)@ }),
            config_equiv(final(self)@.current, final(self)@.baseline),
    {
        self.baseline = self.current.clone();
        proof {
            lemma_same_snapshots_clean(self@);
        }
    }

    /// The file was read again: `cfg` becomes both the baseline and the
    /// working copy, dropping pending edits.
    pub fn replace_all(&mut self, cfg: Config)
        ensures
            final(self)@ == (EditorView { baseline: cfg@, current: cfg@, path: old(self)@.path }),
            config_equiv(final(self)@.current, final(self)@.baseline),
    {
        self.baseline = cfg.clone();
        self.current = cfg;
        proof {
            lemma_same_snapshots_clean(self@);
        }
    }

    /// Two-state cycle mode on or off.
    pub fn set_two_state(&mut self, b: bool)
        ensures
            final(self)@ == with_current(
                old(self)@,
                ConfigView {
                    general: crate::config::GeneralConfig {
                        two_state: b,
                        ..old(self)@.current.general
                    },
                    ..old(self)@.current
                },
            ),
    {
        self.current.general.two_state = b;
    }

    /// The 1-based base group; refuses groups outside `1..=4`.
    pub fn set_base_group(&mut self, g: u8) -> (r: Result<(), ValidationError>)
        ensures
            match r {
                Ok(()) => 1 <= g <= 4 && final(self)@ == with_current(
                    old(self)@,
                    ConfigView {
                        general: crate::config::GeneralConfig {
                            base_group: g,
                            ..old(self)@.current.general
                        },
                        ..old(self)@.current
                    },
                ),
                Err(e) => !(1 <= g <= 4) && e@ == ValidationErrorView::BadGroup(g) && final(self)@ == old(self)@,
            },
    {
        ValidationError::check_group(g)?;
        self.current.general.base_group = g;
        Ok(())
    }

    /// The 1-based alt group; refuses groups outside `1..=4`.
    pub fn set_alt_group(&mut self, g: u8) -> (r: Result<(), ValidationError>)
        ensures
            match r {
                Ok(()) => 1 <= g <= 4 && final(self)@ == with_current(
                    old(self)@,
                    ConfigView {
                        general: crate::config::GeneralConfig {
                            alt_group: g,
                            ..old(self)@.current.general
                        },
                        ..old(self)@.current
                    },
                ),
                Err(e) => !(1 <= g <= 4) && e@ == ValidationErrorView::BadGroup(g) && final(self)@ == old(self)@,
            },
    {
        ValidationError::check_group(g)?;
        self.current.general.alt_group = g;
        Ok(())
    }

    /// The cycle modifier.
    pub fn set_cycle_modifier(&mut self, m: ModifierName)
        ensures
            final(self)@ == with_current(
                old(self)@,
                ConfigView {
                    general: crate::config::GeneralConfig {
                        cycle_modifier: m,
                        ..old(self)@.current.general
                    },
                    ..old(self)@.current
                },
            ),
    {
        self.current.general.cycle_modifier = m;
    }

    /// Whether the meaning of `Ignore` rules is inverted.
    pub fn set_ignore_reverse(&mut self, b: bool)
        ensures
            final(self)@ == with_current(
                old(self)@,
                ConfigView {
                    general: crate::config::GeneralConfig {
                        ignore_reverse: b,
                        ..old(self)@.current.general
                    },
                    ..old(self)@.current
                },
            ),
    {
        self.current.general.ignore_reverse = b;
    }

    /// Main indicator on or off.
    pub fn set_main_enable(&mut self, b: bool)
        ensures
            final(self)@ == with_current(
                old(self)@,
                ConfigView {
                    main_indicator: crate::config::MainView {
                        enable: b,
                        ..old(self)@.current.main_indicator
                    },
                    ..old(self)@.current
                },
            ),
    {
        self.current.main_indicator.enable = b;
    }

    /// Ask (or not) before a dragged main-indicator position is saved.
    pub fn set_main_confirm_drag_save(&mut self, b: bool)
        ensures
            final(self)@ == with_current(
                old(self)@,
                ConfigView {
                    main_indicator: crate::config::MainView {
                        confirm_drag_save: b,
                        ..old(self)@.current.main_indicator
                    },
                    ..old(self)@.current
                },
            ),
    {
        self.current.main_indicator.confirm_drag_save = b;
    }

    /// Main indicator display mode.
    pub fn set_main_mode(&mut self, m: MainIndicatorMode)
        ensures
            final(self)@ == with_current(
                old(self)@,
                ConfigView {
                    main_indicator: crate::config::MainView {
                        mode: m,
                        ..old(self)@.current.main_indicator
                    },
                    ..old(self)@.current
                },
            ),
    {
        self.current.main_indicator.mode = m;
    }

    /// Main indicator size; refuses sizes outside `1..=1024`.
    pub fn set_main_size(&mut self, px: u32) -> (r: Result<(), ValidationError>)
        ensures
            match r {
                Ok(()) => 1 <= px <= 1024 && final(self)@ == with_current(
                    old(self)@,
                    ConfigView {
                        main_indicator: crate::config::MainView {
                            size_px: px,
                            ..old(self)@.current.main_indicator
                        },
                        ..old(self)@.current
                    },
                ),
                Err(e) => !(1 <= px <= 1024) && e@ == ValidationErrorView::OutOfRange {
                    got: px,
                    max: 1024,
                } && final(self)@ == old(self)@,
            },
    {
        ValidationError::check_size(px, 1024)?;
        self.current.main_indicator.size_px = px;
        Ok(())
    }

    /// Main indicator border; refuses a color that is not `#RRGGBB` or
    /// `#RRGGBBAA`.
    pub fn set_main_border(&mut self, b: BorderConfig) -> (r: Result<(), ValidationError>)
        ensures
            match r {
                Ok(()) => crate::validation::canonical_color(b@.color) && final(self)@
                    == with_current(
                    old(self)@,
                    ConfigView {
                        main_indicator: crate::config::MainView {
                            border: b@,
                            ..old(self)@.current.main_indicator
                        },
                        ..old(self)@.current
                    },
                ),
                Err(e) => !crate::validation::canonical_color(b@.color) && e@
                    == ValidationErrorView::BadColor(b@.color) && final(self)@ == old(self)@,
            },
    {
        ValidationError::check_color(b.color.as_str())?;
        self.current.main_indicator.border = b;
        Ok(())
    }

    /// Saves (or replaces) the main indicator position for `output`.
    pub fn set_main_position(&mut self, output: OutputName, point: Point)
        ensures
            final(self)@ == with_current(
                old(self)@,
                ConfigView {
                    main_indicator: crate::config::MainView {
                        positions: entries_insert(
                            old(self)@.current.main_indicator.positions,
                            output.0@,
                            point,
                        ),
                        ..old(self)@.current.main_indicator
                    },
                    ..old(self)@.current
                },
            ),
    {
        positions_insert(&mut self.current.main_indicator.positions, output.0, point);
    }

    /// Forgets the saved position for `output`; true if there was one.
    pub fn forget_main_position(&mut self, output: &OutputName) -> (r: bool)
        ensures
            r == entries_lookup(old(self)@.current.main_indicator.positions, output.0@) is Some,
            final(self)@ == with_current(
                old(self)@,
                ConfigView {
                    main_indicator: crate::config::MainView {
                        positions: entries_remove(
                            old(self)@.current.main_indicator.positions,
                            output.0@,
                        ),
                        ..old(self)@.current.main_indicator
                    },
                    ..old(self)@.current
                },
            ),
    {
        let removed = positions_shift_remove(
            &mut self.current.main_indicator.positions,
            output.0.as_str(),
        );
        removed.is_some()
    }

    /// Per-window indicator on or off.
    pub fn set_per_window_enable(&mut self, b: bool)
        ensures
            final(self)@ == with_current(
                old(self)@,
                ConfigView {
                    per_window_indicator: crate::config::PerWindowView {
                        enable: b,
                        ..old(self)@.current.per_window_indicator
                    },
                    ..old(self)@.current
                },
            ),
    {
        self.current.per_window_indicator.enable = b;
    }

    /// Per-window indicator size; refuses sizes outside `1..=256`.
    pub fn set_per_window_size(&mut self, px: u32) -> (r: Result<(), ValidationError>)
        ensures
            match r {
                Ok(()) => 1 <= px <= 256 && final(self)@ == with_current(
                    old(self)@,
                    ConfigView {
                        per_window_indicator: crate::config::PerWindowView {
                            size_px: px,
                            ..old(self)@.current.per_window_indicator
                        },
                        ..old(self)@.current
                    },
                ),
                Err(e) => !(1 <= px <= 256) && e@ == ValidationErrorView::OutOfRange {
                    got: px,
                    max: 256,
                } && final(self)@ == old(self)@,
            },
    {
        ValidationError::check_size(px, 256)?;
        self.current.per_window_indicator.size_px = px;
        Ok(())
    }

    /// Per-window indicator offset from the title bar.
    pub fn set_per_window_offset(&mut self, offset: Offset)
        ensures
            final(self)@ == with_current(
                old(self)@,
                ConfigView {
                    per_window_indicator: crate::config::PerWindowView {
                        offset,
                        ..old(self)@.current.per_window_indicator
                    },
                    ..old(self)@.current
                },
            ),
    {
        self.current.per_window_indicator.offset = offset;
    }

    /// Per-window indicator border; refuses a color that is not
    /// `#RRGGBB` or `#RRGGBBAA`.
    pub fn set_per_window_border(&mut self, b: BorderConfig) -> (r: Result<(), ValidationError>)
        ensures
            match r {
                Ok(()) => crate::validation::canonical_color(b@.color) && final(self)@
                    == with_current(
                    old(self)@,
                    ConfigView {
                        per_window_indicator: crate::config::PerWindowView {
                            border: b@,
                            ..old(self)@.current.per_window_indicator
                        },
                        ..old(self)@.current
                    },
                ),
                Err(e) => !crate::validation::canonical_color(b@.color) && e@
                    == ValidationErrorView::BadColor(b@.color) && final(self)@ == old(self)@,
            },
    {
        ValidationError::check_color(b.color.as_str())?;
        self.current.per_window_indicator.border = b;
        Ok(())
    }

    /// SVG preference.
    pub fn set_prefer_svg(&mut self, b: bool)
        ensures
            final(self)@ == with_current(
                old(self)@,
                ConfigView {
                    icons: crate::config::IconsView {
                        prefer_svg: b,
                        ..old(self)@.current.icons
                    },
                    ..old(self)@.current
                },
            ),
    {
        self.current.icons.prefer_svg = b;
    }

    /// Replaces the icon search paths.
    pub fn set_search_paths(&mut self, paths: Vec<String>)
        ensures
            final(self)@ == with_current(
                old(self)@,
                ConfigView {
                    icons: crate::config::IconsView {
                        search_paths: strings_view(paths@),
                        ..old(self)@.current.icons
                    },
                    ..old(self)@.current
                },
            ),
    {
        self.current.icons.search_paths = paths;
    }

    /// Sets the icon for a 1-based group; refuses groups outside `1..=4`.
    pub fn set_icon_for_group(&mut self, group_one_based: u8, icon_name: String) -> (r: Result<
        (),
        ValidationError,
    >)
        ensures
            match r {
                Ok(()) => 1 <= group_one_based <= 4 && final(self)@ == with_current(
                    old(self)@,
                    ConfigView {
                        icons: crate::config::IconsView {
                            mapping: entries_insert(
                                old(self)@.current.icons.mapping,
                                decimal(group_one_based as nat),
                                icon_name@,
                            ),
                            ..old(self)@.current.icons
                        },
                        ..old(self)@.current
                    },
                ),
                Err(e) => !(1 <= group_one_based <= 4) && e@ == ValidationErrorView::BadGroup(
                    group_one_based,
                ) && final(self)@ == old(self)@,
            },
    {
        ValidationError::check_group(group_one_based)?;
        let key = decimal_string(group_one_based as u32);
        mapping_insert(&mut self.current.icons.mapping, key, icon_name);
        Ok(())
    }

    /// Sound mode.
    pub fn set_sound_mode(&mut self, m: SoundMode)
        ensures
            final(self)@ == with_current(
                old(self)@,
                ConfigView {
                    sound: crate::config::SoundView { mode: m, ..old(self)@.current.sound },
                    ..old(self)@.current
                },
            ),
    {
        self.current.sound.mode = m;
    }

    /// Sound file; empty means the built-in click.
    pub fn set_sound_file(&mut self, path: String)
        ensures
            final(self)@ == with_current(
                old(self)@,
                ConfigView {
                    sound: crate::config::SoundView { file: path@, ..old(self)@.current.sound },
                    ..old(self)@.current
                },
            ),
    {
        self.current.sound.file = path;
    }

    /// Appends a rule, after compile-checking its pattern.
    pub fn add_app_rule(&mut self, rule: AppRule) -> (r: Result<(), ValidationError>)
        ensures
            match r {
                Ok(()) => rule_error(rule@) is None && final(self)@ == with_current(
                    old(self)@,
                    ConfigView {
                        app_rules: old(self)@.current.app_rules.push(rule@),
                        ..old(self)@.current
                    },
                ),
                Err(e) => rule_error(rule@) == Some(e@) && final(self)@ == old(self)@,
            },
    {
        validate_rule(&rule)?;
        let ghost before = self.current.app_rules@;
        self.current.app_rules.push(rule);
        proof {
            assert(rules_view(self.current.app_rules@) =~= rules_view(before).push(rule@));
        }
        Ok(())
    }

    /// Replaces the rule at `idx`.
    pub fn replace_app_rule(&mut self, idx: usize, rule: AppRule) -> (r: Result<(), ValidationError>)
        ensures
            ({
                let len = old(self)@.current.app_rules.len();
                match r {
                    Ok(()) => idx < len && rule_error(rule@) is None && final(self)@
                        == with_current(
                        old(self)@,
                        ConfigView {
                            app_rules: old(self)@.current.app_rules.update(idx as int, rule@),
                            ..old(self)@.current
                        },
                    ),
                    Err(e) => final(self)@ == old(self)@ && if idx >= len {
                        e@ == ValidationErrorView::BadIndex { got: idx, len: len as usize }
                    } else {
                        rule_error(rule@) == Some(e@)
                    },
                }
            }),
    {
        let len = self.current.app_rules.len();
        if idx >= len {
            return Err(ValidationError::BadIndex { got: idx, len });
        }
        validate_rule(&rule)?;
        let ghost before = self.current.app_rules@;
        self.current.app_rules.set(idx, rule);
        proof {
            assert(rules_view(self.current.app_rules@) =~= rules_view(before).update(
                idx as int,
                rule@,
            ));
        }
        Ok(())
    }

    /// Deletes the rule at `idx`.
    pub fn remove_app_rule(&mut self, idx: usize) -> (r: Result<(), ValidationError>)
        ensures
            ({
                let len = old(self)@.current.app_rules.len();
                match r {
                    Ok(()) => idx < len && final(self)@ == with_current(
                        old(self)@,
                        ConfigView {
                            app_rules: old(self)@.current.app_rules.remove(idx as int),
                            ..old(self)@.current
                        },
                    ),
                    Err(e) => idx >= len && e@ == ValidationErrorView::BadIndex {
                        got: idx,
                        len: len as usize,
                    } && final(self)@ == old(self)@,
                }
            }),
    {
        let len = self.current.app_rules.len();
        if idx >= len {
            return Err(ValidationError::BadIndex { got: idx, len });
        }
        let ghost before = self.current.app_rules@;
        self.current.app_rules.remove(idx);
        proof {
            assert(rules_view(self.current.app_rules@) =~= rules_view(before).remove(idx as int));
        }
        Ok(())
    }

    /// Moves the rule at `from` to position `to`, which is clamped to the
    /// last index. Returns where the rule ended up (`from` itself when the
    /// move changes nothing).
    pub fn move_app_rule(&mut self, from: usize, to: usize) -> (r: Result<usize, ValidationError>)
        ensures
            ({
                let rules = old(self)@.current.app_rules;
                let len = rules.len();
                let dest = if to < len {
                    to as int
                } else {
                    len - 1
                };
                match r {
                    Ok(d) => from < len && d == dest && final(self)@ == with_current(
                        old(self)@,
                        ConfigView {
                            app_rules: if dest == from {
                                rules
                            } else {
                                rules.remove(from as int).insert(dest, rules[from as int])
                            },
                            ..old(self)@.current
                        },
                    ),
                    Err(e) => from >= len && e@ == ValidationErrorView::BadIndex {
                        got: from,
                        len: len as usize,
                    } && final(self)@ == old(self)@,
                }
            }),
    {
        let len = self.current.app_rules.len();
        if from >= len {
            return Err(ValidationError::BadIndex { got: from, len });
        }
        let dest = if to < len - 1 {
            to
        } else {
            len - 1
        };
        if dest == from {
            return Ok(from);
        }
        let ghost before = self.current.app_rules@;
        let rule = self.current.app_rules.remove(from);
        self.current.app_rules.insert(dest, rule);
        proof {
            assert(rules_view(self.current.app_rules@) =~= rules_view(before).remove(
                from as int,
            ).insert(dest as int, rules_view(before)[from as int]));
        }
        Ok(dest)
    }
}

/// An editor whose working copy equals its baseline is clean: one just
/// built from a configuration, one whose changes were discarded, and one
/// just saved.
pub proof fn lemma_same_snapshots_clean(e: EditorView)
    requires
        e.current == e.baseline,
        crate::config::maps_well_formed(e.current),
    ensures
        config_equiv(e.current, e.baseline),
{
    crate::config::lemma_config_equiv_reflexive(e.current);
}

/// Changing a setting of a clean editor makes it dirty: here, two-state
/// mode set to a value other than the baseline's.
pub proof fn lemma_change_makes_dirty(e: EditorView, b: bool)
    requires
        config_equiv(e.current, e.baseline),
        b != e.baseline.general.two_state,
    ensures
        !config_equiv(
            ConfigView {
                general: crate::config::GeneralConfig { two_state: b, ..e.current.general },
                ..e.current
            },
            e.baseline,
        ),
{
}

/// The search paths typed as one line: the comma-separated fields of
/// `s[lo..]`, each trimmed of whitespace, with empty ones dropped.
pub open spec fn path_fields_from(s: Seq<char>, lo: int) -> Seq<Seq<char>>
    decreases s.len() - lo,
{
    if lo < 0 || lo > s.len() {
        Seq::empty()
    } else {
        let i = index_of_from(s, ',', lo);
        let end = if i < 0 {
            s.len() as int
        } else {
            i
        };
        let f = trim(s.subrange(lo, end));
        let rest = if i < 0 {
            Seq::<Seq<char>>::empty()
        } else {
            proof {
                lemma_index_of_from(s, ',', lo);
            }
            path_fields_from(s, i + 1)
        };
        if f.len() > 0 {
            seq![f] + rest
        } else {
            rest
        }
    }
}

/// Splits a comma-separated list of search paths: each field trimmed,
/// empty fields dropped.
pub fn split_search_paths(text: &str) -> (r: Vec<String>)
    ensures
        strings_view(r@) == path_fields_from(text@, 0),
{
    let s = chars_of(text);
    let n = s.len();
    let mut out: Vec<String> = Vec::new();
    let mut lo: usize = 0;
    loop
        invariant
            n == s@.len(),
            s@ == text@,
            lo <= n,
            strings_view(out@) + path_fields_from(s@, lo as int) == path_fields_from(s@, 0),
        decreases n - lo,
    {
        let found = find_char_from(s.as_slice(), ',', lo);
        proof {
            lemma_index_of_from(s@, ',', lo as int);
        }
        let end: usize = match found {
            Some(i) => i,
            None => n,
        };
        let field = subvec(s.as_slice(), lo, end);
        let t = trim_chars(field.as_slice());
        let ghost before = out@;
        if t.len() > 0 {
            out.push(string_of(t.as_slice()));
        }
        proof {
            let rest = match found {
                Some(i) => path_fields_from(s@, i + 1),
                None => Seq::<Seq<char>>::empty(),
            };
            if t@.len() > 0 {
                assert(strings_view(out@) =~= strings_view(before).push(t@));
                assert(path_fields_from(s@, lo as int) == seq![t@] + rest);
                assert(strings_view(out@) + rest =~= strings_view(before) + (seq![t@] + rest));
            } else {
                assert(strings_view(out@) =~= strings_view(before));
                assert(path_fields_from(s@, lo as int) == rest);
            }
        }
        match found {
            Some(i) => {
                lo = i + 1;
            },
            None => {
                proof {
                    assert(strings_view(out@) + Seq::<Seq<char>>::empty() =~= strings_view(out@));
                }
                return out;
            },
        }
    }
}

impl ConfigEditor {
    /// Where the first rule matching on `pattern` stands in the working
    /// copy (a rule's row looks itself up this way, as indices shift
    /// when other rules come and go).
    pub fn rule_index_of(&self, pattern: &str) -> (r: Option<usize>)
        ensures
            match r {
                Some(i) => {
                    &&& i < self@.current.app_rules.len()
                    &&& self@.current.app_rules[i as int].pattern == pattern@
                    &&& forall|j: int| 0 <= j < i ==> self@.current.app_rules[j].pattern != pattern@
                },
                None => forall|j: int|
                    0 <= j < self@.current.app_rules.len() ==> self@.current.app_rules[j].pattern
                        != pattern@,
            },
    {
        let rules = &self.current.app_rules;
        let pat = pattern.to_owned();
        let n = rules.len();
        let mut i: usize = 0;
        while i < n
            invariant
                n == rules@.len(),
                rules_view(rules@) == self@.current.app_rules,
                i <= n,
                pat@ == pattern@,
                forall|j: int| 0 <= j < i ==> self@.current.app_rules[j].pattern != pattern@,
            decreases n - i,
        {
            let p = rules[i].match_.pattern();
            if *p == pat {
                return Some(i);
            }
            i += 1;
        }
        None
    }
}

} // verus!
