use xxkb::config::{BorderConfig, Config, ConfigError, MainIndicatorMode, ModifierName, SoundMode};
use xxkb::editor::{split_search_paths, ConfigEditor};
use xxkb::geometry::{Offset, Point};
use xxkb::layout::Group;
use xxkb::monitors::OutputName;
use xxkb::paths::{config_dir_in, config_path_in, expand_path, join_path};
use xxkb::rules::{AppMatch, AppRule, RuleAction};
use xxkb::validation::ValidationError;

#[test]
fn color_must_be_hash_prefixed() {
    assert!(matches!(ValidationError::check_color("000000"), Err(ValidationError::BadColor(_))));
    assert!(ValidationError::check_color("#000000").is_ok());
    assert!(ValidationError::check_color("#0011AAff").is_ok());
    assert!(matches!(ValidationError::check_color("#abc"), Err(ValidationError::BadColor(_))));
    assert!(matches!(ValidationError::check_color("#GGGGGG"), Err(ValidationError::BadColor(_))));
}

#[test]
fn size_zero_rejected() {
    assert!(matches!(
        ValidationError::check_size(0, 256),
        Err(ValidationError::OutOfRange { got: 0, max: 256 })
    ));
}

#[test]
fn size_above_max_rejected() {
    assert!(matches!(
        ValidationError::check_size(1024, 256),
        Err(ValidationError::OutOfRange { got: 1024, max: 256 })
    ));
}

#[test]
fn group_outside_range_rejected() {
    assert!(matches!(ValidationError::check_group(0), Err(ValidationError::BadGroup(0))));
    assert!(matches!(ValidationError::check_group(5), Err(ValidationError::BadGroup(5))));
    assert!(ValidationError::check_group(1).is_ok());
    assert!(ValidationError::check_group(4).is_ok());
}

#[test]
fn bad_color_keeps_the_offending_text() {
    assert_eq!(
        ValidationError::check_color("#12345G"),
        Err(ValidationError::BadColor("#12345G".to_owned()))
    );
    assert!(ValidationError::check_size(256, 256).is_ok());
    assert!(ValidationError::check_size(1, 256).is_ok());
}

#[test]
fn invalid_base_group_rejected() {
    let mut cfg = Config::default();
    cfg.general.base_group = 0;
    assert!(matches!(cfg.validate(), Err(ConfigError::Validation(_))));
    cfg.general.base_group = 7;
    assert!(matches!(cfg.validate(), Err(ConfigError::Validation(_))));
}

#[test]
fn invalid_color_rejected() {
    let mut cfg = Config::default();
    cfg.main_indicator.border.color = "red".into();
    assert!(matches!(cfg.validate(), Err(ConfigError::Validation(_))));
}

#[test]
fn validation_messages_name_the_field_and_value() {
    let mut cfg = Config::default();
    assert!(cfg.validate().is_ok());
    cfg.general.alt_group = 9;
    match cfg.validate() {
        Err(ConfigError::Validation(m)) => assert_eq!(m, "general.alt_group must be in 1..=4, got 9"),
        other => panic!("unexpected {other:?}"),
    }
    cfg.general.alt_group = 2;
    cfg.per_window_indicator.size_px = 0;
    match cfg.validate() {
        Err(ConfigError::Validation(m)) => assert_eq!(m, "per_window_indicator.size_px must be > 0"),
        other => panic!("unexpected {other:?}"),
    }
    cfg.per_window_indicator.size_px = 15;
    cfg.main_indicator.border.color = "red".into();
    match cfg.validate() {
        Err(ConfigError::Validation(m)) => {
            assert_eq!(m, "main_indicator.border.color must start with '#', got red")
        }
        other => panic!("unexpected {other:?}"),
    }
}

#[test]
fn defaults_match_the_documentation() {
    let cfg = Config::default();
    assert!(!cfg.general.two_state);
    assert_eq!(cfg.general.base_group, 1);
    assert_eq!(cfg.general.alt_group, 2);
    assert_eq!(cfg.general.cycle_modifier, ModifierName::NoModifier);
    assert!(cfg.main_indicator.enable);
    assert_eq!(cfg.main_indicator.mode, MainIndicatorMode::AllDisplays);
    assert_eq!(cfg.main_indicator.size_px, 48);
    assert_eq!(cfg.main_indicator.border.color, "#000000");
    assert!(!cfg.main_indicator.confirm_drag_save);
    assert_eq!(cfg.per_window_indicator.size_px, 15);
    assert_eq!(cfg.per_window_indicator.offset, Offset { x: -60, y: 7 });
    assert_eq!(cfg.icons.search_paths, vec!["~/.local/share/icons/xxkb", "system", "builtin"]);
    assert_eq!(cfg.icons.icon_for(1), Some("en"));
    assert_eq!(cfg.icons.icon_for(2), Some("ru"));
    assert_eq!(cfg.icons.icon_for(3), Some("ua"));
    assert_eq!(cfg.icons.icon_for(4), Some("by"));
    assert_eq!(cfg.icons.icon_for(5), None);
    assert_eq!(cfg.sound.mode, SoundMode::Off);
    assert!(cfg.app_rules.is_empty());
    assert_eq!(cfg.clone(), cfg);
}

#[test]
fn expand_path_passthrough() {
    assert_eq!(expand_path("/tmp/foo"), "/tmp/foo");
}

#[test]
fn expand_path_replaces_leading_tilde_only() {
    assert_eq!(expand_path("a~/b"), "a~/b");
    assert_eq!(expand_path("~user/x"), "~user/x");
    let home = expand_path("~/foo");
    assert!(home == "~/foo" || (home.ends_with("/foo") && !home.starts_with('~')));
}

#[test]
fn paths_join_like_pathbuf() {
    assert_eq!(join_path("/home/u/.config", "xxkb"), "/home/u/.config/xxkb");
    assert_eq!(join_path("/home/u/", "xxkb"), "/home/u/xxkb");
    assert_eq!(join_path("", "xxkb"), "xxkb");
    assert_eq!(join_path("/a", "/etc"), "/etc");
    assert_eq!(
        config_path_in(Some("/home/u/.config".to_owned())).unwrap(),
        "/home/u/.config/xxkb/config.toml"
    );
    assert_eq!(config_dir_in(Some("/cfg".to_owned())).unwrap(), "/cfg/xxkb");
    match config_dir_in(None) {
        Err(ConfigError::Validation(m)) => assert_eq!(m, "XDG_CONFIG_HOME unavailable"),
        other => panic!("unexpected {other:?}"),
    }
}

fn editor() -> ConfigEditor {
    ConfigEditor::from_parts(Config::default(), "/tmp/xxkb-test/config.toml".to_owned())
}

#[test]
fn fresh_editor_is_clean() {
    let e = editor();
    assert!(!e.dirty());
    assert_eq!(e.config(), e.baseline());
}

#[test]
fn mutation_marks_dirty() {
    let mut e = editor();
    e.set_two_state(true);
    assert!(e.dirty());
    e.discard();
    assert!(!e.dirty());
}

#[test]
fn save_clears_dirty() {
    let mut e = editor();
    e.set_two_state(true);
    e.check_before_save().unwrap();
    e.mark_saved();
    assert!(!e.dirty());
    assert!(e.baseline().general.two_state);
}

#[test]
fn invalid_size_does_not_mutate_state() {
    let mut e = editor();
    let before = e.config().main_indicator.size_px;
    let err = e.set_main_size(0).unwrap_err();
    assert!(matches!(err, ValidationError::OutOfRange { got: 0, max: 1024 }));
    assert_eq!(e.config().main_indicator.size_px, before);
    assert!(!e.dirty());
}

#[test]
fn invalid_color_does_not_mutate_border() {
    let mut e = editor();
    let before = e.config().main_indicator.border.clone();
    let result = e.set_main_border(BorderConfig { enabled: true, color: "not-a-color".into(), width: 2 });
    assert!(matches!(result, Err(ValidationError::BadColor(_))));
    assert_eq!(e.config().main_indicator.border, before);
}

#[test]
fn add_rule_validates_glob() {
    let mut e = editor();
    let bad = AppRule { match_: AppMatch::WmName("[unterminated".into()), action: RuleAction::Ignore };
    let err = e.add_app_rule(bad).unwrap_err();
    assert!(matches!(err, ValidationError::BadGlob { .. }));
    assert!(e.config().app_rules.is_empty());

    let good = AppRule { match_: AppMatch::WmClassClass("Firefox*".into()), action: RuleAction::Ignore };
    e.add_app_rule(good.clone()).unwrap();
    assert_eq!(e.config().app_rules, vec![good]);
}

#[test]
fn add_rule_checks_only_that_the_glob_parses() {
    let mut e = editor();
    let big = AppRule { match_: AppMatch::WmName("?".repeat(1_000_000)), action: RuleAction::Ignore };
    e.add_app_rule(big.clone()).unwrap();
    assert_eq!(e.config().app_rules, vec![big]);
}

#[test]
fn move_rule_swaps_order() {
    let mut e = editor();
    let r0 = AppRule { match_: AppMatch::WmClassClass("a*".into()), action: RuleAction::Ignore };
    let r1 = AppRule { match_: AppMatch::WmClassClass("b*".into()), action: RuleAction::StartAlt };
    let r2 = AppRule {
        match_: AppMatch::WmClassClass("c*".into()),
        action: RuleAction::AltGroup(Group::new(2, 4).unwrap()),
    };
    e.add_app_rule(r0.clone()).unwrap();
    e.add_app_rule(r1.clone()).unwrap();
    e.add_app_rule(r2.clone()).unwrap();
    let dest = e.move_app_rule(0, 99).unwrap();
    assert_eq!(dest, 2);
    assert_eq!(e.config().app_rules, vec![r1, r2, r0]);
}

#[test]
fn move_rule_to_same_place_is_a_no_op() {
    let mut e = editor();
    let r0 = AppRule { match_: AppMatch::WmClassClass("a*".into()), action: RuleAction::Ignore };
    let r1 = AppRule { match_: AppMatch::WmClassClass("b*".into()), action: RuleAction::StartAlt };
    e.add_app_rule(r0.clone()).unwrap();
    e.add_app_rule(r1.clone()).unwrap();
    assert_eq!(e.move_app_rule(1, 1).unwrap(), 1);
    assert_eq!(e.move_app_rule(1, 0).unwrap(), 0);
    assert_eq!(e.config().app_rules, vec![r1, r0]);
    assert!(matches!(e.move_app_rule(2, 0), Err(ValidationError::BadIndex { got: 2, len: 2 })));
}

#[test]
fn remove_rule_out_of_range_errors() {
    let mut e = editor();
    let err = e.remove_app_rule(0).unwrap_err();
    assert!(matches!(err, ValidationError::BadIndex { got: 0, len: 0 }));
}

#[test]
fn replace_rule_validates_action_group() {
    let mut e = editor();
    let g = Group::new(1, 4).unwrap();
    let rule = AppRule { match_: AppMatch::WmClassClass("ok*".into()), action: RuleAction::AltGroup(g) };
    e.add_app_rule(rule.clone()).unwrap();
    e.replace_app_rule(0, rule).unwrap();
    let bad = AppRule { match_: AppMatch::WmClassClass("x*".into()), action: RuleAction::Ignore };
    let err = e.replace_app_rule(1, bad).unwrap_err();
    assert!(matches!(err, ValidationError::BadIndex { got: 1, len: 1 }));
}

#[test]
fn alt_group_outside_one_to_four_is_refused() {
    let mut e = editor();
    let g = Group::new(6, 8).unwrap();
    let rule = AppRule { match_: AppMatch::WmClassClass("ok*".into()), action: RuleAction::AltGroup(g) };
    assert!(matches!(e.add_app_rule(rule), Err(ValidationError::BadGroup(7))));
    assert!(!e.dirty());
}

#[test]
fn forget_main_position_removes_entry() {
    let mut e = editor();
    e.set_main_position("DP-1".into(), Point::new(0, 0));
    assert!(e.forget_main_position(&"DP-1".to_owned().into()));
    assert!(!e.forget_main_position(&"DP-1".to_owned().into()));
}

#[test]
fn main_position_is_stored_under_output_name() {
    let mut e = editor();
    e.set_main_position(OutputName::from("DP-1".to_owned()), Point::new(123, 456));
    assert_eq!(e.config().main_indicator.positions.get("DP-1").copied(), Some(Point::new(123, 456)));
    assert!(e.dirty());
}

#[test]
fn icon_for_group_validates_group() {
    let mut e = editor();
    assert!(e.set_icon_for_group(0, "en".into()).is_err());
    assert!(e.set_icon_for_group(5, "en".into()).is_err());
    e.set_icon_for_group(3, "ua".into()).unwrap();
    assert_eq!(e.config().icons.icon_for(3), Some("ua"));
}

#[test]
fn setters_reach_the_working_copy_only() {
    let mut e = editor();
    e.set_base_group(3).unwrap();
    e.set_alt_group(4).unwrap();
    e.set_cycle_modifier(ModifierName::Mod4);
    e.set_ignore_reverse(true);
    e.set_main_enable(false);
    e.set_main_mode(MainIndicatorMode::PrimaryOnly);
    e.set_main_confirm_drag_save(true);
    e.set_per_window_enable(false);
    e.set_per_window_size(20).unwrap();
    e.set_per_window_offset(Offset { x: 5, y: 6 });
    e.set_prefer_svg(false);
    e.set_search_paths(vec!["/icons".to_owned()]);
    e.set_sound_mode(SoundMode::Both);
    e.set_sound_file("/x.wav".to_owned());
    let c = e.config();
    assert!(c.main_indicator.confirm_drag_save);
    assert!(!e.baseline().main_indicator.confirm_drag_save);
    assert_eq!(c.general.base_group, 3);
    assert_eq!(c.general.alt_group, 4);
    assert_eq!(c.general.cycle_modifier, ModifierName::Mod4);
    assert!(c.general.ignore_reverse);
    assert!(!c.main_indicator.enable);
    assert_eq!(c.main_indicator.mode, MainIndicatorMode::PrimaryOnly);
    assert!(!c.per_window_indicator.enable);
    assert_eq!(c.per_window_indicator.size_px, 20);
    assert_eq!(c.per_window_indicator.offset, Offset { x: 5, y: 6 });
    assert!(!c.icons.prefer_svg);
    assert_eq!(c.icons.search_paths, vec!["/icons".to_owned()]);
    assert_eq!(c.sound.mode, SoundMode::Both);
    assert_eq!(c.sound.file, "/x.wav");
    assert_eq!(e.baseline(), &Config::default());
    assert!(e.set_per_window_size(257).is_err());
    assert!(e.set_base_group(5).is_err());
    assert_eq!(e.path(), "/tmp/xxkb-test/config.toml");
}

#[test]
fn check_before_save_reports_cross_field_errors() {
    let mut cfg = Config::default();
    cfg.general.base_group = 0;
    let mut e = ConfigEditor::from_parts(Config::default(), "/tmp/c.toml".to_owned());
    e.replace_all(cfg);
    assert!(matches!(e.check_before_save(), Err(ConfigError::Validation(_))));
    assert_eq!(e.baseline().general.base_group, 0);
}

#[test]
fn search_paths_are_split_trimmed_and_emptied_fields_dropped() {
    assert_eq!(
        split_search_paths(" ~/icons , ,builtin,"),
        vec!["~/icons".to_owned(), "builtin".to_owned()]
    );
    assert_eq!(split_search_paths("system"), vec!["system".to_owned()]);
    assert!(split_search_paths("").is_empty());
    assert!(split_search_paths(" , ").is_empty());
}

#[test]
fn rule_index_of_finds_the_first_rule_with_the_pattern() {
    let mut e = editor();
    let rule = |p: &str| AppRule { match_: AppMatch::WmName(p.into()), action: RuleAction::Ignore };
    e.add_app_rule(rule("a*")).unwrap();
    e.add_app_rule(rule("b*")).unwrap();
    e.add_app_rule(AppRule {
        match_: AppMatch::WmClassClass("b*".into()),
        action: RuleAction::StartAlt,
    })
    .unwrap();
    assert_eq!(e.rule_index_of("a*"), Some(0));
    assert_eq!(e.rule_index_of("b*"), Some(1));
    assert_eq!(e.rule_index_of("c*"), None);
    e.remove_app_rule(0).unwrap();
    assert_eq!(e.rule_index_of("b*"), Some(0));
}
