use xxkb::config::{Config, ModifierName, SoundMode};
use xxkb::geometry::Offset;
use xxkb::migrate::migrate_string;
use xxkb::rules::{AppMatch, RuleAction};

#[test]
fn migrates_minimal_legacy_file() {
    let raw = "
XXkb.group.base: 1
XXkb.group.alt: 2
XXkb.controls.two_state: yes
XXkb.mainwindow.enable: yes
XXkb.mainwindow.geometry: 48x48
XXkb.button.enable: yes
XXkb.button.geometry: 15x15-60+7
XXkb.bell.enable: yes
XXkb.keymask.cycle: ctrl
";
    let cfg = migrate_string(raw);
    assert_eq!(cfg.general.base_group, 1);
    assert_eq!(cfg.general.alt_group, 2);
    assert!(cfg.general.two_state);
    assert_eq!(cfg.general.cycle_modifier, ModifierName::Ctrl);
    assert!(cfg.main_indicator.enable);
    assert_eq!(cfg.main_indicator.size_px, 48);
    assert!(cfg.per_window_indicator.enable);
    assert_eq!(cfg.per_window_indicator.size_px, 15);
    assert_eq!(cfg.per_window_indicator.offset.x, -60);
    assert_eq!(cfg.per_window_indicator.offset.y, 7);
    assert_eq!(cfg.sound.mode, SoundMode::Both);
}

#[test]
fn migrates_app_list_rules() {
    let raw = "
XXkb.app_list.wm_class_class.ignore: *clock Fvwm*
XXkb.app_list.wm_name.start_alt: licq
XXkb.app_list.wm_class_class.alt_group3: kate
";
    let cfg = migrate_string(raw);
    assert_eq!(cfg.app_rules.len(), 4);
    assert!(matches!(cfg.app_rules[0].action, RuleAction::Ignore));
    assert!(matches!(cfg.app_rules[1].action, RuleAction::Ignore));
    assert!(matches!(cfg.app_rules[2].action, RuleAction::StartAlt));
    assert!(matches!(cfg.app_rules[3].action, RuleAction::AltGroup(_)));
}

#[test]
fn handles_continuation_lines() {
    let raw = "
XXkb.app_list.wm_class_class.ignore: foo \\
bar baz
";
    let cfg = migrate_string(raw);
    assert_eq!(cfg.app_rules.len(), 3);
}

#[test]
fn handles_comment_lines_and_inline_comments() {
    let raw = "
! this is a comment
XXkb.group.base: 1 ! inline
";
    let cfg = migrate_string(raw);
    assert_eq!(cfg.general.base_group, 1);
}

#[test]
fn bell_disabled_maps_to_sound_off() {
    let raw = "XXkb.bell.enable: no";
    let cfg = migrate_string(raw);
    assert_eq!(cfg.sound.mode, SoundMode::Off);
}

#[test]
fn zero_border_width_disables_border() {
    let raw = "
XXkb.mainwindow.border.color: black
XXkb.mainwindow.border.width: 0
";
    let cfg = migrate_string(raw);
    assert!(!cfg.main_indicator.border.enabled);
    assert_eq!(cfg.main_indicator.border.width, 0);
}

#[test]
fn named_colour_maps_to_hex() {
    let raw = "XXkb.mainwindow.border.color: blue4";
    let cfg = migrate_string(raw);
    assert_eq!(cfg.main_indicator.border.color, "#00008B");
    assert!(cfg.main_indicator.border.enabled);
}

#[test]
fn explicit_alt_group_syntax() {
    let raw = "XXkb.app_list.wm_class_class.alt_group3: kate";
    let cfg = migrate_string(raw);
    assert_eq!(cfg.app_rules.len(), 1);
    match &cfg.app_rules[0].action {
        RuleAction::AltGroup(g) => assert_eq!(g.as_one_based(), 3),
        other => panic!("expected AltGroup(2), got {other:?}"),
    }
}

#[test]
fn unknown_keys_are_ignored() {
    let raw = "
XXkb.unsupported.future.key: hello world
XXkb.group.base: 1
";
    let cfg = migrate_string(raw);
    assert_eq!(cfg.general.base_group, 1);
}

#[test]
fn an_unknown_key_line_changes_nothing() {
    let base = "XXkb.group.base: 2\nXXkb.bell.enable: no\n";
    let with_unknown = format!("{base}XXkb.Future.Option: 7 ! note");
    assert_eq!(migrate_string(&with_unknown), migrate_string(base));
    assert_eq!(migrate_string("xxkb.nothing: here"), Config::default());
    let last_line_open = "XXkb.group.alt: 3\r";
    let appended = format!("{last_line_open}\n  XXkb.Some.Thing : x");
    assert_eq!(migrate_string(&appended), migrate_string(last_line_open));
    assert_eq!(migrate_string(&appended).general.alt_group, 3);
}

#[test]
fn empty_input_is_default_config() {
    assert_eq!(migrate_string(""), Config::default());
    assert_eq!(migrate_string("\n\n!comment\n"), Config::default());
}

#[test]
fn button_geometry_without_offset_keeps_default_offset() {
    let raw = "XXkb.button.geometry: 20x20";
    let cfg = migrate_string(raw);
    assert_eq!(cfg.per_window_indicator.size_px, 20);
    assert_eq!(cfg.per_window_indicator.offset, Offset { x: -60, y: 7 });
}

#[test]
fn migrates_full_realistic_xxkbrc_round_trip() {
    let raw = "\
! Realistic ~/.xxkbrc — based on upstream defaults
XXkb.group.base: 1
XXkb.group.alt: 2
XXkb.controls.two_state: yes
XXkb.keymask.cycle: ctrl
XXkb.ignore.reverse: no

XXkb.mainwindow.enable: yes
XXkb.mainwindow.geometry: 32x32+5+5
XXkb.mainwindow.border.color: black
XXkb.mainwindow.border.width: 1

XXkb.button.enable: yes
XXkb.button.geometry: 15x15-60+7

XXkb.bell.enable: no

XXkb.app_list.wm_class_class.ignore: \\
    *clock Fvwm* xclock
XXkb.app_list.wm_class_class.start_alt: Mozilla* Firefox
XXkb.app_list.wm_name.alt_group2: *Telegram*
";
    let cfg = migrate_string(raw);
    assert_eq!(cfg.general.base_group, 1);
    assert_eq!(cfg.general.alt_group, 2);
    assert!(cfg.general.two_state);
    assert_eq!(cfg.general.cycle_modifier, ModifierName::Ctrl);
    assert!(!cfg.general.ignore_reverse);
    assert_eq!(cfg.main_indicator.size_px, 32);
    assert!(cfg.main_indicator.border.enabled);
    assert_eq!(cfg.main_indicator.border.width, 1);
    assert_eq!(cfg.main_indicator.border.color, "#000000");
    assert_eq!(cfg.per_window_indicator.size_px, 15);
    assert_eq!(cfg.per_window_indicator.offset.x, -60);
    assert_eq!(cfg.per_window_indicator.offset.y, 7);
    assert_eq!(cfg.sound.mode, SoundMode::Off);
    assert_eq!(cfg.app_rules.len(), 6);
    cfg.validate().expect("migrated config should validate");
}

#[test]
fn geometry_offset_is_read_in_either_sign_order() {
    let cfg = migrate_string("XXkb.button.geometry: 20x20-10+3");
    assert_eq!(cfg.per_window_indicator.size_px, 20);
    assert_eq!(cfg.per_window_indicator.offset, Offset { x: -10, y: 3 });
    let cfg = migrate_string("XXkb.button.geometry: 21x21+4-9");
    assert_eq!(cfg.per_window_indicator.size_px, 21);
    assert_eq!(cfg.per_window_indicator.offset, Offset { x: 4, y: -9 });
}

#[test]
fn unparsable_values_leave_defaults() {
    let cfg = migrate_string(
        "XXkb.group.base: one\nXXkb.controls.two_state: maybe\nXXkb.button.geometry: big\nXXkb.keymask.cycle: hyper\nXXkb.mainwindow.border.width: -1",
    );
    assert_eq!(cfg, Config::default());
}

#[test]
fn keys_and_booleans_ignore_ascii_case() {
    let cfg = migrate_string("xxkb.CONTROLS.Two_State: ON\nXXKB.KEYMASK.CYCLE: Control\nXXkb.Bell.Enable: 1");
    assert!(cfg.general.two_state);
    assert_eq!(cfg.general.cycle_modifier, ModifierName::Ctrl);
    assert_eq!(cfg.sound.mode, SoundMode::Both);
}

#[test]
fn unknown_colour_is_flagged_in_the_value() {
    let cfg = migrate_string("XXkb.mainwindow.border.color: Chartreuse");
    assert_eq!(cfg.main_indicator.border.color, "#000000 /* xxkb-migrate: unknown colour 'chartreuse' */");
    let cfg = migrate_string("XXkb.mainwindow.border.color: #123456");
    assert_eq!(cfg.main_indicator.border.color, "#123456");
    assert_eq!(cfg.main_indicator.border.width, 1);
}

#[test]
fn app_list_patterns_keep_their_case_and_property() {
    let cfg = migrate_string("XXkb.app_list.wm_class_name.ignore: Navigator\nXXkb.app_list.bogus.ignore: x\nXXkb.app_list.wm_name.alt_group9: y\nXXkb.app_list.wm_name.alt_group: z");
    assert_eq!(cfg.app_rules.len(), 2);
    assert!(matches!(&cfg.app_rules[0].match_, AppMatch::WmClassName(p) if p == "Navigator"));
    match &cfg.app_rules[1].action {
        RuleAction::AltGroup(g) => assert_eq!(g.as_one_based(), 2),
        other => panic!("unexpected {other:?}"),
    }
    assert!(matches!(&cfg.app_rules[1].match_, AppMatch::WmName(p) if p == "z"));
}

#[test]
fn trailing_continuation_without_a_last_line_is_dropped() {
    let cfg = migrate_string("XXkb.group.base: 3\r\nXXkb.group.alt: \\");
    assert_eq!(cfg.general.base_group, 3);
    assert_eq!(cfg.general.alt_group, 2);
}
