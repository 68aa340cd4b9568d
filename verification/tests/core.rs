use xxkb::geometry::{FrameExtents, IndicatorPlacement, Offset, Point, Rect};
use xxkb::layout::{Group, LayoutState, TwoStateConfig};
use xxkb::monitors::{MonitorLayout, Output};
use xxkb::registry::{WindowId, WindowRegistry};
use xxkb::rules::{AppMatch, AppRule, AppRules, RuleAction, Verdict, WindowProps};

fn g(i: u8) -> Group {
    Group::new(i, 4).unwrap()
}

#[test]
fn group_one_based_roundtrip() {
    assert_eq!(Group::from_one_based(1, 4).unwrap(), g(0));
    assert_eq!(Group::from_one_based(4, 4).unwrap(), g(3));
    assert!(Group::from_one_based(0, 4).is_err());
    assert!(Group::from_one_based(5, 4).is_err());
}

#[test]
fn cycle_without_two_state() {
    let mut s = LayoutState::new(3, g(0), TwoStateConfig::default());
    assert_eq!(s.next_cycle(), g(1));
    s.observe(g(1));
    assert_eq!(s.next_cycle(), g(2));
    s.observe(g(2));
    assert_eq!(s.next_cycle(), g(0));
}

#[test]
fn cycle_in_two_state_skips_third_group() {
    let ts = TwoStateConfig { enabled: true, base: g(0), alt: g(2) };
    let mut s = LayoutState::new(4, g(0), ts);
    assert_eq!(s.next_cycle(), g(2));
    s.observe(g(2));
    assert_eq!(s.next_cycle(), g(0));
    s.observe(g(1));
    assert_eq!(s.next_cycle(), g(0));
}

#[test]
fn observe_updates_previous_only_on_change() {
    let mut s = LayoutState::new(3, g(0), TwoStateConfig::default());
    s.observe(g(0));
    assert_eq!(s.previous(), g(0));
    s.observe(g(2));
    assert_eq!(s.current(), g(2));
    assert_eq!(s.previous(), g(0));
    s.observe(g(2));
    assert_eq!(s.previous(), g(0));
}

#[test]
fn prev_cycle_wraps_around() {
    let mut s = LayoutState::new(3, g(0), TwoStateConfig::default());
    assert_eq!(s.prev_cycle(), g(2));
    s.observe(g(0));
    assert_eq!(s.prev_cycle(), g(2));
    s.observe(g(1));
    assert_eq!(s.prev_cycle(), g(0));
}

#[test]
fn prev_cycle_undoes_next_cycle() {
    let mut s = LayoutState::new(4, g(1), TwoStateConfig::default());
    let n = s.next_cycle();
    s.observe(n);
    assert_eq!(s.prev_cycle(), g(1));
}

#[test]
fn group_out_of_range_is_reported_one_based() {
    let err = Group::new(5, 4).unwrap_err();
    assert!(matches!(err, xxkb::layout::CoreError::GroupOutOfRange { given: 6, max: 4 }));
    assert_eq!(g(2).as_one_based(), 3);
    assert_eq!(g(2).as_index(), 2);
    let err = Group::new(255, 4).unwrap_err();
    assert!(matches!(err, xxkb::layout::CoreError::GroupOutOfRange { given: 255, max: 4 }));
    assert!(Group::new(255, 255).is_err());
    assert_eq!(Group::new(254, 255).unwrap().as_one_based(), 255);
}

fn out(name: &str, x: i32, y: i32, w: u32, h: u32, primary: bool) -> Output {
    Output { name: name.into(), geometry: Rect::new(x, y, w, h), is_primary: primary, is_active: true }
}

#[test]
fn default_position_is_bottom_right_with_inset() {
    let o = out("DP-1", 0, 0, 1920, 1080, true);
    let p = MonitorLayout::default_position(&o, 48);
    assert_eq!(p, Point::new(1920 - 48 - 16, 1080 - 48 - 16));
}

#[test]
fn saved_position_takes_precedence() {
    let mut l = MonitorLayout::default();
    l.save_position("DP-1".into(), Point::new(100, 100));
    let o = out("DP-1", 0, 0, 1920, 1080, true);
    assert_eq!(l.position_for(&o, 48), Point::new(100, 100));
}

#[test]
fn unplug_replug_keeps_position() {
    let mut l = MonitorLayout::default();
    l.save_position("HDMI-1".into(), Point::new(50, 50));
    l.update_outputs(vec![out("DP-1", 0, 0, 1920, 1080, true)]);
    assert!(l.active().iter().all(|o| o.name.0 != "HDMI-1"));
    l.update_outputs(vec![
        out("DP-1", 0, 0, 1920, 1080, true),
        out("HDMI-1", 1920, 0, 1280, 1024, false),
    ]);
    let active = l.active();
    let hdmi = active.iter().find(|o| o.name.0 == "HDMI-1").unwrap();
    assert_eq!(l.position_for(hdmi, 48), Point::new(50, 50));
}

#[test]
fn output_at_picks_correct_monitor() {
    let mut l = MonitorLayout::default();
    l.update_outputs(vec![
        out("DP-1", 0, 0, 1920, 1080, true),
        out("HDMI-1", 1920, 0, 1280, 1024, false),
    ]);
    assert_eq!(l.output_at(Point::new(100, 100)).unwrap().name.0, "DP-1");
    assert_eq!(l.output_at(Point::new(2000, 50)).unwrap().name.0, "HDMI-1");
    assert!(l.output_at(Point::new(5000, 5000)).is_none());
}

#[test]
fn primary_is_the_first_active_primary_output() {
    let mut l = MonitorLayout::default();
    let mut inactive = out("eDP-1", 0, 0, 800, 600, true);
    inactive.is_active = false;
    l.update_outputs(vec![inactive, out("DP-1", 0, 0, 1920, 1080, true)]);
    assert_eq!(l.primary().unwrap().name.0, "DP-1");
    assert_eq!(l.active().len(), 1);
}

#[test]
fn negative_offset_anchors_to_right_edge() {
    let p = IndicatorPlacement::compute(
        Point::new(100, 200),
        800,
        FrameExtents { left: 1, right: 1, top: 30, bottom: 1 },
        Offset { x: -60, y: 7 },
        15,
    );
    assert_eq!(p, Point::new(826, 177));
}

#[test]
fn positive_offset_anchors_to_left_edge() {
    let p = IndicatorPlacement::compute(
        Point::new(100, 200),
        800,
        FrameExtents { left: 5, right: 5, top: 30, bottom: 5 },
        Offset { x: 10, y: 5 },
        15,
    );
    assert_eq!(p, Point::new(105, 175));
}

#[test]
fn zero_extents_does_not_panic() {
    let p = IndicatorPlacement::compute(
        Point::new(0, 0),
        500,
        FrameExtents::default(),
        Offset { x: -20, y: 0 },
        10,
    );
    assert_eq!(p, Point::new(500 - 20 - 10, 0));
}

#[test]
fn synth_extents_recovers_typical_mutter_decoration() {
    let extents = FrameExtents::from_frame_and_client(
        Point::new(100, 200),
        802,
        629,
        Point::new(101, 228),
        800,
        600,
    );
    assert_eq!(extents, FrameExtents { left: 1, right: 1, top: 28, bottom: 1 });
}

#[test]
fn synth_extents_for_undecorated_window_is_zero() {
    let extents = FrameExtents::from_frame_and_client(
        Point::new(0, 0),
        1920,
        1080,
        Point::new(0, 0),
        1920,
        1080,
    );
    assert_eq!(extents, FrameExtents::default());
    assert!(extents.is_zero());
}

#[test]
fn synth_extents_clamps_negative_deltas_to_zero() {
    let extents = FrameExtents::from_frame_and_client(
        Point::new(50, 50),
        100,
        100,
        Point::new(40, 40),
        120,
        120,
    );
    assert_eq!(extents, FrameExtents::default());
}

#[test]
fn synth_extents_handles_asymmetric_decoration() {
    let extents = FrameExtents::from_frame_and_client(
        Point::new(0, 0),
        100,
        100,
        Point::new(20, 5),
        70,
        85,
    );
    assert_eq!(extents, FrameExtents { left: 20, right: 10, top: 5, bottom: 10 });
}

#[test]
fn offset_default_is_legacy_button_geometry() {
    assert_eq!(Offset::default(), Offset { x: -60, y: 7 });
}

#[test]
fn remember_and_lookup() {
    let mut r = WindowRegistry::new();
    r.remember(WindowId(1), g(2));
    assert_eq!(r.get(WindowId(1)), Some(g(2)));
    assert_eq!(r.get(WindowId(2)), None);
}

#[test]
fn forget_hides_window_but_keeps_entry() {
    let mut r = WindowRegistry::new();
    r.remember(WindowId(1), g(2));
    r.forget(WindowId(1));
    assert_eq!(r.get(WindowId(1)), None);
    assert_eq!(r.len(), 1);
}

#[test]
fn re_remember_resurrects_forgotten() {
    let mut r = WindowRegistry::new();
    r.remember(WindowId(1), g(2));
    r.forget(WindowId(1));
    r.remember(WindowId(1), g(0));
    assert_eq!(r.get(WindowId(1)), Some(g(0)));
}

#[test]
fn drop_window_removes_completely() {
    let mut r = WindowRegistry::new();
    r.remember(WindowId(1), g(2));
    r.drop_window(WindowId(1));
    assert_eq!(r.len(), 0);
}

#[test]
fn registry_length_counts_each_window_once() {
    let mut r = WindowRegistry::new();
    r.remember(WindowId(1), g(2));
    r.remember(WindowId(2), g(0));
    assert_eq!(r.len(), 2);
    r.remember(WindowId(1), g(3));
    assert_eq!(r.len(), 2);
    r.forget(WindowId(2));
    assert_eq!(r.len(), 2);
    r.drop_window(WindowId(9));
    assert_eq!(r.len(), 2);
    r.drop_window(WindowId(2));
    assert_eq!(r.len(), 1);
    assert_eq!(r.get(WindowId(1)), Some(g(3)));
}

#[test]
fn forgetting_an_unknown_window_changes_nothing() {
    let mut r = WindowRegistry::new();
    r.forget(WindowId(7));
    assert!(r.is_empty());
    r.remember(WindowId(1), g(1));
    r.remember(WindowId(2), g(3));
    let mut all: Vec<u32> = r.iter().iter().map(|(w, _)| w.0).collect();
    all.sort();
    assert_eq!(all, vec![1, 2]);
}

fn props(class: &str, instance: &str, name: &str) -> WindowProps {
    WindowProps { wm_class_class: class.into(), wm_class_name: instance.into(), wm_name: name.into() }
}

fn r_ignore_class(pattern: &str) -> AppRule {
    AppRule { match_: AppMatch::WmClassClass(pattern.into()), action: RuleAction::Ignore }
}

#[test]
fn glob_matches_class() {
    let rs = AppRules::build(&[r_ignore_class("Firefox*")], false).unwrap();
    assert_eq!(rs.verdict(&props("Firefox", "Navigator", "")), Verdict::Ignore);
    assert_eq!(rs.verdict(&props("Firefox-esr", "x", "")), Verdict::Ignore);
    assert_eq!(rs.verdict(&props("Chromium", "x", "")), Verdict::Manage);
}

#[test]
fn first_match_wins() {
    let rules = vec![
        AppRule { match_: AppMatch::WmName("*clock*".into()), action: RuleAction::Ignore },
        AppRule { match_: AppMatch::WmClassClass("Firefox".into()), action: RuleAction::StartAlt },
    ];
    let rs = AppRules::build(&rules, false).unwrap();
    assert_eq!(rs.verdict(&props("Firefox", "", "clockwise")), Verdict::Ignore);
    assert_eq!(rs.verdict(&props("Firefox", "", "Reddit")), Verdict::StartAlt);
}

#[test]
fn ignore_reverse_inverts_meaning() {
    let rs = AppRules::build(&[r_ignore_class("term*")], true).unwrap();
    assert_eq!(rs.verdict(&props("terminator", "", "")), Verdict::Manage);
    assert_eq!(rs.verdict(&props("Firefox", "", "")), Verdict::Ignore);
}

#[test]
fn alt_group_action_carries_group() {
    let rs = AppRules::build(
        &[AppRule {
            match_: AppMatch::WmClassClass("Firefox".into()),
            action: RuleAction::AltGroup(Group::new(2, 4).unwrap()),
        }],
        false,
    )
    .unwrap();
    assert_eq!(rs.verdict(&props("Firefox", "", "")), Verdict::AltGroup(Group::new(2, 4).unwrap()));
}

#[test]
fn bad_glob_returns_error() {
    let rules = vec![r_ignore_class("[unbalanced")];
    let err = AppRules::build(&rules, false).err().unwrap();
    assert!(matches!(err, xxkb::layout::CoreError::BadGlob { .. }));
}

#[test]
fn bad_glob_error_names_the_first_bad_pattern() {
    let rules = vec![r_ignore_class("ok*"), r_ignore_class("[bad"), r_ignore_class("[worse")];
    match AppRules::build(&rules, false).err().unwrap() {
        xxkb::layout::CoreError::BadGlob { pattern, reason } => {
            assert_eq!(pattern, "[bad");
            assert!(!reason.is_empty());
        }
        other => panic!("unexpected error {other:?}"),
    }
}

#[test]
fn oversized_glob_is_rejected_not_fatal() {
    let big = "?".repeat(1_000_000);
    let rules = vec![r_ignore_class("ok*"), r_ignore_class(&big)];
    match AppRules::build(&rules, false).err().unwrap() {
        xxkb::layout::CoreError::BadGlob { pattern, reason } => {
            assert_eq!(pattern, big);
            assert!(!reason.is_empty());
        }
        other => panic!("unexpected error {other:?}"),
    }
}

#[test]
fn empty_rule_set_manages_everything_even_reversed() {
    let rs = AppRules::build(&[], true).unwrap();
    assert!(rs.is_empty());
    assert_eq!(rs.verdict(&props("Anything", "x", "y")), Verdict::Manage);
}

#[test]
fn rules_match_instance_and_title() {
    let rules = vec![
        AppRule { match_: AppMatch::WmClassName("navigator".into()), action: RuleAction::StartAlt },
        AppRule { match_: AppMatch::WmName("?ail*".into()), action: RuleAction::Ignore },
    ];
    let rs = AppRules::build(&rules, false).unwrap();
    assert_eq!(rs.verdict(&props("X", "navigator", "")), Verdict::StartAlt);
    assert_eq!(rs.verdict(&props("X", "other", "Mailbox")), Verdict::Ignore);
    assert_eq!(rs.verdict(&props("X", "other", "Inbox")), Verdict::Manage);
}
