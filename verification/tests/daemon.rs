use indexmap::IndexMap;
use xxkb::config::{BorderConfig, Config, MainIndicatorMode, SoundMode};
use xxkb::daemon::{
    active_output_names, build_rules, build_two_state, dialog_verdict, drag_confirm_text,
    event_fits_check, icon_candidates_for_group, icon_search_paths, main_fits_check,
    main_indicator_placements, per_window_placement,
    record_positions, resolve_for_group, to_border_style, wire_outputs, Daemon, Effect,
};
use xxkb::events::{
    clamp_i16, clamp_u16, frame_extents_from, layout_event, mouse_button_from_detail, on_button_press,
    on_button_release, on_motion, output_from_info, randr_version_ok, split_wm_class, state_has,
    window_props_from, BackendEvent, IndicatorTarget, MouseButton, PressOutcome, WindowGeom,
    CONTROL_MASK, SHIFT_MASK,
};
use xxkb::border::{BorderStyle, Rgb};
use xxkb::geometry::{placement_fits_check, FrameExtents, Offset, Point, Rect};
use xxkb::icons::{IconSource, IconsError};
use xxkb::layout::{Group, LayoutState, SwitchKind, TwoStateConfig};
use xxkb::mock::{MockBackendBuilder, MockCall};
use xxkb::monitors::{default_position_fits_check, with_screen_fallback, MonitorLayout, Output};
use xxkb::registry::WindowId;
use xxkb::rules::{AppMatch, AppRule, RuleAction, WindowProps};
use xxkb::sound::{
    build_player, should_play, trigger_of, NullPlayer, PlayerChoice, SoundPlayer, Trigger,
};
use xxkb::wire::{positions_count, WireOutput, WireWindow, DAEMON_BUS, DAEMON_IFACE, DAEMON_PATH};

fn g(i: u8) -> Group {
    Group::new(i, 4).unwrap()
}

#[test]
fn build_player_off_returns_null() {
    let p = build_player(SoundMode::Off, "");
    assert!(matches!(p, PlayerChoice::Silent));
    NullPlayer.play(SoundMode::Off, Trigger::Manual);
    NullPlayer.play(SoundMode::Both, Trigger::Manual);
}

#[test]
fn build_player_uses_the_configured_file() {
    assert!(matches!(build_player(SoundMode::Both, ""), PlayerChoice::Device { file: None }));
    match build_player(SoundMode::AutoOnly, "/s/click.wav") {
        PlayerChoice::Device { file: Some(f) } => assert_eq!(f, "/s/click.wav"),
        other => panic!("unexpected {other:?}"),
    }
}

#[test]
fn sound_policy_table() {
    assert!(!should_play(SoundMode::Off, Trigger::Manual));
    assert!(!should_play(SoundMode::Off, Trigger::Auto));
    assert!(should_play(SoundMode::ManualOnly, Trigger::Manual));
    assert!(!should_play(SoundMode::ManualOnly, Trigger::Auto));
    assert!(!should_play(SoundMode::AutoOnly, Trigger::Manual));
    assert!(should_play(SoundMode::AutoOnly, Trigger::Auto));
    assert!(should_play(SoundMode::Both, Trigger::Manual));
    assert!(should_play(SoundMode::Both, Trigger::Auto));
}

#[test]
fn two_state_falls_back_to_first_groups() {
    let mut cfg = Config::default();
    cfg.general.two_state = true;
    cfg.general.base_group = 3;
    cfg.general.alt_group = 9;
    let ts = build_two_state(&cfg);
    assert_eq!(ts, TwoStateConfig { enabled: true, base: g(2), alt: g(1) });
    cfg.general.base_group = 0;
    assert_eq!(build_two_state(&cfg).base, g(0));
}

#[test]
fn bad_rule_disables_all_rules() {
    let mut cfg = Config::default();
    cfg.general.ignore_reverse = true;
    cfg.app_rules.push(AppRule { match_: AppMatch::WmName("[x".into()), action: RuleAction::Ignore });
    let rs = build_rules(&cfg);
    assert!(rs.is_empty());
    assert!(!rs.ignore_reverse);
    cfg.app_rules.clear();
    cfg.app_rules.push(AppRule { match_: AppMatch::WmName("x*".into()), action: RuleAction::Ignore });
    let rs = build_rules(&cfg);
    assert!(!rs.is_empty());
    assert!(rs.ignore_reverse);
}

#[test]
fn border_style_from_config() {
    let b = BorderConfig { enabled: true, color: "#FF0000".into(), width: 2 };
    assert_eq!(to_border_style(&b), BorderStyle::new(true, Rgb(255, 0, 0), 2));
    let b = BorderConfig { enabled: false, color: "nonsense".into(), width: 0 };
    assert_eq!(to_border_style(&b), BorderStyle::new(false, Rgb(0, 0, 0), 0));
}

#[test]
fn builtin_is_always_searched_last() {
    let mut cfg = Config::default();
    cfg.icons.search_paths = vec!["/a".into()];
    assert_eq!(icon_search_paths(&cfg), vec!["/a".to_owned(), "builtin".to_owned()]);
    cfg.icons.search_paths = vec!["builtin".into(), "/a".into()];
    assert_eq!(icon_search_paths(&cfg), vec!["builtin".to_owned(), "/a".to_owned()]);
}

#[test]
fn renders_default_main_indicator_for_group_one() {
    let mut cfg = Config::default();
    cfg.icons.search_paths = vec!["builtin".into()];
    let icon = resolve_for_group(&cfg, g(0), None, &[]).unwrap();
    assert!(matches!(icon.source, IconSource::Embedded { id: "en.svg", .. }));
}

#[test]
fn unknown_group_returns_not_found() {
    let mut cfg = Config::default();
    cfg.icons.search_paths = vec!["builtin".into()];
    let group = Group::new(7, 8).unwrap();
    let err = resolve_for_group(&cfg, group, None, &[]).err().unwrap();
    assert!(matches!(err, IconsError::NotFound { name } if name == "group:8"));
}

#[test]
fn group_icon_prefers_user_files_then_builtin() {
    let cfg = Config::default();
    let cands = icon_candidates_for_group(&cfg, g(1), Some("/home/u".to_owned()));
    assert_eq!(cands[0], "/home/u/.local/share/icons/xxkb/ru.svg");
    assert_eq!(cands.len(), 10);
    let icon = resolve_for_group(&cfg, g(1), Some("/home/u".to_owned()), &cands[1..2]).unwrap();
    assert!(matches!(&icon.source, IconSource::File(p) if p == "/home/u/.local/share/icons/xxkb/ru.png"));
    let icon = resolve_for_group(&cfg, g(1), Some("/home/u".to_owned()), &[]).unwrap();
    assert!(matches!(icon.source, IconSource::Embedded { id: "ru.svg", .. }));
}

fn out(name: &str, x: i32, primary: bool, active: bool) -> Output {
    Output { name: name.into(), geometry: Rect::new(x, 0, 1920, 1080), is_primary: primary, is_active: active }
}

#[test]
fn main_indicators_follow_mode_and_saved_positions() {
    let mut cfg = Config::default();
    let mut saved = IndexMap::new();
    saved.insert("HDMI-1".to_owned(), Point::new(5, 6));
    let mut ml = MonitorLayout::new(saved);
    ml.update_outputs(vec![out("DP-1", 0, true, true), out("HDMI-1", 1920, false, true), out("VGA-1", 0, false, false)]);
    let all = main_indicator_placements(&cfg, &ml);
    assert_eq!(all, vec![("DP-1".to_owned(), Point::new(1856, 1016)), ("HDMI-1".to_owned(), Point::new(5, 6))]);
    cfg.main_indicator.mode = MainIndicatorMode::PrimaryOnly;
    assert_eq!(main_indicator_placements(&cfg, &ml), vec![("DP-1".to_owned(), Point::new(1856, 1016))]);
    cfg.main_indicator.enable = false;
    assert!(main_indicator_placements(&cfg, &ml).is_empty());
    assert_eq!(active_output_names(&ml), vec!["DP-1".to_owned(), "HDMI-1".to_owned()]);
    let wire = wire_outputs(&ml);
    assert_eq!(wire.len(), 2);
    assert_eq!(
        wire[1],
        WireOutput { name: "HDMI-1".into(), x: 1920, y: 0, width: 1920, height: 1080, is_primary: false, is_active: true }
    );
}

#[test]
fn primary_only_without_primary_places_everywhere() {
    let mut cfg = Config::default();
    cfg.main_indicator.mode = MainIndicatorMode::PrimaryOnly;
    let mut ml = MonitorLayout::default();
    ml.update_outputs(vec![out("DP-1", 0, false, true), out("DP-2", 1920, false, true)]);
    assert_eq!(main_indicator_placements(&cfg, &ml).len(), 2);
}

fn geom() -> WindowGeom {
    WindowGeom {
        origin: Point::new(100, 200),
        width: 800,
        height: 600,
        frame: FrameExtents { left: 1, right: 1, top: 30, bottom: 1 },
    }
}

#[test]
fn per_window_placement_needs_geometry_and_enable() {
    let mut cfg = Config::default();
    assert_eq!(per_window_placement(&cfg, Some(geom())), Some(Point::new(826, 177)));
    assert_eq!(per_window_placement(&cfg, None), None);
    cfg.per_window_indicator.enable = false;
    assert_eq!(per_window_placement(&cfg, Some(geom())), None);
}

fn daemon(cfg: &Config) -> Daemon {
    Daemon::new(LayoutState::new(4, g(0), TwoStateConfig::default()), cfg)
}

fn props(class: &str) -> WindowProps {
    WindowProps { wm_class_class: class.into(), wm_class_name: "x".into(), wm_name: "t".into() }
}

#[test]
fn layout_change_repaints_and_signals() {
    let mut cfg = Config::default();
    let mut d = daemon(&cfg);
    let fx = d.handle_event(&mut cfg, BackendEvent::LayoutChanged { new_group: 2, kind: SwitchKind::Keyboard });
    assert_eq!(d.layout.current(), g(2));
    assert_eq!(d.layout.previous(), g(0));
    assert_eq!(fx.len(), 3);
    assert!(matches!(fx[0], Effect::RepaintMain { group } if group == g(2)));
    assert!(matches!(fx[1], Effect::RepaintWindows { group } if group == g(2)));
    assert!(matches!(fx[2], Effect::EmitLayoutChanged { group_one_based: 3, wid: 0 }));
    let fx = d.handle_event(&mut cfg, BackendEvent::LayoutChanged { new_group: 9, kind: SwitchKind::Auto });
    assert!(fx.is_empty());
    assert_eq!(d.layout.current(), g(2));
}

#[test]
fn active_window_is_cached_placed_and_restored() {
    let mut cfg = Config::default();
    let mut d = daemon(&cfg);
    d.registry.remember(WindowId(7), g(3));
    let fx = d.handle_event(
        &mut cfg,
        BackendEvent::ActiveWindowChanged { wid: Some(WindowId(7)), props: Some(props("Term")), geom: Some(geom()) },
    );
    assert_eq!(d.last_active_wid, 7);
    assert_eq!(fx.len(), 3);
    assert!(matches!(fx[0], Effect::SetGroup(x) if x == g(3)));
    assert!(matches!(&fx[1], Effect::CacheWindow { wid: WindowId(7), props, geom: Some(_) } if props.wm_class_class == "Term"));
    assert!(matches!(fx[2], Effect::PlaceWindowIndicator { wid: WindowId(7), point, size: 15, group } if point == Point::new(826, 177) && group == g(0)));
    let fx = d.handle_event(&mut cfg, BackendEvent::LayoutChanged { new_group: 1, kind: SwitchKind::Auto });
    assert!(matches!(fx[2], Effect::EmitLayoutChanged { group_one_based: 2, wid: 7 }));
    assert_eq!(d.registry.get(WindowId(7)), Some(g(1)));
}

fn focus(d: &mut Daemon, cfg: &mut Config, wid: u32, class: &str) -> Vec<Effect> {
    d.handle_event(cfg, BackendEvent::ActiveWindowChanged { wid: Some(WindowId(wid)), props: Some(props(class)), geom: None })
}

#[test]
fn layout_follows_the_focused_window() {
    let mut cfg = Config::default();
    let mut d = daemon(&cfg);
    // A new window keeps the current group, which it then remembers.
    let fx = focus(&mut d, &mut cfg, 1, "Editor");
    assert!(matches!(fx[0], Effect::CacheWindow { .. }));
    assert!(!fx.iter().any(|e| matches!(e, Effect::SetGroup(_))));
    assert_eq!(d.registry.get(WindowId(1)), Some(g(0)));
    assert_eq!(d.remember_for, Some(WindowId(1)));
    let _ = d.handle_event(&mut cfg, BackendEvent::LayoutChanged { new_group: 1, kind: SwitchKind::Keyboard });
    assert_eq!(d.registry.get(WindowId(1)), Some(g(1)));
    // Focusing another new window does not switch back to the base group.
    let fx = focus(&mut d, &mut cfg, 2, "Term");
    assert!(matches!(fx[0], Effect::CacheWindow { .. }));
    assert!(!fx.iter().any(|e| matches!(e, Effect::SetGroup(_))));
    assert_eq!(d.registry.get(WindowId(2)), Some(g(1)));
    let _ = d.handle_event(&mut cfg, BackendEvent::LayoutChanged { new_group: 2, kind: SwitchKind::Keyboard });
    let fx = focus(&mut d, &mut cfg, 1, "Editor");
    assert!(matches!(fx[0], Effect::SetGroup(x) if x == g(1)));
    let fx = focus(&mut d, &mut cfg, 2, "Term");
    assert!(matches!(fx[0], Effect::SetGroup(x) if x == g(2)));
    let _ = d.handle_event(&mut cfg, BackendEvent::WindowDestroyed { wid: WindowId(2) });
    assert_eq!(d.remember_for, None);
    assert_eq!(d.registry.get(WindowId(2)), None);
}

#[test]
fn start_alt_window_opens_in_the_alt_group() {
    let mut cfg = Config::default();
    cfg.general.alt_group = 3;
    cfg.app_rules.push(AppRule { match_: AppMatch::WmClassClass("Firefox".into()), action: RuleAction::StartAlt });
    let mut d = Daemon::new(LayoutState::new(4, g(0), build_two_state(&cfg)), &cfg);
    let fx = focus(&mut d, &mut cfg, 5, "Firefox");
    assert!(matches!(fx[0], Effect::SetGroup(x) if x == g(2)));
    assert_eq!(d.registry.get(WindowId(5)), Some(g(2)));
    // Once remembered, the window gets its own group back, not the alt one.
    let _ = d.handle_event(&mut cfg, BackendEvent::LayoutChanged { new_group: 0, kind: SwitchKind::Keyboard });
    let _ = focus(&mut d, &mut cfg, 6, "Term");
    let fx = focus(&mut d, &mut cfg, 5, "Firefox");
    assert!(matches!(fx[0], Effect::SetGroup(x) if x == g(0)));
}

#[test]
fn alt_group_rule_gives_the_window_its_own_alternative() {
    let mut cfg = Config::default();
    cfg.general.two_state = true;
    cfg.general.alt_group = 2;
    cfg.app_rules.push(AppRule {
        match_: AppMatch::WmClassClass("Term".into()),
        action: RuleAction::AltGroup(g(3)),
    });
    let mut d = Daemon::new(LayoutState::new(4, g(0), build_two_state(&cfg)), &cfg);
    let click = || BackendEvent::IndicatorClicked {
        target: IndicatorTarget::Main("DP-1".into()),
        button: MouseButton::Left,
        ctrl: false,
        shift: false,
    };
    let fx = focus(&mut d, &mut cfg, 3, "Term");
    assert!(!fx.iter().any(|e| matches!(e, Effect::SetGroup(_))));
    assert_eq!(d.window_alt, Some(g(3)));
    let fx = d.handle_event(&mut cfg, click());
    assert!(matches!(fx[0], Effect::SetGroup(x) if x == g(3)));
    // Another window toggles to the configured alternative group.
    let _ = focus(&mut d, &mut cfg, 4, "Editor");
    assert_eq!(d.window_alt, None);
    let fx = d.handle_event(&mut cfg, click());
    assert!(matches!(fx[0], Effect::SetGroup(x) if x == g(1)));
    let _ = focus(&mut d, &mut cfg, 3, "Term");
    let _ = d.handle_event(&mut cfg, BackendEvent::WindowDestroyed { wid: WindowId(3) });
    assert_eq!(d.window_alt, None);
}

#[test]
fn ignored_window_is_forgotten() {
    let mut cfg = Config::default();
    cfg.app_rules.push(AppRule { match_: AppMatch::WmClassClass("Clock*".into()), action: RuleAction::Ignore });
    let mut d = daemon(&cfg);
    d.registry.remember(WindowId(4), g(1));
    let fx = d.handle_event(
        &mut cfg,
        BackendEvent::ActiveWindowChanged { wid: Some(WindowId(4)), props: Some(props("Clockwork")), geom: None },
    );
    assert_eq!(d.registry.get(WindowId(4)), None);
    assert_eq!(d.registry.len(), 1);
    assert_eq!(fx.len(), 2);
    assert!(matches!(fx[0], Effect::CacheWindow { geom: None, .. }));
    assert!(matches!(fx[1], Effect::HideWindowIndicator { wid: WindowId(4) }));
    assert_eq!(d.remember_for, None);
    let _ = d.handle_event(&mut cfg, BackendEvent::LayoutChanged { new_group: 3, kind: SwitchKind::Keyboard });
    assert_eq!(d.registry.get(WindowId(4)), None);
    let fx = d.handle_event(&mut cfg, BackendEvent::ActiveWindowChanged { wid: None, props: None, geom: None });
    assert!(fx.is_empty());
    assert_eq!(d.last_active_wid, 4);
}

#[test]
fn geometry_destroy_monitors_click_and_drag() {
    let mut cfg = Config::default();
    let mut d = daemon(&cfg);
    let fx = d.handle_event(&mut cfg, BackendEvent::WindowGeometryChanged { wid: WindowId(9), geom: geom() });
    assert_eq!(fx.len(), 2);
    assert!(matches!(fx[0], Effect::CacheGeometry { wid: WindowId(9), .. }));
    d.registry.remember(WindowId(9), g(1));
    let fx = d.handle_event(&mut cfg, BackendEvent::WindowDestroyed { wid: WindowId(9) });
    assert!(matches!(fx[0], Effect::ForgetWindow { wid: WindowId(9) }));
    assert!(d.registry.is_empty());
    let fx = d.handle_event(&mut cfg, BackendEvent::MonitorsChanged { outputs: vec![out("DP-1", 0, true, true)] });
    assert!(matches!(fx[0], Effect::PlaceMainIndicators));
    assert_eq!(d.monitors.active().len(), 1);
    let fx = d.handle_event(
        &mut cfg,
        BackendEvent::IndicatorClicked { target: IndicatorTarget::Main("DP-1".into()), button: MouseButton::Left, ctrl: false, shift: false },
    );
    assert!(matches!(fx[0], Effect::SetGroup(x) if x == g(1)));
    let fx = d.handle_event(
        &mut cfg,
        BackendEvent::IndicatorClicked { target: IndicatorTarget::Main("DP-1".into()), button: MouseButton::Right, ctrl: false, shift: false },
    );
    assert!(fx.is_empty());
    let fx = d.handle_event(
        &mut cfg,
        BackendEvent::IndicatorDragged { target: IndicatorTarget::Main("DP-1".into()), new_origin: Point::new(3, 4) },
    );
    assert!(matches!(fx[0], Effect::SaveConfig));
    assert_eq!(cfg.main_indicator.positions.get("DP-1").copied(), Some(Point::new(3, 4)));
    assert_eq!(d.monitors.saved().get("DP-1").copied(), Some(Point::new(3, 4)));
    let fx = d.handle_event(
        &mut cfg,
        BackendEvent::IndicatorDragged { target: IndicatorTarget::Window(WindowId(1)), new_origin: Point::new(3, 4) },
    );
    assert!(fx.is_empty());
}

#[test]
fn reload_keeps_group_and_merges_positions() {
    let mut cfg = Config::default();
    let mut d = daemon(&cfg);
    let _ = d.handle_event(&mut cfg, BackendEvent::LayoutChanged { new_group: 3, kind: SwitchKind::Keyboard });
    let mut new_cfg = Config::default();
    new_cfg.general.two_state = true;
    new_cfg.main_indicator.positions.insert("DP-2".to_owned(), Point::new(1, 2));
    d.reload(&mut cfg, new_cfg);
    assert_eq!(d.layout.current(), g(3));
    assert_eq!(d.layout.previous(), g(3));
    assert!(d.layout.two_state().enabled);
    assert!(cfg.general.two_state);
    assert_eq!(d.monitors.saved().get("DP-2").copied(), Some(Point::new(1, 2)));
}

#[test]
fn positions_sent_over_the_bus_are_recorded() {
    let mut cfg = Config::default();
    let mut ml = MonitorLayout::default();
    record_positions(&mut cfg, &mut ml, &[("A".to_owned(), 1, 2), ("B".to_owned(), 3, 4), ("A".to_owned(), 5, 6)]);
    assert_eq!(cfg.main_indicator.positions.len(), 2);
    assert_eq!(cfg.main_indicator.positions.get("A").copied(), Some(Point::new(5, 6)));
    assert_eq!(ml.saved().get("B").copied(), Some(Point::new(3, 4)));
    assert_eq!(positions_count(3), 3);
}

#[test]
fn drag_question_and_dialog_verdict() {
    assert_eq!(
        drag_confirm_text("DP-1", -5, 12),
        "Save new main-indicator position for DP-1 at screen coordinates (-5, 12)?"
    );
    assert!(!dialog_verdict(Some(false), Some(true)));
    assert!(dialog_verdict(None, Some(true)));
    assert!(!dialog_verdict(None, Some(false)));
    assert!(dialog_verdict(None, None));
}

#[test]
fn wm_class_splits_instance_then_class() {
    let (class, instance) = split_wm_class("navigator\0Firefox\0");
    assert_eq!(class, "Firefox");
    assert_eq!(instance, "navigator");
    assert_eq!(split_wm_class("\0\0only\0"), ("".to_owned(), "only".to_owned()));
    assert_eq!(split_wm_class(""), ("".to_owned(), "".to_owned()));
    let p = window_props_from("a\0B\0", "old".into(), "".into());
    assert_eq!(p, WindowProps { wm_class_class: "B".into(), wm_class_name: "a".into(), wm_name: "old".into() });
    let p = window_props_from("a\0B\0", "old".into(), "new".into());
    assert_eq!(p.wm_name, "new");
}

#[test]
fn x11_value_helpers() {
    assert_eq!(clamp_i16(40000), i16::MAX);
    assert_eq!(clamp_i16(-40000), i16::MIN);
    assert_eq!(clamp_i16(-7), -7);
    assert_eq!(clamp_u16(0), 1);
    assert_eq!(clamp_u16(70000), u16::MAX);
    assert_eq!(clamp_u16(48), 48);
    assert!(state_has(5, CONTROL_MASK));
    assert!(!state_has(4, SHIFT_MASK));
    assert_eq!(mouse_button_from_detail(1), MouseButton::Left);
    assert_eq!(mouse_button_from_detail(2), MouseButton::Middle);
    assert_eq!(mouse_button_from_detail(3), MouseButton::Right);
    assert!(randr_version_ok(1, 2));
    assert!(!randr_version_ok(1, 1));
    assert!(randr_version_ok(2, 0));
    assert_eq!(frame_extents_from(32, 4, &[1, 2, 3, 4]), FrameExtents { left: 1, right: 2, top: 3, bottom: 4 });
    assert_eq!(frame_extents_from(8, 4, &[1, 2, 3, 4]), FrameExtents::default());
    assert_eq!(frame_extents_from(32, 4, &[1, 2, 3]), FrameExtents::default());
    let o = output_from_info("DP-1".into(), true, 0, Some(Rect::new(1, 2, 3, 4)), true);
    assert!(!o.is_active);
    assert_eq!(o.geometry, Rect::new(0, 0, 0, 0));
    let o = output_from_info("DP-1".into(), true, 9, Some(Rect::new(1, 2, 3, 4)), false);
    assert!(o.is_active);
    assert_eq!(o.geometry, Rect::new(1, 2, 3, 4));
}

#[test]
fn ctrl_drag_moves_then_reports() {
    let t = Some(IndicatorTarget::Main("DP-1".into()));
    let mut drag = match on_button_press(t, CONTROL_MASK, 1, 77, 500, 400, 10, 20) {
        PressOutcome::StartDrag(d) => Some(d),
        other => panic!("unexpected {other:?}"),
    };
    assert_eq!(on_motion(&mut drag, 500, 400), None);
    assert_eq!(on_motion(&mut drag, 510, 430), Some((77, Point::new(500, 410))));
    let end = on_button_release(&mut drag);
    assert!(drag.is_none());
    match end {
        Some(Some((IndicatorTarget::Main(n), p))) => {
            assert_eq!(n, "DP-1");
            assert_eq!(p, Point::new(500, 410));
        }
        other => panic!("unexpected {other:?}"),
    }
    assert!(on_button_release(&mut drag).is_none());
}

#[test]
fn press_without_ctrl_is_a_click_and_release_without_motion_is_silent() {
    let t = Some(IndicatorTarget::Window(WindowId(3)));
    match on_button_press(t, SHIFT_MASK, 3, 1, 0, 0, 0, 0) {
        PressOutcome::Click { button, ctrl, shift, .. } => {
            assert_eq!(button, MouseButton::Right);
            assert!(!ctrl);
            assert!(shift);
        }
        other => panic!("unexpected {other:?}"),
    }
    assert!(matches!(on_button_press(None, 0, 1, 1, 0, 0, 0, 0), PressOutcome::Ignore));
    let mut drag = match on_button_press(Some(IndicatorTarget::Window(WindowId(3))), CONTROL_MASK, 1, 5, 0, 0, 0, 0) {
        PressOutcome::StartDrag(d) => Some(d),
        other => panic!("unexpected {other:?}"),
    };
    assert!(matches!(on_button_release(&mut drag), Some(None)));
}

#[test]
fn wire_types_and_constants() {
    assert_eq!(DAEMON_BUS, "org.xxkb.Daemon1");
    assert_eq!(DAEMON_PATH, "/org/xxkb/Daemon1");
    assert_eq!(DAEMON_IFACE, "org.xxkb.Daemon1");
    let w = WireWindow::from_props(WindowId(5), &props("C"));
    assert_eq!(w, WireWindow { wid: 5, wm_class_class: "C".into(), wm_class_name: "x".into(), wm_name: "t".into() });
    assert_eq!(positions_count(0), 0);
}

#[test]
fn mock_builder_keeps_group_and_outputs() {
    let (grp, outs) = MockBackendBuilder::new().with_group(g(2)).with_outputs(vec![out("DP-1", 0, true, true)]).into_parts();
    assert_eq!(grp, g(2));
    assert_eq!(outs.len(), 1);
    let (grp, outs) = MockBackendBuilder::default().into_parts();
    assert_eq!(grp, g(0));
    assert!(outs.is_empty());
    assert_eq!(MockCall::PaintMain("DP-1".into(), 32, 32), MockCall::PaintMain("DP-1".into(), 32, 32));
    assert_ne!(MockCall::SetGroup(g(1)), MockCall::Connect);
}

#[test]
fn placement_fit_checks_match_the_arithmetic() {
    let off = Offset { x: -60, y: 7 };
    let ext = FrameExtents { left: 1, right: 1, top: 30, bottom: 1 };
    assert!(placement_fits_check(Point::new(100, 200), 800, ext, off, 15));
    assert!(!placement_fits_check(Point::new(i32::MAX - 10, 0), 800, ext, off, 15));
    assert!(!placement_fits_check(Point::new(0, i32::MIN), 800, ext, off, 15));
    assert!(default_position_fits_check(Rect::new(0, 0, 1920, 1080), 48));
    assert!(!default_position_fits_check(Rect::new(i32::MAX - 100, 0, 1920, 1080), 48));
    assert!(!default_position_fits_check(Rect::new(i32::MIN, 0, 0, 1080), 48));
}

#[test]
fn event_and_main_fit_checks_guard_the_daemon() {
    let mut cfg = Config::default();
    let far = WindowGeom {
        origin: Point::new(i32::MAX - 5, 0),
        width: 800,
        height: 600,
        frame: FrameExtents { left: 0, right: 0, top: 0, bottom: 0 },
    };
    let ev = BackendEvent::WindowGeometryChanged { wid: WindowId(7), geom: far };
    assert!(!event_fits_check(&cfg, &ev));
    assert!(event_fits_check(&cfg, &BackendEvent::WindowGeometryChanged { wid: WindowId(7), geom: geom() }));
    cfg.per_window_indicator.enable = false;
    assert!(event_fits_check(&cfg, &ev));

    let mut ml = MonitorLayout::default();
    ml.update_outputs(vec![out("DP-1", 0, true, true)]);
    assert!(main_fits_check(&cfg, &ml));
    let mut huge = out("DP-2", i32::MAX - 100, false, true);
    huge.geometry = Rect::new(i32::MAX - 100, 0, 1920, 1080);
    ml.update_outputs(vec![out("DP-1", 0, true, true), huge]);
    assert!(!main_fits_check(&cfg, &ml));
    cfg.main_indicator.mode = MainIndicatorMode::PrimaryOnly;
    assert!(main_fits_check(&cfg, &ml));
    cfg.main_indicator.mode = MainIndicatorMode::AllDisplays;
    cfg.main_indicator.enable = false;
    assert!(main_fits_check(&cfg, &ml));
}

#[test]
fn layout_switch_plays_the_sound_the_mode_asks_for() {
    assert_eq!(trigger_of(SwitchKind::Auto), Trigger::Auto);
    assert_eq!(trigger_of(SwitchKind::Keyboard), Trigger::Manual);
    assert_eq!(trigger_of(SwitchKind::Click), Trigger::Manual);

    let mut cfg = Config::default();
    cfg.sound.mode = SoundMode::ManualOnly;
    let mut d = daemon(&cfg);
    let fx = d.handle_event(&mut cfg, BackendEvent::LayoutChanged { new_group: 1, kind: SwitchKind::Keyboard });
    assert_eq!(fx.len(), 4);
    assert!(matches!(fx[3], Effect::PlaySound { trigger: Trigger::Manual }));
    let fx = d.handle_event(&mut cfg, BackendEvent::LayoutChanged { new_group: 2, kind: SwitchKind::Auto });
    assert_eq!(fx.len(), 3);

    cfg.sound.mode = SoundMode::Both;
    let fx = d.handle_event(&mut cfg, BackendEvent::LayoutChanged { new_group: 0, kind: SwitchKind::Auto });
    assert!(matches!(fx[3], Effect::PlaySound { trigger: Trigger::Auto }));

    cfg.sound.mode = SoundMode::Off;
    let fx = d.handle_event(&mut cfg, BackendEvent::LayoutChanged { new_group: 1, kind: SwitchKind::Keyboard });
    assert_eq!(fx.len(), 3);
}

#[test]
fn inactive_outputs_get_a_virtual_screen() {
    let outs = vec![out("VGA-1", 0, false, false)];
    let r = with_screen_fallback(outs, 1024, 768);
    assert_eq!(r.len(), 2);
    assert_eq!(r[1], Output { name: "screen".into(), geometry: Rect::new(0, 0, 1024, 768), is_primary: true, is_active: true });
    let outs = vec![out("VGA-1", 0, false, false), out("DP-1", 0, true, true)];
    assert_eq!(with_screen_fallback(outs.clone(), 1024, 768), outs);
    assert_eq!(with_screen_fallback(Vec::new(), 640, 480).len(), 1);
}

#[test]
fn frame_extents_are_synthesised_from_the_frame_window() {
    let e = FrameExtents::try_from_frame_and_client(Point::new(100, 100), 820, 650, Point::new(110, 140), 800, 600);
    assert_eq!(e, Some(FrameExtents { left: 10, right: 10, top: 40, bottom: 10 }));
    let e = FrameExtents::try_from_frame_and_client(Point::new(100, 100), 10, 10, Point::new(90, 90), 40, 40);
    assert_eq!(e, Some(FrameExtents { left: 0, right: 0, top: 0, bottom: 0 }));
    assert_eq!(
        FrameExtents::try_from_frame_and_client(Point::new(i32::MIN, 0), 10, 10, Point::new(i32::MAX, 0), 10, 10),
        None
    );
}

#[test]
fn dragged_position_waits_for_confirmation_when_asked() {
    let mut cfg = Config::default();
    cfg.main_indicator.confirm_drag_save = true;
    let mut d = daemon(&cfg);
    let drag = BackendEvent::IndicatorDragged { target: IndicatorTarget::Main("DP-1".into()), new_origin: Point::new(7, 8) };
    let fx = d.handle_event(&mut cfg, drag);
    assert_eq!(fx.len(), 1);
    assert!(matches!(&fx[0], Effect::ConfirmDrag { output, origin } if output == "DP-1" && *origin == Point::new(7, 8)));
    assert!(cfg.main_indicator.positions.is_empty());
    let fx = d.drag_answered(&mut cfg, "DP-1", Point::new(7, 8), false);
    assert!(matches!(fx[..], [Effect::PlaceMainIndicators]));
    assert!(cfg.main_indicator.positions.is_empty());
    let fx = d.drag_answered(&mut cfg, "DP-1", Point::new(7, 8), true);
    assert!(matches!(fx[..], [Effect::SaveConfig]));
    assert_eq!(cfg.main_indicator.positions.get("DP-1").copied(), Some(Point::new(7, 8)));
    assert_eq!(d.monitors.saved().get("DP-1").copied(), Some(Point::new(7, 8)));
}

#[test]
fn xkb_notifications_tell_keyboard_from_automatic_switches() {
    assert!(matches!(layout_event(1, 50), BackendEvent::LayoutChanged { new_group: 1, kind: SwitchKind::Keyboard }));
    assert!(matches!(layout_event(0, 0), BackendEvent::LayoutChanged { new_group: 0, kind: SwitchKind::Auto }));
}
