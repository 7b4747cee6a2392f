use buckyboi::draw::{fill_rect, glyph, plot, stamp, text};
use buckyboi::gate::GateMode;
use buckyboi::radial::{
    apply_action, icons, IconId, RadialAction, RadialMenu, Settings, SettingsPage, Slider,
    WizardHits,
};
use buckyboi::sim::EDGES;
use buckyboi::ux::{is_tap, listen_duration_ms, BuddyUx, Phase, UxEvent, LISTEN_MAX_MS, LISTEN_MIN_MS};

fn within_tap(dx: f32, dy: f32) -> bool {
    dx.hypot(dy) < 6.0
}

#[test]
fn tap_is_small_and_quick() {
    assert!(is_tap(within_tap(0.0, 0.0), 80));
    assert!(is_tap(within_tap(3.0, 4.0), 200));
    assert!(!is_tap(within_tap(7.0, 0.0), 80));
    assert!(!is_tap(within_tap(0.0, 0.0), 250));
    assert!(!is_tap(within_tap(10.0, 10.0), 400));
}

#[test]
fn listen_duration_in_range() {
    for seed in [0u64, 1, 17, 999, 1_000_000] {
        let d = listen_duration_ms(seed);
        assert!((LISTEN_MIN_MS..=LISTEN_MAX_MS).contains(&d), "{d}");
    }
    assert_eq!(listen_duration_ms(0), LISTEN_MIN_MS);
    assert_eq!(listen_duration_ms(10_000), LISTEN_MAX_MS);
}

#[test]
fn click_in_place_starts_listen() {
    let mut ux = BuddyUx::new();
    assert_eq!(ux.button_down(1000, true), UxEvent::Nothing);
    assert_eq!(ux.button_up(within_tap(1.0, 0.0), 1120, 3), UxEvent::StartListen);
    assert_eq!(ux.phase, Phase::Listening);
    assert!(ux.listen_until_ms > 1120);
}

#[test]
fn drag_is_not_a_click() {
    let mut ux = BuddyUx::new();
    ux.button_down(1000, true);
    assert_eq!(ux.pointer_move(!within_tap(20.0, 0.0)), UxEvent::BeginDrag);
    assert_eq!(ux.button_up(within_tap(30.0, 10.0), 1180, 0), UxEvent::EndDrag);
    assert_eq!(ux.phase, Phase::VisibleIdle);
}

#[test]
fn listen_then_hide_then_wake() {
    let mut ux = BuddyUx::new();
    ux.enter_listen(1_000, 0);
    assert_eq!(ux.phase, Phase::Listening);
    assert_eq!(ux.tick(2_000), UxEvent::Nothing);
    assert_eq!(ux.tick(1_000 + LISTEN_MIN_MS as u64), UxEvent::Hide);
    assert_eq!(ux.phase, Phase::Hidden);
    assert_eq!(ux.wake(), UxEvent::Wake);
    assert_eq!(ux.phase, Phase::VisibleIdle);
}

#[test]
fn click_outside_hit_does_nothing() {
    let mut ux = BuddyUx::new();
    assert_eq!(ux.button_down(0, false), UxEvent::Nothing);
    assert_eq!(ux.button_up(within_tap(0.0, 0.0), 10, 0), UxEvent::Nothing);
    assert_eq!(ux.phase, Phase::VisibleIdle);
}

#[test]
fn slow_press_is_not_a_click() {
    let mut ux = BuddyUx::new();
    ux.button_down(0, true);
    assert_eq!(ux.button_up(true, 300, 0), UxEvent::Nothing);
    assert_eq!(ux.phase, Phase::VisibleIdle);
    assert_eq!(Phase::Hidden.as_u8(), 2);
}

#[test]
fn thirty_edges() {
    assert_eq!(EDGES.len(), 30);
}

#[test]
fn every_vertex_has_five_edges() {
    for v in 0..12usize {
        let d = EDGES.iter().filter(|&&(a, b)| a == v || b == v).count();
        assert_eq!(d, 5, "vertex {v}");
    }
}

#[test]
fn radial_menu_starts_closed() {
    let m = RadialMenu::new();
    assert!(!m.panel_open());
    assert_eq!(m.layout_ms(42), 42);
    assert!(!m.flashing(IconId::Settings, 0));
    assert_eq!(icons(), [IconId::Settings, IconId::Dismiss, IconId::Mute, IconId::Info]);
}

#[test]
fn settings_toggle_freezes_layout_and_flashes() {
    let mut m = RadialMenu::new();
    let mut s = Settings::with_stroke(1.45f32);
    apply_action(&mut m, &mut s, RadialAction::ToggleSettings, 10);
    assert!(m.settings_open);
    assert_eq!(m.layout_ms(500), 10);
    assert!(m.flashing(IconId::Settings, 229));
    assert!(!m.flashing(IconId::Settings, 230));
    apply_action(&mut m, &mut s, RadialAction::ToggleSettings, 20);
    assert!(!m.settings_open);
    assert_eq!(m.layout_ms(500), 500);
}

#[test]
fn dismiss_resets_menu_keeps_mute() {
    let mut m = RadialMenu::new();
    let mut s = Settings::with_stroke(1.45f32);
    apply_action(&mut m, &mut s, RadialAction::Mute, 0);
    m.settings_open = true;
    m.calib_open = true;
    apply_action(&mut m, &mut s, RadialAction::Dismiss, 1);
    assert!(!m.panel_open());
    assert!(m.muted);
    assert!(m.flash_id.is_none());
}

#[test]
fn settings_actions_update_and_clamp() {
    let mut m = RadialMenu::new();
    let mut s = Settings::with_stroke(1.45f32);
    assert!(s.camera);
    apply_action(&mut m, &mut s, RadialAction::ToggleCamera, 0);
    assert!(!s.camera);
    apply_action(&mut m, &mut s, RadialAction::SetListenMs(99_000), 0);
    assert_eq!(s.listen_ms, 15_000);
    apply_action(&mut m, &mut s, RadialAction::SetGazeMs(10), 0);
    assert_eq!(s.gaze_lock_ms, 2_000);
    apply_action(&mut m, &mut s, RadialAction::CycleGate, 0);
    assert_eq!(s.gate, GateMode::Face);
    apply_action(&mut m, &mut s, RadialAction::TabPeople, 0);
    assert_eq!(s.page, SettingsPage::People);
    apply_action(&mut m, &mut s, RadialAction::SelectPerson(2), 0);
    assert_eq!(s.selected_person, 2);
    apply_action(&mut m, &mut s, RadialAction::SetStroke(2.2), 0);
    assert!((s.stroke - 2.2).abs() < 1e-6);
    apply_action(&mut m, &mut s, RadialAction::WizardAdvance, 0);
    assert_eq!(s.selected_person, 2);
    let hits = WizardHits { can_skip: true, can_next: false, can_add: false };
    assert!(hits.can_skip);
    assert_ne!(Slider::Listen, Slider::Gaze);
}

#[test]
fn plot_blends_over_transparent() {
    let mut buf = vec![0u8; 2 * 2 * 4];
    plot(&mut buf, 2, 2, 1, 0, 10, 20, 30, 255);
    assert_eq!(&buf[4..8], &[30, 20, 10, 255]);
    plot(&mut buf, 2, 2, 5, 0, 10, 20, 30, 255);
    plot(&mut buf, 2, 2, -1, 0, 10, 20, 30, 255);
    assert_eq!(&buf[..4], &[0, 0, 0, 0]);
}

#[test]
fn fill_rect_is_clipped() {
    let mut buf = vec![0u8; 4 * 4 * 4];
    fill_rect(&mut buf, 4, 4, 2, 2, 5, 5, 1, 2, 3, 255);
    let lit = buf.chunks(4).filter(|p| p[3] == 255).count();
    assert_eq!(lit, 4);
}

#[test]
fn stamp_draws_a_disc() {
    let mut buf = vec![0u8; 5 * 5 * 4];
    stamp(&mut buf, 5, 5, 2, 2, 1, 9, 9, 9, 255);
    let lit = buf.chunks(4).filter(|p| p[3] == 255).count();
    assert_eq!(lit, 5);
}

#[test]
fn text_uses_the_three_by_five_font() {
    assert_eq!(glyph('A'), [0b010, 0b101, 0b111, 0b101, 0b101]);
    let mut buf = vec![0u8; 8 * 5 * 4];
    text(&mut buf, 8, 5, 0, 0, "a", 1, 255, 255, 255, 255);
    let lit = buf.chunks(4).filter(|p| p[3] == 255).count();
    assert_eq!(lit, 10);
}
