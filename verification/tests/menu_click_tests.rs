use buckyboi::radial::{
    click_listening, click_listening_ex, hit_panel, hit_panel_ex, ClickHits, IconId, PanelHits,
    RadialAction, RadialMenu, Settings, SettingsPage, WizardHits,
};

fn no_hits() -> PanelHits<f32> {
    PanelHits {
        close: false,
        wizard_next: false,
        wizard_skip: false,
        wizard_add: false,
        tab_look: false,
        tab_people: false,
        cancel_enroll: false,
        person_rows: [false; 4],
        id_buttons: [false; 3],
        new_button: false,
        delete_button: false,
        need_face: false,
        camera: false,
        gate: false,
        listen: None,
        gaze: None,
        stroke: None,
        calib: false,
    }
}

fn on_icon(id: IconId) -> ClickHits<f32> {
    ClickHits { calib_skip: false, calib_cancel: false, panel: no_hits(), icon: Some(id) }
}

#[test]
fn icon_click_toggles_settings_twice() {
    let mut menu = RadialMenu::new();
    let mut s = Settings::with_stroke(1.45f32);
    let act = click_listening(&mut menu, &mut s, &on_icon(IconId::Settings), 10);
    assert!(matches!(act, RadialAction::ToggleSettings));
    assert!(menu.settings_open);
    assert_eq!(menu.freeze_ms, Some(10));
    let act = click_listening(&mut menu, &mut s, &on_icon(IconId::Settings), 20);
    assert!(matches!(act, RadialAction::ToggleSettings));
    assert!(!menu.settings_open);
    assert_eq!(menu.freeze_ms, None);
}

#[test]
fn dismiss_icon_closes_open_panel() {
    let mut menu = RadialMenu::new();
    menu.settings_open = true;
    let mut s = Settings::with_stroke(1.45f32);
    let act = click_listening(&mut menu, &mut s, &on_icon(IconId::Dismiss), 1);
    assert!(matches!(act, RadialAction::Dismiss));
    assert!(!menu.settings_open);
}

#[test]
fn panel_target_wins_over_icon_behind_it() {
    let mut menu = RadialMenu::new();
    menu.settings_open = true;
    let mut s = Settings::with_stroke(1.45f32);
    let mut h = on_icon(IconId::Mute);
    h.panel.camera = true;
    let act = click_listening(&mut menu, &mut s, &h, 0);
    assert!(matches!(act, RadialAction::ToggleCamera));
    assert!(!s.camera);
    assert!(!menu.muted);
    let mut close = no_hits();
    close.close = true;
    assert!(matches!(hit_panel(&close, &s), RadialAction::CloseSettings));
}

#[test]
fn slider_hit_sets_clamped_window() {
    let mut menu = RadialMenu::new();
    menu.settings_open = true;
    let mut s = Settings::with_stroke(1.45f32);
    let mut h = ClickHits { calib_skip: false, calib_cancel: false, panel: no_hits(), icon: None };
    h.panel.listen = Some(15_000);
    let act = click_listening(&mut menu, &mut s, &h, 0);
    assert!(matches!(act, RadialAction::SetListenMs(15_000)));
    assert_eq!(s.listen_ms, 15_000);
    h.panel.listen = None;
    h.panel.gaze = Some(100);
    click_listening(&mut menu, &mut s, &h, 0);
    assert_eq!(s.gaze_lock_ms, 2_000);
}

#[test]
fn people_page_rows_and_buttons() {
    let mut s = Settings::with_stroke(1.45f32);
    s.page = SettingsPage::People;
    let mut h = no_hits();
    h.tab_look = true;
    assert!(matches!(hit_panel_ex(&h, &s, 1, false, None), RadialAction::TabLook));
    let mut h = no_hits();
    h.id_buttons[0] = true;
    assert!(matches!(hit_panel_ex(&h, &s, 1, false, None), RadialAction::StartEnrollFace));
    let mut h = no_hits();
    h.cancel_enroll = true;
    h.id_buttons[1] = true;
    assert!(matches!(hit_panel_ex(&h, &s, 1, true, None), RadialAction::CancelEnroll));
    let mut h = no_hits();
    h.new_button = true;
    assert!(matches!(hit_panel_ex(&h, &s, 0, false, None), RadialAction::OpenWizard));
    let mut h = no_hits();
    h.person_rows = [false, false, true, true];
    assert!(matches!(hit_panel_ex(&h, &s, 4, false, None), RadialAction::SelectPerson(2)));
    assert!(matches!(hit_panel_ex(&h, &s, 2, false, None), RadialAction::Nothing));
    h.delete_button = true;
    assert!(matches!(hit_panel_ex(&h, &s, 2, false, None), RadialAction::DeleteSelected));
}

#[test]
fn wizard_panel_offers_only_live_buttons() {
    let s = Settings::with_stroke(1.45f32);
    let all = WizardHits { can_skip: true, can_next: true, can_add: true };
    let mut h = no_hits();
    h.wizard_next = true;
    assert!(matches!(hit_panel_ex(&h, &s, 0, false, Some(all)), RadialAction::WizardAdvance));
    let none = WizardHits { can_skip: false, can_next: false, can_add: false };
    assert!(matches!(hit_panel_ex(&h, &s, 0, false, Some(none)), RadialAction::Nothing));
    let mut h = no_hits();
    h.wizard_skip = true;
    assert!(matches!(hit_panel_ex(&h, &s, 0, false, Some(all)), RadialAction::WizardSkip));
    let mut h = no_hits();
    h.wizard_add = true;
    h.camera = true;
    assert!(matches!(hit_panel_ex(&h, &s, 0, false, Some(all)), RadialAction::WizardAddAnother));
    let mut h = no_hits();
    h.close = true;
    assert!(matches!(hit_panel_ex(&h, &s, 0, false, Some(all)), RadialAction::WizardCancel));
}

#[test]
fn calibration_chips_answer_alone() {
    let mut menu = RadialMenu::new();
    menu.calib_open = true;
    let mut s = Settings::with_stroke(1.45f32);
    let mut h = on_icon(IconId::Dismiss);
    h.calib_skip = true;
    let act = click_listening_ex(&mut menu, &mut s, &h, 0, 0, false, None);
    assert!(matches!(act, RadialAction::SkipGazeCalib));
    assert!(menu.calib_open);
    h.calib_skip = false;
    let act = click_listening_ex(&mut menu, &mut s, &h, 0, 0, false, None);
    assert!(matches!(act, RadialAction::Nothing));
    let mut c = no_hits();
    c.calib = true;
    assert!(matches!(hit_panel_ex(&c, &s, 0, false, None), RadialAction::StartGazeCalib));
}

#[test]
fn icons_inert_while_enrolling_or_wizard() {
    let mut menu = RadialMenu::new();
    let mut s = Settings::with_stroke(1.45f32);
    let h = on_icon(IconId::Mute);
    let act = click_listening_ex(&mut menu, &mut s, &h, 0, 0, true, None);
    assert!(matches!(act, RadialAction::Nothing));
    let wiz = WizardHits { can_skip: true, can_next: true, can_add: false };
    let act = click_listening_ex(&mut menu, &mut s, &h, 0, 0, false, Some(wiz));
    assert!(matches!(act, RadialAction::Nothing));
    assert!(!menu.muted);
    let act = click_listening_ex(&mut menu, &mut s, &h, 5, 0, false, None);
    assert!(matches!(act, RadialAction::Mute));
    assert!(menu.muted);
    assert!(menu.flashing(IconId::Mute, 6));
}
