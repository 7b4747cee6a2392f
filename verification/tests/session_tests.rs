use buckyboi::enroll::{EnrollKind, EnrollPhase, EnrollSession};
use buckyboi::face::FaceReject;
use buckyboi::gate::{AuthSession, GateMode};
use buckyboi::hands::{GestureAction, GestureClass};
use buckyboi::ini::{ini_lines, split_entry};
use buckyboi::persist::{parse_identity_ini, IdentitySettings, ProfileStore};
use buckyboi::radial::{parse_settings_ini, RadialAction, RadialMenu, Settings, SettingsPage};
use buckyboi::session::{
    apply_identity_action, apply_wizard_event, enroll_capturing, finish_enroll, gaze_dwell,
    apply_gesture, gesture_action, listen_tick, release_tap, route_snap, SnapRoute, maybe_offer_wizard, person_target,
    menu_step, stamp_wizard_auth, wizard_hits,
};
use buckyboi::ux::{BuddyUx, Phase, UxEvent};
use buckyboi::gaze::GazeLock;
use buckyboi::wizard::{FirstRunWizard, WizardEvent, WizardStep};

type Store = ProfileStore<Vec<f32>, Vec<f32>>;
type Session = EnrollSession<Vec<f32>, f32>;

fn text(v: &[char]) -> String {
    v.iter().collect()
}

#[test]
fn lines_follow_str_lines() {
    let ls = ini_lines("a=1\r\nb=2\n\nc\r");
    let got: Vec<String> = ls.iter().map(|l| text(l)).collect();
    assert_eq!(got, "a=1\r\nb=2\n\nc\r".lines().map(|s| s.to_string()).collect::<Vec<_>>());
    assert!(ini_lines("").is_empty());
    assert_eq!(ini_lines("x\n").len(), 1);
}

#[test]
fn entries_split_at_first_equals() {
    let line: Vec<char> = " key = a=b ".chars().collect();
    let (k, v) = split_entry(&line).unwrap();
    assert_eq!(text(&k), "key");
    assert_eq!(text(&v), " a=b ");
    let none: Vec<char> = "no equals".chars().collect();
    assert!(split_entry(&none).is_none());
}

#[test]
fn settings_ini_fields_and_clamp() {
    let (s, strokes) = parse_settings_ini(
        "listen_ms=4000\ngaze_lock_ms=99999\ncamera=0\nstroke=2.2\ngate=face\ngestures_need_face=0\n",
        1.45f32,
    );
    assert_eq!(s.listen_ms, 4000);
    assert_eq!(s.gaze_lock_ms, 15_000);
    assert!(!s.camera);
    assert_eq!(s.gate, GateMode::Face);
    assert!(!s.gestures_need_face);
    assert_eq!(strokes.len(), 1);
    assert_eq!(text(&strokes[0]), "2.2");
    assert_eq!(s.stroke, 1.45);
}

#[test]
fn settings_ini_keeps_defaults_on_bad_values() {
    let (s, strokes) = parse_settings_ini("listen_ms=lots\ncamera=TRUE\ngestures_need_face=True\nnoise\n", 0u8);
    assert_eq!(s.listen_ms, 8_000);
    assert!(!s.camera);
    assert!(s.gestures_need_face);
    assert!(strokes.is_empty());
}

#[test]
fn identity_ini_reads_gate_and_need_face() {
    let mut s = IdentitySettings { gate: GateMode::Off, gestures_need_face: true, face_threshold: 0.4f32, voice_threshold: 0.6f32 };
    let (face, voice) = parse_identity_ini("gate=all\ngestures_need_face=0\nface_threshold=0.5\n", &mut s);
    assert_eq!(s.gate, GateMode::All);
    assert!(!s.gestures_need_face);
    assert_eq!(face.len(), 1);
    assert_eq!(text(&face[0]), "0.5");
    assert!(voice.is_empty());
    assert_eq!(s.face_threshold, 0.4);
}

#[test]
fn wizard_offered_once_when_gate_on_and_nobody_enrolled() {
    let mut w = FirstRunWizard::closed();
    let mut menu = RadialMenu::new();
    let mut ux = BuddyUx::new();
    let store: Store = ProfileStore::empty();
    let mut settings = Settings::with_stroke(1.45f32);
    assert!(!maybe_offer_wizard(&mut w, &mut menu, &mut ux, &store, &settings, 100, 8_000));
    settings.gate = GateMode::Face;
    assert!(maybe_offer_wizard(&mut w, &mut menu, &mut ux, &store, &settings, 100, 8_000));
    assert_eq!(w.person_name, "P1");
    assert!(menu.wizard_open && menu.settings_open);
    assert_eq!(menu.freeze_ms, Some(100));
    assert_eq!(ux.phase, Phase::Listening);
    assert_eq!(ux.listen_until_ms, 8_100);
    assert!(!maybe_offer_wizard(&mut w, &mut menu, &mut ux, &store, &settings, 200, 8_000));
    let hits = wizard_hits(&w).unwrap();
    assert!(hits.can_next && !hits.can_skip && !hits.can_add);
    assert!(wizard_hits(&FirstRunWizard::closed()).is_none());
}

#[test]
fn wizard_face_run_files_into_store() {
    let mut w = FirstRunWizard::open("Ada", true);
    let mut enroll: Session = EnrollSession::idle();
    let mut store: Store = ProfileStore::empty();
    let mut settings = Settings::with_stroke(1.45f32);
    let mut menu = RadialMenu::new();
    let ev = w.advance();
    assert_eq!(ev, WizardEvent::BeginFace);
    assert!(!apply_wizard_event(ev, &mut w, &mut enroll, &mut store, &mut settings, &mut menu, 16, true));
    assert_eq!(store.enrolled_count(), 1);
    assert_eq!(w.person_id.as_deref(), Some("ada-10"));
    assert!(matches!(enroll.phase, EnrollPhase::Capturing { .. }));
    for i in 0..8 {
        enroll.push_face(true, FaceReject::NoReject, Some(vec![i as f32]));
    }
    assert!(finish_enroll(&mut enroll, &mut store, &mut settings, 20));
    assert_eq!(enroll.phase, EnrollPhase::Idle);
    assert_eq!(settings.page, SettingsPage::People);
    assert_eq!(settings.selected_person, 0);
    assert_eq!(store.get("ada-10").unwrap().face.len(), 8);
    assert!(!finish_enroll(&mut enroll, &mut store, &mut settings, 30));
}

#[test]
fn wizard_voice_without_mic_fails_at_once() {
    let mut w = FirstRunWizard::open("Bo", false);
    let mut enroll: Session = EnrollSession::idle();
    let mut store: Store = ProfileStore::empty();
    let mut settings = Settings::with_stroke(1.45f32);
    let mut menu = RadialMenu::new();
    let _ = w.advance();
    let ev = w.skip();
    assert_eq!(ev, WizardEvent::BeginVoice);
    apply_wizard_event(ev, &mut w, &mut enroll, &mut store, &mut settings, &mut menu, 1, false);
    assert!(matches!(&enroll.phase, EnrollPhase::Failed { reason } if reason == "NO MIC"));
    assert_eq!(enroll.kind, EnrollKind::Voice);
}

#[test]
fn suggested_gate_only_fills_an_unset_gate() {
    let mut w = FirstRunWizard::closed();
    let mut enroll: Session = EnrollSession::idle();
    let mut store: Store = ProfileStore::empty();
    let mut settings = Settings::with_stroke(1.45f32);
    let mut menu = RadialMenu::new();
    menu.wizard_open = true;
    menu.settings_open = true;
    assert!(apply_wizard_event(WizardEvent::SuggestGate(GateMode::Any), &mut w, &mut enroll, &mut store, &mut settings, &mut menu, 0, true));
    assert_eq!(settings.gate, GateMode::Any);
    assert!(!menu.wizard_open && !menu.settings_open);
    assert!(!apply_wizard_event(WizardEvent::SuggestGate(GateMode::Face), &mut w, &mut enroll, &mut store, &mut settings, &mut menu, 0, true));
    assert_eq!(settings.gate, GateMode::Any);
    assert_eq!(w.step, WizardStep::Closed);
}

#[test]
fn people_tab_actions() {
    let mut settings = Settings::with_stroke(1.45f32);
    let mut store: Store = ProfileStore::empty();
    let mut enroll: Session = EnrollSession::idle();
    let mut auth = AuthSession::new(8_000);
    let (save_settings, save_store) = apply_identity_action(RadialAction::NewPerson, &mut settings, &mut store, &mut enroll, &mut auth, 5, true);
    assert!(!save_settings && save_store);
    assert_eq!(store.people()[0].name, "P1");
    assert_eq!(settings.page, SettingsPage::People);
    let (_, saved) = apply_identity_action(RadialAction::StartEnrollHands, &mut settings, &mut store, &mut enroll, &mut auth, 6, true);
    assert!(!saved);
    assert_eq!(enroll.gesture, Some(GestureClass::Fist));
    assert_eq!(enroll.person_id.as_deref(), Some("p1-5"));
    apply_identity_action(RadialAction::CancelEnroll, &mut settings, &mut store, &mut enroll, &mut auth, 7, true);
    assert_eq!(enroll.phase, EnrollPhase::Idle);
    let (_, saved) = apply_identity_action(RadialAction::DeleteSelected, &mut settings, &mut store, &mut enroll, &mut auth, 8, true);
    assert!(saved);
    assert_eq!(store.enrolled_count(), 0);
    let (_, saved) = apply_identity_action(RadialAction::DeleteSelected, &mut settings, &mut store, &mut enroll, &mut auth, 9, true);
    assert!(!saved);
    let (s, _) = apply_identity_action(RadialAction::<f32>::CycleGate, &mut settings, &mut store, &mut enroll, &mut auth, 9, true);
    assert!(s);
}

#[test]
fn person_target_creates_default_person() {
    let mut store: Store = ProfileStore::empty();
    let settings = Settings::with_stroke(0u8);
    let (name, id) = person_target(&mut store, &settings, 255);
    assert_eq!(name, "P1");
    assert_eq!(id.as_deref(), Some("p1-ff"));
    let (name, id) = person_target(&mut store, &settings, 300);
    assert_eq!(name, "P1");
    assert_eq!(id.as_deref(), Some("p1-ff"));
}

#[test]
fn wizard_enrolment_counts_as_recognised() {
    let mut w = FirstRunWizard::open("Ada", true);
    w.person_id = Some("ada-1".to_string());
    w.face_ok = true;
    let mut auth = AuthSession::new(1_000);
    stamp_wizard_auth(&w, &mut auth, 50);
    assert!(auth.allows_listen(GateMode::Face, 60));
    assert!(!auth.allows_listen(GateMode::Voice, 60));
}

#[test]
fn capturing_means_prompting_or_capturing_that_kind() {
    let idle: Session = EnrollSession::idle();
    assert!(!enroll_capturing(&idle, EnrollKind::Face));
    let mut face: Session = EnrollSession::start_face("ann", None);
    assert!(enroll_capturing(&face, EnrollKind::Face));
    assert!(!enroll_capturing(&face, EnrollKind::Voice));
    face.cancel();
    assert!(!enroll_capturing(&face, EnrollKind::Face));
}

#[test]
fn tap_listens_only_when_gate_admits() {
    let auth = AuthSession::new(8_000);
    let mut menu = RadialMenu::new();
    let mut lock = GazeLock::with_need(5_000);
    let mut ux = BuddyUx::new();
    ux.button_down(1_000, true);
    let r = release_tap(&mut ux, &mut menu, &mut lock, &auth, GateMode::Off, true, 1_100, 7, 9_000);
    assert_eq!(r, (UxEvent::StartListen, true));
    assert_eq!(ux.phase, Phase::Listening);
    assert_eq!(ux.listen_until_ms, 10_100);

    let mut ux = BuddyUx::new();
    ux.button_down(1_000, true);
    let r = release_tap(&mut ux, &mut menu, &mut lock, &auth, GateMode::Face, true, 1_100, 7, 9_000);
    assert_eq!(r, (UxEvent::StartListen, false));
    assert_eq!(ux.phase, Phase::VisibleIdle);
    assert_eq!(ux.press_ms, None);

    let mut ux = BuddyUx::new();
    ux.button_down(1_000, true);
    let r = release_tap(&mut ux, &mut menu, &mut lock, &auth, GateMode::Off, false, 1_100, 7, 9_000);
    assert_eq!(r, (UxEvent::Nothing, false));
    assert_eq!(ux.phase, Phase::VisibleIdle);
}

#[test]
fn dwell_listens_only_when_gate_admits() {
    let mut auth = AuthSession::new(8_000);
    let mut menu = RadialMenu::new();
    menu.settings_open = true;
    let mut ux = BuddyUx::new();
    let mut lock = GazeLock::with_need(100);
    assert_eq!(gaze_dwell(&mut ux, &mut menu, &mut lock, &auth, GateMode::Face, true, 0, 5_000), (UxEvent::Nothing, false));
    let r = gaze_dwell(&mut ux, &mut menu, &mut lock, &auth, GateMode::Face, true, 100, 5_000);
    assert_eq!(r, (UxEvent::StartListen, false));
    assert_eq!(ux.phase, Phase::VisibleIdle);
    assert_eq!(lock.since_ms, None);
    assert!(menu.settings_open);

    auth.note_face("p1-1", "ADA", 200);
    assert_eq!(gaze_dwell(&mut ux, &mut menu, &mut lock, &auth, GateMode::Face, true, 200, 5_000), (UxEvent::Nothing, false));
    let r = gaze_dwell(&mut ux, &mut menu, &mut lock, &auth, GateMode::Face, true, 300, 5_000);
    assert_eq!(r, (UxEvent::StartListen, true));
    assert_eq!(ux.phase, Phase::Listening);
    assert_eq!(ux.listen_until_ms, 5_300);
    assert!(!menu.settings_open);
}

#[test]
fn open_panel_holds_listening_past_deadline() {
    let mut ux = BuddyUx::new();
    ux.enter_listen_for(0, 1_000);
    let mut menu = RadialMenu::new();
    menu.settings_open = true;
    assert_eq!(listen_tick(&mut ux, &menu, 5_000), UxEvent::Nothing);
    assert_eq!(ux.phase, Phase::Listening);
    menu.settings_open = false;
    menu.calib_open = true;
    assert_eq!(listen_tick(&mut ux, &menu, 5_000), UxEvent::Nothing);
    menu.calib_open = false;
    assert_eq!(listen_tick(&mut ux, &menu, 999), UxEvent::Nothing);
    assert_eq!(listen_tick(&mut ux, &menu, 1_000), UxEvent::Hide);
    assert_eq!(ux.phase, Phase::Hidden);
}

#[test]
fn reenroll_replaces_face_of_known_person_only() {
    let mut store: Store = ProfileStore::empty();
    let ada = store.upsert_named("Ada", 10);
    let bo = store.upsert_named("Bo", 11);
    store.replace_face(&ada, vec![vec![9.0]; 5]);
    store.replace_voice(&ada, vec![vec![7.0]]);
    store.replace_face(&bo, vec![vec![3.0]]);
    let mut settings = Settings::with_stroke(1.45f32);
    let mut enroll: Session = EnrollSession::start_face("Ada", Some(ada.clone()));
    for i in 0..8 {
        enroll.push_face(true, FaceReject::NoReject, Some(vec![i as f32]));
    }
    assert!(finish_enroll(&mut enroll, &mut store, &mut settings, 50));
    let a = store.get(&ada).unwrap();
    assert_eq!(a.face, (0..8).map(|i| vec![i as f32]).collect::<Vec<_>>());
    assert_eq!(a.voice, vec![vec![7.0]]);
    assert_eq!(store.get(&bo).unwrap().face, vec![vec![3.0]]);
    assert_eq!(store.people().len(), 2);
    assert_eq!(settings.selected_person, 0);
}

#[test]
fn snapshots_route_once_while_fresh() {
    let mut last = 0u64;
    let idle: Session = EnrollSession::idle();
    assert_eq!(route_snap(&idle, EnrollKind::Face, 1_000, 900, &mut last), SnapRoute::Identify);
    assert_eq!(last, 900);
    assert_eq!(route_snap(&idle, EnrollKind::Face, 1_010, 900, &mut last), SnapRoute::Skip);
    assert_eq!(route_snap(&idle, EnrollKind::Face, 2_000, 1_500, &mut last), SnapRoute::Skip);
    assert_eq!(last, 900);
    let face: Session = EnrollSession::start_face("ann", None);
    assert_eq!(route_snap(&face, EnrollKind::Face, 2_000, 1_700, &mut last), SnapRoute::Enroll);
    assert_eq!(route_snap(&face, EnrollKind::Voice, 2_000, 1_800, &mut last), SnapRoute::Identify);
}

#[test]
fn gestures_are_rate_limited_and_gated() {
    let mut store: Store = ProfileStore::empty();
    let _ = store.upsert_named("Ada", 1);
    let mut auth = AuthSession::new(8_000);
    let mut last = 0u64;
    let act = gesture_action(1_000, &mut last, Some(950), GestureClass::Palm, true, &store, &auth, GateMode::Off, false);
    assert_eq!(act, Some(GestureAction::Listen));
    assert_eq!(last, 1_000);
    let act = gesture_action(1_200, &mut last, Some(1_150), GestureClass::Fist, true, &store, &auth, GateMode::Off, false);
    assert_eq!(act, None);
    let act = gesture_action(1_600, &mut last, Some(1_100), GestureClass::Fist, true, &store, &auth, GateMode::Off, false);
    assert_eq!(act, None, "stale hand");
    let act = gesture_action(1_600, &mut last, Some(1_550), GestureClass::Fist, false, &store, &auth, GateMode::Off, false);
    assert_eq!(act, None, "unsure class");
    let act = gesture_action(1_600, &mut last, Some(1_550), GestureClass::Fist, true, &store, &auth, GateMode::Off, true);
    assert_eq!(act, None, "needs a live face");
    auth.note_face("ada-1", "ADA", 1_600);
    let act = gesture_action(1_600, &mut last, Some(1_550), GestureClass::Fist, true, &store, &auth, GateMode::Off, true);
    assert_eq!(act, Some(GestureAction::Dismiss));
    assert_eq!(last, 1_600);
}

#[test]
fn palm_listens_only_when_admitted() {
    let auth = AuthSession::new(8_000);
    let mut ux = BuddyUx::new();
    let mut menu = RadialMenu::new();
    let mut lock = GazeLock::with_need(5_000);
    apply_gesture(GestureAction::Listen, &mut ux, &mut menu, &mut lock, &auth, GateMode::Face, 10, 4_000);
    assert_eq!(ux.phase, Phase::VisibleIdle);
    apply_gesture(GestureAction::Listen, &mut ux, &mut menu, &mut lock, &auth, GateMode::Off, 10, 4_000);
    assert_eq!(ux.phase, Phase::Listening);
    assert_eq!(ux.listen_until_ms, 4_010);
    apply_gesture(GestureAction::Settings, &mut ux, &mut menu, &mut lock, &auth, GateMode::Off, 20, 4_000);
    assert!(menu.settings_open);
    apply_gesture(GestureAction::Mute, &mut ux, &mut menu, &mut lock, &auth, GateMode::Off, 20, 4_000);
    assert!(menu.muted);
    apply_gesture(GestureAction::Dismiss, &mut ux, &mut menu, &mut lock, &auth, GateMode::Off, 30, 4_000);
    assert_eq!(ux.phase, Phase::Hidden);
}

#[test]
fn gesture_uses_recognised_persons_own_map() {
    let mut store: Store = ProfileStore::empty();
    let ada = store.upsert_named("Ada", 1);
    store.people[0].gesture_map = Some(vec![(GestureClass::Fist, GestureAction::Info)]);
    let mut auth = AuthSession::new(8_000);
    let mut last = 0u64;
    let act = gesture_action(1_000, &mut last, Some(990), GestureClass::Fist, true, &store, &auth, GateMode::Off, false);
    assert_eq!(act, Some(GestureAction::Dismiss), "nobody recognised: defaults");
    auth.note_face(&ada, "ADA", 1_000);
    let act = gesture_action(2_000, &mut last, Some(1_990), GestureClass::Fist, true, &store, &auth, GateMode::Off, false);
    assert_eq!(act, Some(GestureAction::Info));
    let act = gesture_action(3_000, &mut last, Some(2_990), GestureClass::Palm, true, &store, &auth, GateMode::Off, false);
    assert_eq!(act, Some(GestureAction::Listen));
}

#[test]
fn menu_step_dismiss_sliders_and_enrolment() {
    let mut ux = BuddyUx::new();
    let mut menu = RadialMenu::new();
    let mut settings = Settings::with_stroke(1.45f32);
    let store: Store = ProfileStore::empty();
    let mut enroll: Session = EnrollSession::idle();
    let mut auth = AuthSession::new(8_000);
    let mut w = FirstRunWizard::closed();
    let mut declined = true;
    let mut lock = GazeLock::with_need(3_000);
    settings.gaze_lock_ms = 5_000;
    let ev = menu_step(RadialAction::SetGazeMs(5_000), &mut ux, &mut menu, &mut settings, &store, &mut enroll, &mut auth, &mut w, &mut declined, &mut lock, 10, 8_000, true);
    assert_eq!(ev, WizardEvent::Nothing);
    assert_eq!(lock.need_ms, 3_000);
    menu_step(RadialAction::SetGazeMs(5_000), &mut ux, &mut menu, &mut settings, &store, &mut enroll, &mut auth, &mut w, &mut declined, &mut lock, 10, 8_000, false);
    assert_eq!(lock.need_ms, 5_000);
    menu_step(RadialAction::StartEnrollVoice, &mut ux, &mut menu, &mut settings, &store, &mut enroll, &mut auth, &mut w, &mut declined, &mut lock, 11, 8_000, false);
    assert_eq!(settings.page, SettingsPage::People);
    assert!(menu.settings_open);
    menu_step(RadialAction::Dismiss, &mut ux, &mut menu, &mut settings, &store, &mut enroll, &mut auth, &mut w, &mut declined, &mut lock, 12, 8_000, false);
    assert_eq!(ux.phase, Phase::Hidden);
    assert!(declined);
    assert!(!w.is_open());
}

#[test]
fn menu_step_drives_the_wizard() {
    let mut ux = BuddyUx::new();
    let mut menu = RadialMenu::new();
    let mut settings = Settings::with_stroke(1.45f32);
    let store: Store = ProfileStore::empty();
    let mut enroll: Session = EnrollSession::idle();
    let mut auth = AuthSession::new(8_000);
    let mut w = FirstRunWizard::closed();
    let mut declined = true;
    let mut lock = GazeLock::with_need(3_000);
    let ev = menu_step(RadialAction::<f32>::CycleGate, &mut ux, &mut menu, &mut settings, &store, &mut enroll, &mut auth, &mut w, &mut declined, &mut lock, 100, 8_000, false);
    assert_eq!(ev, WizardEvent::Nothing);
    assert!(!w.is_open() && declined);
    settings.gate = GateMode::Face;
    menu_step(RadialAction::<f32>::CycleGate, &mut ux, &mut menu, &mut settings, &store, &mut enroll, &mut auth, &mut w, &mut declined, &mut lock, 100, 8_000, false);
    assert!(w.is_open() && w.first_run && !declined);
    assert_eq!(w.person_name, "P1");
    assert_eq!(ux.listen_until_ms, 8_100);
    let ev = menu_step(RadialAction::<f32>::WizardAdvance, &mut ux, &mut menu, &mut settings, &store, &mut enroll, &mut auth, &mut w, &mut declined, &mut lock, 200, 8_000, false);
    assert_eq!(ev, WizardEvent::BeginFace);
    assert_eq!(w.step, WizardStep::Face);
    let ev = menu_step(RadialAction::<f32>::WizardSkip, &mut ux, &mut menu, &mut settings, &store, &mut enroll, &mut auth, &mut w, &mut declined, &mut lock, 300, 8_000, false);
    assert_eq!(ev, WizardEvent::BeginVoice);
    assert_eq!(enroll.phase, EnrollPhase::Idle);
    let ev = menu_step(RadialAction::<f32>::WizardCancel, &mut ux, &mut menu, &mut settings, &store, &mut enroll, &mut auth, &mut w, &mut declined, &mut lock, 400, 8_000, false);
    assert_eq!(ev, WizardEvent::Cancelled);
    assert!(declined && !w.is_open());
    let ev = menu_step(RadialAction::<f32>::OpenWizard, &mut ux, &mut menu, &mut settings, &store, &mut enroll, &mut auth, &mut w, &mut declined, &mut lock, 500, 8_000, false);
    assert_eq!(ev, WizardEvent::Nothing);
    assert!(w.is_open() && !w.first_run && !declined);
    w.step = WizardStep::Done;
    let ev = menu_step(RadialAction::<f32>::WizardAddAnother, &mut ux, &mut menu, &mut settings, &store, &mut enroll, &mut auth, &mut w, &mut declined, &mut lock, 600, 8_000, false);
    assert_eq!(ev, WizardEvent::Opened);
    assert_eq!(w.step, WizardStep::Name);
    assert_eq!(w.person_name, "P1");
}
