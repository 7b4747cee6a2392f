use buckyboi::enroll::{EnrollEvent, EnrollKind, EnrollPhase, EnrollSession};
use buckyboi::face::{
    face_kinds_compatible, rec_embed_kind, rec_model_names, FaceReject, FACE_ENROLL_NEED,
    FACE_KIND_ARCFACE, FACE_KIND_ARCFACE_MBF,
};
use buckyboi::gate::{AuthSession, AuthVia, GateMode};
use buckyboi::hands::{
    action_for, default_gesture_map, landmark_model_names, palm_model_names, GestureAction,
    GestureClass,
};
use buckyboi::voice::VoiceReject;

type Session = EnrollSession<Vec<f32>, f32>;

#[test]
fn reject_hints_fit_hud() {
    for r in [
        FaceReject::NoFace,
        FaceReject::TooDark,
        FaceReject::TooBright,
        FaceReject::TooBlurry,
        FaceReject::TooSmall,
        FaceReject::TooClose,
        FaceReject::NoEmbed,
    ] {
        assert!(!r.hint().is_empty());
        assert!(r.hint().len() <= 16);
    }
}

#[test]
fn gate_cycle() {
    assert_eq!(GateMode::Off.next(), GateMode::Face);
    assert_eq!(GateMode::parse("BOTH"), GateMode::All);
    assert_eq!(GateMode::parse("nope"), GateMode::Off);
}

#[test]
fn off_always_allows() {
    let s = AuthSession::new(8_000);
    assert!(s.allows_listen(GateMode::Off, 0));
    assert!(!s.allows_listen(GateMode::Face, 0));
}

#[test]
fn face_gate_needs_live_face() {
    let mut s = AuthSession::new(1_000);
    s.note_face("p1", "Ada", 100);
    assert!(s.allows_listen(GateMode::Face, 200));
    assert!(!s.allows_listen(GateMode::Voice, 200));
    s.expire(2_000);
    assert!(!s.allows_listen(GateMode::Face, 2_000));
    assert_eq!(s.state.label(2_000), "UNKNOWN");
}

#[test]
fn all_requires_same_person() {
    let mut s = AuthSession::new(5_000);
    s.note_face("p1", "Ada", 0);
    s.note_voice("p2", "Bo", 0);
    assert!(!s.allows_listen(GateMode::All, 10));
    s.note_voice("p1", "Ada", 20);
    assert!(s.allows_listen(GateMode::All, 30));
    assert_eq!(s.state.via, AuthVia::Both);
}

#[test]
fn any_accepts_voice_alone() {
    let mut s = AuthSession::new(5_000);
    s.note_voice("p1", "Ada", 0);
    assert!(s.allows_listen(GateMode::Any, 10));
    assert!(!s.allows_listen(GateMode::Face, 10));
}

#[test]
fn gesture_can_require_prior_face() {
    let mut s = AuthSession::new(5_000);
    s.note_voice("p1", "Ada", 0);
    assert!(!s.allows_gesture(GateMode::Any, true, 10));
    s.note_face("p1", "Ada", 10);
    assert!(s.allows_gesture(GateMode::Any, true, 20));
}

#[test]
fn gate_words_round_trip() {
    for g in [GateMode::Off, GateMode::Face, GateMode::Voice, GateMode::Any, GateMode::All] {
        assert_eq!(GateMode::parse(g.as_str()), g);
    }
    assert_eq!(GateMode::All.next(), GateMode::Off);
}

#[test]
fn auth_label_names_live_match() {
    let mut s = AuthSession::new(1_000);
    s.note_face("p1", "Ada", 0);
    assert_eq!(s.state.label(10), "Ada");
    assert!(s.state.is_matched(10));
    assert!(!s.state.is_matched(1_000));
}

#[test]
fn default_map_fist_dismisses() {
    let map = default_gesture_map();
    assert_eq!(action_for(GestureClass::Fist, &map), GestureAction::Dismiss);
}

#[test]
fn default_map_covers_trainable_classes() {
    let map = default_gesture_map();
    assert_eq!(action_for(GestureClass::Palm, &map), GestureAction::Listen);
    assert_eq!(action_for(GestureClass::ThumbsUp, &map), GestureAction::Confirm);
    assert_eq!(action_for(GestureClass::Point, &map), GestureAction::Info);
    assert_eq!(action_for(GestureClass::Peace, &map), GestureAction::Settings);
    assert_eq!(action_for(GestureClass::Unknown, &map), GestureAction::Nothing);
}

#[test]
fn gesture_words_parse() {
    assert_eq!(GestureClass::parse(" Open "), GestureClass::Palm);
    assert_eq!(GestureClass::parse("thumbs-up"), GestureClass::ThumbsUp);
    assert_eq!(GestureClass::parse("wave"), GestureClass::Unknown);
    assert_eq!(GestureAction::parse("HIDE"), GestureAction::Dismiss);
    assert_eq!(GestureAction::parse("dance"), GestureAction::Nothing);
    assert_eq!(GestureAction::Mute.as_str(), "mute");
    for c in GestureClass::all() {
        assert_eq!(GestureClass::parse(c.label()), c);
    }
}

#[test]
fn training_order_ends_at_peace() {
    assert_eq!(GestureClass::Fist.next_train(), Some(GestureClass::Palm));
    assert_eq!(GestureClass::Point.next_train(), Some(GestureClass::Peace));
    assert_eq!(GestureClass::Peace.next_train(), None);
}

#[test]
fn hand_model_names_in_preference_order() {
    assert_eq!(palm_model_names()[0], "palm_detection.onnx");
    assert_eq!(palm_model_names().len(), 4);
    assert_eq!(landmark_model_names()[3], "hand_landmark_lite.onnx");
}

#[test]
fn rec_models_and_kinds() {
    assert_eq!(rec_model_names()[0], "w600k_mbf.onnx");
    assert_eq!(rec_embed_kind("W600K_MBF.onnx"), FACE_KIND_ARCFACE_MBF);
    assert_eq!(rec_embed_kind("w600k_r50.onnx"), FACE_KIND_ARCFACE);
    assert!(face_kinds_compatible("arcface", "arcface"));
    assert!(!face_kinds_compatible("arcface", "arcface-mbf"));
}

#[test]
fn face_enroll_needs_quality_and_n_frames() {
    let mut s: Session = EnrollSession::start_face("Ada", None);
    assert!(matches!(s.phase, EnrollPhase::Prompt { .. }));
    assert_eq!(s.push_face(false, FaceReject::NoReject, Some(vec![1.0, 0.0])), EnrollEvent::Rejected);
    for i in 0..FACE_ENROLL_NEED {
        let ev = s.push_face(true, FaceReject::NoReject, Some(vec![1.0, i as f32 * 0.01]));
        if i + 1 < FACE_ENROLL_NEED {
            assert_eq!(ev, EnrollEvent::Accepted);
        } else {
            assert_eq!(ev, EnrollEvent::Finished);
        }
    }
    assert!(matches!(s.phase, EnrollPhase::Done { accepted, .. } if accepted == FACE_ENROLL_NEED));
}

#[test]
fn voice_enroll_rejects_quiet() {
    let mut s: Session = EnrollSession::start_voice("Ada", None);
    assert_eq!(s.push_voice(false, VoiceReject::TooShort, Some(vec![1.0; 8])), EnrollEvent::Rejected);
    assert_eq!(s.hint(), "TOO SHORT");
}

#[test]
fn gesture_enroll_finishes() {
    let mut s: Session = EnrollSession::start_gesture("Ada", None, GestureClass::Fist, 3);
    let lm = vec![0.0; 63];
    assert_eq!(s.push_gesture(&lm), EnrollEvent::Accepted);
    assert_eq!(s.push_gesture(&lm), EnrollEvent::Accepted);
    assert_eq!(s.push_gesture(&lm), EnrollEvent::Finished);
}

#[test]
fn cancel_returns_idle() {
    let mut s: Session = EnrollSession::start_face("Ada", None);
    s.cancel();
    assert_eq!(s.phase, EnrollPhase::Idle);
}

#[test]
fn face_reject_shows_reason() {
    let mut s: Session = EnrollSession::start_face("Ada", None);
    assert_eq!(s.push_face(false, FaceReject::TooDark, None), EnrollEvent::Rejected);
    assert_eq!(s.hint(), "TOO DARK");
}

#[test]
fn enroll_progress_hint_counts() {
    let mut s: Session = EnrollSession::start_face("Ada", None);
    assert_eq!(s.hint(), "LOOK AT CAM");
    assert_eq!(s.push_face(true, FaceReject::NoReject, Some(vec![1.0])), EnrollEvent::Accepted);
    assert_eq!(s.hint(), "FACE 1/8");
    assert_eq!(s.kind, EnrollKind::Face);
}

#[test]
fn short_gesture_sample_is_refused() {
    let mut s: Session = EnrollSession::start_gesture("Ada", None, GestureClass::Palm, 2);
    assert_eq!(s.push_gesture(&[0.0; 5]), EnrollEvent::Rejected);
    assert_eq!(s.hint(), "HOLD PALM");
}

#[test]
fn other_modality_push_is_ignored() {
    let mut s: Session = EnrollSession::start_face("Ada", None);
    assert_eq!(s.push_voice(true, VoiceReject::NoReject, Some(vec![1.0])), EnrollEvent::Nothing);
    assert!(s.accepted.is_empty());
}

#[test]
fn too_many_face_rejects_fail() {
    let mut s: Session = EnrollSession::start_face("Ada", None);
    let mut last = EnrollEvent::Nothing;
    for _ in 0..=buckyboi::enroll::FACE_REJECT_CAP {
        last = s.push_face(false, FaceReject::NoFace, None);
    }
    assert_eq!(last, EnrollEvent::Failed);
    assert!(matches!(s.phase, EnrollPhase::Failed { .. }));
}

#[test]
fn state_defaults_match_their_constructors() {
    assert_eq!(buckyboi::radial::SettingsPage::default(), buckyboi::radial::SettingsPage::Look);
    assert_eq!(
        buckyboi::radial::WizardHits::default(),
        buckyboi::radial::WizardHits { can_skip: false, can_next: false, can_add: false }
    );
    let ux = buckyboi::ux::BuddyUx::default();
    assert_eq!(ux.phase, buckyboi::ux::Phase::VisibleIdle);
    assert!(ux.press_ms.is_none() && !ux.dragging && ux.listen_until_ms == 0);
    let st = buckyboi::gate::AuthState::default();
    assert!(st.person_id.is_none() && st.name.is_none() && st.until_ms == 0);
    assert_eq!(st.via, AuthVia::NoMatch);
    let a = AuthSession::default();
    assert_eq!(a.hold_ms, 0);
    assert!(a.face_id.is_none() && a.voice_id.is_none() && a.face_until == 0 && a.voice_until == 0);
    let c: buckyboi::gaze_calib::GazeCalibSession<u8, u8> = buckyboi::gaze_calib::GazeCalibSession::default();
    assert!(!c.open && c.idx == 0 && c.n_dots == 5);
}
