use buckyboi::enroll::EnrollKind;
use buckyboi::worker::{frame_fresh, vis_sleep_ms, SlicePlan, VisionClock, VisionState, VoicePass};

#[test]
fn set_screen_and_kinds_roundtrip() {
    let mut vision = VisionState::new();
    vision.set_screen(1920, 1054);
    assert_eq!(vision.screen_size(), (1920, 1054));
    vision.set_gallery_kinds(&["arcface".into()]);
    assert_eq!(vision.gallery_kinds(), vec!["arcface".to_string()]);
    vision.set_enrolling(EnrollKind::Face, true);
    assert!(vision.enrolling_face && !vision.enrolling_voice);
    vision.set_enrolling(EnrollKind::Face, false);
    vision.set_enrolling(EnrollKind::Voice, true);
    assert!(!vision.enrolling_face && vision.enrolling_voice);
    vision.set_enrolling(EnrollKind::Voice, false);
    vision.set_enrolling(EnrollKind::Gesture, true);
    assert!(!vision.enrolling_face && !vision.enrolling_voice);
    assert_eq!(vision.screen_size(), (1920, 1054));
}

#[test]
fn frames_stay_fresh_for_half_a_second() {
    assert!(frame_fresh(1_000, 500));
    assert!(!frame_fresh(1_001, 500));
    assert!(frame_fresh(100, 900));
}

#[test]
fn vision_slice_plans_detection_and_recognition() {
    let mut c = VisionClock::new();
    let p = c.plan_slice(80, Some(70), false);
    assert_eq!(p, SlicePlan { vision: true, fresh_frame: true, face: Some(false) });
    assert_eq!((c.last_vis_ms, c.last_rec_ms), (80, 0));
    let p = c.plan_slice(100, Some(90), false);
    assert_eq!(p, SlicePlan { vision: false, fresh_frame: true, face: None });
    assert_eq!(c.last_vis_ms, 80);
    let p = c.plan_slice(160, Some(150), false);
    assert_eq!(p.face, Some(true));
    assert_eq!((c.last_vis_ms, c.last_rec_ms), (160, 160));
    let p = c.plan_slice(240, Some(230), false);
    assert_eq!(p.face, Some(false));
    let p = c.plan_slice(320, Some(310), true);
    assert_eq!(p.face, Some(true));
    assert_eq!(c.last_rec_ms, 320);
    let p = c.plan_slice(560, Some(0), false);
    assert_eq!(p, SlicePlan { vision: true, fresh_frame: false, face: None });
    let p = c.plan_slice(640, None, true);
    assert_eq!(p, SlicePlan { vision: true, fresh_frame: false, face: None });
    assert_eq!((c.last_vis_ms, c.last_rec_ms), (640, 320));
}

#[test]
fn voice_pass_periods_and_budget() {
    let mut c = VisionClock::new();
    assert_eq!(c.voice_pass(2_399, 0, false), VoicePass::NotDue);
    assert_eq!(c.voice_pass(1_600, 0, true), VoicePass::Run);
    assert_eq!(c.last_voice_ms, 1_600);
    assert_eq!(c.voice_pass(3_000, 0, true), VoicePass::NotDue);
    assert_eq!(c.voice_pass(4_000, 40, false), VoicePass::Defer);
    assert_eq!(c.last_voice_ms, 1_600);
    assert_eq!(vis_sleep_ms(40, true), 0);
    assert_eq!(c.voice_pass(4_016, 3, false), VoicePass::Run);
    assert_eq!(c.last_voice_ms, 4_016);
}
