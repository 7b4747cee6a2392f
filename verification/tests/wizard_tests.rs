use buckyboi::enroll::{EnrollKind, EnrollSession};
use buckyboi::gate::GateMode;
use buckyboi::hands::GestureClass;
use buckyboi::wizard::{wizard_blocks_hide, FirstRunWizard, WizardEvent, WizardStep, LARGEST_FACE_CHIP};

type Session = EnrollSession<Vec<f32>, f32>;

#[test]
fn should_offer_only_when_gate_on_and_empty() {
    assert!(!FirstRunWizard::should_offer(GateMode::Off, 0));
    assert!(FirstRunWizard::should_offer(GateMode::Face, 0));
    assert!(FirstRunWizard::should_offer(GateMode::Any, 0));
    assert!(!FirstRunWizard::should_offer(GateMode::Face, 1));
}

#[test]
fn starts_on_name_default_p1() {
    let w = FirstRunWizard::open("P1", true);
    assert_eq!(w.step, WizardStep::Name);
    assert_eq!(w.person_name, "P1");
    assert!(w.first_run);
    assert!(w.can_next());
    assert!(!w.can_skip());
    assert_eq!(w.title(), "FIRST RUN");
}

#[test]
fn set_name_is_editable_on_name_step() {
    let mut w = FirstRunWizard::open("P1", true);
    w.set_name("Ada");
    assert_eq!(w.person_name, "Ada");
    w.advance();
    w.set_name("Bo");
    assert_eq!(w.person_name, "Ada");
}

#[test]
fn advance_name_begins_face() {
    let mut w = FirstRunWizard::open("P1", true);
    assert_eq!(w.advance(), WizardEvent::BeginFace);
    assert_eq!(w.step, WizardStep::Face);
    assert!(w.can_skip());
    let enroll: Session = EnrollSession::start_face("P1", None);
    assert_eq!(w.body(&enroll), "LOOK AT CAM");
}

#[test]
fn skip_voice_and_hands_reaches_done() {
    let mut w = FirstRunWizard::open("P1", true);
    assert_eq!(w.advance(), WizardEvent::BeginFace);
    assert_eq!(w.skip(), WizardEvent::BeginVoice);
    assert_eq!(w.step, WizardStep::Voice);
    assert_eq!(w.skip(), WizardEvent::BeginHands(GestureClass::Fist));
    assert_eq!(w.step, WizardStep::Hands { class: GestureClass::Fist });
    assert_eq!(w.skip(), WizardEvent::Nothing);
    assert_eq!(w.step, WizardStep::Done);
    assert!(w.can_add_another());
    assert!(w.suggested_gate.is_none());
}

#[test]
fn cancel_closes_without_complete() {
    let mut w = FirstRunWizard::open("P1", true);
    w.advance();
    assert_eq!(w.cancel(), WizardEvent::Cancelled);
    assert_eq!(w.step, WizardStep::Closed);
    assert!(!w.is_open());
    assert_eq!(w.cancel(), WizardEvent::Nothing);
}

#[test]
fn face_finish_advances_to_voice() {
    let mut w = FirstRunWizard::open("Ada", true);
    w.advance();
    assert_eq!(w.on_enroll_finished(EnrollKind::Face), WizardEvent::BeginVoice);
    assert!(w.face_ok);
    assert_eq!(w.step, WizardStep::Voice);
}

#[test]
fn complete_suggests_face_gate() {
    let mut w = FirstRunWizard::open("Ada", true);
    w.advance();
    let _ = w.on_enroll_finished(EnrollKind::Face);
    let _ = w.skip();
    let _ = w.skip();
    assert_eq!(w.suggested_gate, Some(GateMode::Face));
    assert_eq!(w.complete(), WizardEvent::SuggestGate(GateMode::Face));
    assert_eq!(w.step, WizardStep::Closed);
}

#[test]
fn complete_suggests_any_when_face_and_voice() {
    let mut w = FirstRunWizard::open("Ada", true);
    w.advance();
    let _ = w.on_enroll_finished(EnrollKind::Face);
    let _ = w.on_enroll_finished(EnrollKind::Voice);
    let _ = w.skip();
    assert_eq!(w.suggested_gate, Some(GateMode::Any));
    assert_eq!(w.advance(), WizardEvent::SuggestGate(GateMode::Any));
}

#[test]
fn voice_only_suggests_any_never_voice() {
    let mut w = FirstRunWizard::open("Bo", true);
    w.advance();
    let _ = w.skip();
    let _ = w.on_enroll_finished(EnrollKind::Voice);
    let _ = w.skip();
    assert!(!w.face_ok && w.voice_ok);
    assert_eq!(w.suggested_gate_for_enrolled(), Some(GateMode::Any));
    assert_eq!(w.suggested_gate, Some(GateMode::Any));
    assert_eq!(w.complete(), WizardEvent::SuggestGate(GateMode::Any));
}

#[test]
fn add_another_restarts_name() {
    let mut w = FirstRunWizard::open("P1", true);
    w.advance();
    let _ = w.on_enroll_finished(EnrollKind::Face);
    let _ = w.skip();
    let _ = w.skip();
    assert_eq!(w.step, WizardStep::Done);
    assert_eq!(w.add_another("P2"), WizardEvent::Opened);
    assert_eq!(w.step, WizardStep::Name);
    assert_eq!(w.person_name, "P2");
    assert!(!w.face_ok);
    assert_eq!(w.title(), "ADD PERSON");
}

#[test]
fn hands_sequence_fist_to_peace() {
    let mut w = FirstRunWizard::open("Ada", false);
    w.advance();
    let _ = w.skip();
    let _ = w.skip();
    assert_eq!(w.step, WizardStep::Hands { class: GestureClass::Fist });
    assert_eq!(w.on_enroll_finished(EnrollKind::Gesture), WizardEvent::BeginHands(GestureClass::Palm));
    assert_eq!(w.on_enroll_finished(EnrollKind::Gesture), WizardEvent::BeginHands(GestureClass::ThumbsUp));
    assert_eq!(w.on_enroll_finished(EnrollKind::Gesture), WizardEvent::BeginHands(GestureClass::Point));
    assert_eq!(w.on_enroll_finished(EnrollKind::Gesture), WizardEvent::BeginHands(GestureClass::Peace));
    assert_eq!(w.on_enroll_finished(EnrollKind::Gesture), WizardEvent::Nothing);
    assert_eq!(w.step, WizardStep::Done);
    assert!(w.hands_ok);
}

#[test]
fn using_largest_face_when_multiple() {
    let mut w = FirstRunWizard::open("P1", true);
    w.advance();
    w.note_faces(1);
    assert!(!w.using_largest_face());
    w.note_faces(2);
    assert!(w.using_largest_face());
    assert_eq!(w.face_chip(), Some(LARGEST_FACE_CHIP));
}

#[test]
fn skip_on_name_is_noop() {
    let mut w = FirstRunWizard::open("P1", true);
    assert_eq!(w.skip(), WizardEvent::Nothing);
    assert_eq!(w.step, WizardStep::Name);
}

#[test]
fn complete_before_done_is_noop() {
    let mut w = FirstRunWizard::open("P1", true);
    assert_eq!(w.complete(), WizardEvent::Nothing);
    w.advance();
    assert_eq!(w.complete(), WizardEvent::Nothing);
}

#[test]
fn wizard_blocks_hide_while_open() {
    let w = FirstRunWizard::open("P1", true);
    let enroll: Session = EnrollSession::idle();
    assert!(wizard_blocks_hide(&w, &enroll));
    let closed = FirstRunWizard::closed();
    assert!(!wizard_blocks_hide(&closed, &enroll));
}

#[test]
fn capture_blocks_hide_even_when_closed() {
    let closed = FirstRunWizard::closed();
    let enroll: Session = EnrollSession::start_voice("Ada", None);
    assert!(wizard_blocks_hide(&closed, &enroll));
}

#[test]
fn complete_without_enrolment_just_completes() {
    let mut w = FirstRunWizard::open("P1", false);
    w.advance();
    let _ = w.skip();
    let _ = w.skip();
    let _ = w.skip();
    assert_eq!(w.complete(), WizardEvent::Completed);
    assert!(!w.is_open());
}

#[test]
fn defaults_are_closed_and_off() {
    let w = FirstRunWizard::default();
    assert_eq!(w.step, WizardStep::Closed);
    assert!(!w.is_open() && w.person_name.is_empty() && w.suggested_gate.is_none());
    assert_eq!(buckyboi::gate::GateMode::default(), buckyboi::gate::GateMode::Off);
    assert_eq!(buckyboi::gate::AuthVia::default(), buckyboi::gate::AuthVia::NoMatch);
    let m = buckyboi::radial::RadialMenu::default();
    assert!(!m.settings_open && !m.wizard_open && !m.muted && !m.calib_open);
    assert!(m.flash_id.is_none() && m.freeze_ms.is_none() && m.dragging_slider.is_none());
    assert_eq!(m.flash_until_ms, 0);
}
