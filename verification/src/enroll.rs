//! Enrollment state machines (face frames, voice clips, gesture holds).
//!
//! The session is generic over the stored embedding `E` and the landmark
//! coordinate `S`: the machine only counts and stores them.

use vstd::prelude::*;
use vstd::slice::slice_to_vec;
use crate::face::{FaceReject, FACE_ENROLL_NEED, face_hint};
use crate::hands::{GestureClass, class_label};
use crate::voice::{VoiceReject, VOICE_ENROLL_NEED, voice_hint};
use crate::text::{dec, upper, push_decimal, to_upper};
use vstd::string::*;

verus! {

/// Face frames refused more often than this fail the session.
pub const FACE_REJECT_CAP: u32 = 40;
/// Voice clips refused more often than this fail the session.
pub const VOICE_REJECT_CAP: u32 = 20;
/// Fewest landmark values a gesture sample must carry.
pub const GESTURE_MIN_VALUES: usize = 21;

#[derive(Clone, Copy, Debug, PartialEq, Eq, Structural)]
pub enum EnrollKind {
    Face,
    Voice,
    Gesture,
}

#[derive(Clone, Debug, PartialEq)]
pub enum EnrollPhase {
    Idle,
    Prompt { kind: EnrollKind, person: String, gesture: Option<GestureClass> },
    Capturing {
        kind: EnrollKind,
        person: String,
        have: usize,
        need: usize,
        gesture: Option<GestureClass>,
    },
    Done { person: String, kind: EnrollKind, accepted: usize },
    Failed { reason: String },
}

/// Abstract value of an [`EnrollPhase`].
#[verifier::ext_equal]
pub enum PhaseView {
    Idle,
    Prompt { kind: EnrollKind, person: Seq<char>, gesture: Option<GestureClass> },
    Capturing {
        kind: EnrollKind,
        person: Seq<char>,
        have: int,
        need: int,
        gesture: Option<GestureClass>,
    },
    Done { person: Seq<char>, kind: EnrollKind, accepted: int },
    Failed { reason: Seq<char> },
}

impl View for EnrollPhase {
    type V = PhaseView;

    open spec fn view(&self) -> PhaseView {
        match self {
            EnrollPhase::Idle => PhaseView::Idle,
            EnrollPhase::Prompt { kind, person, gesture } => PhaseView::Prompt {
                kind: *kind,
                person: person@,
                gesture: *gesture,
            },
            EnrollPhase::Capturing { kind, person, have, need, gesture } => PhaseView::Capturing {
                kind: *kind,
                person: person@,
                have: *have as int,
                need: *need as int,
                gesture: *gesture,
            },
            EnrollPhase::Done { person, kind, accepted } => PhaseView::Done {
                person: person@,
                kind: *kind,
                accepted: *accepted as int,
            },
            EnrollPhase::Failed { reason } => PhaseView::Failed { reason: reason@ },
        }
    }
}

#[derive(Clone, Copy, Debug, PartialEq, Eq, Structural)]
pub enum EnrollEvent {
    Nothing,
    Accepted,
    Rejected,
    Finished,
    Failed,
}

/// One enrollment run for one person and one modality.
#[derive(Clone, Debug)]
pub struct EnrollSession<E, S> {
    pub phase: EnrollPhase,
    pub person_name: String,
    pub person_id: Option<String>,
    pub kind: EnrollKind,
    pub gesture: Option<GestureClass>,
    pub accepted: Vec<E>,
    pub gesture_samples: Vec<Vec<S>>,
    pub rejects: u32,
    pub need: usize,
    pub last_reject: Option<String>,
}

/// Abstract value of an [`EnrollSession`].
#[verifier::ext_equal]
pub struct EnrollView<E, S> {
    pub phase: PhaseView,
    pub person: Seq<char>,
    pub person_id: Option<Seq<char>>,
    pub kind: EnrollKind,
    pub gesture: Option<GestureClass>,
    pub accepted: Seq<E>,
    pub samples: Seq<Seq<S>>,
    pub rejects: u32,
    pub need: int,
    pub last_reject: Option<Seq<char>>,
}

impl<E, S> View for EnrollSession<E, S> {
    type V = EnrollView<E, S>;

    open spec fn view(&self) -> EnrollView<E, S> {
        EnrollView {
            phase: self.phase@,
            person: self.person_name@,
            person_id: crate::gate::opt_view(self.person_id),
            kind: self.kind,
            gesture: self.gesture,
            accepted: self.accepted@,
            samples: self.gesture_samples@.map_values(|v: Vec<S>| v@),
            rejects: self.rejects,
            need: self.need as int,
            last_reject: crate::gate::opt_view(self.last_reject),
        }
    }
}

pub open spec fn sat_inc(r: u32) -> u32 {
    if r < u32::MAX { (r + 1) as u32 } else { r }
}

pub open spec fn max_int(a: int, b: int) -> int {
    if a >= b { a } else { b }
}

/// Captured so far: stored embeddings or gesture samples, whichever is more.
pub open spec fn have<E, S>(v: EnrollView<E, S>) -> int {
    max_int(v.accepted.len() as int, v.samples.len() as int)
}

pub open spec fn capturing<E, S>(v: EnrollView<E, S>) -> PhaseView {
    PhaseView::Capturing {
        kind: v.kind,
        person: v.person,
        have: have(v),
        need: v.need,
        gesture: v.gesture,
    }
}

/// `begin_capture`: a prompt or running capture shows the capture counters;
/// idle, done and failed sessions keep their phase.
pub open spec fn begun<E, S>(v: EnrollView<E, S>) -> EnrollView<E, S> {
    match v.phase {
        PhaseView::Idle | PhaseView::Done { .. } | PhaseView::Failed { .. } => v,
        _ => EnrollView { phase: capturing(v), ..v },
    }
}

/// After an accepted sample: Done at `need`, else counting.
pub open spec fn after_store<E, S>(v: EnrollView<E, S>, n: int) -> (EnrollView<E, S>, EnrollEvent) {
    if n >= v.need {
        (
            EnrollView {
                phase: PhaseView::Done { person: v.person, kind: v.kind, accepted: n },
                ..v
            },
            EnrollEvent::Finished,
        )
    } else {
        (EnrollView { phase: capturing(v), ..v }, EnrollEvent::Accepted)
    }
}

/// One face frame: `ok` is the quality verdict, `emb` the embedding (if any).
pub open spec fn face_step<E, S>(v: EnrollView<E, S>, ok: bool, reject: FaceReject, emb: Option<E>) -> (
    EnrollView<E, S>,
    EnrollEvent,
) {
    if v.kind != EnrollKind::Face {
        (v, EnrollEvent::Nothing)
    } else {
        let b = begun(v);
        if !ok {
            let r = EnrollView {
                rejects: sat_inc(b.rejects),
                last_reject: Some(face_hint(reject)),
                ..b
            };
            if r.rejects > FACE_REJECT_CAP {
                (
                    EnrollView { phase: PhaseView::Failed { reason: face_hint(reject) }, ..r },
                    EnrollEvent::Failed,
                )
            } else {
                (r, EnrollEvent::Rejected)
            }
        } else {
            match emb {
                None => (
                    EnrollView {
                        rejects: sat_inc(b.rejects),
                        last_reject: Some(face_hint(FaceReject::NoEmbed)),
                        ..b
                    },
                    EnrollEvent::Rejected,
                ),
                Some(e) => {
                    let s = EnrollView { last_reject: None, accepted: b.accepted.push(e), ..b };
                    after_store(s, s.accepted.len() as int)
                },
            }
        }
    }
}

/// One voice clip: `ok` is the clip verdict, `emb` the voice print (if any).
pub open spec fn voice_step<E, S>(
    v: EnrollView<E, S>,
    ok: bool,
    reject: VoiceReject,
    emb: Option<E>,
) -> (EnrollView<E, S>, EnrollEvent) {
    if v.kind != EnrollKind::Voice {
        (v, EnrollEvent::Nothing)
    } else {
        let b = begun(v);
        if !ok {
            let r = EnrollView {
                rejects: sat_inc(b.rejects),
                last_reject: Some(voice_hint(reject)),
                ..b
            };
            if r.rejects > VOICE_REJECT_CAP {
                (
                    EnrollView { phase: PhaseView::Failed { reason: voice_hint(reject) }, ..r },
                    EnrollEvent::Failed,
                )
            } else {
                (r, EnrollEvent::Rejected)
            }
        } else {
            match emb {
                None => (EnrollView { last_reject: Some("NO MODEL"@), ..b }, EnrollEvent::Rejected),
                Some(e) => {
                    let s = EnrollView { last_reject: None, accepted: b.accepted.push(e), ..b };
                    after_store(s, s.accepted.len() as int)
                },
            }
        }
    }
}

/// One gesture hold: the landmarks of the hand in frame.
pub open spec fn gesture_step<E, S>(v: EnrollView<E, S>, lm: Seq<S>) -> (EnrollView<E, S>, EnrollEvent) {
    if v.kind != EnrollKind::Gesture {
        (v, EnrollEvent::Nothing)
    } else if lm.len() < GESTURE_MIN_VALUES {
        (EnrollView { rejects: sat_inc(v.rejects), ..v }, EnrollEvent::Rejected)
    } else {
        let b = begun(v);
        let s = EnrollView { samples: b.samples.push(lm), ..b };
        after_store(s, s.samples.len() as int)
    }
}

pub open spec fn kind_word(k: EnrollKind) -> Seq<char> {
    match k {
        EnrollKind::Face => "FACE"@,
        EnrollKind::Voice => "VOICE"@,
        EnrollKind::Gesture => "GESTURE"@,
    }
}

pub open spec fn gesture_or_palm(g: Option<GestureClass>) -> GestureClass {
    match g {
        Some(c) => c,
        None => GestureClass::Palm,
    }
}

/// HUD line for the current phase.
pub open spec fn hint_spec<E, S>(v: EnrollView<E, S>) -> Seq<char> {
    match v.phase {
        PhaseView::Idle => Seq::empty(),
        PhaseView::Prompt { kind, gesture, .. } => match kind {
            EnrollKind::Face => "LOOK AT CAM"@,
            EnrollKind::Voice => "SAY PHRASE"@,
            EnrollKind::Gesture => "HOLD "@ + class_label(gesture_or_palm(gesture)),
        },
        PhaseView::Capturing { kind, have, need, gesture, .. } => {
            if v.last_reject is Some && v.last_reject->0.len() > 0 {
                v.last_reject->0
            } else {
                let counts = dec(have as nat) + "/"@ + dec(need as nat);
                match kind {
                    EnrollKind::Face => "FACE "@ + counts,
                    EnrollKind::Voice => "VOICE "@ + counts,
                    EnrollKind::Gesture => class_label(gesture_or_palm(gesture)) + " "@ + counts,
                }
            }
        },
        PhaseView::Done { kind, .. } => kind_word(kind) + " SAVED"@,
        PhaseView::Failed { reason } => upper(reason),
    }
}

impl<E, S: Copy> EnrollSession<E, S> {
    /// Nothing running.
    pub fn idle() -> (s: Self)
        ensures
            s@.phase == PhaseView::Idle,
            s@.person == Seq::<char>::empty(),
            s@.person_id is None,
            s@.kind == EnrollKind::Face,
            s@.gesture is None,
            s@.accepted.len() == 0,
            s@.samples.len() == 0,
            s@.rejects == 0,
            s@.need == FACE_ENROLL_NEED,
            s@.last_reject is None,
    {
        let s = EnrollSession {
            phase: EnrollPhase::Idle,
            person_name: String::new(),
            person_id: None,
            kind: EnrollKind::Face,
            gesture: None,
            accepted: Vec::new(),
            gesture_samples: Vec::new(),
            rejects: 0,
            need: FACE_ENROLL_NEED,
            last_reject: None,
        };
        assert(s@.samples =~= Seq::<Seq<S>>::empty());
        s
    }

    fn start(
        name: String,
        person_id: Option<String>,
        kind: EnrollKind,
        gesture: Option<GestureClass>,
        need: usize,
    ) -> (s: Self)
        ensures
            s@.phase == (PhaseView::Prompt { kind, person: name@, gesture }),
            s@.person == name@,
            s@.person_id == crate::gate::opt_view(person_id),
            s@.kind == kind,
            s@.gesture == gesture,
            s@.accepted.len() == 0,
            s@.samples.len() == 0,
            s@.rejects == 0,
            s@.need == need,
            s@.last_reject is None,
    {
        let s = EnrollSession {
            phase: EnrollPhase::Prompt { kind, person: name.clone(), gesture },
            person_name: name,
            person_id,
            kind,
            gesture,
            accepted: Vec::new(),
            gesture_samples: Vec::new(),
            rejects: 0,
            need,
            last_reject: None,
        };
        assert(s@.samples =~= Seq::<Seq<S>>::empty());
        s
    }

    /// Prompt for eight quality-checked face frames.
    pub fn start_face(name: &str, person_id: Option<String>) -> (s: Self)
        ensures
            s@.phase == (PhaseView::Prompt { kind: EnrollKind::Face, person: name@, gesture: None }),
            s@.person == name@,
            s@.person_id == crate::gate::opt_view(person_id),
            s@.kind == EnrollKind::Face,
            s@.gesture is None,
            s@.accepted.len() == 0,
            s@.samples.len() == 0,
            s@.rejects == 0,
            s@.need == FACE_ENROLL_NEED,
            s@.last_reject is None,
    {
        Self::start(name.to_owned(), person_id, EnrollKind::Face, None, FACE_ENROLL_NEED)
    }

    /// Prompt for three voice clips.
    pub fn start_voice(name: &str, person_id: Option<String>) -> (s: Self)
        ensures
            s@.phase == (PhaseView::Prompt { kind: EnrollKind::Voice, person: name@, gesture: None }),
            s@.person == name@,
            s@.person_id == crate::gate::opt_view(person_id),
            s@.kind == EnrollKind::Voice,
            s@.gesture is None,
            s@.accepted.len() == 0,
            s@.samples.len() == 0,
            s@.rejects == 0,
            s@.need == VOICE_ENROLL_NEED,
            s@.last_reject is None,
    {
        Self::start(name.to_owned(), person_id, EnrollKind::Voice, None, VOICE_ENROLL_NEED)
    }

    /// Prompt for `max(need, 3)` holds of `class`.
    pub fn start_gesture(name: &str, person_id: Option<String>, class: GestureClass, need: usize) -> (s: Self)
        ensures
            s@.phase == (PhaseView::Prompt {
                kind: EnrollKind::Gesture,
                person: name@,
                gesture: Some(class),
            }),
            s@.person == name@,
            s@.person_id == crate::gate::opt_view(person_id),
            s@.kind == EnrollKind::Gesture,
            s@.gesture == Some(class),
            s@.accepted.len() == 0,
            s@.samples.len() == 0,
            s@.rejects == 0,
            s@.need == (if need >= 3 { need } else { 3 }),
            s@.last_reject is None,
    {
        let n = if need >= 3 { need } else { 3 };
        Self::start(name.to_owned(), person_id, EnrollKind::Gesture, Some(class), n)
    }

    fn capturing_phase(&self) -> (p: EnrollPhase)
        ensures
            p@ == capturing(self@),
    {
        let have = if self.accepted.len() >= self.gesture_samples.len() {
            self.accepted.len()
        } else {
            self.gesture_samples.len()
        };
        EnrollPhase::Capturing {
            kind: self.kind,
            person: self.person_name.clone(),
            have,
            need: self.need,
            gesture: self.gesture,
        }
    }

    /// Prompt → capturing counters; idle / done / failed are left alone.
    pub fn begin_capture(&mut self)
        ensures
            final(self)@ == begun(old(self)@),
    {
        match self.phase {
            EnrollPhase::Idle | EnrollPhase::Done { .. } | EnrollPhase::Failed { .. } => {},
            _ => {
                self.phase = self.capturing_phase();
            },
        }
    }

    /// Abandon the run: back to the idle session.
    pub fn cancel(&mut self)
        ensures
            final(self)@.phase == PhaseView::Idle,
            final(self)@.person == Seq::<char>::empty(),
            final(self)@.person_id is None,
            final(self)@.kind == EnrollKind::Face,
            final(self)@.gesture is None,
            final(self)@.accepted.len() == 0,
            final(self)@.samples.len() == 0,
            final(self)@.rejects == 0,
            final(self)@.need == FACE_ENROLL_NEED,
            final(self)@.last_reject is None,
    {
        *self = Self::idle();
    }

    fn store_phase(&mut self, n: usize) -> (ev: EnrollEvent)
        ensures
            (final(self)@, ev) == after_store(old(self)@, n as int),
    {
        if n >= self.need {
            self.phase = EnrollPhase::Done {
                person: self.person_name.clone(),
                kind: self.kind,
                accepted: n,
            };
            EnrollEvent::Finished
        } else {
            self.phase = self.capturing_phase();
            EnrollEvent::Accepted
        }
    }

    /// Feed one face frame: `ok` / `reject` from the quality check, `emb` its embedding.
    pub fn push_face(&mut self, ok: bool, reject: FaceReject, emb: Option<E>) -> (ev: EnrollEvent)
        ensures
            (final(self)@, ev) == face_step(old(self)@, ok, reject, emb),
    {
        if self.kind != EnrollKind::Face {
            return EnrollEvent::Nothing;
        }
        self.begin_capture();
        if !ok {
            self.rejects = self.rejects.saturating_add(1);
            let h = reject.hint();
            self.last_reject = Some(h.to_owned());
            if self.rejects > FACE_REJECT_CAP {
                self.phase = EnrollPhase::Failed { reason: h.to_owned() };
                return EnrollEvent::Failed;
            }
            return EnrollEvent::Rejected;
        }
        match emb {
            None => {
                self.rejects = self.rejects.saturating_add(1);
                self.last_reject = Some(FaceReject::NoEmbed.hint().to_owned());
                EnrollEvent::Rejected
            },
            Some(e) => {
                self.last_reject = None;
                self.accepted.push(e);
                let n = self.accepted.len();
                self.store_phase(n)
            },
        }
    }

    /// Feed one voice clip: `ok` / `reject` from the clip check, `emb` its voice print.
    pub fn push_voice(&mut self, ok: bool, reject: VoiceReject, emb: Option<E>) -> (ev: EnrollEvent)
        ensures
            (final(self)@, ev) == voice_step(old(self)@, ok, reject, emb),
    {
        if self.kind != EnrollKind::Voice {
            return EnrollEvent::Nothing;
        }
        self.begin_capture();
        if !ok {
            self.rejects = self.rejects.saturating_add(1);
            let h = reject.hint();
            self.last_reject = Some(h.to_owned());
            if self.rejects > VOICE_REJECT_CAP {
                self.phase = EnrollPhase::Failed { reason: h.to_owned() };
                return EnrollEvent::Failed;
            }
            return EnrollEvent::Rejected;
        }
        match emb {
            None => {
                self.last_reject = Some("NO MODEL".to_owned());
                EnrollEvent::Rejected
            },
            Some(e) => {
                self.last_reject = None;
                self.accepted.push(e);
                let n = self.accepted.len();
                self.store_phase(n)
            },
        }
    }

    /// Feed one held gesture (flattened landmarks).
    pub fn push_gesture(&mut self, landmarks: &[S]) -> (ev: EnrollEvent)
        ensures
            (final(self)@, ev) == gesture_step(old(self)@, landmarks@),
    {
        if self.kind != EnrollKind::Gesture {
            return EnrollEvent::Nothing;
        }
        if landmarks.len() < GESTURE_MIN_VALUES {
            self.rejects = self.rejects.saturating_add(1);
            return EnrollEvent::Rejected;
        }
        self.begin_capture();
        let ghost before = self@;
        let sample = slice_to_vec(landmarks);
        self.gesture_samples.push(sample);
        assert(self@.samples =~= before.samples.push(landmarks@));
        let n = self.gesture_samples.len();
        self.store_phase(n)
    }
}


/// How far the run is, as a fraction `(done, of)` with `done <= of` and
/// `of > 0`: captured over needed while capturing, all of it once done.
pub open spec fn progress_spec(p: PhaseView) -> (int, int) {
    match p {
        PhaseView::Capturing { have, need, .. } => {
            let d = if need >= 1 { need } else { 1 };
            (if have <= d { have } else { d }, d)
        },
        PhaseView::Done { .. } => (1, 1),
        _ => (0, 1),
    }
}

impl<E, S> EnrollSession<E, S> {
    pub fn progress(&self) -> (f: (usize, usize))
        ensures
            (f.0 as int, f.1 as int) == progress_spec(self@.phase),
    {
        match &self.phase {
            EnrollPhase::Capturing { have, need, .. } => {
                let d: usize = if *need >= 1 { *need } else { 1 };
                (if *have <= d { *have } else { d }, d)
            },
            EnrollPhase::Done { .. } => (1, 1),
            _ => (0, 1),
        }
    }
}

impl<E, S> EnrollSession<E, S> {
    /// HUD line: prompt, `FACE 3/8`-style progress, the last reject, or the outcome.
    pub fn hint(&self) -> (s: String)
        ensures
            s@ == hint_spec(self@),
    {
        match &self.phase {
            EnrollPhase::Idle => String::new(),
            EnrollPhase::Prompt { kind, gesture, .. } => match kind {
                EnrollKind::Face => String::from_str("LOOK AT CAM"),
                EnrollKind::Voice => String::from_str("SAY PHRASE"),
                EnrollKind::Gesture => {
                    let g = match gesture {
                        Some(c) => *c,
                        None => GestureClass::Palm,
                    };
                    let mut s = String::from_str("HOLD ");
                    s.append(g.label());
                    s
                },
            },
            EnrollPhase::Capturing { kind, have, need, gesture, .. } => {
                if let Some(r) = &self.last_reject {
                    if r.as_str().unicode_len() > 0 {
                        return r.clone();
                    }
                }
                let mut s = match kind {
                    EnrollKind::Face => String::from_str("FACE "),
                    EnrollKind::Voice => String::from_str("VOICE "),
                    EnrollKind::Gesture => {
                        let g = match gesture {
                            Some(c) => *c,
                            None => GestureClass::Palm,
                        };
                        let mut t = String::from_str(g.label());
                        t.append(" ");
                        t
                    },
                };
                push_decimal(&mut s, *have as u64);
                s.append("/");
                push_decimal(&mut s, *need as u64);
                proof {
                    let counts = dec(*have as nat) + "/"@ + dec(*need as nat);
                    assert(s@ =~= match kind {
                        EnrollKind::Face => "FACE "@ + counts,
                        EnrollKind::Voice => "VOICE "@ + counts,
                        EnrollKind::Gesture => class_label(gesture_or_palm(*gesture)) + " "@ + counts,
                    });
                }
                s
            },
            EnrollPhase::Done { kind, .. } => {
                let mut s = match kind {
                    EnrollKind::Face => String::from_str("FACE"),
                    EnrollKind::Voice => String::from_str("VOICE"),
                    EnrollKind::Gesture => String::from_str("GESTURE"),
                };
                s.append(" SAVED");
                s
            },
            EnrollPhase::Failed { reason } => to_upper(reason),
        }
    }
}


/// A refused face frame or voice clip (bad quality, or no embedding) stores nothing.
pub proof fn law_refused_samples_store_nothing<E, S>(
    v: EnrollView<E, S>,
    fr: FaceReject,
    vr: VoiceReject,
    e: Option<E>,
)
    ensures
        face_step(v, false, fr, e).0.accepted == v.accepted,
        face_step(v, true, fr, None).0.accepted == v.accepted,
        voice_step(v, false, vr, e).0.accepted == v.accepted,
        voice_step(v, true, vr, None).0.accepted == v.accepted,
        face_step(v, false, fr, e).1 != EnrollEvent::Finished,
        voice_step(v, false, vr, e).1 != EnrollEvent::Finished,
{
}

/// Each good frame stores exactly one embedding; the run finishes on the frame
/// that brings the count to `need` and not before.
pub proof fn law_face_counts_to_need<E, S>(v: EnrollView<E, S>, fr: FaceReject, e: E)
    requires
        v.kind == EnrollKind::Face,
    ensures
        face_step(v, true, fr, Some(e)).0.accepted == v.accepted.push(e),
        face_step(v, true, fr, Some(e)).1 == (if v.accepted.len() + 1 >= v.need {
            EnrollEvent::Finished
        } else {
            EnrollEvent::Accepted
        }),
        face_step(v, true, fr, Some(e)).1 == EnrollEvent::Finished ==> face_step(
            v,
            true,
            fr,
            Some(e),
        ).0.phase is Done,
{
}

/// Same for voice clips.
pub proof fn law_voice_counts_to_need<E, S>(v: EnrollView<E, S>, vr: VoiceReject, e: E)
    requires
        v.kind == EnrollKind::Voice,
    ensures
        voice_step(v, true, vr, Some(e)).0.accepted == v.accepted.push(e),
        voice_step(v, true, vr, Some(e)).1 == (if v.accepted.len() + 1 >= v.need {
            EnrollEvent::Finished
        } else {
            EnrollEvent::Accepted
        }),
{
}

/// Same for gesture holds with enough landmarks; short ones only count a reject.
pub proof fn law_gesture_counts_to_need<E, S>(v: EnrollView<E, S>, lm: Seq<S>)
    requires
        v.kind == EnrollKind::Gesture,
    ensures
        lm.len() >= GESTURE_MIN_VALUES ==> gesture_step(v, lm).0.samples == v.samples.push(lm)
            && gesture_step(v, lm).1 == (if v.samples.len() + 1 >= v.need {
            EnrollEvent::Finished
        } else {
            EnrollEvent::Accepted
        }),
        lm.len() < GESTURE_MIN_VALUES ==> gesture_step(v, lm).0.samples == v.samples
            && gesture_step(v, lm).1 == EnrollEvent::Rejected,
{
}

/// The 41st refused face frame (the 21st voice clip) fails the run, showing the last reason.
pub proof fn law_reject_cap_fails<E, S>(v: EnrollView<E, S>, fr: FaceReject, vr: VoiceReject, e: Option<E>)
    ensures
        v.kind == EnrollKind::Face && v.rejects == FACE_REJECT_CAP ==> face_step(v, false, fr, e).1
            == EnrollEvent::Failed && face_step(v, false, fr, e).0.phase == (PhaseView::Failed {
            reason: face_hint(fr),
        }),
        v.kind == EnrollKind::Face && v.rejects < FACE_REJECT_CAP ==> face_step(v, false, fr, e).1
            == EnrollEvent::Rejected,
        v.kind == EnrollKind::Voice && v.rejects == VOICE_REJECT_CAP ==> voice_step(v, false, vr, e).1
            == EnrollEvent::Failed,
{
}

/// A session only reacts to samples of its own modality.
pub proof fn law_other_modality_ignored<E, S>(v: EnrollView<E, S>, ok: bool, fr: FaceReject, vr: VoiceReject, e: Option<E>, lm: Seq<S>)
    ensures
        v.kind != EnrollKind::Face ==> face_step(v, ok, fr, e) == (v, EnrollEvent::Nothing),
        v.kind != EnrollKind::Voice ==> voice_step(v, ok, vr, e) == (v, EnrollEvent::Nothing),
        v.kind != EnrollKind::Gesture ==> gesture_step(v, lm) == (v, EnrollEvent::Nothing),
{
}


/// A refused clip or frame below the cap only counts: a voice run takes up
/// to 20 refused clips (a face run up to 40 refused frames) with the event
/// `Rejected`, the count going up by one, nothing stored, and a run that had
/// not failed still not failed; the next refusal after that fails the run
/// with the refusal's hint. A good clip without a voice print (no model) is
/// refused without counting; a good frame without an embedding counts as a
/// refusal but never fails the run.
pub proof fn law_rejects_below_cap_continue<E, S>(v: EnrollView<E, S>, fr: FaceReject, vr: VoiceReject, e: Option<E>)
    ensures
        v.kind == EnrollKind::Voice && v.rejects < 20 ==> ({
            let (r, ev) = voice_step(v, false, vr, e);
            &&& ev == EnrollEvent::Rejected
            &&& r.rejects == v.rejects + 1
            &&& r.accepted == v.accepted
            &&& !(v.phase is Failed) ==> !(r.phase is Failed)
        }),
        v.kind == EnrollKind::Face && v.rejects < 40 ==> ({
            let (r, ev) = face_step(v, false, fr, e);
            &&& ev == EnrollEvent::Rejected
            &&& r.rejects == v.rejects + 1
            &&& r.accepted == v.accepted
            &&& !(v.phase is Failed) ==> !(r.phase is Failed)
        }),
        v.kind == EnrollKind::Voice && v.rejects >= 20 ==> voice_step(v, false, vr, e).1 == EnrollEvent::Failed
            && voice_step(v, false, vr, e).0.phase == (PhaseView::Failed { reason: voice_hint(vr) }),
        v.kind == EnrollKind::Face && v.rejects >= 40 ==> face_step(v, false, fr, e).1 == EnrollEvent::Failed
            && face_step(v, false, fr, e).0.phase == (PhaseView::Failed { reason: face_hint(fr) }),
        v.kind == EnrollKind::Voice ==> ({
            let (r, ev) = voice_step(v, true, vr, None);
            &&& ev == EnrollEvent::Rejected
            &&& r.rejects == v.rejects
            &&& r.accepted == v.accepted
            &&& r.last_reject == Some("NO MODEL"@)
        }),
        v.kind == EnrollKind::Face ==> ({
            let (r, ev) = face_step(v, true, fr, None);
            &&& ev == EnrollEvent::Rejected
            &&& r.rejects == if v.rejects < u32::MAX { v.rejects + 1 } else { v.rejects as int }
            &&& r.accepted == v.accepted
            &&& !(v.phase is Failed) ==> !(r.phase is Failed)
        }),
{
}

} // verus!
