//! First-run / add-person enroll wizard: name → face → voice → optional hands → done.
//!
//! The wizard only sequences; capture runs in the same [`EnrollSession`]
//! machines Settings → ID uses, which report back through `on_enroll_finished`.

use vstd::prelude::*;
use crate::enroll::{EnrollKind, EnrollSession, hint_spec, progress_spec};
use crate::gate::{GateMode, opt_view};
use crate::hands::{GestureClass, class_label, class_next_train};
use crate::text::trim;
use vstd::string::*;

verus! {

/// Chip when the detector sees more than one face.
pub const LARGEST_FACE_CHIP: &'static str = "USING LARGEST FACE";

#[derive(Clone, Copy, Debug, PartialEq, Eq, Structural)]
pub enum WizardStep {
    Closed,
    Name,
    Face,
    Voice,
    Hands { class: GestureClass },
    Done,
}

#[derive(Clone, Copy, Debug, PartialEq, Eq, Structural)]
pub enum WizardEvent {
    Nothing,
    Opened,
    BeginFace,
    BeginVoice,
    BeginHands(GestureClass),
    SuggestGate(GateMode),
    Cancelled,
    Completed,
}

#[derive(Clone, Debug)]
pub struct FirstRunWizard {
    pub step: WizardStep,
    pub person_name: String,
    pub person_id: Option<String>,
    pub face_ok: bool,
    pub voice_ok: bool,
    pub hands_ok: bool,
    pub first_run: bool,
    pub faces_in_frame: u32,
    pub suggested_gate: Option<GateMode>,
}

/// Abstract value of a [`FirstRunWizard`].
pub struct WizardView {
    pub step: WizardStep,
    pub name: Seq<char>,
    pub person_id: Option<Seq<char>>,
    pub face_ok: bool,
    pub voice_ok: bool,
    pub hands_ok: bool,
    pub first_run: bool,
    pub faces: u32,
    pub suggested: Option<GateMode>,
}

impl View for FirstRunWizard {
    type V = WizardView;

    open spec fn view(&self) -> WizardView {
        WizardView {
            step: self.step,
            name: self.person_name@,
            person_id: opt_view(self.person_id),
            face_ok: self.face_ok,
            voice_ok: self.voice_ok,
            hands_ok: self.hands_ok,
            first_run: self.first_run,
            faces: self.faces_in_frame,
            suggested: self.suggested_gate,
        }
    }
}

pub open spec fn closed_view() -> WizardView {
    WizardView {
        step: WizardStep::Closed,
        name: Seq::empty(),
        person_id: None,
        face_ok: false,
        voice_ok: false,
        hands_ok: false,
        first_run: false,
        faces: 0,
        suggested: None,
    }
}

/// A blank name becomes `P1`.
pub open spec fn name_or_default(n: Seq<char>) -> Seq<char> {
    if trim(n).len() == 0 { "P1"@ } else { n }
}

pub open spec fn opened_view(name: Seq<char>, first_run: bool) -> WizardView {
    WizardView { step: WizardStep::Name, name: name_or_default(name), first_run, ..closed_view() }
}

pub open spec fn wiz_is_open(w: WizardView) -> bool {
    w.step != WizardStep::Closed
}

/// Gating mode to propose from what was enrolled: FACE for a face alone, ANY
/// once a voice was saved (with or without a face), nothing when neither was.
pub open spec fn suggestion(face_ok: bool, voice_ok: bool) -> Option<GateMode> {
    if voice_ok {
        Some(GateMode::Any)
    } else if face_ok {
        Some(GateMode::Face)
    } else {
        None
    }
}

pub open spec fn enter_voice(w: WizardView) -> (WizardView, WizardEvent) {
    (WizardView { step: WizardStep::Voice, ..w }, WizardEvent::BeginVoice)
}

pub open spec fn enter_hands(w: WizardView, c: GestureClass) -> (WizardView, WizardEvent) {
    (WizardView { step: WizardStep::Hands { class: c }, ..w }, WizardEvent::BeginHands(c))
}

pub open spec fn enter_done(w: WizardView) -> (WizardView, WizardEvent) {
    (
        WizardView { step: WizardStep::Done, suggested: suggestion(w.face_ok, w.voice_ok), ..w },
        WizardEvent::Nothing,
    )
}

/// Close; report the suggested gate if there is one, else plain completion.
pub open spec fn finish(w: WizardView) -> (WizardView, WizardEvent) {
    let g = match w.suggested {
        Some(g) => Some(g),
        None => suggestion(w.face_ok, w.voice_ok),
    };
    match g {
        Some(g) => (closed_view(), WizardEvent::SuggestGate(g)),
        None => (closed_view(), WizardEvent::Completed),
    }
}

pub open spec fn advance_spec(w: WizardView) -> (WizardView, WizardEvent) {
    match w.step {
        WizardStep::Name => (WizardView { step: WizardStep::Face, ..w }, WizardEvent::BeginFace),
        WizardStep::Done => finish(w),
        _ => (w, WizardEvent::Nothing),
    }
}

pub open spec fn skip_spec(w: WizardView) -> (WizardView, WizardEvent) {
    match w.step {
        WizardStep::Face => enter_voice(w),
        WizardStep::Voice => enter_hands(w, GestureClass::Fist),
        WizardStep::Hands { .. } => enter_done(w),
        _ => (w, WizardEvent::Nothing),
    }
}

pub open spec fn cancel_spec(w: WizardView) -> (WizardView, WizardEvent) {
    if wiz_is_open(w) {
        (closed_view(), WizardEvent::Cancelled)
    } else {
        (w, WizardEvent::Nothing)
    }
}

pub open spec fn complete_spec(w: WizardView) -> (WizardView, WizardEvent) {
    if w.step == WizardStep::Done {
        finish(w)
    } else {
        (w, WizardEvent::Nothing)
    }
}

pub open spec fn add_another_spec(w: WizardView, name: Seq<char>) -> (WizardView, WizardEvent) {
    if w.step == WizardStep::Done {
        (opened_view(name, false), WizardEvent::Opened)
    } else {
        (w, WizardEvent::Nothing)
    }
}

pub open spec fn finished_spec(w: WizardView, kind: EnrollKind) -> (WizardView, WizardEvent) {
    match (w.step, kind) {
        (WizardStep::Face, EnrollKind::Face) => enter_voice(WizardView { face_ok: true, ..w }),
        (WizardStep::Voice, EnrollKind::Voice) => enter_hands(
            WizardView { voice_ok: true, ..w },
            GestureClass::Fist,
        ),
        (WizardStep::Hands { class }, EnrollKind::Gesture) => {
            let h = WizardView { hands_ok: true, ..w };
            match class_next_train(class) {
                Some(n) => enter_hands(h, n),
                None => enter_done(h),
            }
        },
        _ => (w, WizardEvent::Nothing),
    }
}

pub open spec fn title_spec(w: WizardView) -> Seq<char> {
    match w.step {
        WizardStep::Closed => ""@,
        WizardStep::Name => if w.first_run { "FIRST RUN"@ } else { "ADD PERSON"@ },
        WizardStep::Face => "FACE"@,
        WizardStep::Voice => "VOICE"@,
        WizardStep::Hands { .. } => "HANDS"@,
        WizardStep::Done => "DONE"@,
    }
}

/// Done line: the name followed by the saved modalities.
pub open spec fn done_body(w: WizardView) -> Seq<char> {
    let bits = (if w.face_ok { seq!["FACE"@] } else { Seq::empty() }) + (if w.voice_ok {
        seq!["VOICE"@]
    } else {
        Seq::empty()
    }) + (if w.hands_ok { seq!["HANDS"@] } else { Seq::empty() });
    if bits.len() == 0 {
        w.name
    } else {
        w.name + " "@ + join_space(bits)
    }
}

/// Words joined by single spaces.
pub open spec fn join_space(ws: Seq<Seq<char>>) -> Seq<char>
    decreases ws.len(),
{
    if ws.len() == 0 {
        Seq::empty()
    } else if ws.len() == 1 {
        ws[0]
    } else {
        join_space(ws.drop_last()) + " "@ + ws.last()
    }
}

pub open spec fn body_spec(w: WizardView, enroll_hint: Seq<char>) -> Seq<char> {
    match w.step {
        WizardStep::Closed => Seq::empty(),
        WizardStep::Name => w.name,
        WizardStep::Face | WizardStep::Voice | WizardStep::Hands { .. } => {
            if enroll_hint.len() == 0 {
                match w.step {
                    WizardStep::Face => "LOOK AT CAM"@,
                    WizardStep::Voice => "SAY PHRASE"@,
                    WizardStep::Hands { class } => "HOLD "@ + class_label(class),
                    _ => Seq::empty(),
                }
            } else {
                enroll_hint
            }
        },
        WizardStep::Done => done_body(w),
    }
}

impl Default for FirstRunWizard {
    /// The closed wizard of [`FirstRunWizard::closed`].
    fn default() -> (w: FirstRunWizard)
        ensures
            w@ == closed_view(),
    {
        FirstRunWizard::closed()
    }
}

impl FirstRunWizard {
    pub fn closed() -> (w: FirstRunWizard)
        ensures
            w@ == closed_view(),
    {
        FirstRunWizard {
            step: WizardStep::Closed,
            person_name: String::new(),
            person_id: None,
            face_ok: false,
            voice_ok: false,
            hands_ok: false,
            first_run: false,
            faces_in_frame: 0,
            suggested_gate: None,
        }
    }

    pub fn is_open(&self) -> (b: bool)
        ensures
            b == wiz_is_open(self@),
    {
        self.step != WizardStep::Closed
    }

    /// Gate on + empty gallery → day-one wizard.
    pub fn should_offer(gate: GateMode, people: usize) -> (b: bool)
        ensures
            b == (gate != GateMode::Off && people == 0),
    {
        gate != GateMode::Off && people == 0
    }

    /// Start on the Name step (blank names become `P1`).
    pub fn open(name: &str, first_run: bool) -> (w: FirstRunWizard)
        ensures
            w@ == opened_view(name@, first_run),
    {
        let mut w = Self::closed();
        w.step = WizardStep::Name;
        let t = crate::text::trimmed(name);
        w.person_name = if t.len() == 0 {
            String::from_str("P1")
        } else {
            name.to_owned()
        };
        w.first_run = first_run;
        w
    }

    /// Rename on the Name step; blank names are ignored.
    pub fn set_name(&mut self, name: &str)
        ensures
            final(self)@ == (if old(self)@.step == WizardStep::Name && trim(name@).len() != 0 {
                WizardView { name: name@, ..old(self)@ }
            } else {
                old(self)@
            }),
    {
        if self.step == WizardStep::Name {
            let t = crate::text::trimmed(name);
            if t.len() != 0 {
                self.person_name = name.to_owned();
            }
        }
    }

    pub fn note_faces(&mut self, n: u32)
        ensures
            final(self)@ == (WizardView { faces: n, ..old(self)@ }),
    {
        self.faces_in_frame = n;
    }

    pub fn using_largest_face(&self) -> (b: bool)
        ensures
            b == (wiz_is_open(self@) && self@.faces > 1),
    {
        self.is_open() && self.faces_in_frame > 1
    }

    pub fn face_chip(&self) -> (c: Option<&'static str>)
        ensures
            (c is Some) == (wiz_is_open(self@) && self@.faces > 1),
            c is Some ==> c->0@ == LARGEST_FACE_CHIP@,
    {
        if self.using_largest_face() {
            Some(LARGEST_FACE_CHIP)
        } else {
            None
        }
    }

    pub fn can_skip(&self) -> (b: bool)
        ensures
            b == (self@.step == WizardStep::Face || self@.step == WizardStep::Voice
                || self@.step is Hands),
    {
        match self.step {
            WizardStep::Face | WizardStep::Voice | WizardStep::Hands { .. } => true,
            _ => false,
        }
    }

    pub fn can_next(&self) -> (b: bool)
        ensures
            b == (self@.step == WizardStep::Name || self@.step == WizardStep::Done),
    {
        self.step == WizardStep::Name || self.step == WizardStep::Done
    }

    pub fn can_add_another(&self) -> (b: bool)
        ensures
            b == (self@.step == WizardStep::Done),
    {
        self.step == WizardStep::Done
    }

    /// The progress bar: all of it once done, the capture's own progress
    /// during a capture step, none otherwise (a fraction `(done, of)`).
    pub fn progress<E, S>(&self, enroll: &EnrollSession<E, S>) -> (f: (usize, usize))
        ensures
            (f.0 as int, f.1 as int) == match self.step {
                WizardStep::Done => (1int, 1int),
                WizardStep::Face | WizardStep::Voice | WizardStep::Hands { .. } => progress_spec(enroll@.phase),
                _ => (0int, 1int),
            },
    {
        match self.step {
            WizardStep::Done => (1, 1),
            WizardStep::Face | WizardStep::Voice | WizardStep::Hands { .. } => enroll.progress(),
            _ => (0, 1),
        }
    }

    pub fn title(&self) -> (s: &'static str)
        ensures
            s@ == title_spec(self@),
    {
        match self.step {
            WizardStep::Closed => "",
            WizardStep::Name => {
                if self.first_run {
                    "FIRST RUN"
                } else {
                    "ADD PERSON"
                }
            },
            WizardStep::Face => "FACE",
            WizardStep::Voice => "VOICE",
            WizardStep::Hands { .. } => "HANDS",
            WizardStep::Done => "DONE",
        }
    }

    pub fn suggested_gate_for_enrolled(&self) -> (g: Option<GateMode>)
        ensures
            g == suggestion(self@.face_ok, self@.voice_ok),
    {
        if self.voice_ok {
            Some(GateMode::Any)
        } else if self.face_ok {
            Some(GateMode::Face)
        } else {
            None
        }
    }

    fn enter_face(&mut self) -> (ev: WizardEvent)
        ensures
            final(self)@ == (WizardView { step: WizardStep::Face, ..old(self)@ }),
            ev == WizardEvent::BeginFace,
    {
        self.step = WizardStep::Face;
        WizardEvent::BeginFace
    }

    fn enter_voice(&mut self) -> (ev: WizardEvent)
        ensures
            (final(self)@, ev) == enter_voice(old(self)@),
    {
        self.step = WizardStep::Voice;
        WizardEvent::BeginVoice
    }

    fn enter_hands(&mut self, class: GestureClass) -> (ev: WizardEvent)
        ensures
            (final(self)@, ev) == enter_hands(old(self)@, class),
    {
        self.step = WizardStep::Hands { class };
        WizardEvent::BeginHands(class)
    }

    fn enter_done(&mut self) -> (ev: WizardEvent)
        ensures
            (final(self)@, ev) == enter_done(old(self)@),
    {
        self.step = WizardStep::Done;
        self.suggested_gate = self.suggested_gate_for_enrolled();
        WizardEvent::Nothing
    }

    fn finish(&mut self) -> (ev: WizardEvent)
        ensures
            (final(self)@, ev) == finish(old(self)@),
    {
        let gate = match self.suggested_gate {
            Some(g) => Some(g),
            None => self.suggested_gate_for_enrolled(),
        };
        *self = Self::closed();
        match gate {
            Some(g) => WizardEvent::SuggestGate(g),
            None => WizardEvent::Completed,
        }
    }

    /// Confirm the name / finish Done.
    pub fn advance(&mut self) -> (ev: WizardEvent)
        ensures
            (final(self)@, ev) == advance_spec(old(self)@),
    {
        match self.step {
            WizardStep::Name => self.enter_face(),
            WizardStep::Done => self.finish(),
            _ => WizardEvent::Nothing,
        }
    }

    /// Skip the current modality (face too, so a machine without a camera can finish).
    pub fn skip(&mut self) -> (ev: WizardEvent)
        ensures
            (final(self)@, ev) == skip_spec(old(self)@),
    {
        match self.step {
            WizardStep::Face => self.enter_voice(),
            WizardStep::Voice => self.enter_hands(GestureClass::Fist),
            WizardStep::Hands { .. } => self.enter_done(),
            _ => WizardEvent::Nothing,
        }
    }

    pub fn cancel(&mut self) -> (ev: WizardEvent)
        ensures
            (final(self)@, ev) == cancel_spec(old(self)@),
    {
        if !self.is_open() {
            return WizardEvent::Nothing;
        }
        *self = Self::closed();
        WizardEvent::Cancelled
    }

    pub fn complete(&mut self) -> (ev: WizardEvent)
        ensures
            (final(self)@, ev) == complete_spec(old(self)@),
    {
        if self.step == WizardStep::Done {
            self.finish()
        } else {
            WizardEvent::Nothing
        }
    }

    /// After Done, start another person (never a first run).
    pub fn add_another(&mut self, name: &str) -> (ev: WizardEvent)
        ensures
            (final(self)@, ev) == add_another_spec(old(self)@, name@),
    {
        if self.step != WizardStep::Done {
            return WizardEvent::Nothing;
        }
        *self = Self::open(name, false);
        WizardEvent::Opened
    }

    /// An enroll machine finished; move on when it is the modality of this step.
    pub fn on_enroll_finished(&mut self, kind: EnrollKind) -> (ev: WizardEvent)
        ensures
            (final(self)@, ev) == finished_spec(old(self)@, kind),
    {
        match (self.step, kind) {
            (WizardStep::Face, EnrollKind::Face) => {
                self.face_ok = true;
                self.enter_voice()
            },
            (WizardStep::Voice, EnrollKind::Voice) => {
                self.voice_ok = true;
                self.enter_hands(GestureClass::Fist)
            },
            (WizardStep::Hands { class }, EnrollKind::Gesture) => {
                self.hands_ok = true;
                match class.next_train() {
                    Some(next) => self.enter_hands(next),
                    None => self.enter_done(),
                }
            },
            _ => WizardEvent::Nothing,
        }
    }
}


impl FirstRunWizard {
    /// Panel text: the name, the enroll prompt / progress, or the Done summary.
    pub fn body<E, S>(&self, enroll: &EnrollSession<E, S>) -> (s: String)
        ensures
            s@ == body_spec(self@, hint_spec(enroll@)),
    {
        match self.step {
            WizardStep::Closed => String::new(),
            WizardStep::Name => self.person_name.clone(),
            WizardStep::Face | WizardStep::Voice | WizardStep::Hands { .. } => {
                let h = enroll.hint();
                if h.as_str().unicode_len() == 0 {
                    match self.step {
                        WizardStep::Face => String::from_str("LOOK AT CAM"),
                        WizardStep::Voice => String::from_str("SAY PHRASE"),
                        WizardStep::Hands { class } => {
                            let mut t = String::from_str("HOLD ");
                            t.append(class.label());
                            t
                        },
                        _ => String::new(),
                    }
                } else {
                    h
                }
            },
            WizardStep::Done => {
                let mut out = self.person_name.clone();
                let ghost w = self@;
                if self.face_ok {
                    out.append(" ");
                    out.append("FACE");
                }
                if self.voice_ok {
                    out.append(" ");
                    out.append("VOICE");
                }
                if self.hands_ok {
                    out.append(" ");
                    out.append("HANDS");
                }
                proof {
                    reveal_with_fuel(join_space, 4);
                    let f = if w.face_ok { seq!["FACE"@] } else { Seq::<Seq<char>>::empty() };
                    let v = if w.voice_ok { seq!["VOICE"@] } else { Seq::<Seq<char>>::empty() };
                    let h = if w.hands_ok { seq!["HANDS"@] } else { Seq::<Seq<char>>::empty() };
                    let bits = f + v + h;
                    if w.face_ok && w.voice_ok && w.hands_ok {
                        assert(bits =~= seq!["FACE"@, "VOICE"@, "HANDS"@]);
                        assert(bits.drop_last() =~= seq!["FACE"@, "VOICE"@]);
                        assert(bits.drop_last().drop_last() =~= seq!["FACE"@]);
                    } else if w.face_ok && w.voice_ok {
                        assert(bits =~= seq!["FACE"@, "VOICE"@]);
                        assert(bits.drop_last() =~= seq!["FACE"@]);
                    } else if w.face_ok && w.hands_ok {
                        assert(bits =~= seq!["FACE"@, "HANDS"@]);
                        assert(bits.drop_last() =~= seq!["FACE"@]);
                    } else if w.voice_ok && w.hands_ok {
                        assert(bits =~= seq!["VOICE"@, "HANDS"@]);
                        assert(bits.drop_last() =~= seq!["VOICE"@]);
                    } else if w.face_ok {
                        assert(bits =~= seq!["FACE"@]);
                    } else if w.voice_ok {
                        assert(bits =~= seq!["VOICE"@]);
                    } else if w.hands_ok {
                        assert(bits =~= seq!["HANDS"@]);
                    } else {
                        assert(bits =~= Seq::<Seq<char>>::empty());
                    }
                    assert(out@ =~= done_body(w));
                }
                out
            },
        }
    }
}

/// While the wizard is open or an enroll machine is running, the hide timer
/// and Esc treat the overlay like an open Settings panel.
pub fn wizard_blocks_hide<E, S>(wizard: &FirstRunWizard, enroll: &EnrollSession<E, S>) -> (b: bool)
    ensures
        b == (wiz_is_open(wizard@) || !(enroll@.phase is Idle)),
{
    wizard.is_open() || !matches!(enroll.phase, crate::enroll::EnrollPhase::Idle)
}


/// Enrolling everything walks name → face → voice → fist → palm → thumb →
/// point → peace → done, and finishing then proposes the ANY gate and closes.
pub proof fn law_full_enrollment_path(name: Seq<char>, first_run: bool)
    ensures
        ({
            let w0 = opened_view(name, first_run);
            let (w1, e1) = advance_spec(w0);
            let (w2, e2) = finished_spec(w1, EnrollKind::Face);
            let (w3, e3) = finished_spec(w2, EnrollKind::Voice);
            let (w4, e4) = finished_spec(w3, EnrollKind::Gesture);
            let (w5, e5) = finished_spec(w4, EnrollKind::Gesture);
            let (w6, e6) = finished_spec(w5, EnrollKind::Gesture);
            let (w7, e7) = finished_spec(w6, EnrollKind::Gesture);
            let (w8, e8) = finished_spec(w7, EnrollKind::Gesture);
            let (w9, e9) = advance_spec(w8);
            &&& w0.step == WizardStep::Name
            &&& e1 == WizardEvent::BeginFace && w1.step == WizardStep::Face
            &&& e2 == WizardEvent::BeginVoice && w2.step == WizardStep::Voice && w2.face_ok
            &&& e3 == WizardEvent::BeginHands(GestureClass::Fist) && w3.voice_ok
            &&& e4 == WizardEvent::BeginHands(GestureClass::Palm)
            &&& e5 == WizardEvent::BeginHands(GestureClass::ThumbsUp)
            &&& e6 == WizardEvent::BeginHands(GestureClass::Point)
            &&& e7 == WizardEvent::BeginHands(GestureClass::Peace)
            &&& e8 == WizardEvent::Nothing && w8.step == WizardStep::Done && w8.hands_ok
            &&& w8.suggested == Some(GateMode::Any)
            &&& e9 == WizardEvent::SuggestGate(GateMode::Any) && w9 == closed_view()
        }),
{
}

/// Skipping every modality still reaches Done, with no gate to propose;
/// completing then just closes.
pub proof fn law_skip_everything(name: Seq<char>, first_run: bool)
    ensures
        ({
            let (w1, e1) = advance_spec(opened_view(name, first_run));
            let (w2, e2) = skip_spec(w1);
            let (w3, e3) = skip_spec(w2);
            let (w4, e4) = skip_spec(w3);
            let (w5, e5) = complete_spec(w4);
            &&& e2 == WizardEvent::BeginVoice
            &&& e3 == WizardEvent::BeginHands(GestureClass::Fist)
            &&& w4.step == WizardStep::Done && w4.suggested is None
            &&& e5 == WizardEvent::Completed && w5 == closed_view()
        }),
{
}

/// Cancel closes any open wizard and is a no-op on a closed one.
pub proof fn law_cancel_closes(w: WizardView)
    ensures
        wiz_is_open(w) ==> cancel_spec(w) == (closed_view(), WizardEvent::Cancelled),
        !wiz_is_open(w) ==> cancel_spec(w) == (w, WizardEvent::Nothing),
{
}

/// Finishing proposes FACE or ANY, never another mode: FACE after a face
/// alone, ANY once a voice was saved; with nothing enrolled it proposes
/// nothing. It always closes the wizard.
pub proof fn law_finish_suggests_enrolled_gate(w: WizardView)
    requires
        w.step == WizardStep::Done,
        w.suggested == suggestion(w.face_ok, w.voice_ok),
    ensures
        complete_spec(w).0 == closed_view(),
        w.face_ok && w.voice_ok ==> complete_spec(w).1 == WizardEvent::SuggestGate(GateMode::Any),
        w.face_ok && !w.voice_ok ==> complete_spec(w).1 == WizardEvent::SuggestGate(GateMode::Face),
        !w.face_ok && w.voice_ok ==> complete_spec(w).1 == WizardEvent::SuggestGate(GateMode::Any),
        complete_spec(w).1 matches WizardEvent::SuggestGate(g) ==> g == GateMode::Face || g == GateMode::Any,
        !w.face_ok && !w.voice_ok ==> complete_spec(w).1 == WizardEvent::Completed,
{
}

/// A machine finishing for another modality than the current step changes nothing;
/// advance and complete do nothing on the capture steps.
pub proof fn law_out_of_step_is_noop(w: WizardView, kind: EnrollKind)
    ensures
        !((w.step == WizardStep::Face && kind == EnrollKind::Face) || (w.step == WizardStep::Voice
            && kind == EnrollKind::Voice) || (w.step is Hands && kind == EnrollKind::Gesture))
            ==> finished_spec(w, kind) == (w, WizardEvent::Nothing),
        (w.step == WizardStep::Face || w.step == WizardStep::Voice || w.step is Hands)
            ==> advance_spec(w) == (w, WizardEvent::Nothing) && complete_spec(w) == (
            w,
            WizardEvent::Nothing,
        ),
        (w.step == WizardStep::Closed || w.step == WizardStep::Name || w.step == WizardStep::Done)
            ==> skip_spec(w) == (w, WizardEvent::Nothing),
{
}

} // verus!
