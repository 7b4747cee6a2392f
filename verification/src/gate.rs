//! Who may drive listen / sensitive actions: gate policy and the live
//! face / voice authentication session.

use vstd::prelude::*;
use crate::text::{norm, normalized, eq_str};

verus! {

/// Identity policy for starting Listening.
#[derive(Clone, Copy, Debug, PartialEq, Eq, Structural)]
pub enum GateMode {
    /// Anyone can listen (default so a fresh install still works).
    Off,
    Face,
    Voice,
    /// Face or voice (whichever matches first).
    Any,
    /// Face and voice must agree on the same person.
    All,
}

impl Default for GateMode {
    /// OFF, so that a fresh install still listens to anyone.
    fn default() -> (g: GateMode)
        ensures
            g == GateMode::Off,
    {
        GateMode::Off
    }
}

pub open spec fn gate_str(g: GateMode) -> Seq<char> {
    match g {
        GateMode::Off => "off"@,
        GateMode::Face => "face"@,
        GateMode::Voice => "voice"@,
        GateMode::Any => "any"@,
        GateMode::All => "all"@,
    }
}

pub open spec fn gate_label(g: GateMode) -> Seq<char> {
    match g {
        GateMode::Off => "OFF"@,
        GateMode::Face => "FACE"@,
        GateMode::Voice => "VOICE"@,
        GateMode::Any => "ANY"@,
        GateMode::All => "ALL"@,
    }
}

/// Keyword table of `GateMode::parse` on normalized (trimmed, lowercased) text.
pub open spec fn gate_of_word(w: Seq<char>) -> GateMode {
    if w == "face"@ {
        GateMode::Face
    } else if w == "voice"@ {
        GateMode::Voice
    } else if w == "any"@ {
        GateMode::Any
    } else if w == "all"@ || w == "both"@ {
        GateMode::All
    } else {
        GateMode::Off
    }
}

pub open spec fn gate_next(g: GateMode) -> GateMode {
    match g {
        GateMode::Off => GateMode::Face,
        GateMode::Face => GateMode::Voice,
        GateMode::Voice => GateMode::Any,
        GateMode::Any => GateMode::All,
        GateMode::All => GateMode::Off,
    }
}

impl GateMode {
    pub fn as_str(self) -> (s: &'static str)
        ensures
            s@ == gate_str(self),
    {
        match self {
            GateMode::Off => "off",
            GateMode::Face => "face",
            GateMode::Voice => "voice",
            GateMode::Any => "any",
            GateMode::All => "all",
        }
    }

    /// Case- and whitespace-insensitive; anything unknown is `Off`.
    pub fn parse(s: &str) -> (g: GateMode)
        ensures
            g == gate_of_word(norm(s@)),
    {
        let w = normalized(s);
        if eq_str(&w, "face") {
            GateMode::Face
        } else if eq_str(&w, "voice") {
            GateMode::Voice
        } else if eq_str(&w, "any") {
            GateMode::Any
        } else if eq_str(&w, "all") || eq_str(&w, "both") {
            GateMode::All
        } else {
            GateMode::Off
        }
    }

    /// OFF → FACE → VOICE → ANY → ALL → OFF.
    pub fn next(self) -> (g: GateMode)
        ensures
            g == gate_next(self),
    {
        match self {
            GateMode::Off => GateMode::Face,
            GateMode::Face => GateMode::Voice,
            GateMode::Voice => GateMode::Any,
            GateMode::Any => GateMode::All,
            GateMode::All => GateMode::Off,
        }
    }

    pub fn label(self) -> (s: &'static str)
        ensures
            s@ == gate_label(self),
    {
        match self {
            GateMode::Off => "OFF",
            GateMode::Face => "FACE",
            GateMode::Voice => "VOICE",
            GateMode::Any => "ANY",
            GateMode::All => "ALL",
        }
    }
}

} // verus!

verus! {

/// Which modality produced the current match.
#[derive(Clone, Copy, Debug, PartialEq, Eq, Structural)]
pub enum AuthVia {
    NoMatch,
    Face,
    Voice,
    Both,
}

impl Default for AuthVia {
    /// No modality has matched.
    fn default() -> (v: AuthVia)
        ensures
            v == AuthVia::NoMatch,
    {
        AuthVia::NoMatch
    }
}

/// Text view of an optional owned string.
pub open spec fn opt_view(o: Option<String>) -> Option<Seq<char>> {
    match o {
        Some(s) => Some(s@),
        None => None,
    }
}

/// `Option<String>::unwrap_or_default`, as text.
pub open spec fn or_empty(o: Option<String>) -> Seq<char> {
    match o {
        Some(s) => s@,
        None => Seq::empty(),
    }
}

/// Abstract value of an [`AuthState`].
pub struct AuthStateView {
    pub person_id: Option<Seq<char>>,
    pub name: Option<Seq<char>>,
    pub via: AuthVia,
    pub until_ms: u64,
}

/// Who is currently authenticated, and until when.
#[derive(Clone, Debug)]
pub struct AuthState {
    pub person_id: Option<String>,
    pub name: Option<String>,
    pub via: AuthVia,
    pub until_ms: u64,
}

impl View for AuthState {
    type V = AuthStateView;

    open spec fn view(&self) -> AuthStateView {
        AuthStateView {
            person_id: opt_view(self.person_id),
            name: opt_view(self.name),
            via: self.via,
            until_ms: self.until_ms,
        }
    }
}

pub open spec fn unknown_view() -> AuthStateView {
    AuthStateView { person_id: None, name: None, via: AuthVia::NoMatch, until_ms: 0 }
}

pub open spec fn state_matched(st: AuthStateView, now_ms: u64) -> bool {
    st.person_id is Some && now_ms < st.until_ms
}

pub open spec fn state_label(st: AuthStateView, now_ms: u64) -> Seq<char> {
    if state_matched(st, now_ms) {
        match st.name {
            Some(n) => n,
            None => "?"@,
        }
    } else {
        "UNKNOWN"@
    }
}

impl Default for AuthState {
    /// Nobody matched, as [`AuthState::unknown`].
    fn default() -> (s: AuthState)
        ensures
            s@ == unknown_view(),
    {
        AuthState::unknown()
    }
}

impl AuthState {
    pub fn unknown() -> (s: AuthState)
        ensures
            s@ == unknown_view(),
    {
        AuthState { person_id: None, name: None, via: AuthVia::NoMatch, until_ms: 0 }
    }

    pub fn matched(id: &str, name: &str, via: AuthVia, until_ms: u64) -> (s: AuthState)
        ensures
            s@ == (AuthStateView {
                person_id: Some(id@),
                name: Some(name@),
                via: via,
                until_ms: until_ms,
            }),
    {
        AuthState {
            person_id: Some(id.to_owned()),
            name: Some(name.to_owned()),
            via,
            until_ms,
        }
    }

    pub fn is_matched(&self, now_ms: u64) -> (b: bool)
        ensures
            b == state_matched(self@, now_ms),
    {
        self.person_id.is_some() && now_ms < self.until_ms
    }

    /// Chip text: the matched name, or `UNKNOWN`.
    pub fn label(&self, now_ms: u64) -> (s: String)
        ensures
            s@ == state_label(self@, now_ms),
    {
        if self.is_matched(now_ms) {
            match &self.name {
                Some(n) => n.clone(),
                None => String::from_str("?"),
            }
        } else {
            String::from_str("UNKNOWN")
        }
    }
}

/// Live face / voice matches, each held for `hold_ms` after it was seen.
#[derive(Clone, Debug)]
pub struct AuthSession {
    pub state: AuthState,
    pub face_id: Option<String>,
    pub face_name: Option<String>,
    pub face_until: u64,
    pub voice_id: Option<String>,
    pub voice_name: Option<String>,
    pub voice_until: u64,
    pub hold_ms: u64,
}

impl Default for AuthSession {
    /// Nobody matched by either modality and no hold time.
    fn default() -> (s: AuthSession)
        ensures
            s.state@ == unknown_view(),
            s.face_id is None,
            s.face_name is None,
            s.voice_id is None,
            s.voice_name is None,
            s.face_until == 0,
            s.voice_until == 0,
            s.hold_ms == 0,
    {
        AuthSession {
            state: AuthState::unknown(),
            face_id: None,
            face_name: None,
            face_until: 0,
            voice_id: None,
            voice_name: None,
            voice_until: 0,
            hold_ms: 0,
        }
    }
}

impl AuthSession {
    pub open spec fn face_live(&self, now_ms: u64) -> bool {
        self.face_id is Some && now_ms < self.face_until
    }

    pub open spec fn voice_live(&self, now_ms: u64) -> bool {
        self.voice_id is Some && now_ms < self.voice_until
    }

    /// Both modalities live and naming the same person.
    pub open spec fn same_person_live(&self, now_ms: u64) -> bool {
        self.face_live(now_ms) && self.voice_live(now_ms) && opt_view(self.face_id)
            == opt_view(self.voice_id)
    }

    /// Whether gate mode `mode` lets the user talk at `now_ms`.
    pub open spec fn allows(&self, mode: GateMode, now_ms: u64) -> bool {
        match mode {
            GateMode::Off => true,
            GateMode::Face => self.face_live(now_ms),
            GateMode::Voice => self.voice_live(now_ms),
            GateMode::Any => self.face_live(now_ms) || self.voice_live(now_ms),
            GateMode::All => self.same_person_live(now_ms),
        }
    }

    pub open spec fn allows_gesture_spec(&self, mode: GateMode, need_face: bool, now_ms: u64) -> bool {
        if need_face {
            self.face_live(now_ms)
        } else {
            self.allows(mode, now_ms)
        }
    }

    /// The auth state derived from the live matches at `now_ms`.
    pub open spec fn derived_state(&self, now_ms: u64) -> AuthStateView {
        if self.same_person_live(now_ms) {
            AuthStateView {
                person_id: opt_view(self.face_id),
                name: Some(or_empty(self.face_name)),
                via: AuthVia::Both,
                until_ms: if self.face_until >= self.voice_until {
                    self.face_until
                } else {
                    self.voice_until
                },
            }
        } else if self.face_live(now_ms) {
            AuthStateView {
                person_id: opt_view(self.face_id),
                name: Some(or_empty(self.face_name)),
                via: AuthVia::Face,
                until_ms: self.face_until,
            }
        } else if self.voice_live(now_ms) {
            AuthStateView {
                person_id: opt_view(self.voice_id),
                name: Some(or_empty(self.voice_name)),
                via: AuthVia::Voice,
                until_ms: self.voice_until,
            }
        } else {
            unknown_view()
        }
    }

    pub fn new(hold_ms: u64) -> (s: AuthSession)
        ensures
            s.state@ == unknown_view(),
            s.face_id is None,
            s.face_name is None,
            s.voice_id is None,
            s.voice_name is None,
            s.face_until == 0,
            s.voice_until == 0,
            s.hold_ms == (if hold_ms >= 500 { hold_ms } else { 500 }),
    {
        AuthSession {
            state: AuthState::unknown(),
            face_id: None,
            face_name: None,
            face_until: 0,
            voice_id: None,
            voice_name: None,
            voice_until: 0,
            hold_ms: if hold_ms >= 500 { hold_ms } else { 500 },
        }
    }

    fn recompute(&mut self, now_ms: u64)
        ensures
            final(self).state@ == old(self).derived_state(now_ms),
            final(self).face_id == old(self).face_id,
            final(self).face_name == old(self).face_name,
            final(self).face_until == old(self).face_until,
            final(self).voice_id == old(self).voice_id,
            final(self).voice_name == old(self).voice_name,
            final(self).voice_until == old(self).voice_until,
            final(self).hold_ms == old(self).hold_ms,
    {
        let face_live = self.face_id.is_some() && now_ms < self.face_until;
        let voice_live = self.voice_id.is_some() && now_ms < self.voice_until;
        let same = face_live && voice_live && match (&self.face_id, &self.voice_id) {
            (Some(f), Some(v)) => f.eq(v),
            _ => false,
        };
        let fname = match &self.face_name {
            Some(n) => n.clone(),
            None => String::new(),
        };
        let vname = match &self.voice_name {
            Some(n) => n.clone(),
            None => String::new(),
        };
        if same {
            let until = if self.face_until >= self.voice_until {
                self.face_until
            } else {
                self.voice_until
            };
            self.state = AuthState {
                person_id: self.face_id.clone(),
                name: Some(fname),
                via: AuthVia::Both,
                until_ms: until,
            };
        } else if face_live {
            self.state = AuthState {
                person_id: self.face_id.clone(),
                name: Some(fname),
                via: AuthVia::Face,
                until_ms: self.face_until,
            };
        } else if voice_live {
            self.state = AuthState {
                person_id: self.voice_id.clone(),
                name: Some(vname),
                via: AuthVia::Voice,
                until_ms: self.voice_until,
            };
        } else {
            self.state = AuthState::unknown();
        }
    }

    /// A live face match for `id` / `name`, held until `now_ms + hold_ms`.
    pub fn note_face(&mut self, id: &str, name: &str, now_ms: u64)
        requires
            now_ms + old(self).hold_ms <= u64::MAX,
        ensures
            opt_view(final(self).face_id) == Some(id@),
            opt_view(final(self).face_name) == Some(name@),
            final(self).face_until == now_ms + old(self).hold_ms,
            final(self).voice_id == old(self).voice_id,
            final(self).voice_name == old(self).voice_name,
            final(self).voice_until == old(self).voice_until,
            final(self).hold_ms == old(self).hold_ms,
            final(self).state@ == final(self).derived_state(now_ms),
            forall|t: u64|
                now_ms <= t < now_ms + old(self).hold_ms ==> #[trigger] final(self).allows(
                    GateMode::Face,
                    t,
                ),
    {
        self.face_id = Some(id.to_owned());
        self.face_name = Some(name.to_owned());
        self.face_until = now_ms + self.hold_ms;
        self.recompute(now_ms);
    }

    /// A live voice match for `id` / `name`, held until `now_ms + hold_ms`.
    pub fn note_voice(&mut self, id: &str, name: &str, now_ms: u64)
        requires
            now_ms + old(self).hold_ms <= u64::MAX,
        ensures
            opt_view(final(self).voice_id) == Some(id@),
            opt_view(final(self).voice_name) == Some(name@),
            final(self).voice_until == now_ms + old(self).hold_ms,
            final(self).face_id == old(self).face_id,
            final(self).face_name == old(self).face_name,
            final(self).face_until == old(self).face_until,
            final(self).hold_ms == old(self).hold_ms,
            final(self).state@ == final(self).derived_state(now_ms),
            forall|t: u64|
                now_ms <= t < now_ms + old(self).hold_ms ==> #[trigger] final(self).allows(
                    GateMode::Voice,
                    t,
                ),
    {
        self.voice_id = Some(id.to_owned());
        self.voice_name = Some(name.to_owned());
        self.voice_until = now_ms + self.hold_ms;
        self.recompute(now_ms);
    }

    /// Drop matches whose hold has run out, then recompute the state.
    pub fn expire(&mut self, now_ms: u64)
        ensures
            final(self).face_id == (if old(self).face_id is Some && now_ms >= old(self).face_until {
                None
            } else {
                old(self).face_id
            }),
            final(self).face_name == (if old(self).face_id is Some && now_ms
                >= old(self).face_until {
                None
            } else {
                old(self).face_name
            }),
            final(self).voice_id == (if old(self).voice_id is Some && now_ms
                >= old(self).voice_until {
                None
            } else {
                old(self).voice_id
            }),
            final(self).voice_name == (if old(self).voice_id is Some && now_ms
                >= old(self).voice_until {
                None
            } else {
                old(self).voice_name
            }),
            final(self).face_until == old(self).face_until,
            final(self).voice_until == old(self).voice_until,
            final(self).hold_ms == old(self).hold_ms,
            final(self).state@ == final(self).derived_state(now_ms),
            forall|m: GateMode| #[trigger] final(self).allows(m, now_ms) == old(self).allows(m, now_ms),
    {
        if self.face_id.is_some() && now_ms >= self.face_until {
            self.face_id = None;
            self.face_name = None;
        }
        if self.voice_id.is_some() && now_ms >= self.voice_until {
            self.voice_id = None;
            self.voice_name = None;
        }
        self.recompute(now_ms);
    }

    /// Fail closed: unknown never drives listen when a gate is on.
    pub fn allows_listen(&self, mode: GateMode, now_ms: u64) -> (b: bool)
        ensures
            b == self.allows(mode, now_ms),
    {
        let face = self.face_id.is_some() && now_ms < self.face_until;
        let voice = self.voice_id.is_some() && now_ms < self.voice_until;
        match mode {
            GateMode::Off => true,
            GateMode::Face => face,
            GateMode::Voice => voice,
            GateMode::Any => face || voice,
            GateMode::All => face && voice && match (&self.face_id, &self.voice_id) {
                (Some(f), Some(v)) => f.eq(v),
                _ => false,
            },
        }
    }

    /// Gestures: a live face when `need_face`, else the listen gate.
    pub fn allows_gesture(&self, mode: GateMode, need_face: bool, now_ms: u64) -> (b: bool)
        ensures
            b == self.allows_gesture_spec(mode, need_face, now_ms),
    {
        if need_face {
            return self.face_id.is_some() && now_ms < self.face_until;
        }
        self.allows_listen(mode, now_ms)
    }
}

/// With no live face and no live voice, every gate other than OFF refuses.
pub proof fn law_gate_fails_closed(s: AuthSession, mode: GateMode, now_ms: u64)
    requires
        mode != GateMode::Off,
        !s.face_live(now_ms),
        !s.voice_live(now_ms),
    ensures
        !s.allows(mode, now_ms),
        s.derived_state(now_ms) == unknown_view(),
{
}

/// OFF admits everyone.
pub proof fn law_gate_off_admits(s: AuthSession, now_ms: u64)
    ensures
        s.allows(GateMode::Off, now_ms),
{
}

/// ALL is the strictest gate: it implies FACE, VOICE and ANY; FACE or VOICE implies ANY.
pub proof fn law_gate_strength(s: AuthSession, now_ms: u64)
    ensures
        s.allows(GateMode::All, now_ms) ==> s.allows(GateMode::Face, now_ms) && s.allows(
            GateMode::Voice,
            now_ms,
        ),
        s.allows(GateMode::Face, now_ms) ==> s.allows(GateMode::Any, now_ms),
        s.allows(GateMode::Voice, now_ms) ==> s.allows(GateMode::Any, now_ms),
{
}

/// The chip names someone exactly when a face or voice match is live.
pub proof fn law_state_names_someone_iff_live(s: AuthSession, now_ms: u64)
    ensures
        state_matched(s.derived_state(now_ms), now_ms) <==> (s.face_live(now_ms) || s.voice_live(
            now_ms,
        )),
        state_label(s.derived_state(now_ms), now_ms) == "UNKNOWN"@ <== !(s.face_live(now_ms)
            || s.voice_live(now_ms)),
{
}

/// With the face requirement on, a gesture needs a live face whatever gate mode is set.
pub proof fn law_gesture_needs_face(s: AuthSession, mode: GateMode, now_ms: u64)
    ensures
        s.allows_gesture_spec(mode, true, now_ms) == s.face_live(now_ms),
        s.allows_gesture_spec(mode, false, now_ms) == s.allows(mode, now_ms),
{
}

} // verus!
