//! Overlay UX: VisibleIdle / Listening / Hidden, plus tap-vs-drag.
//!
//! Pointer distances are measured by the caller (they are float geometry);
//! this machine takes the result of that measurement as a flag.

use vstd::prelude::*;

verus! {

pub const TAP_MAX_MS: u32 = 250;
pub const LISTEN_MIN_MS: u32 = 5_000;
pub const LISTEN_MAX_MS: u32 = 15_000;

pub const UX_VISIBLE: u8 = 0;
pub const UX_LISTENING: u8 = 1;
pub const UX_HIDDEN: u8 = 2;

#[derive(Clone, Copy, Debug, PartialEq, Eq, Structural)]
pub enum Phase {
    VisibleIdle,
    Listening,
    Hidden,
}

pub open spec fn phase_code(p: Phase) -> u8 {
    match p {
        Phase::VisibleIdle => UX_VISIBLE,
        Phase::Listening => UX_LISTENING,
        Phase::Hidden => UX_HIDDEN,
    }
}

impl Phase {
    pub fn as_u8(self) -> (b: u8)
        ensures
            b == phase_code(self),
    {
        match self {
            Phase::VisibleIdle => UX_VISIBLE,
            Phase::Listening => UX_LISTENING,
            Phase::Hidden => UX_HIDDEN,
        }
    }
}

#[derive(Clone, Copy, Debug, PartialEq, Eq, Structural)]
pub enum UxEvent {
    Nothing,
    StartListen,
    Hide,
    Wake,
    BeginDrag,
    EndDrag,
}

/// Listen window chosen from a seed: `LISTEN_MIN_MS + seed mod (span + 1)`.
pub open spec fn listen_duration_spec(seed: u64) -> int {
    LISTEN_MIN_MS + (seed as int) % ((LISTEN_MAX_MS - LISTEN_MIN_MS) as int + 1)
}

/// Deterministic 5–15 s listen window from a seed (clock or env override).
pub fn listen_duration_ms(seed: u64) -> (d: u32)
    ensures
        d == listen_duration_spec(seed),
        LISTEN_MIN_MS <= d <= LISTEN_MAX_MS,
{
    let span: u64 = (LISTEN_MAX_MS - LISTEN_MIN_MS) as u64;
    LISTEN_MIN_MS + (seed % (span + 1)) as u32
}

/// A press+release is a tap when it moved less than the tap radius
/// (`within_move`, measured by the caller) and lasted under 250 ms.
pub fn is_tap(within_move: bool, dt_ms: u64) -> (b: bool)
    ensures
        b == (within_move && dt_ms < TAP_MAX_MS),
{
    within_move && dt_ms < TAP_MAX_MS as u64
}

/// Overlay phase machine. `press_ms` is the time of an outstanding press on the buddy.
#[derive(Clone, Copy, Debug)]
pub struct BuddyUx {
    pub phase: Phase,
    pub listen_until_ms: u64,
    pub press_ms: Option<u64>,
    pub dragging: bool,
}

pub open spec fn ux_idle() -> BuddyUx {
    BuddyUx { phase: Phase::VisibleIdle, listen_until_ms: 0, press_ms: None, dragging: false }
}

impl Default for BuddyUx {
    /// Visible and idle, as [`BuddyUx::new`].
    fn default() -> (s: BuddyUx)
        ensures
            s == ux_idle(),
    {
        BuddyUx::new()
    }
}

/// Effective listen length: at least 1 ms.
pub open spec fn at_least_one(d: u64) -> u64 {
    if d >= 1 { d } else { 1 }
}

pub open spec fn ux_listen_for(s: BuddyUx, now_ms: u64, duration_ms: u64) -> BuddyUx {
    BuddyUx {
        phase: Phase::Listening,
        listen_until_ms: (now_ms + at_least_one(duration_ms)) as u64,
        press_ms: None,
        dragging: false,
    }
}

pub open spec fn ux_button_down(s: BuddyUx, t_ms: u64, over_hit: bool) -> BuddyUx {
    if s.phase != Phase::VisibleIdle || !over_hit {
        s
    } else {
        BuddyUx { press_ms: Some(t_ms), dragging: false, ..s }
    }
}

pub open spec fn ux_pointer_move(s: BuddyUx, moved_past_tap: bool) -> (BuddyUx, UxEvent) {
    if s.phase == Phase::VisibleIdle && s.press_ms is Some && !s.dragging && moved_past_tap {
        (BuddyUx { dragging: true, ..s }, UxEvent::BeginDrag)
    } else {
        (s, UxEvent::Nothing)
    }
}

pub open spec fn ux_button_up(s: BuddyUx, within_move: bool, t_ms: u64, seed: u64) -> (
    BuddyUx,
    UxEvent,
) {
    if s.phase != Phase::VisibleIdle {
        (BuddyUx { press_ms: None, dragging: false, ..s }, UxEvent::Nothing)
    } else {
        let cleared = BuddyUx { press_ms: None, dragging: false, ..s };
        match s.press_ms {
            Some(p) => {
                if s.dragging {
                    (cleared, UxEvent::EndDrag)
                } else if within_move && (if t_ms >= p { t_ms - p } else { 0 }) < TAP_MAX_MS {
                    (
                        ux_listen_for(cleared, t_ms, listen_duration_spec(seed) as u64),
                        UxEvent::StartListen,
                    )
                } else {
                    (cleared, UxEvent::Nothing)
                }
            },
            None => (cleared, UxEvent::Nothing),
        }
    }
}

pub open spec fn ux_tick(s: BuddyUx, now_ms: u64) -> (BuddyUx, UxEvent) {
    if s.phase == Phase::Listening && now_ms >= s.listen_until_ms {
        (BuddyUx { phase: Phase::Hidden, ..s }, UxEvent::Hide)
    } else {
        (s, UxEvent::Nothing)
    }
}

pub open spec fn ux_wake(s: BuddyUx) -> (BuddyUx, UxEvent) {
    if s.phase == Phase::Hidden {
        (BuddyUx { phase: Phase::VisibleIdle, press_ms: None, dragging: false, ..s }, UxEvent::Wake)
    } else {
        (s, UxEvent::Nothing)
    }
}

impl BuddyUx {
    pub fn new() -> (s: BuddyUx)
        ensures
            s == ux_idle(),
    {
        BuddyUx { phase: Phase::VisibleIdle, listen_until_ms: 0, press_ms: None, dragging: false }
    }

    /// Remember a press that landed on the buddy while visible.
    pub fn button_down(&mut self, t_ms: u64, over_hit: bool) -> (ev: UxEvent)
        ensures
            *final(self) == ux_button_down(*old(self), t_ms, over_hit),
            ev == UxEvent::Nothing,
    {
        if self.phase != Phase::VisibleIdle || !over_hit {
            return UxEvent::Nothing;
        }
        self.press_ms = Some(t_ms);
        self.dragging = false;
        UxEvent::Nothing
    }

    /// `moved_past_tap`: the pointer is now at least the tap radius from the press.
    pub fn pointer_move(&mut self, moved_past_tap: bool) -> (ev: UxEvent)
        ensures
            (*final(self), ev) == ux_pointer_move(*old(self), moved_past_tap),
    {
        if self.phase != Phase::VisibleIdle {
            return UxEvent::Nothing;
        }
        if self.press_ms.is_some() && !self.dragging && moved_past_tap {
            self.dragging = true;
            return UxEvent::BeginDrag;
        }
        UxEvent::Nothing
    }

    /// `within_move`: release point within the tap radius of the press.
    pub fn button_up(&mut self, within_move: bool, t_ms: u64, listen_seed: u64) -> (ev: UxEvent)
        requires
            t_ms + LISTEN_MAX_MS <= u64::MAX,
        ensures
            (*final(self), ev) == ux_button_up(*old(self), within_move, t_ms, listen_seed),
    {
        if self.phase != Phase::VisibleIdle {
            self.press_ms = None;
            self.dragging = false;
            return UxEvent::Nothing;
        }
        let some = self.press_ms;
        let was_drag = self.dragging;
        self.press_ms = None;
        self.dragging = false;
        match some {
            Some(p) => {
                if was_drag {
                    return UxEvent::EndDrag;
                }
                if is_tap(within_move, t_ms.saturating_sub(p)) {
                    self.enter_listen(t_ms, listen_seed);
                    return UxEvent::StartListen;
                }
                UxEvent::Nothing
            },
            None => UxEvent::Nothing,
        }
    }

    /// Listen for the seeded 5–15 s window.
    pub fn enter_listen(&mut self, now_ms: u64, seed: u64)
        requires
            now_ms + LISTEN_MAX_MS <= u64::MAX,
        ensures
            *final(self) == ux_listen_for(*old(self), now_ms, listen_duration_spec(seed) as u64),
    {
        let d = listen_duration_ms(seed);
        self.enter_listen_for(now_ms, d as u64);
    }

    /// Listen until `now_ms + max(duration_ms, 1)`.
    pub fn enter_listen_for(&mut self, now_ms: u64, duration_ms: u64)
        requires
            now_ms + at_least_one(duration_ms) <= u64::MAX,
        ensures
            *final(self) == ux_listen_for(*old(self), now_ms, duration_ms),
    {
        let d = if duration_ms >= 1 { duration_ms } else { 1 };
        self.phase = Phase::Listening;
        self.listen_until_ms = now_ms + d;
        self.press_ms = None;
        self.dragging = false;
    }

    /// While listening, hide once `now_ms` reaches the deadline.
    pub fn tick(&mut self, now_ms: u64) -> (ev: UxEvent)
        ensures
            (*final(self), ev) == ux_tick(*old(self), now_ms),
    {
        if self.phase == Phase::Listening && now_ms >= self.listen_until_ms {
            self.phase = Phase::Hidden;
            return UxEvent::Hide;
        }
        UxEvent::Nothing
    }

    /// Hidden → visible on any mouse movement or key (caller detects the input).
    pub fn wake(&mut self) -> (ev: UxEvent)
        ensures
            (*final(self), ev) == ux_wake(*old(self)),
    {
        if self.phase == Phase::Hidden {
            self.phase = Phase::VisibleIdle;
            self.press_ms = None;
            self.dragging = false;
            return UxEvent::Wake;
        }
        UxEvent::Nothing
    }
}

/// Listening lasts exactly its window: before the deadline `tick` keeps
/// listening, at or after it `tick` hides; `wake` then shows the buddy again.
pub proof fn law_listen_hide_wake(s: BuddyUx, now_ms: u64, duration_ms: u64, t: u64)
    requires
        now_ms + at_least_one(duration_ms) <= u64::MAX,
    ensures
        ({
            let l = ux_listen_for(s, now_ms, duration_ms);
            &&& t < now_ms + at_least_one(duration_ms) ==> ux_tick(l, t) == (l, UxEvent::Nothing)
            &&& t >= now_ms + at_least_one(duration_ms) ==> ux_tick(l, t).0.phase == Phase::Hidden
                && ux_tick(l, t).1 == UxEvent::Hide
            &&& t >= now_ms + at_least_one(duration_ms) ==> ux_wake(ux_tick(l, t).0).0.phase
                == Phase::VisibleIdle && ux_wake(ux_tick(l, t).0).1 == UxEvent::Wake
        }),
{
}

/// The phase only moves along VisibleIdle → Listening → Hidden → VisibleIdle:
/// `tick` only leaves Listening, `wake` only leaves Hidden, a release only
/// leaves VisibleIdle, and a drag never starts listening.
pub proof fn law_phase_arrows(s: BuddyUx, now_ms: u64, within: bool, t: u64, seed: u64, moved: bool)
    ensures
        ux_tick(s, now_ms).0.phase != s.phase ==> s.phase == Phase::Listening && ux_tick(
            s,
            now_ms,
        ).0.phase == Phase::Hidden,
        ux_wake(s).0.phase != s.phase ==> s.phase == Phase::Hidden && ux_wake(s).0.phase
            == Phase::VisibleIdle,
        ux_button_up(s, within, t, seed).0.phase != s.phase ==> s.phase == Phase::VisibleIdle
            && ux_button_up(s, within, t, seed).0.phase == Phase::Listening,
        s.dragging ==> ux_button_up(s, within, t, seed).1 != UxEvent::StartListen,
        ux_pointer_move(s, moved).0.phase == s.phase,
        ux_button_down(s, t, within).phase == s.phase,
{
}

/// A press followed by a quick release in place starts listening.
pub proof fn law_click_in_place_listens(s: BuddyUx, t0: u64, t1: u64, seed: u64)
    requires
        s.phase == Phase::VisibleIdle,
        t0 <= t1 < t0 + TAP_MAX_MS,
    ensures
        ux_button_up(ux_button_down(s, t0, true), true, t1, seed).1 == UxEvent::StartListen,
        ux_button_up(ux_button_down(s, t0, true), true, t1, seed).0.phase == Phase::Listening,
{
}

} // verus!
