//! Gaze calibration: the dot prompts and the dwell-and-sample session that
//! walks the dots. The features sampled at a dot (`S`) and the observation
//! made of them (`O`) are carried as opaque values.

use vstd::prelude::*;

verus! {

pub open spec fn five_hints() -> Seq<Seq<char>> {
    seq!["LOOK CENTER"@, "LOOK TL"@, "LOOK TR"@, "LOOK BR"@, "LOOK BL"@]
}

pub open spec fn nine_hints() -> Seq<Seq<char>> {
    seq!["LOOK 1"@, "LOOK 2"@, "LOOK 3"@, "LOOK 4"@, "LOOK 5"@, "LOOK 6"@, "LOOK 7"@, "LOOK 8"@, "LOOK 9"@]
}

/// Prompt for dot `i` of an `n`-point calibration: numbered for the 3×3 grid,
/// named (centre, then the corners clockwise from top-left) otherwise.
pub open spec fn look_hint_spec(i: int, n: int) -> Seq<char> {
    if n == 9 {
        if 0 <= i < 9 { nine_hints()[i] } else { "LOOK"@ }
    } else {
        if 0 <= i < 5 { five_hints()[i] } else { "LOOK"@ }
    }
}

pub fn look_hint(i: usize, n: usize) -> (s: &'static str)
    ensures
        s@ == look_hint_spec(i as int, n as int),
{
    if n == 9 {
        match i {
            0 => "LOOK 1",
            1 => "LOOK 2",
            2 => "LOOK 3",
            3 => "LOOK 4",
            4 => "LOOK 5",
            5 => "LOOK 6",
            6 => "LOOK 7",
            7 => "LOOK 8",
            8 => "LOOK 9",
            _ => "LOOK",
        }
    } else {
        match i {
            0 => "LOOK CENTER",
            1 => "LOOK TL",
            2 => "LOOK TR",
            3 => "LOOK BR",
            4 => "LOOK BL",
            _ => "LOOK",
        }
    }
}

/// How long the user gets to find a dot before sampling starts.
pub const ACQUIRE_MS: u64 = 1_000;
/// How long a dot is sampled.
pub const SAMPLE_MS: u64 = 800;
/// Samples with both irises a dot needs to count.
pub const NEED_SNAPS: usize = 8;

/// `BUCKYBOI_GAZE_CALIB_POINTS`: a 3×3 grid when it says `9`, else five dots.
pub fn calib_points_of(v: Option<&str>) -> (n: usize)
    ensures
        n == match v {
            Some(s) => if crate::text::trim(s@) == "9"@ { 9usize } else { 5usize },
            None => 5usize,
        },
{
    match v {
        Some(s) => {
            let t = crate::text::trimmed(s);
            if crate::text::eq_str(&t, "9") { 9 } else { 5 }
        },
        None => 5,
    }
}

#[derive(Clone, Copy, Debug, PartialEq, Eq, Structural)]
pub enum CalibPhase {
    Acquire,
    Sample,
}

#[derive(Clone, Debug)]
pub enum CalibEvent<O> {
    Nothing,
    Finished(Vec<O>),
    Failed,
}

pub enum EventView<O> {
    Nothing,
    Finished(Seq<O>),
    Failed,
}

impl<O> View for CalibEvent<O> {
    type V = EventView<O>;

    open spec fn view(&self) -> EventView<O> {
        match self {
            CalibEvent::Nothing => EventView::Nothing,
            CalibEvent::Finished(v) => EventView::Finished(v@),
            CalibEvent::Failed => EventView::Failed,
        }
    }
}

/// A calibration run: which dot is shown, whether it is still being found
/// (`Acquire`) or sampled (`Sample`), the samples of the current dot and the
/// observations of the dots done so far. `progress` is a fraction
/// `(done, span)` of the current window.
pub struct GazeCalibSession<S, O> {
    pub open: bool,
    pub n_dots: usize,
    pub idx: usize,
    pub retried: bool,
    pub phase: CalibPhase,
    pub started_ms: u64,
    pub snaps: Vec<S>,
    pub collected: Vec<O>,
    pub hint: &'static str,
    pub progress: (u64, u64),
}

#[verifier::ext_equal]
pub struct CalibView<S, O> {
    pub open: bool,
    pub n_dots: int,
    pub idx: int,
    pub retried: bool,
    pub phase: CalibPhase,
    pub started_ms: int,
    pub snaps: Seq<S>,
    pub collected: Seq<O>,
    pub hint: Seq<char>,
    pub progress: (int, int),
}

impl<S, O> View for GazeCalibSession<S, O> {
    type V = CalibView<S, O>;

    open spec fn view(&self) -> CalibView<S, O> {
        CalibView {
            open: self.open,
            n_dots: self.n_dots as int,
            idx: self.idx as int,
            retried: self.retried,
            phase: self.phase,
            started_ms: self.started_ms as int,
            snaps: self.snaps@,
            collected: self.collected@,
            hint: self.hint@,
            progress: (self.progress.0 as int, self.progress.1 as int),
        }
    }
}

pub open spec fn min_points_spec(n_dots: int) -> int {
    if n_dots == 9 { 6 } else { 4 }
}

/// Five or nine dots; an open run is on one of them; at most one observation
/// per dot passed; progress has a span.
pub open spec fn calib_wf<S, O>(v: CalibView<S, O>) -> bool {
    &&& v.n_dots == 5 || v.n_dots == 9
    &&& 0 <= v.idx <= v.n_dots
    &&& v.open ==> v.idx < v.n_dots
    &&& v.collected.len() <= v.idx
    &&& 0 <= v.progress.0 <= v.progress.1
    &&& v.progress.1 > 0
}

pub open spec fn closed_view<S, O>() -> CalibView<S, O> {
    CalibView {
        open: false,
        n_dots: 5,
        idx: 0,
        retried: false,
        phase: CalibPhase::Acquire,
        started_ms: 0,
        snaps: Seq::empty(),
        collected: Seq::empty(),
        hint: Seq::empty(),
        progress: (0, 1),
    }
}

/// Move to the next dot; past the last one the run closes and succeeds when
/// enough dots were observed (handing the observations over).
pub open spec fn advance_spec<S, O>(v: CalibView<S, O>, now: int) -> (CalibView<S, O>, EventView<O>) {
    let idx = v.idx + 1;
    if idx >= v.n_dots {
        let enough = v.collected.len() >= min_points_spec(v.n_dots);
        (
            CalibView {
                idx,
                retried: false,
                snaps: Seq::empty(),
                open: false,
                hint: if enough { "GAZE OK"@ } else { "RECALIBRATE"@ },
                progress: (1, 1),
                collected: if enough { Seq::empty() } else { v.collected },
                ..v
            },
            if enough { EventView::Finished(v.collected) } else { EventView::Failed },
        )
    } else {
        (
            CalibView {
                idx,
                retried: false,
                snaps: Seq::empty(),
                phase: CalibPhase::Acquire,
                started_ms: now,
                hint: look_hint_spec(idx, v.n_dots),
                progress: (0, 1),
                ..v
            },
            EventView::Nothing,
        )
    }
}

pub open spec fn elapsed_spec<S, O>(v: CalibView<S, O>, now: int) -> int {
    if now >= v.started_ms { now - v.started_ms } else { 0 }
}

/// The sampling step before its outcome: hint `HOLD`, progress through the
/// window, and the frame's features kept when both irises were seen.
pub open spec fn sampled<S, O>(v: CalibView<S, O>, now: int, feat: Option<(S, bool)>) -> CalibView<S, O> {
    let e = elapsed_spec(v, now);
    CalibView {
        hint: "HOLD"@,
        progress: (if e < SAMPLE_MS { e } else { SAMPLE_MS as int }, SAMPLE_MS as int),
        snaps: match feat {
            Some((f, irises)) => if irises { v.snaps.push(f) } else { v.snaps },
            None => v.snaps,
        },
        ..v
    }
}

/// Whether this tick ends a sampling window with enough samples, so the dot
/// gets an observation.
pub open spec fn dot_observed<S, O>(v: CalibView<S, O>, now: int, feat: Option<(S, bool)>) -> bool {
    v.open && v.phase == CalibPhase::Sample && elapsed_spec(v, now) >= SAMPLE_MS
        && sampled(v, now, feat).snaps.len() >= NEED_SNAPS
}

/// One frame of the run; `o` is the observation made of the dot's samples
/// when [`dot_observed`] holds. A window without enough samples is tried a
/// second time, then the dot is skipped.
pub open spec fn tick_spec<S, O>(v: CalibView<S, O>, now: int, feat: Option<(S, bool)>, o: O) -> (
    CalibView<S, O>,
    EventView<O>,
) {
    if !v.open {
        (v, EventView::Nothing)
    } else {
        let e = elapsed_spec(v, now);
        match v.phase {
            CalibPhase::Acquire => if e >= ACQUIRE_MS {
                (
                    CalibView {
                        phase: CalibPhase::Sample,
                        started_ms: now,
                        snaps: Seq::empty(),
                        hint: "HOLD"@,
                        progress: (0, 1),
                        ..v
                    },
                    EventView::Nothing,
                )
            } else {
                (
                    CalibView {
                        hint: look_hint_spec(v.idx, v.n_dots),
                        progress: (e, ACQUIRE_MS as int),
                        ..v
                    },
                    EventView::Nothing,
                )
            },
            CalibPhase::Sample => {
                let w = sampled(v, now, feat);
                if e < SAMPLE_MS {
                    (w, EventView::Nothing)
                } else if w.snaps.len() >= NEED_SNAPS {
                    advance_spec(CalibView { collected: v.collected.push(o), ..w }, now)
                } else if !v.retried {
                    (
                        CalibView {
                            retried: true,
                            phase: CalibPhase::Acquire,
                            started_ms: now,
                            snaps: Seq::empty(),
                            hint: look_hint_spec(v.idx, v.n_dots),
                            progress: (0, 1),
                            ..w
                        },
                        EventView::Nothing,
                    )
                } else {
                    advance_spec(w, now)
                }
            },
        }
    }
}

/// A frame never ends a run without closing it past the last dot, and a run
/// that succeeds hands over between the needed number of observations and
/// one per dot.
pub proof fn law_run_ends_past_last_dot<S, O>(v: CalibView<S, O>, now: int, feat: Option<(S, bool)>, o: O)
    requires
        calib_wf(v),
    ensures
        calib_wf(tick_spec(v, now, feat, o).0),
        tick_spec(v, now, feat, o).1 matches EventView::Finished(obs) ==> {
            &&& min_points_spec(v.n_dots) <= obs.len() <= v.n_dots
            &&& !tick_spec(v, now, feat, o).0.open
            &&& tick_spec(v, now, feat, o).0.idx == v.n_dots
        },
        tick_spec(v, now, feat, o).1 is Failed ==> !tick_spec(v, now, feat, o).0.open
            && tick_spec(v, now, feat, o).0.idx == v.n_dots,
        !v.open ==> tick_spec(v, now, feat, o) == (v, EventView::<O>::Nothing),
{
}

/// A dot is observed only from a full sampling window holding at least
/// `NEED_SNAPS` samples (each with both irises): otherwise no observation is
/// added, and a run that finishes hands over only such observations.
pub proof fn law_dot_needs_full_window<S, O>(v: CalibView<S, O>, now: int, feat: Option<(S, bool)>, o: O)
    requires
        calib_wf(v),
    ensures
        !dot_observed(v, now, feat) ==> tick_spec(v, now, feat, o).0.collected.len() <= v.collected.len(),
        dot_observed(v, now, feat) ==> sampled(v, now, feat).snaps.len() >= NEED_SNAPS
            && elapsed_spec(v, now) >= SAMPLE_MS,
{
}

/// Frames whose features lack an iris add no sample.
pub proof fn law_samples_need_both_irises<S, O>(v: CalibView<S, O>, now: int, f: S, o: O)
    requires
        calib_wf(v),
        v.open,
        v.phase == CalibPhase::Sample,
        elapsed_spec(v, now) < SAMPLE_MS,
    ensures
        tick_spec(v, now, Some((f, false)), o).0.snaps == v.snaps,
        tick_spec(v, now, None, o).0.snaps == v.snaps,
        tick_spec(v, now, Some((f, true)), o).0.snaps == v.snaps.push(f),
{
}

impl<S, O> Default for GazeCalibSession<S, O> {
    /// The closed session of [`GazeCalibSession::new`].
    fn default() -> (s: Self)
        ensures
            s@ == closed_view::<S, O>(),
            s.wf(),
    {
        GazeCalibSession::new()
    }
}

impl<S, O> GazeCalibSession<S, O> {
    pub closed spec fn wf(&self) -> bool {
        calib_wf(self@)
    }

    pub fn new() -> (s: Self)
        ensures
            s@ == closed_view::<S, O>(),
            s.wf(),
    {
        proof {
            reveal_strlit("");
        }
        GazeCalibSession {
            open: false,
            n_dots: 5,
            idx: 0,
            retried: false,
            phase: CalibPhase::Acquire,
            started_ms: 0,
            snaps: Vec::new(),
            collected: Vec::new(),
            hint: "",
            progress: (0, 1),
        }
    }

    /// Open a run of `points` dots (nine only when asked for nine) at the first dot.
    pub fn begin(&mut self, now_ms: u64, points: usize)
        ensures
            final(self)@ == (CalibView::<S, O> {
                open: true,
                n_dots: if points == 9 { 9 } else { 5 },
                idx: 0,
                retried: false,
                phase: CalibPhase::Acquire,
                started_ms: now_ms as int,
                snaps: Seq::empty(),
                collected: Seq::empty(),
                hint: look_hint_spec(0, if points == 9 { 9 } else { 5 }),
                progress: (0, 1),
            }),
            final(self).wf(),
    {
        self.open = true;
        self.n_dots = if points == 9 { 9 } else { 5 };
        self.idx = 0;
        self.retried = false;
        self.phase = CalibPhase::Acquire;
        self.started_ms = now_ms;
        self.snaps = Vec::new();
        self.collected = Vec::new();
        self.hint = look_hint(0, self.n_dots);
        self.progress = (0, 1);
    }

    pub fn cancel(&mut self)
        ensures
            final(self)@ == closed_view::<S, O>(),
            final(self).wf(),
    {
        *self = Self::new();
    }

    pub fn hint(&self) -> (h: &'static str)
        ensures
            h@ == self@.hint,
    {
        self.hint
    }

    pub fn n_dots(&self) -> (n: usize)
        ensures
            n == self.n_dots,
    {
        self.n_dots
    }

    pub fn current_idx(&self) -> (i: usize)
        ensures
            i == self.idx,
    {
        self.idx
    }

    /// Dots that must be observed for a run to count: six of nine, four of five.
    pub fn min_points(&self) -> (m: usize)
        ensures
            m == min_points_spec(self.n_dots as int),
    {
        if self.n_dots == 9 { 6 } else { 4 }
    }

    fn advance(&mut self, now_ms: u64) -> (ev: CalibEvent<O>)
        requires
            old(self).n_dots == 5 || old(self).n_dots == 9,
            old(self).open,
            old(self).idx < old(self).n_dots,
            old(self).collected@.len() <= old(self).idx + 1,
        ensures
            (final(self)@, ev@) == advance_spec(old(self)@, now_ms as int),
            final(self).wf(),
    {
        self.idx = self.idx + 1;
        self.retried = false;
        self.snaps = Vec::new();
        if self.idx >= self.n_dots {
            let enough = self.collected.len() >= self.min_points();
            self.open = false;
            self.hint = if enough { "GAZE OK" } else { "RECALIBRATE" };
            self.progress = (1, 1);
            if enough {
                let mut done: Vec<O> = Vec::new();
                std::mem::swap(&mut done, &mut self.collected);
                return CalibEvent::Finished(done);
            } else {
                return CalibEvent::Failed;
            }
        }
        self.phase = CalibPhase::Acquire;
        self.started_ms = now_ms;
        self.hint = look_hint(self.idx, self.n_dots);
        self.progress = (0, 1);
        CalibEvent::Nothing
    }

    /// Give up on the current dot and move on.
    pub fn skip_current(&mut self, now_ms: u64) -> (ev: CalibEvent<O>)
        requires
            old(self).wf(),
        ensures
            final(self).wf(),
            !old(self).open ==> final(self)@ == old(self)@ && ev@ == EventView::<O>::Nothing,
            old(self).open ==> (final(self)@, ev@) == advance_spec(old(self)@, now_ms as int),
    {
        if !self.open {
            return CalibEvent::Nothing;
        }
        self.advance(now_ms)
    }

    /// One frame. `feat` holds the frame's features and whether both irises
    /// were seen; `obs_of(samples, dot, dots)` makes a dot's observation.
    pub fn tick<F: Fn(&[S], usize, usize) -> O>(&mut self, now_ms: u64, feat: Option<(S, bool)>, obs_of: F) -> (ev: CalibEvent<O>)
        requires
            old(self).wf(),
            forall|s: &[S], i: usize, n: usize| #[trigger] obs_of.requires((s, i, n)),
        ensures
            final(self).wf(),
            exists|o: O| {
                &&& (final(self)@, ev@) == tick_spec(old(self)@, now_ms as int, feat, o)
                &&& dot_observed(old(self)@, now_ms as int, feat) ==> exists|s: &[S]| s@ == sampled(old(self)@, now_ms as int, feat).snaps
                    && #[trigger] obs_of.ensures((s, old(self).idx, old(self).n_dots), o)
            },
    {
        if !self.open {
            proof {
                let o = vstd::pervasive::arbitrary::<O>();
                assert((self@, CalibEvent::<O>::Nothing@) == tick_spec(old(self)@, now_ms as int, feat, o));
            }
            return CalibEvent::Nothing;
        }
        let elapsed: u64 = if now_ms >= self.started_ms { now_ms - self.started_ms } else { 0 };
        match self.phase {
            CalibPhase::Acquire => {
                self.hint = look_hint(self.idx, self.n_dots);
                self.progress = (elapsed, ACQUIRE_MS);
                if elapsed >= ACQUIRE_MS {
                    self.phase = CalibPhase::Sample;
                    self.started_ms = now_ms;
                    self.snaps = Vec::new();
                    self.hint = "HOLD";
                    self.progress = (0, 1);
                }
                proof {
                    let o = vstd::pervasive::arbitrary::<O>();
                    assert((self@, CalibEvent::<O>::Nothing@) == tick_spec(old(self)@, now_ms as int, feat, o));
                }
                CalibEvent::Nothing
            },
            CalibPhase::Sample => {
                self.hint = "HOLD";
                self.progress = (if elapsed < SAMPLE_MS { elapsed } else { SAMPLE_MS }, SAMPLE_MS);
                match feat {
                    Some((f, irises)) => {
                        if irises {
                            self.snaps.push(f);
                        }
                    },
                    None => {},
                }
                assert(self@ == sampled(old(self)@, now_ms as int, feat));
                if elapsed >= SAMPLE_MS {
                    if self.snaps.len() >= NEED_SNAPS {
                        let sl = self.snaps.as_slice();
                        let o = obs_of(sl, self.idx, self.n_dots);
                        assert(exists|s: &[S]| s@ == sampled(old(self)@, now_ms as int, feat).snaps
                            && #[trigger] obs_of.ensures((s, old(self).idx, old(self).n_dots), o)) by {
                            assert(obs_of.ensures((sl, old(self).idx, old(self).n_dots), o));
                        }
                        self.collected.push(o);
                        let ev = self.advance(now_ms);
                        assert((self@, ev@) == tick_spec(old(self)@, now_ms as int, feat, o));
                        return ev;
                    }
                    if !self.retried {
                        self.retried = true;
                        self.phase = CalibPhase::Acquire;
                        self.started_ms = now_ms;
                        self.snaps = Vec::new();
                        self.hint = look_hint(self.idx, self.n_dots);
                        self.progress = (0, 1);
                    } else {
                        let ev = self.advance(now_ms);
                        proof {
                            let o = vstd::pervasive::arbitrary::<O>();
                            assert((self@, ev@) == tick_spec(old(self)@, now_ms as int, feat, o));
                        }
                        return ev;
                    }
                }
                proof {
                    let o = vstd::pervasive::arbitrary::<O>();
                    assert((self@, CalibEvent::<O>::Nothing@) == tick_spec(old(self)@, now_ms as int, feat, o));
                }
                CalibEvent::Nothing
            },
        }
    }
}

} // verus!
