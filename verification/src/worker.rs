//! Vision-worker pacing (when to run the next inference slice and how long to
//! sleep) and the state the overlay shares with the worker.

use vstd::prelude::*;
use crate::enroll::EnrollKind;
use crate::gaze::sat_sub;

verus! {

/// Vision / identity inference cadence (~12.5 Hz) so the overlay stays at 60 Hz.
pub const VISION_INFER_MS: u64 = 80;

/// Stamp at slice start (miss or hit): a slice is due once `period_ms` have
/// passed since the last stamp, and the stamp moves to `now` only then.
pub fn stamp_if_due(last_ms: &mut u64, now: u64, period_ms: u64) -> (due: bool)
    ensures
        due == (now >= *old(last_ms) + period_ms || (now < *old(last_ms) && period_ms == 0)),
        *final(last_ms) == if due { now } else { *old(last_ms) },
{
    let since: u64 = if now >= *last_ms { now - *last_ms } else { 0 };
    if since >= period_ms {
        *last_ms = now;
        true
    } else {
        false
    }
}

/// Sleep for the rest of the cadence slot, or not at all when voice work is waiting.
pub fn vis_sleep_ms(spent_ms: u64, defer_voice: bool) -> (ms: u64)
    ensures
        ms == if defer_voice || spent_ms >= VISION_INFER_MS { 0 } else { (VISION_INFER_MS - spent_ms) as u64 },
{
    if defer_voice {
        0
    } else if spent_ms >= VISION_INFER_MS {
        0
    } else {
        VISION_INFER_MS - spent_ms
    }
}

/// Live face recognition runs at most this often (detection runs every slice).
pub const LIVE_REC_MS: u64 = 160;
/// A camera frame older than this is not looked at.
pub const FRAME_FRESH_MS: u64 = 500;
/// Voice embedding period while a voice enrolment is capturing.
pub const VOICE_ENROLL_PERIOD_MS: u64 = 1_600;
/// Voice embedding period otherwise.
pub const VOICE_LIVE_PERIOD_MS: u64 = 2_400;
/// A due voice pass runs only when the slice so far took less than this.
pub const VOICE_SLICE_BUDGET_MS: u64 = 40;

/// Whether a frame captured at `t_ms` is still fresh at `now`.
pub open spec fn fresh_spec(now: u64, t_ms: u64) -> bool {
    sat_sub(now, t_ms) <= FRAME_FRESH_MS
}

pub fn frame_fresh(now: u64, t_ms: u64) -> (b: bool)
    ensures
        b == fresh_spec(now, t_ms),
{
    let age: u64 = if now >= t_ms { now - t_ms } else { 0 };
    age <= FRAME_FRESH_MS
}

/// When the vision worker last ran each kind of pass.
#[derive(Clone, Copy, Debug, PartialEq, Eq, Structural)]
pub struct VisionClock {
    pub last_vis_ms: u64,
    pub last_rec_ms: u64,
    pub last_voice_ms: u64,
}

/// What one vision slice runs: whether the slice is due at all (then hand
/// tracking runs, on the fresh frame if there is one), whether the latest
/// frame is fresh, and the face pass: `None` when it does not run, else
/// whether it also recognises (not only detects).
#[derive(Clone, Copy, Debug, PartialEq, Eq, Structural)]
pub struct SlicePlan {
    pub vision: bool,
    pub fresh_frame: bool,
    pub face: Option<bool>,
}

/// The voice pass of a slice: not due, run now, or put off because the
/// slice is already long (the worker then skips its sleep).
#[derive(Clone, Copy, Debug, PartialEq, Eq, Structural)]
pub enum VoicePass {
    NotDue,
    Run,
    Defer,
}

pub open spec fn voice_period(enrolling_voice: bool) -> u64 {
    if enrolling_voice { VOICE_ENROLL_PERIOD_MS } else { VOICE_LIVE_PERIOD_MS }
}

pub open spec fn plan_spec(c: VisionClock, now: u64, frame_t_ms: Option<u64>, enrolling_face: bool) -> (VisionClock, SlicePlan) {
    let vision = sat_sub(now, c.last_vis_ms) >= VISION_INFER_MS;
    let fresh = frame_t_ms matches Some(t) && fresh_spec(now, t);
    let rec = enrolling_face || sat_sub(now, c.last_rec_ms) >= LIVE_REC_MS;
    let face = if vision && fresh { Some(rec) } else { None };
    (
        VisionClock {
            last_vis_ms: if vision { now } else { c.last_vis_ms },
            last_rec_ms: if face == Some(true) { now } else { c.last_rec_ms },
            ..c
        },
        SlicePlan { vision, fresh_frame: fresh, face },
    )
}

pub open spec fn voice_spec(c: VisionClock, now: u64, elapsed_ms: u64, enrolling_voice: bool) -> (VisionClock, VoicePass) {
    if sat_sub(now, c.last_voice_ms) < voice_period(enrolling_voice) {
        (c, VoicePass::NotDue)
    } else if elapsed_ms < VOICE_SLICE_BUDGET_MS {
        (VisionClock { last_voice_ms: now, ..c }, VoicePass::Run)
    } else {
        (c, VoicePass::Defer)
    }
}

impl VisionClock {
    /// Nothing has run yet.
    pub fn new() -> (c: VisionClock)
        ensures
            c == (VisionClock { last_vis_ms: 0, last_rec_ms: 0, last_voice_ms: 0 }),
    {
        VisionClock { last_vis_ms: 0, last_rec_ms: 0, last_voice_ms: 0 }
    }

    /// Plan the vision part of a slice starting at `now`, given when the
    /// latest camera frame was taken (if any) and whether a face enrolment is
    /// capturing (then every face pass recognises). A due slice is stamped
    /// whether or not it finds a frame; recognition is stamped when it runs.
    pub fn plan_slice(&mut self, now: u64, frame_t_ms: Option<u64>, enrolling_face: bool) -> (p: SlicePlan)
        ensures
            (*final(self), p) == plan_spec(*old(self), now, frame_t_ms, enrolling_face),
    {
        let vision = stamp_if_due(&mut self.last_vis_ms, now, VISION_INFER_MS);
        let fresh = match frame_t_ms {
            Some(t) => frame_fresh(now, t),
            None => false,
        };
        let face = if vision && fresh {
            let since: u64 = if now >= self.last_rec_ms { now - self.last_rec_ms } else { 0 };
            let rec = enrolling_face || since >= LIVE_REC_MS;
            if rec {
                self.last_rec_ms = now;
            }
            Some(rec)
        } else {
            None
        };
        SlicePlan { vision, fresh_frame: fresh, face }
    }

    /// Decide the voice pass of a slice that has run for `elapsed_ms` so
    /// far: due every 1.6 s while a voice enrolment captures, else every
    /// 2.4 s; a due pass runs (and is stamped) only within the 40 ms budget,
    /// otherwise it waits for the next slice unstamped.
    pub fn voice_pass(&mut self, now: u64, elapsed_ms: u64, enrolling_voice: bool) -> (v: VoicePass)
        ensures
            (*final(self), v) == voice_spec(*old(self), now, elapsed_ms, enrolling_voice),
    {
        let period: u64 = if enrolling_voice { VOICE_ENROLL_PERIOD_MS } else { VOICE_LIVE_PERIOD_MS };
        let since: u64 = if now >= self.last_voice_ms { now - self.last_voice_ms } else { 0 };
        if since < period {
            VoicePass::NotDue
        } else if elapsed_ms < VOICE_SLICE_BUDGET_MS {
            self.last_voice_ms = now;
            VoicePass::Run
        } else {
            VoicePass::Defer
        }
    }
}

/// A voice pass put off for a long slice is not lost: it stays due, so the
/// next slice that starts later and stays within the budget runs it.
pub proof fn law_deferred_voice_runs_next(c: VisionClock, now: u64, elapsed_ms: u64, later: u64, elapsed2_ms: u64, enrolling_voice: bool)
    requires
        voice_spec(c, now, elapsed_ms, enrolling_voice).1 == VoicePass::Defer,
        now <= later,
        elapsed2_ms < VOICE_SLICE_BUDGET_MS,
    ensures
        voice_spec(c, now, elapsed_ms, enrolling_voice).0 == c,
        voice_spec(c, later, elapsed2_ms, enrolling_voice).1 == VoicePass::Run,
{
}

/// What the overlay tells the vision worker: the screen size, the face kinds
/// in the gallery, and which enrollments are capturing.
#[derive(Clone, Debug)]
pub struct VisionState {
    pub screen_w: u32,
    pub screen_h: u32,
    pub gallery_kinds: Vec<String>,
    pub enrolling_face: bool,
    pub enrolling_voice: bool,
}

fn copy_kinds(kinds: &[String]) -> (v: Vec<String>)
    ensures
        v@ == kinds@,
{
    let mut v: Vec<String> = Vec::new();
    let mut i: usize = 0;
    while i < kinds.len()
        invariant
            i <= kinds@.len(),
            v@ == kinds@.take(i as int),
        decreases kinds@.len() - i,
    {
        v.push(kinds[i].clone());
        assert(kinds@.take(i as int + 1) =~= kinds@.take(i as int).push(kinds@[i as int]));
        i = i + 1;
    }
    assert(kinds@.take(kinds@.len() as int) =~= kinds@);
    v
}

impl VisionState {
    /// No screen yet, an empty gallery, nothing enrolling.
    pub fn new() -> (s: VisionState)
        ensures
            s.screen_w == 0,
            s.screen_h == 0,
            s.gallery_kinds@.len() == 0,
            !s.enrolling_face,
            !s.enrolling_voice,
    {
        VisionState {
            screen_w: 0,
            screen_h: 0,
            gallery_kinds: Vec::new(),
            enrolling_face: false,
            enrolling_voice: false,
        }
    }

    pub fn set_screen(&mut self, w: u32, h: u32)
        ensures
            final(self).screen_w == w,
            final(self).screen_h == h,
            final(self).gallery_kinds@ == old(self).gallery_kinds@,
            final(self).enrolling_face == old(self).enrolling_face,
            final(self).enrolling_voice == old(self).enrolling_voice,
    {
        self.screen_w = w;
        self.screen_h = h;
    }

    pub fn screen_size(&self) -> (wh: (u32, u32))
        ensures
            wh == (self.screen_w, self.screen_h),
    {
        (self.screen_w, self.screen_h)
    }

    pub fn set_gallery_kinds(&mut self, kinds: &[String])
        ensures
            final(self).gallery_kinds@ == kinds@,
            final(self).screen_w == old(self).screen_w,
            final(self).screen_h == old(self).screen_h,
            final(self).enrolling_face == old(self).enrolling_face,
            final(self).enrolling_voice == old(self).enrolling_voice,
    {
        self.gallery_kinds = copy_kinds(kinds);
    }

    pub fn gallery_kinds(&self) -> (v: Vec<String>)
        ensures
            v@ == self.gallery_kinds@,
    {
        copy_kinds(self.gallery_kinds.as_slice())
    }

    /// Face and voice enrollment flags; gestures have none.
    pub fn set_enrolling(&mut self, kind: EnrollKind, on: bool)
        ensures
            final(self).enrolling_face == if kind == EnrollKind::Face { on } else { old(self).enrolling_face },
            final(self).enrolling_voice == if kind == EnrollKind::Voice { on } else { old(self).enrolling_voice },
            final(self).screen_w == old(self).screen_w,
            final(self).screen_h == old(self).screen_h,
            final(self).gallery_kinds@ == old(self).gallery_kinds@,
    {
        match kind {
            EnrollKind::Face => self.enrolling_face = on,
            EnrollKind::Voice => self.enrolling_voice = on,
            EnrollKind::Gesture => {},
        }
    }
}

} // verus!
