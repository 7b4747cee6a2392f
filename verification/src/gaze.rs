//! Gaze-follow lock timer and webcam pixel conversion (pure).

use vstd::prelude::*;
use crate::ux::UxEvent;

verus! {

pub const GAZE_HOLD_MS: u64 = 280;
pub const GAZE_GRACE_MS: u64 = 220;
pub const GAZE_LOCK_MIN_MS: u32 = 5_000;
pub const GAZE_LOCK_MAX_MS: u32 = 15_000;

pub open spec fn gaze_lock_spec(seed: u64) -> int {
    GAZE_LOCK_MIN_MS + (seed as int) % ((GAZE_LOCK_MAX_MS - GAZE_LOCK_MIN_MS) as int + 1)
}

/// Deterministic 5–15 s gaze-follow window (same span as listen).
pub fn gaze_lock_ms(seed: u64) -> (d: u32)
    ensures
        d == gaze_lock_spec(seed),
        GAZE_LOCK_MIN_MS <= d <= GAZE_LOCK_MAX_MS,
{
    let span: u64 = (GAZE_LOCK_MAX_MS - GAZE_LOCK_MIN_MS) as u64;
    GAZE_LOCK_MIN_MS + (seed % (span + 1)) as u32
}

/// Continuous gaze-on-buddy timer. Fires `StartListen` after `need_ms` of dwell.
#[derive(Clone, Copy, Debug)]
pub struct GazeLock {
    pub since_ms: Option<u64>,
    pub lost_ms: Option<u64>,
    pub need_ms: u32,
    pub on: bool,
}

pub open spec fn sat_sub(a: u64, b: u64) -> u64 {
    if a >= b { (a - b) as u64 } else { 0 }
}

pub open spec fn lock_reset(s: GazeLock) -> GazeLock {
    GazeLock { since_ms: None, lost_ms: None, on: false, ..s }
}

/// One sample of the lock timer. `over` already includes enter/leave hysteresis.
pub open spec fn lock_update(s: GazeLock, now_ms: u64, over: bool) -> (GazeLock, UxEvent) {
    if over {
        let since = match s.since_ms {
            Some(t) => t,
            None => now_ms,
        };
        let n = GazeLock { lost_ms: None, on: true, since_ms: Some(since), ..s };
        if sat_sub(now_ms, since) >= s.need_ms {
            (n, UxEvent::StartListen)
        } else {
            (n, UxEvent::Nothing)
        }
    } else if s.since_ms is None {
        (GazeLock { on: false, ..s }, UxEvent::Nothing)
    } else {
        let lost = match s.lost_ms {
            Some(t) => t,
            None => now_ms,
        };
        let n = GazeLock { lost_ms: Some(lost), ..s };
        if sat_sub(now_ms, lost) >= GAZE_GRACE_MS {
            (lock_reset(n), UxEvent::Nothing)
        } else {
            (n, UxEvent::Nothing)
        }
    }
}

impl GazeLock {
    pub fn new(seed: u64) -> (s: GazeLock)
        ensures
            s == (GazeLock {
                since_ms: None,
                lost_ms: None,
                need_ms: gaze_lock_spec(seed) as u32,
                on: false,
            }),
    {
        GazeLock { since_ms: None, lost_ms: None, need_ms: gaze_lock_ms(seed), on: false }
    }

    pub fn with_need(need_ms: u32) -> (s: GazeLock)
        ensures
            s == (GazeLock {
                since_ms: None,
                lost_ms: None,
                need_ms: if need_ms >= 1 { need_ms } else { 1 },
                on: false,
            }),
    {
        GazeLock {
            since_ms: None,
            lost_ms: None,
            need_ms: if need_ms >= 1 { need_ms } else { 1 },
            on: false,
        }
    }

    pub fn reset(&mut self)
        ensures
            *final(self) == lock_reset(*old(self)),
    {
        self.since_ms = None;
        self.lost_ms = None;
        self.on = false;
    }

    /// How much of the dwell is done, as a fraction `(done, of)`: time on
    /// the buddy over the time needed, capped at all of it.
    pub fn progress(&self, now_ms: u64) -> (f: (u64, u64))
        ensures
            f == match self.since_ms {
                Some(t) => if self.need_ms > 0 {
                    let e = sat_sub(now_ms, t);
                    (if e <= self.need_ms as u64 { e } else { self.need_ms as u64 }, self.need_ms as u64)
                } else {
                    (0u64, 1u64)
                },
                None => (0u64, 1u64),
            },
    {
        match self.since_ms {
            Some(t) => if self.need_ms > 0 {
                let e = now_ms.saturating_sub(t);
                let n = self.need_ms as u64;
                (if e <= n { e } else { n }, n)
            } else {
                (0, 1)
            },
            None => (0, 1),
        }
    }

    pub fn update(&mut self, now_ms: u64, over: bool) -> (ev: UxEvent)
        ensures
            (*final(self), ev) == lock_update(*old(self), now_ms, over),
    {
        if over {
            self.lost_ms = None;
            self.on = true;
            let since = match self.since_ms {
                Some(t) => t,
                None => now_ms,
            };
            self.since_ms = Some(since);
            if now_ms.saturating_sub(since) >= self.need_ms as u64 {
                return UxEvent::StartListen;
            }
            return UxEvent::Nothing;
        }
        if self.since_ms.is_none() {
            self.on = false;
            return UxEvent::Nothing;
        }
        let lost = match self.lost_ms {
            Some(t) => t,
            None => now_ms,
        };
        self.lost_ms = Some(lost);
        if now_ms.saturating_sub(lost) >= GAZE_GRACE_MS {
            self.reset();
        }
        UxEvent::Nothing
    }
}

/// The lock fires only while gaze is on the buddy and only once `need_ms`
/// have passed since the dwell started; with `need_ms >= 1` the first sample
/// of a dwell never fires.
pub proof fn law_lock_fires_after_dwell(s: GazeLock, now_ms: u64, over: bool)
    ensures
        lock_update(s, now_ms, over).1 == UxEvent::StartListen ==> over && ({
            let t0 = lock_update(s, now_ms, over).0.since_ms->0;
            &&& lock_update(s, now_ms, over).0.since_ms is Some
            &&& sat_sub(now_ms, t0) >= s.need_ms
        }),
        s.need_ms >= 1 && s.since_ms is None ==> lock_update(s, now_ms, over).1 != UxEvent::StartListen,
{
}

/// Looking away for the grace period clears the dwell, so the next look restarts the timer.
pub proof fn law_lock_resets_after_grace(s: GazeLock, lost_at: u64, now_ms: u64)
    requires
        s.since_ms is Some,
        s.lost_ms == Some(lost_at),
        now_ms >= lost_at + GAZE_GRACE_MS,
    ensures
        lock_update(s, now_ms, false).0.since_ms is None,
        lock_update(lock_update(s, now_ms, false).0, now_ms, true).0.since_ms == Some(now_ms),
{
}

/// A short flicker (within the grace period) keeps the dwell start.
pub proof fn law_lock_survives_flicker(s: GazeLock, now_ms: u64)
    requires
        s.since_ms is Some,
        s.lost_ms is None || now_ms < s.lost_ms->0 + GAZE_GRACE_MS,
    ensures
        lock_update(s, now_ms, false).0.since_ms == s.since_ms,
{
}


/// Rust's integer division, which rounds toward zero.
pub open spec fn tdiv(a: int, b: int) -> int {
    if a >= 0 { a / b } else { -((-a) / b) }
}

/// Saturate to the byte range.
pub open spec fn clamp_byte(v: int) -> u8 {
    if v < 0 { 0 } else if v > 255 { 255 } else { v as u8 }
}

/// One RGB channel (`c` = 0, 1, 2) of a pixel with luma `y` and centred chroma `u`, `v`.
pub open spec fn yuv_channel(y: int, u: int, v: int, c: int) -> u8 {
    if c == 0 {
        clamp_byte(y + tdiv(359 * v, 256))
    } else if c == 1 {
        clamp_byte(y - tdiv(88 * u, 256) - tdiv(183 * v, 256))
    } else {
        clamp_byte(y + tdiv(454 * u, 256))
    }
}

/// Byte `i` of the RGB8 image decoded from packed YUYV 4:2:2 `src` of width `w`.
/// Macropixels are consumed in order, `w / 2` per row, and only whole ones;
/// pixels with no macropixel left (or the odd last column) stay black.
pub open spec fn yuyv_byte(src: Seq<u8>, w: int, i: int) -> u8 {
    let p = i / 3;
    let c = i % 3;
    let row = p / w;
    let col = p % w;
    let half = w / 2;
    let k = row * half + col / 2;
    if col < 2 * half && 4 * k + 3 < src.len() {
        let luma = if col % 2 == 0 { src[4 * k] } else { src[4 * k + 2] };
        yuv_channel(luma as int, src[4 * k + 1] - 128, src[4 * k + 3] - 128, c)
    } else {
        0
    }
}

fn clamp_u8(v: i32) -> (b: u8)
    ensures
        b == clamp_byte(v as int),
{
    if v < 0 {
        0
    } else if v > 255 {
        255
    } else {
        v as u8
    }
}

fn div256(a: i32) -> (q: i32)
    ensures
        q == tdiv(a as int, 256),
{
    a / 256
}


fn yuv_pixel(out: &mut Vec<u8>, i: usize, y: i32, u: i32, v: i32)
    requires
        i + 2 < old(out).len(),
        0 <= y <= 255,
        -128 <= u <= 127,
        -128 <= v <= 127,
    ensures
        final(out)@ == old(out)@.update(i as int, yuv_channel(y as int, u as int, v as int, 0))
            .update(i + 1, yuv_channel(y as int, u as int, v as int, 1))
            .update(i + 2, yuv_channel(y as int, u as int, v as int, 2)),
{
    let r = clamp_u8(y + div256(359 * v));
    let g = clamp_u8(y - div256(88 * u) - div256(183 * v));
    let b = clamp_u8(y + div256(454 * u));
    out.set(i, r);
    out.set(i + 1, g);
    out.set(i + 2, b);
}

proof fn lemma_pixel_slot(yy: int, x: int, w: int, h: int)
    requires
        0 <= yy < h,
        0 <= x,
        x + 1 < w,
    ensures
        3 * (yy * w + x + 1) + 2 < w * h * 3,
        (yy * w + x) * 3 == 3 * (yy * w + x),
        yy * w + x + 1 < (yy + 1) * w,
{
    assert(yy * w + x + 1 < (yy + 1) * w) by (nonlinear_arith)
        requires x + 1 < w;
    assert((yy + 1) * w <= h * w) by (nonlinear_arith)
        requires yy + 1 <= h, w > 0;
    assert(w * h * 3 == 3 * (h * w)) by (nonlinear_arith);
}

/// Channel `c` of the pixel in row `yy`, column `x`.
pub open spec fn pixel_byte(src: Seq<u8>, w: int, yy: int, x: int, c: int) -> u8 {
    let half = w / 2;
    let k = yy * half + x / 2;
    if x < 2 * half && 4 * k + 3 < src.len() {
        let luma = if x % 2 == 0 { src[4 * k] } else { src[4 * k + 2] };
        yuv_channel(luma as int, src[4 * k + 1] - 128, src[4 * k + 3] - 128, c)
    } else {
        0u8
    }
}

proof fn lemma_byte_at(src: Seq<u8>, w: int, yy: int, x: int, c: int)
    requires
        w > 0,
        0 <= yy,
        0 <= x < w,
        0 <= c < 3,
    ensures
        yuyv_byte(src, w, 3 * (yy * w + x) + c) == pixel_byte(src, w, yy, x, c),
{
    let p = yy * w + x;
    assert(yy * w + x >= 0) by (nonlinear_arith)
        requires yy >= 0, w > 0, x >= 0;
    crate::draw::lemma_cell(3 * p + c, 3, p, c);
    crate::draw::lemma_cell(p, w, yy, x);
}

/// `out` holds the decoded bytes below `end` and zeros from `end` on.
#[verifier::opaque]
pub open spec fn decoded_to(out: Seq<u8>, src: Seq<u8>, w: int, end: int) -> bool {
    forall|i: int| 0 <= i < out.len() ==> #[trigger] out[i] == if i < end { yuyv_byte(src, w, i) } else { 0u8 }
}

proof fn lemma_pair(src: Seq<u8>, w: int, h: int, yy: int, x: int, before: Seq<u8>, after: Seq<u8>)
    requires
        w > 0,
        0 <= yy < h,
        0 <= x,
        x % 2 == 0,
        x + 1 < w,
        before.len() == w * h * 3,
        4 * (yy * (w / 2) + x / 2) + 3 < src.len(),
        decoded_to(before, src, w, 3 * (yy * w + x)),
        after.len() == before.len(),
        forall|i: int| 0 <= i < after.len() && !(3 * (yy * w + x) <= i < 3 * (yy * w + x) + 6) ==> after[i] == before[i],
        forall|c: int| 0 <= c < 3 ==> after[3 * (yy * w + x) + c] == #[trigger] pixel_byte(src, w, yy, x, c),
        forall|c: int| 0 <= c < 3 ==> after[3 * (yy * w + x) + 3 + c] == #[trigger] pixel_byte(src, w, yy, x + 1, c),
    ensures
        decoded_to(after, src, w, 3 * (yy * w + x + 2)),
{
    reveal(decoded_to);
    let p0 = 3 * (yy * w + x);
    assert forall|i: int| 0 <= i < after.len() implies #[trigger] after[i] == if i < 3 * (yy * w + x + 2) { yuyv_byte(src, w, i) } else { 0u8 } by {
        if p0 <= i < p0 + 3 {
            lemma_byte_at(src, w, yy, x, i - p0);
            assert(after[p0 + (i - p0)] == pixel_byte(src, w, yy, x, i - p0));
        } else if p0 + 3 <= i < p0 + 6 {
            lemma_byte_at(src, w, yy, x + 1, i - p0 - 3);
            assert(after[p0 + 3 + (i - p0 - 3)] == pixel_byte(src, w, yy, x + 1, i - p0 - 3));
        } else {
            assert(after[i] == before[i]);
        }
    }
}

#[verifier::spinoff_prover]
#[verifier::rlimit(30)]
proof fn lemma_step(src: Seq<u8>, w: int, h: int, yy: int, x: int, si: int, before: Seq<u8>, after: Seq<u8>)
    requires
        w > 0,
        0 <= yy < h,
        0 <= x,
        x % 2 == 0,
        x + 1 < w,
        before.len() == w * h * 3,
        si == 4 * (yy * (w / 2) + x / 2),
        si + 3 < src.len(),
        decoded_to(before, src, w, 3 * (yy * w + x)),
        ({
            let p0 = 3 * (yy * w + x);
            let u = src[si + 1] - 128;
            let v = src[si + 3] - 128;
            after == before.update(p0, yuv_channel(src[si] as int, u, v, 0))
                .update(p0 + 1, yuv_channel(src[si] as int, u, v, 1))
                .update(p0 + 2, yuv_channel(src[si] as int, u, v, 2))
                .update(p0 + 3, yuv_channel(src[si + 2] as int, u, v, 0))
                .update(p0 + 4, yuv_channel(src[si + 2] as int, u, v, 1))
                .update(p0 + 5, yuv_channel(src[si + 2] as int, u, v, 2))
        }),
    ensures
        decoded_to(after, src, w, 3 * (yy * w + x + 2)),
{
    let p0 = 3 * (yy * w + x);
    lemma_pixel_slot(yy, x, w, h);
    assert(x < 2 * (w / 2));
    assert forall|c: int| 0 <= c < 3 implies after[3 * (yy * w + x) + c] == #[trigger] pixel_byte(src, w, yy, x, c) by {}
    assert forall|c: int| 0 <= c < 3 implies after[3 * (yy * w + x) + 3 + c] == #[trigger] pixel_byte(src, w, yy, x + 1, c) by {
        assert((x + 1) / 2 == x / 2);
    }
    lemma_pair(src, w, h, yy, x, before, after);
}

proof fn lemma_row_tail(src: Seq<u8>, w: int, h: int, yy: int, x: int, out: Seq<u8>)
    requires
        w > 0,
        0 <= yy < h,
        0 <= x <= w,
        out.len() == w * h * 3,
        x >= 2 * (w / 2) || 4 * (yy * (w / 2) + x / 2) + 3 >= src.len(),
        decoded_to(out, src, w, 3 * (yy * w + x)),
    ensures
        decoded_to(out, src, w, 3 * ((yy + 1) * w)),
{
    reveal(decoded_to);
    assert((yy + 1) * w == yy * w + w) by (nonlinear_arith);
    assert forall|i: int| 0 <= i < out.len() implies #[trigger] out[i] == if i < 3 * ((yy + 1) * w) { yuyv_byte(src, w, i) } else { 0u8 } by {
        if 3 * (yy * w + x) <= i < 3 * ((yy + 1) * w) {
            let col = i / 3 - yy * w;
            assert(3 * (yy * w + col) + i % 3 == i);
            lemma_byte_at(src, w, yy, col, i % 3);
        }
    }
}

/// Convert YUYV 4:2:2 packed bytes to RGB8.
pub fn yuyv_to_rgb(src: &[u8], w: u32, h: u32) -> (out: Vec<u8>)
    requires
        (w as int) * (h as int) * 3 <= usize::MAX,
    ensures
        out@.len() == (w as int) * (h as int) * 3,
        forall|i: int| 0 <= i < out@.len() ==> #[trigger] out@[i] == yuyv_byte(src@, w as int, i),
{
    let wu = w as usize;
    let hu = h as usize;
    proof {
        assert((w as int) * (h as int) >= 0) by (nonlinear_arith);
        assert((w as int) * (h as int) <= (w as int) * (h as int) * 3) by (nonlinear_arith)
            requires (w as int) * (h as int) >= 0;
    }
    let n = wu * hu * 3;
    let mut out = vec![0u8; n];
    proof {
        reveal(decoded_to);
    }
    let half = wu / 2;
    let ghost q: int = (src@.len() / 4) as int;
    let ghost wi = w as int;
    let mut si: usize = 0;
    let mut yy: usize = 0;
    while yy < hu
        invariant
            wu == w,
            hu == h,
            half == wi / 2,
            wi == w as int,
            q == src@.len() / 4,
            n == wi * (h as int) * 3,
            out@.len() == n,
            yy <= hu,
            si == 4 * (if yy * half <= q { yy * half } else { q }),
            decoded_to(out@, src@, wi, 3 * (yy * wi)),
        decreases hu - yy,
    {
        let mut x: usize = 0;
        while x + 1 < wu && src.len() - si > 3
            invariant
                wu == w,
                hu == h,
                half == wi / 2,
                wi == w as int,
                q == src@.len() / 4,
                n == wi * (h as int) * 3,
                out@.len() == n,
                yy < hu,
                x % 2 == 0,
                x <= 2 * half,
                si <= src@.len(),
                si == 4 * (if yy * half + x / 2 <= q { yy * half + x / 2 } else { q }),
                x == 0 || yy * half + x / 2 <= q,
                decoded_to(out@, src@, wi, 3 * (yy * wi + x)),
            decreases wu - x,
        {
            proof {
                lemma_pixel_slot(yy as int, x as int, wi, h as int);
            }
            let y0 = src[si] as i32;
            let u = src[si + 1] as i32 - 128;
            let y1 = src[si + 2] as i32;
            let v = src[si + 3] as i32 - 128;
            let p0 = (yy * wu + x) * 3;
            let p1 = p0 + 3;
            let ghost before = out@;
            yuv_pixel(&mut out, p0, y0, u, v);
            yuv_pixel(&mut out, p1, y1, u, v);
            proof {
                lemma_step(src@, wi, h as int, yy as int, x as int, si as int, before, out@);
            }
            si = si + 4;
            x = x + 2;
        }
        proof {
            assert((yy + 1) * half == yy * half + half) by (nonlinear_arith);
            if wi > 0 {
                lemma_row_tail(src@, wi, h as int, yy as int, x as int, out@);
            } else {
                reveal(decoded_to);
            }
        }
        yy = yy + 1;
    }
    proof {
        reveal(decoded_to);
        assert(wi * (h as int) * 3 == 3 * (hu * wi)) by (nonlinear_arith)
            requires hu == h;
    }
    out
}

} // verus!
