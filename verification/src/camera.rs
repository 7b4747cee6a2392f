//! The webcam side: the latest frame, shared between the capture loop and its
//! readers; the generation counter that tells a capture loop to stop; the
//! capture formats to ask for; and the stand-in frame used without a camera.

use vstd::prelude::*;
use std::sync::Arc;
use crate::num::{parse_u32, parse_u32_spec};
use crate::text::{trim, trimmed};

verus! {

/// One RGB frame; the pixels are shared, never copied, between holders.
#[derive(Clone, Debug)]
pub struct CamFrame {
    pub rgb: Arc<[u8]>,
    pub w: u32,
    pub h: u32,
    pub t_ms: u64,
}

/// Calls `Arc::clone`. Claimed: the new handle equals the old one, i.e. it
/// points at the same pixel buffer (std documents that `clone` makes another
/// pointer to the same allocation).
#[verifier::external_body]
fn share_pixels(rgb: &Arc<[u8]>) -> (r: Arc<[u8]>)
    ensures
        r == *rgb,
{
    Arc::clone(rgb)
}

/// A second handle to `f`: same pixel buffer, same size and time.
pub fn share_frame(f: &CamFrame) -> (g: CamFrame)
    ensures
        g == *f,
{
    CamFrame { rgb: share_pixels(&f.rgb), w: f.w, h: f.h, t_ms: f.t_ms }
}

/// The newest frame and the capture generation: a capture loop started at
/// generation `g` keeps running only while the generation is still `g`.
pub struct FrameSlot {
    pub latest: Option<CamFrame>,
    pub epoch: u64,
}

impl FrameSlot {
    pub fn new() -> (s: FrameSlot)
        ensures
            s.latest is None,
            s.epoch == 0,
    {
        FrameSlot { latest: None, epoch: 0 }
    }

    pub fn latest_frame(&self) -> (r: Option<CamFrame>)
        ensures
            r == self.latest,
    {
        match &self.latest {
            Some(f) => Some(share_frame(f)),
            None => None,
        }
    }

    pub fn store_frame(&mut self, frame: CamFrame)
        ensures
            final(self).latest == Some(frame),
            final(self).epoch == old(self).epoch,
    {
        self.latest = Some(frame);
    }

    pub fn clear_frame(&mut self)
        ensures
            final(self).latest is None,
            final(self).epoch == old(self).epoch,
    {
        self.latest = None;
    }

    /// Invalidate the running capture loop and drop the frame.
    pub fn request_stop(&mut self)
        ensures
            final(self).latest is None,
            final(self).epoch == (old(self).epoch + 1) % 0x1_0000_0000_0000_0000,
    {
        self.epoch = self.epoch.wrapping_add(1);
        self.latest = None;
    }

    /// Start a capture loop: the generation moves on by one and the loop
    /// keeps the new value as its own.
    pub fn begin_capture(&mut self) -> (mine: u64)
        ensures
            mine == (old(self).epoch + 1) % 0x1_0000_0000_0000_0000,
            final(self).epoch == mine,
            final(self).latest == old(self).latest,
    {
        self.epoch = self.epoch.wrapping_add(1);
        self.epoch
    }

    /// Whether the loop started at generation `mine` is still the current one.
    pub fn still_current(&self, mine: u64) -> (b: bool)
        ensures
            b == (self.epoch == mine),
    {
        self.epoch == mine
    }
}

/// Width and height of the stand-in frame used when the camera is simulated.
pub const SIM_W: u32 = 80;
pub const SIM_H: u32 = 60;

/// Byte `i` of the stand-in frame: a dark field with a textured skin-coloured
/// block over columns 16..56 and rows 10..48.
pub open spec fn sim_byte(i: int) -> u8 {
    let p = i / 3;
    let c = i % 3;
    let x = p % 80;
    let y = p / 80;
    if 16 <= x < 56 && 10 <= y < 48 {
        if c == 0 {
            if (x + y) % 3 == 0 { 70 } else { 188 }
        } else if c == 1 {
            118
        } else {
            98
        }
    } else {
        18
    }
}

/// The RGB stand-in frame `(pixels, width, height)` fed to the face path
/// when `BUCKYBOI_FACE_SIM` is set.
pub fn synthetic_skin() -> (r: (Vec<u8>, u32, u32))
    ensures
        r.1 == SIM_W,
        r.2 == SIM_H,
        r.0@.len() == 80 * 60 * 3,
        forall|i: int| 0 <= i < 80 * 60 * 3 ==> #[trigger] r.0@[i] == sim_byte(i),
{
    let mut rgb: Vec<u8> = Vec::new();
    let mut p: u32 = 0;
    while p < 80 * 60
        invariant
            p <= 80 * 60,
            rgb@.len() == 3 * p,
            forall|i: int| 0 <= i < 3 * p ==> #[trigger] rgb@[i] == sim_byte(i),
        decreases 80 * 60 - p,
    {
        let x = p % 80;
        let y = p / 80;
        let (r, g, b): (u8, u8, u8) = if 16 <= x && x < 56 && 10 <= y && y < 48 {
            (if (x + y) % 3 == 0 { 70 } else { 188 }, 118, 98)
        } else {
            (18, 18, 18)
        };
        proof {
            let q = 3 * p as int;
            assert(q / 3 == p as int && q % 3 == 0) by (nonlinear_arith) requires q == 3 * p as int;
            assert((q + 1) / 3 == p as int && (q + 1) % 3 == 1) by (nonlinear_arith) requires q == 3 * p as int;
            assert((q + 2) / 3 == p as int && (q + 2) % 3 == 2) by (nonlinear_arith) requires q == 3 * p as int;
        }
        rgb.push(r);
        rgb.push(g);
        rgb.push(b);
        p = p + 1;
    }
    (rgb, SIM_W, SIM_H)
}

pub open spec fn opt_view(o: Option<&str>) -> Option<Seq<char>> {
    match o {
        Some(s) => Some(s@),
        None => None,
    }
}

/// A requested capture size (`BUCKYBOI_CAMERA_W` / `_H`): a whole number of
/// pixels from 16 to 4096, surrounding blanks ignored.
pub open spec fn dim_spec(v: Option<Seq<char>>) -> Option<u32> {
    match v {
        None => None,
        Some(s) => match parse_u32_spec(trim(s)) {
            Some(n) => if 16 <= n <= 4096 { Some(n) } else { None },
            None => None,
        },
    }
}

pub fn camera_dim(v: Option<&str>) -> (r: Option<u32>)
    ensures
        r == dim_spec(opt_view(v)),
{
    match v {
        None => None,
        Some(s) => {
            let t = trimmed(s);
            match parse_u32(&t) {
                Some(n) => if 16 <= n && n <= 4096 { Some(n) } else { None },
                None => None,
            }
        },
    }
}

/// Pixel layouts a webcam is asked for.
#[derive(Clone, Copy, Debug, PartialEq, Eq, Structural)]
pub enum PixelFormat {
    Yuyv,
    Mjpg,
}

/// Capture formats in the order they are tried: the requested size (when
/// both sides are given) in YUYV then MJPEG, then 640×480 and 320×240.
pub open spec fn candidates_spec(w: Option<u32>, h: Option<u32>) -> Seq<(u32, u32, PixelFormat)> {
    (if w is Some && h is Some {
        seq![(w->0, h->0, PixelFormat::Yuyv), (w->0, h->0, PixelFormat::Mjpg)]
    } else {
        Seq::empty()
    }) + seq![
        (640u32, 480u32, PixelFormat::Yuyv),
        (640u32, 480u32, PixelFormat::Mjpg),
        (320u32, 240u32, PixelFormat::Yuyv),
        (320u32, 240u32, PixelFormat::Mjpg),
    ]
}

pub fn format_candidates(w: Option<u32>, h: Option<u32>) -> (v: Vec<(u32, u32, PixelFormat)>)
    ensures
        v@ == candidates_spec(w, h),
{
    let mut v: Vec<(u32, u32, PixelFormat)> = Vec::new();
    match (w, h) {
        (Some(a), Some(b)) => {
            v.push((a, b, PixelFormat::Yuyv));
            v.push((a, b, PixelFormat::Mjpg));
        },
        _ => {},
    }
    v.push((640, 480, PixelFormat::Yuyv));
    v.push((640, 480, PixelFormat::Mjpg));
    v.push((320, 240, PixelFormat::Yuyv));
    v.push((320, 240, PixelFormat::Mjpg));
    assert(v@ =~= candidates_spec(w, h));
    v
}

/// A frame already in RGB: its first `w·h·3` bytes, or nothing when the
/// buffer is shorter.
pub fn raw_rgb(buf: &[u8], w: u32, h: u32) -> (r: Option<Vec<u8>>)
    ensures
        buf@.len() < (w as int) * (h as int) * 3 ==> r is None,
        buf@.len() >= (w as int) * (h as int) * 3 ==> (r matches Some(v) && v@ == buf@.subrange(0, (w as int) * (h as int) * 3)),
{
    proof {
        assert((w as int) * (h as int) <= 0xffff_ffff_ffff_ffff) by (nonlinear_arith)
            requires
                w <= u32::MAX,
                h <= u32::MAX,
        ;
        assert((w as int) * (h as int) >= 0) by (nonlinear_arith);
    }
    let n: u64 = (w as u64) * (h as u64);
    if (buf.len() as u64) / 3 < n {
        return None;
    }
    let need: usize = (n * 3) as usize;
    let mut out: Vec<u8> = Vec::new();
    let mut k: usize = 0;
    while k < need
        invariant
            k <= need,
            need == (w as int) * (h as int) * 3,
            need <= buf@.len(),
            out@ == buf@.subrange(0, k as int),
        decreases need - k,
    {
        out.push(buf[k]);
        assert(buf@.subrange(0, k as int + 1) == buf@.subrange(0, k as int).push(buf@[k as int]));
        k = k + 1;
    }
    Some(out)
}

} // verus!
