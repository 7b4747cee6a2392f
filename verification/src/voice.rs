//! Voice enrollment: clip requirements and reject reasons, and the rolling
//! buffer of microphone samples the clips are cut from.

use vstd::prelude::*;

verus! {

pub const VOICE_ENROLL_NEED: usize = 3;
pub const VOICE_MIN_MS: u32 = 1_200;
pub const VOICE_SAMPLE_RATE: u32 = 16_000;

/// Why a voice clip was refused during enrollment.
#[derive(Clone, Copy, Debug, PartialEq, Eq, Structural)]
pub enum VoiceReject {
    NoReject,
    TooShort,
    TooQuiet,
}

pub open spec fn voice_hint(r: VoiceReject) -> Seq<char> {
    match r {
        VoiceReject::NoReject => ""@,
        VoiceReject::TooShort => "TOO SHORT"@,
        VoiceReject::TooQuiet => "TOO QUIET"@,
    }
}

impl VoiceReject {
    pub fn hint(self) -> (s: &'static str)
        ensures
            s@ == voice_hint(self),
    {
        match self {
            VoiceReject::NoReject => "",
            VoiceReject::TooShort => "TOO SHORT",
            VoiceReject::TooQuiet => "TOO QUIET",
        }
    }
}

pub open spec fn clip_ms_spec(n_samples: nat, sample_rate: u32) -> int {
    if sample_rate == 0 { 0 } else { (n_samples * 1000 / (sample_rate as nat)) as int }
}

/// Clip length in milliseconds (0 for a zero sample rate).
pub fn clip_duration_ms(n_samples: usize, sample_rate: u32) -> (ms: u64)
    requires
        n_samples * 1000 <= u64::MAX,
    ensures
        ms == clip_ms_spec(n_samples as nat, sample_rate),
{
    if sample_rate == 0 {
        0
    } else {
        (n_samples as u64) * 1000 / (sample_rate as u64)
    }
}

/// Seconds of microphone audio kept.
pub const MIC_KEEP_S: u32 = 8;

/// The last `n` items of `s` (all of them when there are fewer).
pub open spec fn newest<T>(s: Seq<T>, n: int) -> Seq<T> {
    if s.len() <= n { s } else { s.subrange(s.len() - n, s.len() as int) }
}

/// The newest microphone samples (mono, `rate` per second), at most
/// `MIC_KEEP_S` seconds of them.
pub struct MicBuffer<T> {
    pub samples: Vec<T>,
    pub rate: u32,
}

impl<T: Copy> MicBuffer<T> {
    /// Samples it keeps at most.
    pub open spec fn cap_spec(&self) -> int {
        self.rate * MIC_KEEP_S
    }

    pub fn new(rate: u32) -> (b: MicBuffer<T>)
        ensures
            b.samples@.len() == 0,
            b.rate == rate,
    {
        MicBuffer { samples: Vec::new(), rate }
    }

    /// Append what the microphone delivered, dropping the oldest samples
    /// beyond the cap.
    pub fn push_samples(&mut self, fresh: &[T])
        requires
            old(self).samples@.len() + fresh@.len() <= usize::MAX,
        ensures
            final(self).rate == old(self).rate,
            final(self).samples@ == newest(old(self).samples@ + fresh@, old(self).cap_spec()),
    {
        let ghost all = self.samples@ + fresh@;
        let mut i: usize = 0;
        while i < fresh.len()
            invariant
                i <= fresh@.len(),
                self.rate == old(self).rate,
                self.samples@ == old(self).samples@ + fresh@.take(i as int),
                old(self).samples@.len() + fresh@.len() <= usize::MAX,
            decreases fresh@.len() - i,
        {
            self.samples.push(fresh[i]);
            assert(fresh@.take(i as int + 1) == fresh@.take(i as int).push(fresh@[i as int]));
            i = i + 1;
        }
        assert(fresh@.take(fresh@.len() as int) == fresh@);
        assert(self.samples@ == all);
        let cap: u64 = self.rate as u64 * MIC_KEEP_S as u64;
        let len = self.samples.len();
        if len as u64 > cap {
            let start: usize = len - cap as usize;
            let mut kept: Vec<T> = Vec::new();
            let mut k: usize = start;
            while k < len
                invariant
                    start <= k <= len,
                    len == self.samples@.len(),
                    kept@ == self.samples@.subrange(start as int, k as int),
                decreases len - k,
            {
                kept.push(self.samples[k]);
                assert(self.samples@.subrange(start as int, k as int + 1) == self.samples@.subrange(start as int, k as int).push(self.samples@[k as int]));
                k = k + 1;
            }
            self.samples = kept;
        }
    }

    /// The newest `ms` milliseconds (everything when less was heard).
    pub fn take_last_ms(&self, ms: u32) -> (v: Vec<T>)
        ensures
            v@ == newest(self.samples@, self.rate * ms / 1000),
    {
        assert(self.rate as u64 * ms as u64 <= u64::MAX) by (nonlinear_arith)
            requires
                self.rate <= u32::MAX,
                ms <= u32::MAX,
        ;
        let n: u64 = self.rate as u64 * ms as u64 / 1000;
        let len = self.samples.len();
        let start: usize = if len as u64 <= n { 0 } else { len - n as usize };
        let mut out: Vec<T> = Vec::new();
        let mut k: usize = start;
        while k < len
            invariant
                start <= k <= len,
                len == self.samples@.len(),
                out@ == self.samples@.subrange(start as int, k as int),
            decreases len - k,
        {
            out.push(self.samples[k]);
            assert(self.samples@.subrange(start as int, k as int + 1) == self.samples@.subrange(start as int, k as int).push(self.samples@[k as int]));
            k = k + 1;
        }
        assert(start == 0 ==> self.samples@.subrange(0, len as int) == self.samples@);
        out
    }
}

/// The buffer never holds more than its cap, and trimming after every
/// delivery keeps exactly the newest samples of everything heard.
pub proof fn law_mic_keeps_newest<T>(heard: Seq<T>, fresh: Seq<T>, cap: int)
    requires
        cap >= 0,
    ensures
        newest(heard, cap).len() <= cap,
        newest(newest(heard, cap) + fresh, cap) == newest(heard + fresh, cap),
{
    let a = newest(heard, cap);
    if heard.len() > cap {
        let x = a + fresh;
        let y = heard + fresh;
        assert(newest(x, cap) =~= newest(y, cap)) by {
            assert forall|i: int| 0 <= i < cap implies #[trigger] newest(x, cap)[i] == newest(y, cap)[i] by {
                let xi = x.len() - cap + i;
                let yi = y.len() - cap + i;
                if xi < a.len() {
                    assert(x[xi] == a[xi]);
                    assert(a[xi] == heard[heard.len() - cap + xi]);
                    assert(y[yi] == heard[yi]);
                } else {
                    assert(x[xi] == fresh[xi - a.len()]);
                    assert(y[yi] == fresh[yi - heard.len()]);
                }
            }
        }
    } else {
        assert(a == heard);
    }
}

} // verus!
