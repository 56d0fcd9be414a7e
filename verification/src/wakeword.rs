//! Preprocessing in front of the wake-word scorer: peak normalization (the
//! scorer is sensitive to low input amplitude) and a simple energy gate that
//! attenuates silent frames instead of dropping them, so the scorer keeps
//! receiving a continuous stream. The scoring itself is an outside
//! capability; everything handed to it is built here.

use vstd::prelude::*;
use crate::math::{tdiv, tdiv_i64, clamp_i16, clamp_sample};
use crate::recording::{chunk_rms, rms_of_chunk};

verus! {

/// Peak amplitude frames are normalized to (about 85% of the sample range).
pub const NORMALIZE_TARGET_PEAK: i16 = 28000;

/// Frames whose peak is below this stay untouched: they are close to silence.
pub const NORMALIZE_MIN_PEAK: i16 = 100;

/// RMS below this counts as a silent frame (on the 16-bit sample scale).
pub const VAD_THRESHOLD: u32 = 300;

/// Silent frames are attenuated to a tenth instead of being zeroed.
pub const VAD_SILENCE_DIVISOR: i64 = 10;

/// The absolute value of a sample.
pub open spec fn abs_sample(s: i16) -> int {
    if s < 0 {
        -(s as int)
    } else {
        s as int
    }
}

/// The peak absolute amplitude of a chunk.
pub open spec fn peak_abs(s: Seq<i16>) -> int
    decreases s.len(),
{
    if s.len() == 0 {
        0
    } else if abs_sample(s.last()) > peak_abs(s.drop_last()) {
        abs_sample(s.last())
    } else {
        peak_abs(s.drop_last())
    }
}

/// Peak normalization: frames close to silence, and frames already at or
/// above the target peak, pass unchanged; every other frame is scaled by
/// `target / peak` with clamping.
pub open spec fn normalized(s: Seq<i16>) -> Seq<i16> {
    if s.len() == 0 {
        s
    } else {
        let p = peak_abs(s);
        if p < NORMALIZE_MIN_PEAK as int || p >= NORMALIZE_TARGET_PEAK as int {
            s
        } else {
            Seq::new(s.len(), |i: int| clamp_i16(
                tdiv(s[i] * NORMALIZE_TARGET_PEAK as int, p)) as i16)
        }
    }
}

/// The energy gate: a frame whose RMS is below the threshold is attenuated
/// to a tenth (truncating toward zero); the rest pass unchanged.
pub open spec fn vad_gated(s: Seq<i16>) -> Seq<i16> {
    if s.len() == 0 {
        s
    } else if chunk_rms(s) < VAD_THRESHOLD as int {
        Seq::new(s.len(), |i: int| tdiv(s[i] as int, VAD_SILENCE_DIVISOR as int) as i16)
    } else {
        s
    }
}

/// Computes the peak absolute amplitude of a chunk.
pub fn peak_amplitude(samples: &Vec<i16>) -> (r: i32)
    ensures
        r == peak_abs(samples@),
{
    let mut peak: i32 = 0;
    let mut i: usize = 0;
    while i < samples.len()
        invariant
            i <= samples@.len(),
            peak == peak_abs(samples@.subrange(0, i as int)),
        decreases samples@.len() - i,
    {
        let s = samples[i];
        let a: i32 = if s < 0 {
            -(s as i32)
        } else {
            s as i32
        };
        if a > peak {
            peak = a;
        }
        proof {
            assert(samples@.subrange(0, i + 1).drop_last() =~= samples@.subrange(0, i as int));
        }
        i = i + 1;
    }
    proof {
        assert(samples@.subrange(0, samples@.len() as int) =~= samples@);
    }
    peak
}

/// Normalizes a frame's peak amplitude to the target (see `normalized`).
pub fn normalize_samples(samples: &Vec<i16>) -> (r: Vec<i16>)
    ensures
        r@ == normalized(samples@),
{
    if samples.len() == 0 {
        return Vec::new();
    }
    let peak = peak_amplitude(samples);
    if peak < NORMALIZE_MIN_PEAK as i32 || peak >= NORMALIZE_TARGET_PEAK as i32 {
        return copy_samples(samples);
    }
    let mut out: Vec<i16> = Vec::new();
    let mut i: usize = 0;
    while i < samples.len()
        invariant
            i <= samples@.len(),
            100 <= peak < 28000,
            peak == peak_abs(samples@),
            out@.len() == i,
            forall|j: int|
                0 <= j < i ==> out@[j] == clamp_i16(
                    tdiv(samples@[j] * NORMALIZE_TARGET_PEAK as int, peak as int)) as i16,
        decreases samples@.len() - i,
    {
        let s = samples[i];
        let amplified: i64 = tdiv_i64((s as i64) * (NORMALIZE_TARGET_PEAK as i64), peak as i64);
        let v = clamp_sample(amplified);
        out.push(v);
        i = i + 1;
    }
    proof {
        assert(out@ =~= normalized(samples@));
    }
    out
}

/// The energy gate (see `vad_gated`): silent frames are attenuated, not
/// dropped, so downstream consumers keep receiving frames.
pub fn apply_vad(samples: &Vec<i16>) -> (r: Vec<i16>)
    ensures
        r@ == vad_gated(samples@),
{
    if samples.len() == 0 {
        return Vec::new();
    }
    let rms = rms_of_chunk(samples);
    if rms >= VAD_THRESHOLD {
        return copy_samples(samples);
    }
    let mut out: Vec<i16> = Vec::new();
    let mut i: usize = 0;
    while i < samples.len()
        invariant
            i <= samples@.len(),
            out@.len() == i,
            forall|j: int|
                0 <= j < i ==> out@[j] == tdiv(samples@[j] as int,
                    VAD_SILENCE_DIVISOR as int) as i16,
        decreases samples@.len() - i,
    {
        let s = samples[i];
        let v = tdiv_i64(s as i64, VAD_SILENCE_DIVISOR);
        out.push(v as i16);
        i = i + 1;
    }
    proof {
        assert(out@ =~= vad_gated(samples@));
    }
    out
}

/// The whole preprocessing pipeline: normalization, then the energy gate.
pub fn preprocess_samples(samples: &Vec<i16>) -> (r: Vec<i16>)
    ensures
        r@ == vad_gated(normalized(samples@)),
{
    let normalized_samples = normalize_samples(samples);
    apply_vad(&normalized_samples)
}

/// An element-for-element copy.
fn copy_samples(samples: &Vec<i16>) -> (r: Vec<i16>)
    ensures
        r@ == samples@,
{
    let mut out: Vec<i16> = Vec::new();
    let mut i: usize = 0;
    while i < samples.len()
        invariant
            i <= samples@.len(),
            out@ == samples@.subrange(0, i as int),
        decreases samples@.len() - i,
    {
        out.push(samples[i]);
        proof {
            assert(out@ =~= samples@.subrange(0, i + 1));
        }
        i = i + 1;
    }
    proof {
        assert(out@ =~= samples@);
    }
    out
}

} // verus!
