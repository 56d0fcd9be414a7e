//! Preprocessing in front of the transcription engine: an energy-based
//! voice-activity detector that keeps only speech regions (with margins, and
//! with small gaps between regions merged), and peak normalization — the
//! engine is very sensitive to low input amplitude. Transcription itself is
//! an outside capability; everything handed to it is built here.

use vstd::prelude::*;
use vstd::string::StringExecFns;
use vstd::arithmetic::div_mod::{lemma_div_pos_is_pos, lemma_div_is_ordered, lemma_remainder_lower};
use vstd::arithmetic::mul::lemma_mul_inequality;
use crate::math::{tdiv, tdiv_i64, clamp_i16, clamp_sample};
use crate::recording::{chunk_rms, rms_of_chunk};
use crate::wakeword::peak_abs;

verus! {

/// Detector frame: 20 ms at 16 kHz.
pub const VAD_FRAME_SIZE: usize = 320;

/// RMS at or above this (Q15) marks a frame as speech.
pub const VAD_SPEECH_THRESHOLD: u32 = 328;

/// Frames of margin kept on both sides of a speech region.
pub const VAD_MARGIN_FRAMES: usize = 5;

/// Non-speech gaps up to this many frames between regions are kept.
pub const VAD_MAX_GAP_FRAMES: usize = 10;

/// Peak amplitude the audio is normalized to (about 0.9 of full scale).
pub const NORMALIZATION_TARGET: i16 = 29491;

/// Audio whose peak is below this (about 0.001 of full scale) stays
/// untouched: it is close to silence.
pub const MIN_PEAK_FOR_NORMALIZATION: i16 = 33;

/// Number of whole detector frames in the audio.
pub open spec fn num_vad_frames(s: Seq<i16>) -> int {
    s.len() as int / VAD_FRAME_SIZE as int
}

/// The `i`-th detector frame.
pub open spec fn vad_frame(s: Seq<i16>, i: int) -> Seq<i16> {
    s.subrange(i * VAD_FRAME_SIZE as int, (i + 1) * VAD_FRAME_SIZE as int)
}

/// Whether the `i`-th frame's energy marks it as speech.
pub open spec fn speech_flag(s: Seq<i16>, i: int) -> bool {
    chunk_rms(vad_frame(s, i)) >= VAD_SPEECH_THRESHOLD as int
}

/// Whether the `i`-th frame lies within the margin of some speech frame.
pub open spec fn expanded_flag(s: Seq<i16>, i: int) -> bool {
    exists|j: int|
        0 <= j < num_vad_frames(s) && i - VAD_MARGIN_FRAMES as int <= j
            <= i + VAD_MARGIN_FRAMES as int && speech_flag(s, j)
}

/// Whether the `i`-th frame is kept: it lies within a margin-expanded speech
/// region, or in a short enough gap between two such regions.
pub open spec fn merged_flag(s: Seq<i16>, i: int) -> bool {
    ||| expanded_flag(s, i)
    ||| exists|a: int, b: int|
        0 <= a < i < b < num_vad_frames(s) && b - a <= VAD_MAX_GAP_FRAMES as int + 1
            && expanded_flag(s, a) && expanded_flag(s, b)
}

/// The concatenation of the kept frames among the first `k`.
pub open spec fn kept_prefix(s: Seq<i16>, k: int) -> Seq<i16>
    decreases k,
{
    if k <= 0 {
        Seq::empty()
    } else {
        kept_prefix(s, k - 1) + if merged_flag(s, k - 1) {
            vad_frame(s, k - 1)
        } else {
            Seq::empty()
        }
    }
}

/// What the detector returns: audio shorter than one frame passes unchanged;
/// otherwise the kept frames, and — when speech runs to the end — the
/// trailing samples that fill no whole frame.
pub open spec fn vad_extracted(s: Seq<i16>) -> Seq<i16> {
    let n = num_vad_frames(s);
    if n == 0 {
        s
    } else {
        kept_prefix(s, n) + if merged_flag(s, n - 1) {
            s.subrange(n * VAD_FRAME_SIZE as int, s.len() as int)
        } else {
            Seq::empty()
        }
    }
}

/// Peak normalization for transcription: audio close to silence, and audio
/// already at or above the target peak, passes unchanged; everything else is
/// scaled by `target / peak` with clamping.
pub open spec fn stt_normalized(s: Seq<i16>) -> Seq<i16> {
    if s.len() == 0 {
        s
    } else {
        let p = peak_abs(s);
        if p < MIN_PEAK_FOR_NORMALIZATION as int || p >= NORMALIZATION_TARGET as int {
            s
        } else {
            Seq::new(s.len(), |i: int| clamp_i16(
                tdiv(s[i] * NORMALIZATION_TARGET as int, p)) as i16)
        }
    }
}

/// Errors of the transcription engine.
pub enum SttError {
    ModelLoadError(String),
    TranscriptionError(String),
}

impl SttError {
    /// A human-readable description of the error.
    pub fn message(&self) -> (r: String)
        ensures
            self matches SttError::ModelLoadError(d)
                ==> r@ == "failed to load the transcription model: "@ + d@,
            self matches SttError::TranscriptionError(d)
                ==> r@ == "transcription failed: "@ + d@,
    {
        match self {
            SttError::ModelLoadError(d) => String::from_str(
                "failed to load the transcription model: ").concat(d.as_str()),
            SttError::TranscriptionError(d) => String::from_str(
                "transcription failed: ").concat(d.as_str()),
        }
    }
}

/// A frame index below `num_vad_frames` addresses a whole frame in bounds.
proof fn lemma_frame_in_bounds(s: Seq<i16>, i: int)
    requires
        0 <= i < num_vad_frames(s),
    ensures
        0 <= i * VAD_FRAME_SIZE as int,
        i * VAD_FRAME_SIZE as int + VAD_FRAME_SIZE as int == (i + 1) * VAD_FRAME_SIZE as int,
        (i + 1) * VAD_FRAME_SIZE as int <= s.len(),
        vad_frame(s, i).len() == VAD_FRAME_SIZE as int,
{
    let f = VAD_FRAME_SIZE as int;
    let n = num_vad_frames(s);
    vstd::arithmetic::mul::lemma_mul_nonnegative(i, f);
    lemma_mul_inequality(i + 1, n, f);
    lemma_remainder_lower(s.len() as int, f);
    assert(n * f <= s.len());
    assert(i * f + f == (i + 1) * f) by (nonlinear_arith);
}

/// Copies `v[start..end]`.
fn copy_range(v: &Vec<i16>, start: usize, end: usize) -> (r: Vec<i16>)
    requires
        start <= end <= v@.len(),
    ensures
        r@ == v@.subrange(start as int, end as int),
{
    let mut out: Vec<i16> = Vec::new();
    let mut i: usize = start;
    while i < end
        invariant
            start <= i <= end <= v@.len(),
            out@ == v@.subrange(start as int, i as int),
        decreases end - i,
    {
        out.push(v[i]);
        proof {
            assert(out@ =~= v@.subrange(start as int, i + 1));
        }
        i = i + 1;
    }
    proof {
        assert(out@ =~= v@.subrange(start as int, end as int));
    }
    out
}

/// Voice-activity detection: extracts the speech regions of `audio` (see
/// `vad_extracted`), so the transcription engine never sees long silence.
pub fn apply_vad(audio: &Vec<i16>) -> (r: Vec<i16>)
    ensures
        r@ == vad_extracted(audio@),
{
    let ghost s = audio@;
    let len = audio.len();
    let n = len / VAD_FRAME_SIZE;
    if n == 0 {
        let out = copy_range(audio, 0, len);
        proof {
            assert(out@ =~= vad_extracted(s));
        }
        return out;
    }
    proof {
        lemma_div_pos_is_pos(len as int, VAD_FRAME_SIZE as int);
        lemma_div_is_ordered(len as int, usize::MAX as int, VAD_FRAME_SIZE as int);
    }

    // energy per frame
    let mut speech: Vec<bool> = Vec::new();
    let mut i: usize = 0;
    let mut pos: usize = 0;
    while i < n
        invariant
            s == audio@,
            len == s.len(),
            n == num_vad_frames(s),
            n <= usize::MAX as int / VAD_FRAME_SIZE as int,
            i <= n,
            pos == i * VAD_FRAME_SIZE as int,
            speech@.len() == i,
            forall|j: int| 0 <= j < i ==> speech@[j] == speech_flag(s, j),
        decreases n - i,
    {
        proof {
            lemma_frame_in_bounds(s, i as int);
        }
        let frame = copy_range(audio, pos, pos + VAD_FRAME_SIZE);
        proof {
            assert(frame@ == vad_frame(s, i as int));
        }
        let rms = rms_of_chunk(&frame);
        speech.push(rms >= VAD_SPEECH_THRESHOLD);
        pos = pos + VAD_FRAME_SIZE;
        i = i + 1;
    }

    // margin expansion: a frame is kept if any frame within the margin
    // around it carries speech
    let mut expanded: Vec<bool> = Vec::new();
    let mut i: usize = 0;
    while i < n
        invariant
            s == audio@,
            len == s.len(),
            n == num_vad_frames(s),
            n <= usize::MAX as int / VAD_FRAME_SIZE as int,
            i <= n,
            speech@.len() == n,
            forall|j: int| 0 <= j < n ==> speech@[j] == speech_flag(s, j),
            expanded@.len() == i,
            forall|j: int| 0 <= j < i ==> expanded@[j] == expanded_flag(s, j),
        decreases n - i,
    {
        let lo = if i >= VAD_MARGIN_FRAMES {
            i - VAD_MARGIN_FRAMES
        } else {
            0
        };
        let hi = if i + VAD_MARGIN_FRAMES + 1 <= n {
            i + VAD_MARGIN_FRAMES + 1
        } else {
            n
        };
        let mut found = false;
        let mut j = lo;
        while j < hi
            invariant
                lo <= j <= hi <= n,
                speech@.len() == n,
                forall|q: int| 0 <= q < n ==> speech@[q] == speech_flag(s, q),
                found ==> exists|q: int| lo <= q < j && speech_flag(s, q),
                !found ==> forall|q: int| lo <= q < j ==> !speech_flag(s, q),
            decreases hi - j,
        {
            if speech[j] {
                found = true;
                proof {
                    assert(lo <= (j as int) < hi && speech_flag(s, j as int));
                }
            }
            j = j + 1;
        }
        proof {
            if found {
                let q = choose|q: int| lo <= q < hi && speech_flag(s, q);
                assert(expanded_flag(s, i as int));
            } else {
                if expanded_flag(s, i as int) {
                    let q = choose|q: int|
                        0 <= q < n && i - VAD_MARGIN_FRAMES as int <= q
                            <= i + VAD_MARGIN_FRAMES as int && speech_flag(s, q);
                    assert(lo <= q < hi);
                    assert(false);
                }
            }
        }
        expanded.push(found);
        i = i + 1;
    }

    // gap merging: a short enough run of dropped frames between two kept
    // frames is kept as well
    let mut merged: Vec<bool> = Vec::new();
    let mut i: usize = 0;
    while i < n
        invariant
            s == audio@,
            len == s.len(),
            n == num_vad_frames(s),
            n <= usize::MAX as int / VAD_FRAME_SIZE as int,
            i <= n,
            expanded@.len() == n,
            forall|j: int| 0 <= j < n ==> expanded@[j] == expanded_flag(s, j),
            merged@.len() == i,
            forall|j: int| 0 <= j < i ==> merged@[j] == merged_flag(s, j),
        decreases n - i,
    {
        let mut keep = expanded[i];
        if !keep {
            // the nearest kept frame before this one, within the gap bound
            let lo = if i >= VAD_MAX_GAP_FRAMES {
                i - VAD_MAX_GAP_FRAMES
            } else {
                0
            };
            let mut a: usize = 0;
            let mut a_found = false;
            let mut q = lo;
            while q < i
                invariant
                    lo <= q <= i < n,
                    expanded@.len() == n,
                    forall|t: int| 0 <= t < n ==> expanded@[t] == expanded_flag(s, t),
                    a_found ==> lo <= a < q && expanded_flag(s, a as int)
                        && (forall|t: int| a < t < q ==> !expanded_flag(s, t)),
                    !a_found ==> forall|t: int| lo <= t < q ==> !expanded_flag(s, t),
                decreases i - q,
            {
                if expanded[q] {
                    a = q;
                    a_found = true;
                }
                q = q + 1;
            }
            if a_found {
                // any kept frame after this one, close enough to the
                // nearest previous kept frame
                let bhi0 = a + VAD_MAX_GAP_FRAMES + 2;
                let bhi = if bhi0 <= n {
                    bhi0
                } else {
                    n
                };
                let mut b = i + 1;
                let mut b_found = false;
                while b < bhi
                    invariant
                        i + 1 <= b <= bhi || (bhi < i + 1 && b == i + 1),
                        bhi <= n,
                        bhi0 == a + VAD_MAX_GAP_FRAMES as int + 2,
                        bhi == if bhi0 <= n { bhi0 as int } else { n as int },
                        expanded@.len() == n,
                        forall|t: int| 0 <= t < n ==> expanded@[t] == expanded_flag(s, t),
                        b_found ==> exists|t: int| i < t < bhi && expanded_flag(s, t),
                        !b_found ==> forall|t: int| i < t < b ==> !expanded_flag(s, t),
                    decreases bhi - b,
                {
                    if expanded[b] {
                        b_found = true;
                        proof {
                            assert((i as int) < (b as int) < bhi
                                && expanded_flag(s, b as int));
                        }
                    }
                    b = b + 1;
                }
                keep = b_found;
                proof {
                    if b_found {
                        let t = choose|t: int| i < t < bhi && expanded_flag(s, t);
                        assert(0 <= (a as int) && (a as int) < (i as int) && (i as int) < t && t < n);
                        assert(t - a <= VAD_MAX_GAP_FRAMES as int + 1);
                        assert(merged_flag(s, i as int));
                    } else {
                        if merged_flag(s, i as int) {
                            let (a2, b2) = choose|a2: int, b2: int|
                                0 <= a2 && a2 < (i as int) && (i as int) < b2 && b2 < n
                                    && b2 - a2 <= VAD_MAX_GAP_FRAMES as int + 1
                                    && expanded_flag(s, a2) && expanded_flag(s, b2);
                            // the pair's left end lies in the scanned window,
                            // so the nearest kept frame is at least as close
                            assert(lo <= a2 < i);
                            assert(a2 <= a);
                            assert(i < b2 < bhi);
                            assert(false);
                        }
                    }
                }
            } else {
                proof {
                    if merged_flag(s, i as int) {
                        let (a2, b2) = choose|a2: int, b2: int|
                            0 <= a2 && a2 < (i as int) && (i as int) < b2 && b2 < n
                                && b2 - a2 <= VAD_MAX_GAP_FRAMES as int + 1
                                && expanded_flag(s, a2) && expanded_flag(s, b2);
                        assert(lo <= a2 < i);
                        assert(false);
                    }
                }
            }
        }
        merged.push(keep);
        i = i + 1;
    }

    // extraction: concatenate the kept frames, and the trailing partial
    // frame when speech runs to the end
    let mut out: Vec<i16> = Vec::new();
    let mut i: usize = 0;
    let mut pos: usize = 0;
    while i < n
        invariant
            s == audio@,
            len == s.len(),
            n == num_vad_frames(s),
            n <= usize::MAX as int / VAD_FRAME_SIZE as int,
            i <= n,
            pos == i * VAD_FRAME_SIZE as int,
            merged@.len() == n,
            forall|j: int| 0 <= j < n ==> merged@[j] == merged_flag(s, j),
            out@ == kept_prefix(s, i as int),
        decreases n - i,
    {
        proof {
            lemma_frame_in_bounds(s, i as int);
        }
        if merged[i] {
            let mut j = pos;
            while j < pos + VAD_FRAME_SIZE
                invariant
                    s == audio@,
                    pos <= j <= pos + VAD_FRAME_SIZE <= len,
                    len == s.len(),
                    out@ == kept_prefix(s, i as int)
                        + s.subrange(pos as int, j as int),
                decreases pos + VAD_FRAME_SIZE - j,
            {
                out.push(audio[j]);
                proof {
                    assert(out@ =~= kept_prefix(s, i as int)
                        + s.subrange(pos as int, j + 1));
                }
                j = j + 1;
            }
        }
        proof {
            if merged@[i as int] {
                assert(out@ =~= kept_prefix(s, i + 1));
            } else {
                assert(out@ =~= kept_prefix(s, i + 1));
            }
        }
        pos = pos + VAD_FRAME_SIZE;
        i = i + 1;
    }
    if merged[n - 1] {
        let mut j = pos;
        while j < len
            invariant
                s == audio@,
                pos <= j <= len,
                len == s.len(),
                out@ == kept_prefix(s, n as int) + s.subrange(pos as int, j as int),
            decreases len - j,
        {
            out.push(audio[j]);
            proof {
                assert(out@ =~= kept_prefix(s, n as int) + s.subrange(pos as int, j + 1));
            }
            j = j + 1;
        }
    }
    proof {
        assert(out@ =~= vad_extracted(s));
    }
    out
}

/// Peak normalization for the transcription engine (see `stt_normalized`).
pub fn normalize_audio(audio: &Vec<i16>) -> (r: Vec<i16>)
    ensures
        r@ == stt_normalized(audio@),
{
    if audio.len() == 0 {
        return Vec::new();
    }
    let peak = crate::wakeword::peak_amplitude(audio);
    if peak < MIN_PEAK_FOR_NORMALIZATION as i32 || peak >= NORMALIZATION_TARGET as i32 {
        return copy_range(audio, 0, audio.len());
    }
    let mut out: Vec<i16> = Vec::new();
    let mut i: usize = 0;
    while i < audio.len()
        invariant
            i <= audio@.len(),
            33 <= peak < 29491,
            peak == peak_abs(audio@),
            out@.len() == i,
            forall|j: int|
                0 <= j < i ==> out@[j] == clamp_i16(
                    tdiv(audio@[j] * NORMALIZATION_TARGET as int, peak as int)) as i16,
        decreases audio@.len() - i,
    {
        let v = audio[i];
        let amplified: i64 = tdiv_i64((v as i64) * (NORMALIZATION_TARGET as i64), peak as i64);
        out.push(clamp_sample(amplified));
        i = i + 1;
    }
    proof {
        assert(out@ =~= stt_normalized(audio@));
    }
    out
}

} // verus!
