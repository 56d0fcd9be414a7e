//! Per-utterance recording state machine: accumulates samples (seeded with a
//! lookback window), estimates energy by a smoothed RMS, calibrates an
//! adaptive noise floor over an initial window, and decides end-of-utterance
//! by debounced silence counting under a hard length cap.
//!
//! Energies live on the same Q15 scale as the samples: the RMS of a chunk of
//! 16-bit samples is between 0 and 32768.

use vstd::prelude::*;
use crate::math::{isqrt_spec, isqrt64, lemma_isqrt_bounds};
use vstd::arithmetic::div_mod::{lemma_div_pos_is_pos, lemma_multiply_divide_le};

verus! {

/// Smallest admissible noise floor (about 0.001 of full scale in Q15):
/// guards against a zero effective threshold in an extremely quiet room.
pub const NOISE_FLOOR_MIN: u32 = 33;

/// Sum of the squares of the samples of a chunk.
pub open spec fn sum_squares(s: Seq<i16>) -> int
    decreases s.len(),
{
    if s.len() == 0 {
        0
    } else {
        sum_squares(s.drop_last()) + s.last() * s.last()
    }
}

/// The sum of squares is non-negative and at most `len * 32768^2`.
pub proof fn lemma_sum_squares_bounds(s: Seq<i16>)
    ensures
        0 <= sum_squares(s) <= s.len() * 0x4000_0000,
    decreases s.len(),
{
    if s.len() == 0 {
    } else {
        lemma_sum_squares_bounds(s.drop_last());
        let x = s.last() as int;
        assert(0 <= x * x <= 0x4000_0000) by (nonlinear_arith)
            requires
                -32768 <= x <= 32767,
        ;
        assert((s.len() - 1) * 0x4000_0000 + 0x4000_0000 == s.len() * 0x4000_0000)
            by (nonlinear_arith);
    }
}

/// Root-mean-square amplitude of a non-empty chunk, rounded down.
pub open spec fn chunk_rms(s: Seq<i16>) -> int
    recommends
        s.len() > 0,
{
    isqrt_spec((sum_squares(s) / s.len() as int) as nat) as int
}

/// The RMS of a chunk of 16-bit samples is on the Q15 scale.
pub proof fn lemma_chunk_rms_range(s: Seq<i16>)
    requires
        s.len() > 0,
    ensures
        0 <= chunk_rms(s) <= 32768,
{
    lemma_sum_squares_bounds(s);
    lemma_div_pos_is_pos(sum_squares(s), s.len() as int);
    lemma_multiply_divide_le(sum_squares(s), s.len() as int, 0x4000_0000);
    let m = (sum_squares(s) / s.len() as int) as nat;
    lemma_isqrt_bounds(m);
    if isqrt_spec(m) > 32768 {
        assert(isqrt_spec(m) * isqrt_spec(m) > 0x4000_0000) by (nonlinear_arith)
            requires
                isqrt_spec(m) > 32768,
        ;
    }
}

/// Exponential-moving-average update of the smoothed RMS with Q15 factor
/// `alpha`; the first measurement initializes the estimate directly.
pub open spec fn ema(alpha: int, frame: int, smoothed: int) -> int {
    if smoothed == 0 {
        frame
    } else {
        (alpha * frame + (32768 - alpha) * smoothed) / 32768
    }
}

/// An EMA of Q15-scale values stays on the Q15 scale.
pub proof fn lemma_ema_range(alpha: int, frame: int, smoothed: int)
    requires
        0 <= alpha <= 32768,
        0 <= frame <= 32768,
        0 <= smoothed <= 32768,
    ensures
        0 <= ema(alpha, frame, smoothed) <= 32768,
{
    if smoothed != 0 {
        assert(0 <= alpha * frame + (32768 - alpha) * smoothed <= 0x4000_0000)
            by (nonlinear_arith)
            requires
                0 <= alpha <= 32768,
                0 <= frame <= 32768,
                0 <= smoothed <= 32768,
        ;
        lemma_div_pos_is_pos(alpha * frame + (32768 - alpha) * smoothed, 32768);
        lemma_multiply_divide_le(alpha * frame + (32768 - alpha) * smoothed, 32768, 32768);
    }
}

/// Abstract state of a recording session; all energies are Q15 values.
pub ghost struct RecModel {
    pub samples: Seq<i16>,
    pub is_recording: bool,
    pub speech_detected: bool,
    pub consecutive_silence: int,
    pub silence_samples_threshold: int,
    pub max_samples: int,
    pub silence_threshold: int,
    pub current_level: int,
    pub smoothed_rms: int,
    pub smoothing_alpha: int,
    pub noise_floor: int,
    pub calibration_complete: bool,
    pub calibration_duration: int,
    pub calibration_rms_sum: int,
    pub calibration_rms_count: int,
    pub relative_threshold_multiplier: int,
    pub silent_frame_count: int,
    pub debounce_frames: int,
}

/// The effective speech threshold: the calibrated noise floor scaled by the
/// Q15 multiplier.
pub open spec fn effective_threshold(m: RecModel) -> int {
    m.noise_floor * m.relative_threshold_multiplier / 32768
}

/// One `add_samples` transition of the state machine on `chunk`.
///
/// Inactive sessions ignore input. Otherwise the chunk joins the accumulated
/// samples and (if non-empty) updates the smoothed RMS. While calibrating,
/// the chunk RMS joins the running mean, and once enough samples have
/// accumulated the noise floor is finalized (mean of the observed RMS values,
/// floored at `NOISE_FLOOR_MIN`, or the configured silence threshold if
/// nothing was summed) — that chunk gets no speech/silence evaluation. While
/// listening, energy at or above the effective threshold marks speech and
/// cancels any accumulating silence; energy below it, once speech has been
/// seen, counts a silent frame, and only after `debounce_frames` consecutive
/// silent frames does the chunk's length join the consecutive-silence count.
pub open spec fn rec_step(m: RecModel, chunk: Seq<i16>) -> RecModel {
    if !m.is_recording {
        m
    } else {
        let m1 = RecModel { samples: m.samples + chunk, ..m };
        if chunk.len() == 0 {
            m1
        } else {
            let frame_rms = chunk_rms(chunk);
            let sm = ema(m.smoothing_alpha, frame_rms, m.smoothed_rms);
            let m2 = RecModel { smoothed_rms: sm, current_level: sm, ..m1 };
            if !m.calibration_complete {
                let sum = m.calibration_rms_sum + frame_rms;
                let count = m.calibration_rms_count + 1;
                let m3 = RecModel {
                    calibration_rms_sum: sum,
                    calibration_rms_count: count,
                    ..m2
                };
                if m1.samples.len() >= m.calibration_duration {
                    let floor0 = if count > 0 {
                        let mean = sum / count;
                        if mean > NOISE_FLOOR_MIN as int {
                            mean
                        } else {
                            NOISE_FLOOR_MIN as int
                        }
                    } else {
                        m.silence_threshold
                    };
                    RecModel { noise_floor: floor0, calibration_complete: true, ..m3 }
                } else {
                    m3
                }
            } else {
                if sm >= effective_threshold(m) {
                    RecModel {
                        speech_detected: true,
                        consecutive_silence: 0,
                        silent_frame_count: 0,
                        ..m2
                    }
                } else if m.speech_detected {
                    let sfc = m.silent_frame_count + 1;
                    if sfc >= m.debounce_frames {
                        RecModel {
                            silent_frame_count: sfc,
                            consecutive_silence: m.consecutive_silence + chunk.len(),
                            ..m2
                        }
                    } else {
                        RecModel { silent_frame_count: sfc, ..m2 }
                    }
                } else {
                    m2
                }
            }
        }
    }
}

/// Whether a session in state `m` should end: it is inactive, or the hard
/// sample cap is reached, or speech was detected and enough debounced
/// silence has followed it.
pub open spec fn spec_should_stop(m: RecModel) -> bool {
    ||| !m.is_recording
    ||| m.samples.len() >= m.max_samples
    ||| (m.speech_detected && m.consecutive_silence >= m.silence_samples_threshold)
}

/// Recording session state. Counters mirror `RecModel` exactly; energies are
/// Q15 values in `u32`, and the calibration sum is wide enough never to
/// overflow.
pub struct RecordingState {
    samples: Vec<i16>,
    is_recording: bool,
    speech_detected: bool,
    consecutive_silence: usize,
    silence_samples_threshold: usize,
    max_samples: usize,
    silence_threshold: u32,
    current_level: u32,
    smoothed_rms: u32,
    smoothing_alpha: u32,
    noise_floor: u32,
    calibration_complete: bool,
    calibration_duration: usize,
    calibration_rms_sum: u128,
    calibration_rms_count: usize,
    relative_threshold_multiplier: u32,
    silent_frame_count: usize,
    debounce_frames: usize,
}

impl RecordingState {
    /// The abstract state.
    pub closed spec fn view(self) -> RecModel {
        RecModel {
            samples: self.samples@,
            is_recording: self.is_recording,
            speech_detected: self.speech_detected,
            consecutive_silence: self.consecutive_silence as int,
            silence_samples_threshold: self.silence_samples_threshold as int,
            max_samples: self.max_samples as int,
            silence_threshold: self.silence_threshold as int,
            current_level: self.current_level as int,
            smoothed_rms: self.smoothed_rms as int,
            smoothing_alpha: self.smoothing_alpha as int,
            noise_floor: self.noise_floor as int,
            calibration_complete: self.calibration_complete,
            calibration_duration: self.calibration_duration as int,
            calibration_rms_sum: self.calibration_rms_sum as int,
            calibration_rms_count: self.calibration_rms_count as int,
            relative_threshold_multiplier: self.relative_threshold_multiplier as int,
            silent_frame_count: self.silent_frame_count as int,
            debounce_frames: self.debounce_frames as int,
        }
    }

    /// Range invariants that keep every update free of overflow.
    pub closed spec fn wf(self) -> bool {
        &&& self.smoothing_alpha <= 32768
        &&& self.silence_threshold <= 32768
        &&& self.smoothed_rms <= 32768
        &&& self.current_level <= 32768
        &&& self.noise_floor <= 32768
        &&& self.is_recording ==> {
            &&& self.consecutive_silence <= self.samples@.len()
            &&& self.silent_frame_count <= self.samples@.len()
        }
        &&& self.is_recording && !self.calibration_complete ==> {
            &&& self.calibration_rms_count <= self.samples@.len()
            &&& self.calibration_rms_sum <= self.calibration_rms_count as int * 32768
        }
    }

    /// A fresh, inactive session with the documented fallback configuration.
    pub fn new() -> (r: RecordingState)
        ensures
            r.wf(),
            r@.is_recording == false,
            r@.samples == Seq::<i16>::empty(),
            r@.speech_detected == false,
            r@.silence_threshold == 328,
            r@.smoothing_alpha == 3277,
            r@.relative_threshold_multiplier == 98304,
            r@.debounce_frames == 3,
    {
        RecordingState {
            samples: Vec::new(),
            is_recording: false,
            speech_detected: false,
            consecutive_silence: 0,
            silence_samples_threshold: 0,
            max_samples: 0,
            silence_threshold: 328,
            current_level: 0,
            smoothed_rms: 0,
            smoothing_alpha: 3277,
            noise_floor: 0,
            calibration_complete: false,
            calibration_duration: 0,
            calibration_rms_sum: 0,
            calibration_rms_count: 0,
            relative_threshold_multiplier: 98304,
            silent_frame_count: 0,
            debounce_frames: 3,
        }
    }

    /// Starts a session: seeds the accumulated samples with the lookback
    /// window, resets every counter, derives the calibration window length
    /// from the configured duration (milliseconds) and the sample rate, and
    /// enters the calibrating sub-state.
    pub fn start(
        &mut self,
        lookback: Vec<i16>,
        max_samples: usize,
        silence_samples_threshold: usize,
        silence_threshold: u32,
        sample_rate: u32,
        smoothing_alpha: u32,
        relative_threshold_multiplier: u32,
        calibration_duration_ms: u32,
        debounce_frames: usize,
    )
        requires
            silence_threshold <= 32768,
            smoothing_alpha <= 32768,
            calibration_duration_ms as int * sample_rate as int / 1000 <= usize::MAX,
        ensures
            final(self).wf(),
            final(self)@ == (RecModel {
                samples: lookback@,
                is_recording: true,
                speech_detected: false,
                consecutive_silence: 0,
                silence_samples_threshold: silence_samples_threshold as int,
                max_samples: max_samples as int,
                silence_threshold: silence_threshold as int,
                current_level: 0,
                smoothed_rms: 0,
                smoothing_alpha: smoothing_alpha as int,
                noise_floor: 0,
                calibration_complete: false,
                calibration_duration:
                    calibration_duration_ms as int * sample_rate as int / 1000,
                calibration_rms_sum: 0,
                calibration_rms_count: 0,
                relative_threshold_multiplier: relative_threshold_multiplier as int,
                silent_frame_count: 0,
                debounce_frames: debounce_frames as int,
            }),
    {
        proof {
            assert((calibration_duration_ms as int) * (sample_rate as int)
                <= 0xffff_ffff * 0x1_0000_0000i64) by (nonlinear_arith)
                requires
                    calibration_duration_ms <= 0xffff_ffffu32,
                    sample_rate <= 0xffff_ffffu32,
            ;
        }
        let duration: u64 = (calibration_duration_ms as u64) * (sample_rate as u64) / 1000;
        self.samples = lookback;
        self.is_recording = true;
        self.speech_detected = false;
        self.consecutive_silence = 0;
        self.silence_samples_threshold = silence_samples_threshold;
        self.max_samples = max_samples;
        self.silence_threshold = silence_threshold;
        self.current_level = 0;
        self.smoothed_rms = 0;
        self.smoothing_alpha = smoothing_alpha;
        self.noise_floor = 0;
        self.calibration_complete = false;
        self.calibration_duration = duration as usize;
        self.calibration_rms_sum = 0;
        self.calibration_rms_count = 0;
        self.relative_threshold_multiplier = relative_threshold_multiplier;
        self.silent_frame_count = 0;
        self.debounce_frames = debounce_frames;
    }

    /// Ends the session and hands back everything accumulated; the session
    /// returns to inactive, ready for reuse.
    pub fn stop(&mut self) -> (r: Vec<i16>)
        requires
            old(self).wf(),
        ensures
            final(self).wf(),
            r@ == old(self)@.samples,
            final(self)@ == (RecModel {
                samples: Seq::<i16>::empty(),
                is_recording: false,
                ..old(self)@
            }),
    {
        self.is_recording = false;
        let mut out: Vec<i16> = Vec::new();
        core::mem::swap(&mut out, &mut self.samples);
        out
    }

    /// Whether the session should end now (see `spec_should_stop`).
    pub fn should_stop(&self) -> (r: bool)
        ensures
            r == spec_should_stop(self@),
    {
        if !self.is_recording {
            return true;
        }
        if self.samples.len() >= self.max_samples {
            return true;
        }
        if self.speech_detected && self.consecutive_silence >= self.silence_samples_threshold {
            return true;
        }
        false
    }

    /// Number of samples accumulated so far.
    pub fn samples_len(&self) -> (r: usize)
        ensures
            r == self@.samples.len(),
    {
        self.samples.len()
    }

    /// The smoothed energy level and whether speech has been detected.
    pub fn current_level(&self) -> (r: (u32, bool))
        ensures
            r.0 == self@.current_level,
            r.1 == self@.speech_detected,
    {
        (self.current_level, self.speech_detected)
    }

    /// Feeds one chunk of samples through the state machine (see `rec_step`).
    pub fn add_samples(&mut self, chunk: &Vec<i16>)
        requires
            old(self).wf(),
        ensures
            final(self).wf(),
            final(self)@ == rec_step(old(self)@, chunk@),
    {
        if !self.is_recording {
            return;
        }
        let ghost m = self@;
        self.samples.extend_from_slice(chunk.as_slice());
        proof {
            assert(self.samples@ =~= m.samples + chunk@);
        }
        if chunk.len() == 0 {
            proof {
                assert(self@ =~= rec_step(m, chunk@));
            }
            return;
        }

        let frame_rms = rms_of_chunk(chunk);
        proof {
            lemma_chunk_rms_range(chunk@);
        }

        // exponential smoothing; the first measurement initializes directly
        if self.smoothed_rms == 0 {
            self.smoothed_rms = frame_rms;
        } else {
            proof {
                assert((self.smoothing_alpha as int) * (frame_rms as int) <= 0x4000_0000
                    && (32768 - self.smoothing_alpha as int) * (self.smoothed_rms as int)
                        <= 0x4000_0000) by (nonlinear_arith)
                    requires
                        0 <= (self.smoothing_alpha as int) <= 32768,
                        0 <= (frame_rms as int) <= 32768,
                        0 <= (self.smoothed_rms as int) <= 32768,
                ;
            }
            let num: u64 = (self.smoothing_alpha as u64) * (frame_rms as u64)
                + ((32768 - self.smoothing_alpha) as u64) * (self.smoothed_rms as u64);
            proof {
                lemma_ema_range(self.smoothing_alpha as int, frame_rms as int,
                    self.smoothed_rms as int);
            }
            self.smoothed_rms = (num / 32768) as u32;
        }
        self.current_level = self.smoothed_rms;

        if !self.calibration_complete {
            let new_total = self.samples.len();
            assert(self.calibration_rms_count < new_total);
            self.calibration_rms_sum = self.calibration_rms_sum + frame_rms as u128;
            self.calibration_rms_count = self.calibration_rms_count + 1;
            proof {
                assert(self.calibration_rms_sum <= self.calibration_rms_count as int * 32768)
                    by (nonlinear_arith)
                    requires
                        self.calibration_rms_sum as int
                            <= (self.calibration_rms_count as int - 1) * 32768 + frame_rms,
                        frame_rms <= 32768,
                ;
            }
            if self.samples.len() >= self.calibration_duration {
                if self.calibration_rms_count > 0 {
                    let mean: u128 = self.calibration_rms_sum
                        / (self.calibration_rms_count as u128);
                    proof {
                        lemma_div_pos_is_pos(self.calibration_rms_sum as int,
                            self.calibration_rms_count as int);
                        lemma_multiply_divide_le(self.calibration_rms_sum as int,
                            self.calibration_rms_count as int, 32768);
                    }
                    let mean32 = mean as u32;
                    self.noise_floor = if mean32 > NOISE_FLOOR_MIN {
                        mean32
                    } else {
                        NOISE_FLOOR_MIN
                    };
                } else {
                    self.noise_floor = self.silence_threshold;
                }
                self.calibration_complete = true;
            }
            proof {
                assert(self@ =~= rec_step(m, chunk@));
            }
            return;
        }

        proof {
            assert((self.noise_floor as int) * (self.relative_threshold_multiplier as int)
                <= 32768 * 0xffff_ffffi64) by (nonlinear_arith)
                requires
                    0 <= (self.noise_floor as int) <= 32768,
                    0 <= (self.relative_threshold_multiplier as int) <= 0xffff_ffffi64,
            ;
        }
        let effective: u64 = (self.noise_floor as u64)
            * (self.relative_threshold_multiplier as u64) / 32768;
        if self.smoothed_rms as u64 >= effective {
            self.speech_detected = true;
            self.consecutive_silence = 0;
            self.silent_frame_count = 0;
        } else if self.speech_detected {
            let new_total = self.samples.len();
            assert(self.silent_frame_count < new_total);
            assert(self.consecutive_silence + chunk@.len() <= new_total);
            self.silent_frame_count = self.silent_frame_count + 1;
            if self.silent_frame_count >= self.debounce_frames {
                self.consecutive_silence = self.consecutive_silence + chunk.len();
            }
        }
        proof {
            assert(self@ =~= rec_step(m, chunk@));
        }
    }
}

/// Computes the RMS of a non-empty chunk: the integer square root of the
/// mean of the squared samples.
pub fn rms_of_chunk(chunk: &Vec<i16>) -> (r: u32)
    requires
        chunk@.len() > 0,
    ensures
        r == chunk_rms(chunk@),
        r <= 32768,
{
    let mut sum: u128 = 0;
    let mut i: usize = 0;
    proof {
        lemma_sum_squares_bounds(chunk@);
    }
    while i < chunk.len()
        invariant
            i <= chunk@.len(),
            sum == sum_squares(chunk@.subrange(0, i as int)),
            sum <= i as int * 0x4000_0000,
        decreases chunk@.len() - i,
    {
        let s = chunk[i] as i64;
        proof {
            assert(0 <= s * s <= 0x4000_0000) by (nonlinear_arith)
                requires
                    -32768 <= s <= 32767,
            ;
        }
        let sq: u64 = (s * s) as u64;
        proof {
            assert(chunk@.subrange(0, i + 1).drop_last() =~= chunk@.subrange(0, i as int));
            assert(chunk@.subrange(0, i + 1).last() == chunk@[i as int]);
            assert((i as int) * 0x4000_0000 + 0x4000_0000 == (i + 1) as int * 0x4000_0000)
                by (nonlinear_arith);
        }
        sum = sum + sq as u128;
        i = i + 1;
    }
    proof {
        assert(chunk@.subrange(0, chunk@.len() as int) =~= chunk@);
        lemma_div_pos_is_pos(sum as int, chunk@.len() as int);
        lemma_multiply_divide_le(sum as int, chunk@.len() as int, 0x4000_0000);
    }
    let mean: u128 = sum / (chunk.len() as u128);
    let r = isqrt64(mean as u64);
    proof {
        lemma_chunk_rms_range(chunk@);
    }
    r
}

/// During a calibration in which every chunk carries the same RMS `r`, the
/// running sum stays a perfect multiple of the chunk count, and the noise
/// floor finalized at the end of the window is exactly `r` — or the floor
/// minimum where that is larger.
pub proof fn lemma_calibration_equal_rms(m: RecModel, chunk: Seq<i16>, r: int)
    requires
        m.is_recording,
        !m.calibration_complete,
        chunk.len() > 0,
        chunk_rms(chunk) == r,
        m.calibration_rms_sum == m.calibration_rms_count * r,
        m.calibration_rms_count >= 0,
        r >= 0,
    ensures
        ({
            let m2 = rec_step(m, chunk);
            &&& !m2.calibration_complete ==> m2.calibration_rms_sum
                == m2.calibration_rms_count * r
            &&& m2.calibration_complete ==> m2.noise_floor == if r > NOISE_FLOOR_MIN as int {
                r
            } else {
                NOISE_FLOOR_MIN as int
            }
        }),
{
    let m2 = rec_step(m, chunk);
    let count = m.calibration_rms_count + 1;
    let sum = m.calibration_rms_sum + r;
    assert(sum == count * r) by (nonlinear_arith)
        requires
            m.calibration_rms_sum == m.calibration_rms_count * r,
            sum == m.calibration_rms_sum + r,
            count == m.calibration_rms_count + 1,
    ;
    if m.samples.len() + chunk.len() >= m.calibration_duration {
        vstd::arithmetic::div_mod::lemma_div_multiples_vanish(r, count);
        assert(sum / count == r);
    }
}

/// Debounced silence counting: once speech has been detected, a chunk whose
/// smoothed energy falls below the effective threshold counts one silent
/// frame, but the chunk's length joins the consecutive-silence total only
/// once `debounce_frames` consecutive silent frames have accumulated — a
/// single short dip cannot end an utterance.
pub proof fn lemma_silence_debounce(m: RecModel, chunk: Seq<i16>)
    requires
        m.is_recording,
        m.calibration_complete,
        m.speech_detected,
        chunk.len() > 0,
        ema(m.smoothing_alpha, chunk_rms(chunk), m.smoothed_rms) < effective_threshold(m),
    ensures
        rec_step(m, chunk).silent_frame_count == m.silent_frame_count + 1,
        m.silent_frame_count + 1 < m.debounce_frames ==> rec_step(m, chunk).consecutive_silence
            == m.consecutive_silence,
        m.silent_frame_count + 1 >= m.debounce_frames ==> rec_step(m, chunk).consecutive_silence
            == m.consecutive_silence + chunk.len(),
{
}

/// A run of consecutive below-threshold chunks, each non-empty. The run is
/// "below threshold" step by step: every chunk's smoothed energy, at the
/// state it meets, falls short of the effective threshold.
pub open spec fn all_below_threshold(m: RecModel, chunks: Seq<Seq<i16>>) -> bool
    decreases chunks.len(),
{
    chunks.len() == 0 || {
        &&& chunks.first().len() > 0
        &&& ema(m.smoothing_alpha, chunk_rms(chunks.first()), m.smoothed_rms)
            < effective_threshold(m)
        &&& all_below_threshold(rec_step(m, chunks.first()), chunks.drop_first())
    }
}

/// The state after feeding every chunk of a run in order.
pub open spec fn rec_run(m: RecModel, chunks: Seq<Seq<i16>>) -> RecModel
    decreases chunks.len(),
{
    if chunks.len() == 0 {
        m
    } else {
        rec_run(rec_step(m, chunks.first()), chunks.drop_first())
    }
}

/// The samples a run of silent chunks adds to the consecutive-silence total
/// when the silent-frame count starts at `sfc` against debounce bound `d`:
/// only the chunks from the `d`-th consecutive silent frame on are counted.
pub open spec fn counted_silence(sfc: int, d: int, chunks: Seq<Seq<i16>>) -> int
    decreases chunks.len(),
{
    if chunks.len() == 0 {
        0
    } else {
        (if sfc + 1 >= d {
            chunks.first().len() as int
        } else {
            0
        }) + counted_silence(sfc + 1, d, chunks.drop_first())
    }
}

/// Debounce over a whole run: feeding consecutive below-threshold chunks
/// after speech advances the silent-frame count one per chunk, and the
/// consecutive-silence total grows only by the chunks from the
/// `debounce_frames`-th silent frame on — so a run shorter than the
/// debounce bound leaves the total untouched, and the chunk that reaches
/// the bound is the first to count.
pub proof fn lemma_debounce_run(m: RecModel, chunks: Seq<Seq<i16>>)
    requires
        m.is_recording,
        m.calibration_complete,
        m.speech_detected,
        all_below_threshold(m, chunks),
    ensures
        rec_run(m, chunks).is_recording,
        rec_run(m, chunks).calibration_complete,
        rec_run(m, chunks).speech_detected,
        rec_run(m, chunks).silent_frame_count == m.silent_frame_count + chunks.len(),
        rec_run(m, chunks).consecutive_silence == m.consecutive_silence
            + counted_silence(m.silent_frame_count, m.debounce_frames, chunks),
    decreases chunks.len(),
{
    if chunks.len() > 0 {
        let m1 = rec_step(m, chunks.first());
        assert(m1.silent_frame_count == m.silent_frame_count + 1);
        assert(m1.noise_floor == m.noise_floor
            && m1.relative_threshold_multiplier == m.relative_threshold_multiplier);
        lemma_debounce_run(m1, chunks.drop_first());
    }
}

/// A chunk at or above the effective threshold marks speech and cancels any
/// accumulating silence, whatever had been counted before.
pub proof fn lemma_speech_cancels_silence(m: RecModel, chunk: Seq<i16>)
    requires
        m.is_recording,
        m.calibration_complete,
        chunk.len() > 0,
        ema(m.smoothing_alpha, chunk_rms(chunk), m.smoothed_rms) >= effective_threshold(m),
    ensures
        rec_step(m, chunk).speech_detected,
        rec_step(m, chunk).consecutive_silence == 0,
        rec_step(m, chunk).silent_frame_count == 0,
{
}

/// The accumulated samples never shrink while a session is active, so the
/// session must stop no later than when they first reach the hard cap —
/// whatever the energy state says.
pub proof fn lemma_cap_stops_session(m: RecModel, chunk: Seq<i16>)
    ensures
        rec_step(m, chunk).samples.len() >= m.samples.len(),
        m.is_recording && m.samples.len() >= m.max_samples ==> spec_should_stop(m),
        rec_step(m, chunk).samples.len() >= m.max_samples ==> spec_should_stop(
            rec_step(m, chunk)),
{
}

} // verus!
