//! The capture core: owns the ring buffer and the recording state machine,
//! mixes incoming hardware frames to mono with gain, and serves the public
//! read/record operations at the target rate. The real-time plumbing (the
//! hardware callback, polling waits and warmup timing) lives outside; every
//! decision and every transformation of sample data is here.

use vstd::prelude::*;
use crate::math::{tdiv, tdiv_i64, scale_q15, apply_gain_q15};
use crate::ring::{RingBuffer, latest_of, stream_chunk, unread_of, rectified};
use crate::recording::{RecordingState, RecModel, rec_step, spec_should_stop};
use crate::resample::{resample, resampled};
use vstd::arithmetic::div_mod::{
    lemma_div_pos_is_pos, lemma_multiply_divide_le, lemma_remainder_lower,
};
use vstd::arithmetic::mul::lemma_mul_inequality;
use vstd::string::StringExecFns;

verus! {

/// Ring capacity: two seconds at a 48 kHz device rate.
pub const RING_BUFFER_CAPACITY: usize = 96000;

/// Lookback window prepended to a recording: half a second at 48 kHz.
pub const LOOKBACK_SAMPLES: usize = 24000;

/// Errors of the capture service; the variants carry the device's own words.
pub enum CaptureError {
    NoInputDevice,
    ConfigError(String),
    StreamError(String),
    RecordingError(String),
}

impl CaptureError {
    /// A human-readable description of the error.
    pub fn message(&self) -> (r: String)
        ensures
            self is NoInputDevice ==> r@ == "no input device found"@,
            self matches CaptureError::ConfigError(d)
                ==> r@ == "failed to get a device configuration: "@ + d@,
            self matches CaptureError::StreamError(d)
                ==> r@ == "failed to run the input stream: "@ + d@,
            self matches CaptureError::RecordingError(d)
                ==> r@ == "error while recording: "@ + d@,
    {
        match self {
            CaptureError::NoInputDevice => String::from_str("no input device found"),
            CaptureError::ConfigError(d) => String::from_str("failed to get a device configuration: ").concat(d.as_str()),
            CaptureError::StreamError(d) => String::from_str("failed to run the input stream: ").concat(d.as_str()),
            CaptureError::RecordingError(d) => String::from_str("error while recording: ").concat(d.as_str()),
        }
    }
}

/// One supported input configuration of a device: a channel count and a
/// range of sample rates.
pub struct InputConfigRange {
    pub channels: u16,
    pub min_rate: u32,
    pub max_rate: u32,
}

/// Whether a configuration supports mono capture at `target` directly.
pub open spec fn config_matches(c: InputConfigRange, target: u32) -> bool {
    c.channels == 1 && c.min_rate <= target <= c.max_rate
}

/// Picks the first supported configuration that offers mono capture at the
/// target rate, as the device negotiation does; `None` when no configuration
/// fits and the device's default must be used (with resampling).
pub fn choose_input_config(configs: &Vec<InputConfigRange>, target: u32) -> (r: Option<usize>)
    ensures
        match r {
            Some(i) => {
                &&& 0 <= i < configs@.len()
                &&& config_matches(configs@[i as int], target)
                &&& forall|j: int| 0 <= j < i ==> !config_matches(configs@[j], target)
            },
            None => forall|j: int|
                0 <= j < configs@.len() ==> !config_matches(configs@[j], target),
        },
{
    let mut i: usize = 0;
    while i < configs.len()
        invariant
            i <= configs@.len(),
            forall|j: int| 0 <= j < i ==> !config_matches(configs@[j], target),
        decreases configs@.len() - i,
    {
        let c = &configs[i];
        if c.channels == 1 && c.min_rate <= target && target <= c.max_rate {
            return Some(i);
        }
        i = i + 1;
    }
    None
}

/// Integer ceiling division.
pub open spec fn ceil_div(a: int, b: int) -> int {
    (a + b - 1) / b
}

/// Sum of the samples of a chunk.
pub open spec fn seq_sum(s: Seq<i16>) -> int
    decreases s.len(),
{
    if s.len() == 0 {
        0
    } else {
        seq_sum(s.drop_last()) + s.last()
    }
}

/// The sum of a chunk of 16-bit samples is bounded by its length.
pub proof fn lemma_seq_sum_bounds(s: Seq<i16>)
    ensures
        -32768 * s.len() <= seq_sum(s) <= 32767 * s.len(),
    decreases s.len(),
{
    if s.len() > 0 {
        lemma_seq_sum_bounds(s.drop_last());
    }
}

/// The `k`-th interleaved frame of `frame` for `ch` channels: a full group
/// of `ch` samples, or the shorter trailing group.
pub open spec fn frame_group(frame: Seq<i16>, ch: int, k: int) -> Seq<i16> {
    frame.subrange(
        k * ch,
        if (k + 1) * ch <= frame.len() {
            (k + 1) * ch
        } else {
            frame.len() as int
        },
    )
}

/// The `k`-th mono sample: the group averaged over the channel count
/// (truncating, as the hardware path does), gain-scaled and clamped.
pub open spec fn mixed_sample(frame: Seq<i16>, ch: int, gain: int, k: int) -> int {
    scale_q15(tdiv(seq_sum(frame_group(frame, ch, k)), ch), gain)
}

/// The mono mix of an interleaved hardware frame: each group of `ch`
/// samples averaged, gain-adjusted and hard-clamped to the sample range.
pub open spec fn mono_mixed(frame: Seq<i16>, ch: int, gain: int) -> Seq<i16> {
    Seq::new(ceil_div(frame.len() as int, ch) as nat, |k: int| mixed_sample(frame, ch, gain, k) as i16)
}

/// Mixes an interleaved frame down to mono with the given Q15 gain.
pub fn mix_to_mono(frame: &Vec<i16>, channels: usize, gain: u32) -> (r: Vec<i16>)
    requires
        0 < channels <= 65535,
    ensures
        r@ == mono_mixed(frame@, channels as int, gain as int),
{
    let len = frame.len();
    let ghost ch = channels as int;
    let mut mono: Vec<i16> = Vec::new();
    let mut pos: usize = 0;
    let mut k: usize = 0;
    while pos < len
        invariant
            0 < channels <= 65535,
            ch == channels as int,
            len == frame@.len(),
            pos <= len,
            pos == k * ch || (pos == len && len < k * ch),
            k > 0 ==> (k - 1) * ch < pos,
            mono@.len() == k,
            forall|j: int|
                0 <= j < k ==> mono@[j] == mixed_sample(frame@, ch, gain as int, j) as i16,
        decreases len - pos,
    {
        assert(pos == k * ch);
        let end = if len - pos > channels {
            pos + channels
        } else {
            len
        };
        let ghost group = frame_group(frame@, ch, k as int);
        proof {
            assert((k + 1) * ch == k * ch + ch) by (nonlinear_arith);
            assert(group =~= frame@.subrange(pos as int, end as int));
            assert(frame@.subrange(pos as int, pos as int) =~= Seq::<i16>::empty());
        }
        let mut sum: i64 = 0;
        let mut j: usize = pos;
        while j < end
            invariant
                pos <= j <= end <= len,
                len == frame@.len(),
                end - pos <= channels <= 65535,
                sum == seq_sum(frame@.subrange(pos as int, j as int)),
                -32768 * (j - pos) <= sum <= 32767 * (j - pos),
            decreases end - j,
        {
            proof {
                assert(frame@.subrange(pos as int, j + 1).drop_last()
                    =~= frame@.subrange(pos as int, j as int));
            }
            sum = sum + frame[j] as i64;
            j = j + 1;
        }
        let avg: i64 = tdiv_i64(sum, channels as i64);
        proof {
            assert(group == frame@.subrange(pos as int, end as int));
            // the truncating average of a group lies in the sample range
            if sum >= 0 {
                assert(sum <= 32767 * ch) by (nonlinear_arith)
                    requires
                        sum <= 32767 * (end - pos),
                        end - pos <= ch,
                ;
                lemma_multiply_divide_le(sum as int, ch, 32767);
            } else {
                assert(-sum <= 32768 * ch) by (nonlinear_arith)
                    requires
                        -32768 * (end - pos) <= sum,
                        end - pos <= ch,
                ;
                lemma_multiply_divide_le(-sum as int, ch, 32768);
            }
            assert(-32768 <= avg <= 32767);
        }
        let mixed = apply_gain_q15(avg as i16, gain);
        mono.push(mixed);
        proof {
            assert(avg == tdiv(seq_sum(group), ch));
            assert(mixed == mixed_sample(frame@, ch, gain as int, k as int) as i16);
        }
        proof {
            assert(k <= pos) by (nonlinear_arith)
                requires
                    pos == k * ch,
                    ch >= 1,
                    k >= 0,
            ;
        }
        pos = end;
        k = k + 1;
        proof {
            assert((k - 1) * ch + ch == k * ch) by (nonlinear_arith);
        }
    }
    proof {
        // the loop consumed exactly ceil(len / ch) groups
        lemma_group_count(len as int, ch, k as int);
        assert(mono@ =~= mono_mixed(frame@, ch, gain as int));
    }
    mono
}

/// A walk that covers `len` samples in groups of `ch` (the last possibly
/// short) takes exactly `ceil(len / ch)` steps.
proof fn lemma_group_count(len: int, ch: int, k: int)
    requires
        ch > 0,
        len >= 0,
        k >= 0,
        k == 0 ==> len == 0,
        k > 0 ==> (k - 1) * ch < len,
        len <= k * ch,
    ensures
        k == ceil_div(len, ch),
{
    if k == 0 {
        vstd::arithmetic::div_mod::lemma_fundamental_div_mod_converse_div(ch - 1, ch, 0, ch - 1);
    } else {
        let r = k * ch - len;
        assert(0 <= r);
        assert(r < ch) by (nonlinear_arith)
            requires
                (k - 1) * ch < len,
                r == k * ch - len,
                ch > 0,
        ;
        assert(len + ch - 1 == k * ch + (ch - 1 - r));
        vstd::arithmetic::div_mod::lemma_fundamental_div_mod_converse_div(
            len + ch - 1, ch, k, ch - 1 - r);
    }
}

/// The result of `ceil_div` never exceeds the dividend's first factor.
proof fn lemma_ceil_div_le(l: int, ch: int)
    requires
        l >= 0,
        ch >= 1,
    ensures
        0 <= ceil_div(l, ch) <= l,
{
    lemma_div_pos_is_pos(l + ch - 1, ch);
    assert(l + ch - 1 <= ch * l || l == 0) by (nonlinear_arith)
        requires
            l >= 0,
            ch >= 1,
    ;
    if l == 0 {
        vstd::arithmetic::div_mod::lemma_fundamental_div_mod_converse_div(ch - 1, ch, 0, ch - 1);
    } else {
        lemma_multiply_divide_le(l + ch - 1, ch, l);
    }
}

/// `s` padded with zeroes, or truncated, to exactly `n` entries.
pub open spec fn padded(s: Seq<i16>, n: int) -> Seq<i16> {
    Seq::new(n as nat, |i: int| if i < s.len() {
        s[i]
    } else {
        0i16
    })
}

/// Pads or truncates `v` to exactly `n` samples.
fn pad_to(v: &Vec<i16>, n: usize) -> (r: Vec<i16>)
    ensures
        r@ == padded(v@, n as int),
{
    let mut out: Vec<i16> = Vec::new();
    let mut i: usize = 0;
    while i < n
        invariant
            i <= n,
            out@.len() == i,
            forall|j: int| 0 <= j < i ==> out@[j] == padded(v@, n as int)[j],
        decreases n - i,
    {
        if i < v.len() {
            let x = v[i];
            out.push(x);
        } else {
            out.push(0i16);
        }
        i = i + 1;
    }
    proof {
        assert(out@ =~= padded(v@, n as int));
    }
    out
}

/// The capture service state: device and target rates negotiated at start,
/// the ring buffer fed by the hardware callback, and the recording session.
pub struct AudioCapture {
    sample_rate: u32,
    target_sample_rate: u32,
    input_gain: u32,
    smoothing_alpha: u32,
    relative_threshold_multiplier: u32,
    calibration_duration_ms: u32,
    debounce_frames: usize,
    ring: RingBuffer,
    recording: RecordingState,
    recording_active: bool,
}

impl AudioCapture {
    /// Structural invariant of the whole service.
    pub closed spec fn wf(self) -> bool {
        &&& self.ring.wf()
        &&& self.recording.wf()
        &&& self.sample_rate > 0
        &&& self.target_sample_rate > 0
        &&& self.smoothing_alpha <= 32768
    }

    /// Every sample ever written to the ring, in order.
    pub closed spec fn history(self) -> Seq<i16> {
        self.ring.history()
    }

    /// The ring's fixed capacity.
    pub closed spec fn capacity(self) -> int {
        self.ring.capacity()
    }

    /// The stream cursor's position.
    pub closed spec fn read_pos(self) -> int {
        self.ring.read_pos()
    }

    /// The recording session's abstract state.
    pub closed spec fn rec(self) -> RecModel {
        self.recording@
    }

    /// Whether the callback currently forwards samples to the session.
    pub closed spec fn is_active(self) -> bool {
        self.recording_active
    }

    /// The device's negotiated sample rate.
    pub closed spec fn device_rate(self) -> int {
        self.sample_rate as int
    }

    /// The fixed output rate of the public operations.
    pub closed spec fn target_rate(self) -> int {
        self.target_sample_rate as int
    }

    /// The configured input gain (Q15).
    pub closed spec fn gain(self) -> int {
        self.input_gain as int
    }

    /// The configured smoothing factor (Q15).
    pub closed spec fn alpha(self) -> int {
        self.smoothing_alpha as int
    }

    /// The configured threshold multiplier (Q15).
    pub closed spec fn multiplier(self) -> int {
        self.relative_threshold_multiplier as int
    }

    /// The configured calibration window, in milliseconds.
    pub closed spec fn calibration_ms(self) -> int {
        self.calibration_duration_ms as int
    }

    /// The configured debounce frame count.
    pub closed spec fn debounce(self) -> int {
        self.debounce_frames as int
    }

    /// Device samples needed to produce `n` output samples at the target
    /// rate: `ceil(n * device_rate / target_rate)`.
    pub open spec fn device_needed(self, n: int) -> int {
        ceil_div(n * self.device_rate(), self.target_rate())
    }

    /// Creates the service around an empty ring buffer and an idle session.
    /// The rates come from device negotiation; gain, smoothing, threshold
    /// multiplier, calibration window and debounce count are configuration.
    pub fn new(
        sample_rate: u32,
        target_sample_rate: u32,
        input_gain: u32,
        smoothing_alpha: u32,
        relative_threshold_multiplier: u32,
        calibration_duration_ms: u32,
        debounce_frames: usize,
    ) -> (r: AudioCapture)
        requires
            sample_rate > 0,
            target_sample_rate > 0,
            smoothing_alpha <= 32768,
        ensures
            r.wf(),
            r.history() == Seq::<i16>::empty(),
            r.capacity() == RING_BUFFER_CAPACITY,
            r.read_pos() == 0,
            !r.is_active(),
            !r.rec().is_recording,
            r.device_rate() == sample_rate,
            r.target_rate() == target_sample_rate,
            r.gain() == input_gain,
            r.alpha() == smoothing_alpha,
            r.multiplier() == relative_threshold_multiplier,
            r.calibration_ms() == calibration_duration_ms,
            r.debounce() == debounce_frames,
    {
        AudioCapture {
            sample_rate,
            target_sample_rate,
            input_gain,
            smoothing_alpha,
            relative_threshold_multiplier,
            calibration_duration_ms,
            debounce_frames,
            ring: RingBuffer::new(RING_BUFFER_CAPACITY),
            recording: RecordingState::new(),
            recording_active: false,
        }
    }

    /// The negotiated device rate and the target rate.
    pub fn rates(&self) -> (r: (u32, u32))
        ensures
            r.0 == self.device_rate(),
            r.1 == self.target_rate(),
    {
        (self.sample_rate, self.target_sample_rate)
    }

    /// Total number of samples the hardware has delivered.
    pub fn total_samples(&self) -> (r: u64)
        requires
            self.wf(),
        ensures
            r == self.history().len(),
    {
        self.ring.total_written()
    }

    /// The device-sample requirement for `n` output samples.
    pub fn device_samples(&self, num_samples: usize) -> (r: usize)
        requires
            self.wf(),
            num_samples * self.device_rate() + self.target_rate() <= usize::MAX,
        ensures
            r == self.device_needed(num_samples as int),
    {
        let n: u64 = (num_samples as u64) * (self.sample_rate as u64);
        let r64: u64 = (n + (self.target_sample_rate - 1) as u64) / (self.target_sample_rate as u64);
        proof {
            lemma_div_pos_is_pos(n + self.target_sample_rate - 1, self.target_rate());
            assert(self.target_rate() * (usize::MAX as int) >= usize::MAX as int)
                by (nonlinear_arith)
                requires
                    self.target_rate() >= 1,
            ;
            lemma_multiply_divide_le(
                n + self.target_sample_rate - 1,
                self.target_rate(),
                usize::MAX as int,
            );
        }
        r64 as usize
    }

    /// One hardware frame: mixed to mono with gain and clamping, written to
    /// the ring, and — while a recording session is active — also fed to the
    /// session's state machine. Never fails and never blocks.
    pub fn process_frame(&mut self, frame: &Vec<i16>, channels: usize)
        requires
            old(self).wf(),
            0 < channels <= 65535,
            old(self).history().len() + frame@.len() <= u64::MAX,
        ensures
            final(self).wf(),
            final(self).history() == old(self).history()
                + mono_mixed(frame@, channels as int, old(self).gain()),
            final(self).capacity() == old(self).capacity(),
            final(self).read_pos() == old(self).read_pos(),
            final(self).is_active() == old(self).is_active(),
            final(self).rec() == if old(self).is_active() {
                rec_step(old(self).rec(), mono_mixed(frame@, channels as int, old(self).gain()))
            } else {
                old(self).rec()
            },
            final(self).device_rate() == old(self).device_rate(),
            final(self).target_rate() == old(self).target_rate(),
            final(self).gain() == old(self).gain(),
    {
        let mono = mix_to_mono(frame, channels, self.input_gain);
        proof {
            lemma_ceil_div_le(frame@.len() as int, channels as int);
        }
        self.ring.write_samples(&mono);
        if self.recording_active {
            self.recording.add_samples(&mono);
        }
    }

    /// Windowed snapshot: the most recent `num_samples` output samples,
    /// resampled to the target rate and zero-padded when less audio exists.
    /// Repeated calls may overlap; no cursor moves.
    pub fn get_samples(&self, num_samples: usize) -> (r: Vec<i16>)
        requires
            self.wf(),
            num_samples * self.device_rate() + self.target_rate() <= usize::MAX,
        ensures
            r@ == padded(
                resampled(
                    latest_of(self.history(), self.capacity(), self.device_needed(
                        num_samples as int)),
                    self.device_rate(),
                    self.target_rate(),
                ),
                num_samples as int,
            ),
    {
        let dev = self.device_samples(num_samples);
        let samples = self.ring.read_latest(dev);
        proof {
            self.ring.lemma_wf_bounds();
            self.lemma_block_fits(num_samples as int, samples@.len() as int);
        }
        let rs = resample(&samples, self.sample_rate, self.target_sample_rate);
        pad_to(&rs, num_samples)
    }

    /// The device-sample cost of a block fits the resampler's size bound.
    proof fn lemma_block_fits(self, n: int, len: int)
        requires
            self.wf(),
            0 <= n,
            0 <= len <= self.device_needed(n),
            n * self.device_rate() + self.target_rate() <= usize::MAX,
        ensures
            len * self.target_rate() <= usize::MAX,
    {
        let sr = self.device_rate();
        let tr = self.target_rate();
        vstd::arithmetic::mul::lemma_mul_nonnegative(n, sr);
        lemma_remainder_lower(n * sr + tr - 1, tr);
        assert(self.device_needed(n) * tr <= n * sr + tr - 1);
        lemma_mul_inequality(len, self.device_needed(n), tr);
    }

    /// Whether enough unread device samples have accumulated to serve a
    /// sequential block of `num_samples` output samples without padding.
    pub fn stream_ready(&self, num_samples: usize) -> (r: bool)
        requires
            self.wf(),
            num_samples * self.device_rate() + self.target_rate() <= usize::MAX,
        ensures
            r == (unread_of(self.history().len() as int, self.capacity(), self.read_pos())
                >= self.device_needed(num_samples as int)),
    {
        let dev = self.device_samples(num_samples);
        self.ring.unread_samples() >= dev
    }

    /// Sequential block: consumes the next unread device samples through the
    /// stream cursor (rectifying past any overwritten data), resamples them
    /// to the target rate and pads to exactly `num_samples`. Successive
    /// blocks never overlap.
    pub fn record_stream_block(&mut self, num_samples: usize) -> (r: Vec<i16>)
        requires
            old(self).wf(),
            num_samples * old(self).device_rate() + old(self).target_rate() <= usize::MAX,
        ensures
            final(self).wf(),
            final(self).history() == old(self).history(),
            final(self).capacity() == old(self).capacity(),
            final(self).rec() == old(self).rec(),
            final(self).is_active() == old(self).is_active(),
            final(self).device_rate() == old(self).device_rate(),
            final(self).target_rate() == old(self).target_rate(),
            ({
                let chunk = stream_chunk(
                    old(self).history(),
                    old(self).capacity(),
                    old(self).read_pos(),
                    old(self).device_needed(num_samples as int),
                );
                &&& r@ == padded(
                    resampled(chunk, old(self).device_rate(), old(self).target_rate()),
                    num_samples as int,
                )
                &&& chunk.len() > 0 ==> final(self).read_pos() == rectified(
                    old(self).history().len() as int,
                    old(self).capacity(),
                    old(self).read_pos(),
                ) + chunk.len()
                &&& chunk.len() == 0 ==> final(self).read_pos() == old(self).read_pos()
            }),
    {
        let dev = self.device_samples(num_samples);
        let samples = self.ring.read_stream(dev);
        proof {
            old(self).ring.lemma_wf_bounds();
            self.lemma_block_fits(num_samples as int, samples@.len() as int);
        }
        let rs = resample(&samples, self.sample_rate, self.target_sample_rate);
        pad_to(&rs, num_samples)
    }

    /// Moves the stream cursor to "now": a new sequential listening session
    /// starts fresh, discarding any backlog.
    pub fn reset_stream_position(&mut self)
        requires
            old(self).wf(),
        ensures
            final(self).wf(),
            final(self).history() == old(self).history(),
            final(self).capacity() == old(self).capacity(),
            final(self).read_pos() == old(self).history().len(),
            final(self).rec() == old(self).rec(),
            final(self).is_active() == old(self).is_active(),
            final(self).device_rate() == old(self).device_rate(),
            final(self).target_rate() == old(self).target_rate(),
    {
        self.ring.reset_stream_position();
    }

    /// Clears the ring and both cursors, as after startup warmup, so that
    /// transients and pop noise cannot leak into detection.
    pub fn clear_buffers(&mut self)
        requires
            old(self).wf(),
        ensures
            final(self).wf(),
            final(self).history() == Seq::<i16>::empty(),
            final(self).capacity() == old(self).capacity(),
            final(self).read_pos() == 0,
            final(self).rec() == old(self).rec(),
            final(self).is_active() == old(self).is_active(),
            final(self).device_rate() == old(self).device_rate(),
            final(self).target_rate() == old(self).target_rate(),
    {
        self.ring.clear();
    }

    /// Starts a recording session: pulls the lookback window from the ring,
    /// derives the sample caps from the durations (milliseconds) and the
    /// device rate, seeds the state machine and begins forwarding frames.
    pub fn start_recording(
        &mut self,
        max_duration_ms: u32,
        silence_threshold: u32,
        silence_duration_ms: u32,
    )
        requires
            old(self).wf(),
            silence_threshold <= 32768,
            max_duration_ms * old(self).device_rate() / 1000 <= usize::MAX,
            silence_duration_ms * old(self).device_rate() / 1000 <= usize::MAX,
            old(self).calibration_ms() * old(self).device_rate() / 1000 <= usize::MAX,
        ensures
            final(self).wf(),
            final(self).history() == old(self).history(),
            final(self).capacity() == old(self).capacity(),
            final(self).read_pos() == old(self).read_pos(),
            final(self).is_active(),
            final(self).device_rate() == old(self).device_rate(),
            final(self).target_rate() == old(self).target_rate(),
            final(self).rec() == (RecModel {
                samples: latest_of(old(self).history(), old(self).capacity(),
                    LOOKBACK_SAMPLES as int),
                is_recording: true,
                speech_detected: false,
                consecutive_silence: 0,
                silence_samples_threshold:
                    silence_duration_ms * old(self).device_rate() / 1000,
                max_samples: max_duration_ms * old(self).device_rate() / 1000,
                silence_threshold: silence_threshold as int,
                current_level: 0,
                smoothed_rms: 0,
                smoothing_alpha: old(self).alpha(),
                noise_floor: 0,
                calibration_complete: false,
                calibration_duration: old(self).calibration_ms() * old(self).device_rate() / 1000,
                calibration_rms_sum: 0,
                calibration_rms_count: 0,
                relative_threshold_multiplier: old(self).multiplier(),
                silent_frame_count: 0,
                debounce_frames: old(self).debounce(),
            }),
    {
        proof {
            assert((max_duration_ms as int) * (self.sample_rate as int)
                <= 0xffff_ffff * 0x1_0000_0000i64
                && (silence_duration_ms as int) * (self.sample_rate as int)
                    <= 0xffff_ffff * 0x1_0000_0000i64) by (nonlinear_arith)
                requires
                    max_duration_ms <= 0xffff_ffffu32,
                    silence_duration_ms <= 0xffff_ffffu32,
                    self.sample_rate <= 0xffff_ffffu32,
            ;
        }
        let max_samples: usize =
            ((max_duration_ms as u64) * (self.sample_rate as u64) / 1000) as usize;
        let silence_samples: usize =
            ((silence_duration_ms as u64) * (self.sample_rate as u64) / 1000) as usize;

        let total = self.ring.total_written();
        let lookback_n: usize = if (LOOKBACK_SAMPLES as u64) <= total {
            LOOKBACK_SAMPLES
        } else {
            total as usize
        };
        let lookback = self.ring.read_latest(lookback_n);
        proof {
            assert(latest_of(self.ring.history(), self.ring.capacity(), lookback_n as int)
                =~= latest_of(self.ring.history(), self.ring.capacity(),
                    LOOKBACK_SAMPLES as int));
        }
        self.recording.start(
            lookback,
            max_samples,
            silence_samples,
            silence_threshold,
            self.sample_rate,
            self.smoothing_alpha,
            self.relative_threshold_multiplier,
            self.calibration_duration_ms,
            self.debounce_frames,
        );
        self.recording_active = true;
    }

    /// Whether the active session has decided the utterance is over (or no
    /// session is active).
    pub fn is_recording_complete(&self) -> (r: bool)
        ensures
            r == spec_should_stop(self.rec()),
    {
        self.recording.should_stop()
    }

    /// The session's smoothed energy level and speech flag, for progress
    /// display.
    pub fn current_level(&self) -> (r: (u32, bool))
        ensures
            r.0 == self.rec().current_level,
            r.1 == self.rec().speech_detected,
    {
        self.recording.current_level()
    }

    /// Number of samples the active session has accumulated.
    pub fn recorded_len(&self) -> (r: usize)
        ensures
            r == self.rec().samples.len(),
    {
        self.recording.samples_len()
    }

    /// Stops the session and returns the accumulated utterance (lookback
    /// included), resampled to the target rate.
    pub fn stop_recording(&mut self) -> (r: Vec<i16>)
        requires
            old(self).wf(),
            old(self).rec().samples.len() * old(self).target_rate() <= usize::MAX,
        ensures
            final(self).wf(),
            !final(self).is_active(),
            final(self).history() == old(self).history(),
            final(self).capacity() == old(self).capacity(),
            final(self).read_pos() == old(self).read_pos(),
            final(self).device_rate() == old(self).device_rate(),
            final(self).target_rate() == old(self).target_rate(),
            final(self).rec() == (RecModel {
                samples: Seq::<i16>::empty(),
                is_recording: false,
                ..old(self).rec()
            }),
            r@ == resampled(old(self).rec().samples, old(self).device_rate(),
                old(self).target_rate()),
    {
        self.recording_active = false;
        let recorded = self.recording.stop();
        resample(&recorded, self.sample_rate, self.target_sample_rate)
    }
}

/// The warmup threshold after opening the stream: roughly two seconds of
/// audio must accumulate before the buffers are cleared.
pub fn warmup_target_samples(sample_rate: u32) -> (r: u64)
    ensures
        r == 2 * sample_rate,
{
    2 * (sample_rate as u64)
}

/// The readiness threshold after the warmup clear: half a second of audio
/// must be available before the service is declared ready.
pub fn ready_target_samples(sample_rate: u32) -> (r: u64)
    ensures
        r == sample_rate / 2,
{
    (sample_rate as u64) / 2
}

} // verus!
