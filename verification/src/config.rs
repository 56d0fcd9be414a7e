//! Configuration of the whole assistant. Durations are milliseconds; gains,
//! energy thresholds, smoothing factors, score thresholds and the speech
//! multiplier are Q15 fixed-point values (32768 is 1.0), on the same scale as
//! the samples and energies of the audio core.

use vstd::prelude::*;

verus! {

/// Application-wide configuration.
pub struct Config {
    pub audio: AudioConfig,
    pub wakeword: WakewordConfig,
    pub stt: SttConfig,
    pub llm: LlmConfig,
    pub tts: TtsConfig,
}

/// Wake-word detection settings.
pub struct WakewordConfig {
    /// Path of the wake-word model file.
    pub wakeword_path: String,
    /// Detection threshold (Q15).
    pub threshold: u32,
    /// Average-score threshold (Q15).
    pub avg_threshold: u32,
    /// Consecutive detections required, to suppress one-off false positives.
    pub min_scores: usize,
}

/// Audio capture settings.
pub struct AudioConfig {
    /// Target sample rate (usually 16000 Hz).
    pub sample_rate: u32,
    /// Hard cap on a recording's duration, in milliseconds.
    pub max_record_ms: u32,
    /// Absolute silence threshold (Q15), the calibration fallback.
    pub silence_threshold: u32,
    /// Silence that ends a recording, in milliseconds.
    pub silence_duration_ms: u32,
    /// Input gain (Q15; 32768 leaves samples unchanged).
    pub input_gain: u32,
    /// RMS smoothing factor (Q15): smaller follows more smoothly and
    /// ignores momentary noise.
    pub smoothing_alpha: u32,
    /// Speech is detected at this multiple of the noise floor (Q15).
    pub relative_threshold_multiplier: u32,
    /// Noise-floor calibration window, in milliseconds.
    pub calibration_duration_ms: u32,
    /// Consecutive below-threshold frames before silence is counted.
    pub debounce_frames: usize,
}

/// Speech-to-text settings.
pub struct SttConfig {
    /// Path of the transcription model file.
    pub model_path: String,
    /// Recognition language (for example "ja" or "en").
    pub language: String,
}

/// Language-model settings.
pub struct LlmConfig {
    /// Endpoint URL of the generation service.
    pub endpoint: String,
    /// Model name to use.
    pub model: String,
    /// System prompt.
    pub system_prompt: String,
}

/// Speech-synthesis settings.
pub struct TtsConfig {
    /// Endpoint URL of the synthesis service.
    pub endpoint: String,
    /// Speaker identifier.
    pub speaker_id: i32,
    /// Speaking speed (Q15; 32768 is normal speed).
    pub speed: u32,
}

impl AudioConfig {
    /// Whether the audio settings are usable by the capture core: a positive
    /// rate, and factors that stay on the Q15 scale.
    pub open spec fn valid(self) -> bool {
        &&& self.sample_rate > 0
        &&& self.silence_threshold <= 32768
        &&& self.smoothing_alpha <= 32768
        &&& self.input_gain <= 0x7fff_ffff
    }

    /// Checks `valid`.
    pub fn is_valid(&self) -> (r: bool)
        ensures
            r == self.valid(),
    {
        self.sample_rate > 0 && self.silence_threshold <= 32768 && self.smoothing_alpha <= 32768
            && self.input_gain <= 0x7fff_ffff
    }
}

/// Fallback detection threshold (0.35 in Q15).
pub fn default_threshold() -> (r: u32)
    ensures
        r == 11469,
{
    11469
}

/// Fallback average-score threshold (0.15 in Q15).
pub fn default_avg_threshold() -> (r: u32)
    ensures
        r == 4915,
{
    4915
}

/// Fallback consecutive-detection requirement.
pub fn default_min_scores() -> (r: usize)
    ensures
        r == 3,
{
    3
}

/// Fallback input gain (1.0 in Q15).
pub fn default_input_gain() -> (r: u32)
    ensures
        r == 32768,
{
    32768
}

/// Fallback RMS smoothing factor (0.1 in Q15).
pub fn default_smoothing_alpha() -> (r: u32)
    ensures
        r == 3277,
{
    3277
}

/// Fallback speech multiplier (3.0 in Q15).
pub fn default_relative_threshold_multiplier() -> (r: u32)
    ensures
        r == 98304,
{
    98304
}

/// Fallback calibration window (half a second).
pub fn default_calibration_duration() -> (r: u32)
    ensures
        r == 500,
{
    500
}

/// Fallback debounce frame count.
pub fn default_debounce_frames() -> (r: usize)
    ensures
        r == 3,
{
    3
}

} // verus!
