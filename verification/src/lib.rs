//! Core of a voice-assistant audio pipeline: a fixed-capacity ring buffer for
//! microphone samples with windowed and streaming reads, a linear-interpolation
//! resampler, and an adaptive utterance-segmentation state machine, together
//! with the configuration types and the pure helpers of the surrounding
//! components (speech-to-text preprocessing, wake-word preprocessing, and the
//! URL construction for the speech and language services).
//!
//! All audio is handled as mono samples on the 16-bit PCM scale: an amplitude
//! of 1.0 corresponds to the integer 32768. Gains, smoothing factors and
//! energy thresholds use the same fixed-point scale (Q15: 32768 is one).

pub mod capture;
pub mod config;
pub mod llm;
pub mod math;
pub mod playback;
pub mod recording;
pub mod resample;
pub mod ring;
pub mod stt;
pub mod textfmt;
pub mod tts;
pub mod wakeword;
