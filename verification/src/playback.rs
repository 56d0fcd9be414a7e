//! Errors of the playback device. Playback itself is pure output through the
//! audio backend and lives outside the library.

use vstd::prelude::*;
use vstd::string::StringExecFns;

verus! {

/// Errors of audio playback.
pub enum PlaybackError {
    DeviceError(String),
    DecodeError(String),
    PlayError(String),
}

impl PlaybackError {
    /// A human-readable description of the error.
    pub fn message(&self) -> (r: String)
        ensures
            self matches PlaybackError::DeviceError(d)
                ==> r@ == "failed to initialize the output device: "@ + d@,
            self matches PlaybackError::DecodeError(d)
                ==> r@ == "failed to decode the audio data: "@ + d@,
            self matches PlaybackError::PlayError(d)
                ==> r@ == "error during playback: "@ + d@,
    {
        match self {
            PlaybackError::DeviceError(d) => String::from_str(
                "failed to initialize the output device: ").concat(d.as_str()),
            PlaybackError::DecodeError(d) => String::from_str(
                "failed to decode the audio data: ").concat(d.as_str()),
            PlaybackError::PlayError(d) => String::from_str(
                "error during playback: ").concat(d.as_str()),
        }
    }
}

} // verus!
