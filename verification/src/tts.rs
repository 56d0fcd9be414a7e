//! The speech-synthesis side: the errors of the synthesis service and the
//! construction of its request URLs, including percent-encoding of the
//! spoken text. The HTTP transport lives outside.

use vstd::prelude::*;
use vstd::string::StringExecFns;
use crate::textfmt::{url_encode_bytes, url_encoded, i32_to_string, dec_int};

verus! {

/// Errors of the speech-synthesis service.
pub enum TtsError {
    ConnectionError(String),
    AudioQueryError(String),
    SynthesisError(String),
}

impl TtsError {
    /// A human-readable description of the error.
    pub fn message(&self) -> (r: String)
        ensures
            self matches TtsError::ConnectionError(d)
                ==> r@ == "failed to reach the synthesis service: "@ + d@,
            self matches TtsError::AudioQueryError(d)
                ==> r@ == "failed to create the audio query: "@ + d@,
            self matches TtsError::SynthesisError(d)
                ==> r@ == "failed to synthesize speech: "@ + d@,
    {
        match self {
            TtsError::ConnectionError(d) => String::from_str(
                "failed to reach the synthesis service: ").concat(d.as_str()),
            TtsError::AudioQueryError(d) => String::from_str(
                "failed to create the audio query: ").concat(d.as_str()),
            TtsError::SynthesisError(d) => String::from_str(
                "failed to synthesize speech: ").concat(d.as_str()),
        }
    }
}

/// The URL that asks the synthesis service for an audio query: the text
/// percent-encoded into the query string, with the speaker identifier.
pub fn audio_query_url(endpoint: &str, text: &Vec<u8>, speaker_id: i32) -> (r: String)
    ensures
        r@ == endpoint@ + "/audio_query?text="@ + url_encoded(text@) + "&speaker="@
            + dec_int(speaker_id as int),
{
    let encoded = url_encode_bytes(text);
    let speaker = i32_to_string(speaker_id);
    String::from_str(endpoint)
        .concat("/audio_query?text=")
        .concat(encoded.as_str())
        .concat("&speaker=")
        .concat(speaker.as_str())
}

/// The URL that runs the synthesis itself for the given speaker.
pub fn synthesis_url(endpoint: &str, speaker_id: i32) -> (r: String)
    ensures
        r@ == endpoint@ + "/synthesis?speaker="@ + dec_int(speaker_id as int),
{
    let speaker = i32_to_string(speaker_id);
    String::from_str(endpoint).concat("/synthesis?speaker=").concat(speaker.as_str())
}

/// The URL of the service's version (health-check) endpoint.
pub fn version_url(endpoint: &str) -> (r: String)
    ensures
        r@ == endpoint@ + "/version"@,
{
    String::from_str(endpoint).concat("/version")
}

} // verus!
