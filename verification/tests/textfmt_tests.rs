use voice_core::textfmt::{u64_to_string, i32_to_string, url_encode_bytes};
use voice_core::llm::{generate_url, tags_url, status_is_success, LlmError};
use voice_core::tts::{audio_query_url, synthesis_url, version_url, TtsError};
use voice_core::playback::PlaybackError;

#[test]
fn decimal_rendering() {
    assert_eq!(u64_to_string(0), "0");
    assert_eq!(u64_to_string(7), "7");
    assert_eq!(u64_to_string(10), "10");
    assert_eq!(u64_to_string(987654321), "987654321");
    assert_eq!(u64_to_string(u64::MAX), "18446744073709551615");
}

#[test]
fn signed_decimal_rendering() {
    assert_eq!(i32_to_string(0), "0");
    assert_eq!(i32_to_string(42), "42");
    assert_eq!(i32_to_string(-42), "-42");
    assert_eq!(i32_to_string(i32::MIN), "-2147483648");
    assert_eq!(i32_to_string(i32::MAX), "2147483647");
}

#[test]
fn percent_encoding_escapes_unsafe_bytes() {
    assert_eq!(url_encode_bytes(&b"hello".to_vec()), "hello");
    assert_eq!(url_encode_bytes(&b"a b!".to_vec()), "a%20b%21");
    assert_eq!(url_encode_bytes(&b"A-z_0.9~".to_vec()), "A-z_0.9~");
    assert_eq!(url_encode_bytes(&Vec::new()), "");
    // multi-byte text is encoded byte by byte, uppercase hex
    assert_eq!(url_encode_bytes(&"こ".as_bytes().to_vec()), "%E3%81%93");
}

#[test]
fn generation_urls() {
    assert_eq!(generate_url("http://localhost:11434"), "http://localhost:11434/api/generate");
    assert_eq!(tags_url("http://localhost:11434"), "http://localhost:11434/api/tags");
}

#[test]
fn synthesis_urls() {
    assert_eq!(
        audio_query_url("http://localhost:50021", &b"ok go".to_vec(), 3),
        "http://localhost:50021/audio_query?text=ok%20go&speaker=3"
    );
    assert_eq!(
        synthesis_url("http://localhost:50021", -2),
        "http://localhost:50021/synthesis?speaker=-2"
    );
    assert_eq!(version_url("http://localhost:50021"), "http://localhost:50021/version");
}

#[test]
fn status_codes() {
    assert!(status_is_success(200));
    assert!(status_is_success(204));
    assert!(status_is_success(299));
    assert!(!status_is_success(199));
    assert!(!status_is_success(300));
    assert!(!status_is_success(404));
}

#[test]
fn llm_error_messages() {
    assert_eq!(
        LlmError::ConnectionError("refused".to_string()).message(),
        "failed to reach the generation service: refused"
    );
    assert_eq!(
        LlmError::GenerationError("500".to_string()).message(),
        "failed to generate a response: 500"
    );
}

#[test]
fn tts_error_messages() {
    assert_eq!(
        TtsError::ConnectionError("down".to_string()).message(),
        "failed to reach the synthesis service: down"
    );
    assert_eq!(
        TtsError::AudioQueryError("422".to_string()).message(),
        "failed to create the audio query: 422"
    );
    assert_eq!(
        TtsError::SynthesisError("500".to_string()).message(),
        "failed to synthesize speech: 500"
    );
}

#[test]
fn playback_error_messages() {
    assert_eq!(
        PlaybackError::DeviceError("no sink".to_string()).message(),
        "failed to initialize the output device: no sink"
    );
    assert_eq!(
        PlaybackError::DecodeError("not wav".to_string()).message(),
        "failed to decode the audio data: not wav"
    );
    assert_eq!(
        PlaybackError::PlayError("stopped".to_string()).message(),
        "error during playback: stopped"
    );
}
