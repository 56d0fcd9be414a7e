use voice_core::config::{
    Config, AudioConfig, WakewordConfig, SttConfig, LlmConfig, TtsConfig,
    default_threshold, default_avg_threshold, default_min_scores, default_input_gain,
    default_smoothing_alpha, default_relative_threshold_multiplier,
    default_calibration_duration, default_debounce_frames,
};

fn audio_defaults() -> AudioConfig {
    AudioConfig {
        sample_rate: 16000,
        max_record_ms: 30000,
        silence_threshold: 328,
        silence_duration_ms: 1500,
        input_gain: default_input_gain(),
        smoothing_alpha: default_smoothing_alpha(),
        relative_threshold_multiplier: default_relative_threshold_multiplier(),
        calibration_duration_ms: default_calibration_duration(),
        debounce_frames: default_debounce_frames(),
    }
}

#[test]
fn fallback_values() {
    assert_eq!(default_threshold(), 11469);
    assert_eq!(default_avg_threshold(), 4915);
    assert_eq!(default_min_scores(), 3);
    assert_eq!(default_input_gain(), 32768);
    assert_eq!(default_smoothing_alpha(), 3277);
    assert_eq!(default_relative_threshold_multiplier(), 98304);
    assert_eq!(default_calibration_duration(), 500);
    assert_eq!(default_debounce_frames(), 3);
}

#[test]
fn audio_config_validation() {
    assert!(audio_defaults().is_valid());

    let mut bad = audio_defaults();
    bad.sample_rate = 0;
    assert!(!bad.is_valid());

    let mut bad = audio_defaults();
    bad.smoothing_alpha = 32769;
    assert!(!bad.is_valid());

    let mut bad = audio_defaults();
    bad.silence_threshold = 40000;
    assert!(!bad.is_valid());
}

#[test]
fn whole_configuration_holds_together() {
    let config = Config {
        audio: audio_defaults(),
        wakeword: WakewordConfig {
            wakeword_path: "models/wakeword.rpw".to_string(),
            threshold: default_threshold(),
            avg_threshold: default_avg_threshold(),
            min_scores: default_min_scores(),
        },
        stt: SttConfig {
            model_path: "models/speech.bin".to_string(),
            language: "ja".to_string(),
        },
        llm: LlmConfig {
            endpoint: "http://localhost:11434".to_string(),
            model: "assistant".to_string(),
            system_prompt: "answer briefly".to_string(),
        },
        tts: TtsConfig {
            endpoint: "http://localhost:50021".to_string(),
            speaker_id: 3,
            speed: 32768,
        },
    };
    assert_eq!(config.wakeword.min_scores, 3);
    assert_eq!(config.stt.language, "ja");
    assert_eq!(config.llm.model, "assistant");
    assert_eq!(config.tts.speaker_id, 3);
    assert!(config.audio.is_valid());
}
