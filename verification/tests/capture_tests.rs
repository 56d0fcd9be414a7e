use voice_core::capture::{
    AudioCapture, CaptureError, InputConfigRange, choose_input_config, mix_to_mono,
    warmup_target_samples, ready_target_samples, RING_BUFFER_CAPACITY, LOOKBACK_SAMPLES,
};

fn capture_16k() -> AudioCapture {
    // device and target both 16 kHz, unity gain, no smoothing, 3x threshold,
    // 10 ms calibration, debounce 3
    AudioCapture::new(16000, 16000, 32768, 32768, 98304, 10, 3)
}

#[test]
fn constants_cover_two_seconds_at_48k() {
    assert_eq!(RING_BUFFER_CAPACITY, 96000);
    assert_eq!(LOOKBACK_SAMPLES, 24000);
}

#[test]
fn mono_mix_averages_channel_groups() {
    let frame: Vec<i16> = vec![100, 200, -50, 50];
    assert_eq!(mix_to_mono(&frame, 2, 32768), vec![150, 0]);
}

#[test]
fn mono_mix_partial_final_group_divides_by_channel_count() {
    // the trailing group is short but still divided by the channel count
    let frame: Vec<i16> = vec![100, 200, 90];
    assert_eq!(mix_to_mono(&frame, 2, 32768), vec![150, 45]);
}

#[test]
fn mono_mix_applies_gain_and_clamps() {
    // gain 2.0 doubles and hard-clamps into the sample range
    let frame: Vec<i16> = vec![1000, 30000, -30000];
    assert_eq!(mix_to_mono(&frame, 1, 65536), vec![2000, 32767, -32768]);
}

#[test]
fn mono_mix_half_gain_truncates_toward_zero() {
    let frame: Vec<i16> = vec![101, -101];
    assert_eq!(mix_to_mono(&frame, 1, 16384), vec![50, -50]);
}

#[test]
fn get_samples_pads_with_zeroes_at_startup() {
    let cap = capture_16k();
    assert_eq!(cap.get_samples(4), vec![0, 0, 0, 0]);
}

#[test]
fn get_samples_returns_latest_window() {
    let mut cap = capture_16k();
    cap.process_frame(&vec![1, 2, 3, 4, 5, 6], 1);
    assert_eq!(cap.get_samples(3), vec![4, 5, 6]);
    // windowed reads overlap freely
    assert_eq!(cap.get_samples(4), vec![3, 4, 5, 6]);
}

#[test]
fn record_stream_blocks_do_not_overlap() {
    let mut cap = capture_16k();
    cap.process_frame(&vec![1, 2, 3, 4, 5, 6], 1);
    assert!(cap.stream_ready(3));
    assert_eq!(cap.record_stream_block(3), vec![1, 2, 3]);
    assert_eq!(cap.record_stream_block(3), vec![4, 5, 6]);
    // exhausted: further blocks are zero-padded
    assert!(!cap.stream_ready(1));
    assert_eq!(cap.record_stream_block(2), vec![0, 0]);
}

#[test]
fn reset_stream_position_skips_history() {
    let mut cap = capture_16k();
    cap.process_frame(&vec![1, 2, 3], 1);
    cap.reset_stream_position();
    cap.process_frame(&vec![4, 5], 1);
    assert_eq!(cap.record_stream_block(2), vec![4, 5]);
}

#[test]
fn clear_buffers_discards_audio() {
    let mut cap = capture_16k();
    cap.process_frame(&vec![1, 2, 3], 1);
    cap.clear_buffers();
    assert_eq!(cap.total_samples(), 0);
    assert_eq!(cap.get_samples(2), vec![0, 0]);
}

#[test]
fn get_samples_resamples_device_rate_to_target() {
    // device 32 kHz, target 16 kHz: a window of 2 output samples costs 4
    // device samples, downsampled by two
    let mut cap = AudioCapture::new(32000, 16000, 32768, 32768, 98304, 10, 3);
    cap.process_frame(&vec![0, 10, 20, 30], 1);
    assert_eq!(cap.get_samples(2), vec![0, 20]);
}

#[test]
fn recording_follows_frames_until_silence() {
    let mut cap = AudioCapture::new(1000, 1000, 32768, 32768, 98304, 10, 3);
    // max duration 1000 ms = 1000 samples; silence 5 ms = 5 samples
    cap.start_recording(1000, 328, 5);
    assert!(!cap.is_recording_complete());
    cap.process_frame(&vec![328; 5], 1); // calibrating
    cap.process_frame(&vec![328; 5], 1); // calibration completes: floor 328
    cap.process_frame(&vec![1638; 5], 1); // speech
    assert!(cap.current_level().1);
    cap.process_frame(&vec![0; 5], 1);
    cap.process_frame(&vec![0; 5], 1);
    assert!(!cap.is_recording_complete());
    cap.process_frame(&vec![0; 5], 1); // third silent frame: 5 >= 5
    assert!(cap.is_recording_complete());
    assert_eq!(cap.recorded_len(), 30);
    let recorded = cap.stop_recording();
    assert_eq!(recorded.len(), 30);
    assert_eq!(&recorded[0..5], &[328, 328, 328, 328, 328]);
    assert!(cap.is_recording_complete());
}

#[test]
fn recording_includes_lookback_from_ring() {
    let mut cap = AudioCapture::new(1000, 1000, 32768, 32768, 98304, 10, 3);
    cap.process_frame(&vec![7; 3], 1);
    cap.start_recording(1000, 328, 5);
    cap.process_frame(&vec![9; 2], 1);
    let recorded = cap.stop_recording();
    assert_eq!(recorded, vec![7, 7, 7, 9, 9]);
}

#[test]
fn frames_are_ignored_while_no_recording_is_active() {
    let mut cap = capture_16k();
    cap.process_frame(&vec![5; 4], 1);
    assert_eq!(cap.recorded_len(), 0);
}

#[test]
fn choose_input_config_takes_first_mono_match() {
    let configs = vec![
        InputConfigRange { channels: 2, min_rate: 8000, max_rate: 48000 },
        InputConfigRange { channels: 1, min_rate: 44100, max_rate: 48000 },
        InputConfigRange { channels: 1, min_rate: 8000, max_rate: 48000 },
        InputConfigRange { channels: 1, min_rate: 16000, max_rate: 16000 },
    ];
    assert_eq!(choose_input_config(&configs, 16000), Some(2));
    assert_eq!(choose_input_config(&configs, 44100), Some(1));
    assert_eq!(choose_input_config(&configs, 4000), None);
}

#[test]
fn warmup_thresholds_scale_with_the_rate() {
    assert_eq!(warmup_target_samples(48000), 96000);
    assert_eq!(ready_target_samples(48000), 24000);
    assert_eq!(ready_target_samples(16000), 8000);
}

#[test]
fn capture_error_messages() {
    assert_eq!(CaptureError::NoInputDevice.message(), "no input device found");
    assert_eq!(
        CaptureError::ConfigError("boom".to_string()).message(),
        "failed to get a device configuration: boom"
    );
    assert_eq!(
        CaptureError::StreamError("x".to_string()).message(),
        "failed to run the input stream: x"
    );
    assert_eq!(
        CaptureError::RecordingError("y".to_string()).message(),
        "error while recording: y"
    );
}
