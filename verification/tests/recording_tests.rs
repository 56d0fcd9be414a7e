use voice_core::recording::{RecordingState, rms_of_chunk};

// A session whose calibration window is 10 samples at 1 kHz, with no
// smoothing (factor 1.0) and a 3x speech threshold.
fn start_calibration_session(st: &mut RecordingState) {
    st.start(
        Vec::new(), // lookback
        1000000,    // max samples
        5,          // silence samples threshold
        328,        // absolute silence threshold (0.01 in Q15)
        1000,       // sample rate
        32768,      // smoothing factor 1.0: the smoothed RMS is the frame RMS
        98304,      // threshold multiplier 3.0
        10,         // calibration: 10 ms at 1 kHz = 10 samples
        3,          // debounce frames
    );
}

#[test]
fn rms_of_constant_chunk_is_its_amplitude() {
    assert_eq!(rms_of_chunk(&vec![328; 5]), 328);
    assert_eq!(rms_of_chunk(&vec![-328, 328, -328, 328]), 328);
    assert_eq!(rms_of_chunk(&vec![0; 7]), 0);
}

#[test]
fn noise_floor_converges_to_calibration_rms() {
    // calibration window of 10 samples at fixed chunk RMS 328 (0.01):
    // after the window the noise floor is exactly 328, and a chunk of
    // RMS 1638 (0.05) then sets the speech flag (threshold 3 * 328 = 984)
    let mut st = RecordingState::new();
    start_calibration_session(&mut st);
    st.add_samples(&vec![328; 5]);
    let (level, speech) = st.current_level();
    assert_eq!(level, 328);
    assert!(!speech);
    st.add_samples(&vec![328; 5]); // completes the calibration window
    assert!(!st.current_level().1);

    st.add_samples(&vec![1638; 5]);
    let (level, speech) = st.current_level();
    assert_eq!(level, 1638);
    assert!(speech);
}

#[test]
fn quiet_chunk_after_calibration_does_not_detect_speech() {
    let mut st = RecordingState::new();
    start_calibration_session(&mut st);
    st.add_samples(&vec![328; 5]);
    st.add_samples(&vec![328; 5]);
    // 983 < effective threshold 984
    st.add_samples(&vec![983; 5]);
    assert!(!st.current_level().1);
}

#[test]
fn silence_is_debounced_over_three_frames() {
    // after speech, two below-threshold chunks do not advance the silence
    // count; the third does (debounce frame count 3)
    let mut st = RecordingState::new();
    start_calibration_session(&mut st);
    st.add_samples(&vec![328; 5]);
    st.add_samples(&vec![328; 5]);
    st.add_samples(&vec![1638; 5]); // speech
    assert!(st.current_level().1);

    st.add_samples(&vec![0; 5]); // silent frame 1
    assert!(!st.should_stop());
    st.add_samples(&vec![0; 5]); // silent frame 2
    assert!(!st.should_stop());
    st.add_samples(&vec![0; 5]); // silent frame 3: 5 samples count, >= threshold 5
    assert!(st.should_stop());
}

#[test]
fn speech_resets_accumulated_silence() {
    let mut st = RecordingState::new();
    start_calibration_session(&mut st);
    st.add_samples(&vec![328; 5]);
    st.add_samples(&vec![328; 5]);
    st.add_samples(&vec![1638; 5]); // speech
    st.add_samples(&vec![0; 5]);
    st.add_samples(&vec![0; 5]);
    st.add_samples(&vec![1638; 5]); // speech again cancels the pending silence
    st.add_samples(&vec![0; 5]);
    st.add_samples(&vec![0; 5]);
    assert!(!st.should_stop());
    st.add_samples(&vec![0; 5]);
    assert!(st.should_stop());
}

#[test]
fn hard_cap_stops_regardless_of_energy() {
    // the session must stop exactly when the accumulated length first
    // reaches the cap, with no speech ever detected
    let mut st = RecordingState::new();
    st.start(Vec::new(), 12, 1000000, 328, 1000, 32768, 98304, 10, 3);
    st.add_samples(&vec![0; 5]);
    assert!(!st.should_stop());
    st.add_samples(&vec![0; 5]);
    assert!(!st.should_stop()); // 10 < 12
    st.add_samples(&vec![0; 5]);
    assert!(st.should_stop()); // 15 >= 12
}

#[test]
fn lookback_counts_toward_the_cap() {
    let mut st = RecordingState::new();
    st.start(vec![0; 10], 12, 1000000, 328, 1000, 32768, 98304, 10, 3);
    assert!(!st.should_stop());
    st.add_samples(&vec![0; 2]);
    assert!(st.should_stop());
}

#[test]
fn inactive_session_should_stop_and_ignores_input() {
    let mut st = RecordingState::new();
    assert!(st.should_stop());
    st.add_samples(&vec![5; 4]);
    assert!(st.stop().is_empty());
}

#[test]
fn stop_returns_lookback_and_chunks() {
    let mut st = RecordingState::new();
    st.start(vec![1, 2], 1000, 10, 328, 1000, 32768, 98304, 10, 3);
    st.add_samples(&vec![3, 4]);
    st.add_samples(&vec![5]);
    let out = st.stop();
    assert_eq!(out, vec![1, 2, 3, 4, 5]);
    assert!(st.should_stop());
    // reusable: a new session starts clean
    st.start(Vec::new(), 1000, 10, 328, 1000, 32768, 98304, 10, 3);
    st.add_samples(&vec![9]);
    assert_eq!(st.stop(), vec![9]);
}

#[test]
fn empty_calibration_window_floors_noise_floor() {
    // constant zero calibration: the mean RMS is 0, floored at the minimum;
    // any chunk of RMS >= 3 * 33 = 99 is then speech
    let mut st = RecordingState::new();
    start_calibration_session(&mut st);
    st.add_samples(&vec![0; 10]);
    st.add_samples(&vec![99; 5]);
    assert!(st.current_level().1);
}
