use voice_core::wakeword::{normalize_samples, apply_vad, preprocess_samples, peak_amplitude};

#[test]
fn peak_amplitude_handles_extremes() {
    let empty: Vec<i16> = Vec::new();
    assert_eq!(peak_amplitude(&empty), 0);
    assert_eq!(peak_amplitude(&vec![3, -7, 5]), 7);
    assert_eq!(peak_amplitude(&vec![i16::MIN, 100]), 32768);
}

#[test]
fn normalization_scales_peak_to_target() {
    let a: Vec<i16> = vec![100, -50, 0];
    assert_eq!(normalize_samples(&a), vec![28000, -14000, 0]);
}

#[test]
fn normalization_scales_proportionally() {
    // peak 1000 -> gain 28; every sample scales by the same ratio
    let a: Vec<i16> = vec![1000, -999];
    assert_eq!(normalize_samples(&a), vec![28000, -27972]);
}

#[test]
fn normalization_skips_near_silence() {
    let a: Vec<i16> = vec![99, -40];
    assert_eq!(normalize_samples(&a), a);
    let empty: Vec<i16> = Vec::new();
    assert_eq!(normalize_samples(&empty), empty);
}

#[test]
fn normalization_skips_already_loud_frames() {
    let a: Vec<i16> = vec![28000, 5];
    assert_eq!(normalize_samples(&a), a);
}

#[test]
fn vad_attenuates_quiet_frames_to_a_tenth() {
    let a: Vec<i16> = vec![100, -105, 299];
    assert_eq!(apply_vad(&a), vec![10, -10, 29]);
}

#[test]
fn vad_passes_loud_frames_unchanged() {
    let a: Vec<i16> = vec![300, -300, 300];
    assert_eq!(apply_vad(&a), a);
    let empty: Vec<i16> = Vec::new();
    assert_eq!(apply_vad(&empty), empty);
}

#[test]
fn preprocess_normalizes_then_gates() {
    // peak 100 scales up to the target peak, and the result is loud
    let a: Vec<i16> = vec![100, -50];
    assert_eq!(preprocess_samples(&a), vec![28000, -14000]);
    // peak below the normalization minimum and quiet: only attenuated
    let b: Vec<i16> = vec![50, 50, 50, 50];
    assert_eq!(preprocess_samples(&b), vec![5, 5, 5, 5]);
}
