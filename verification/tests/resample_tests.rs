use voice_core::resample::resample;

#[test]
fn equal_rates_are_identity() {
    let s: Vec<i16> = vec![3, -7, 20000, -32768, 32767];
    assert_eq!(resample(&s, 44100, 44100), s);
    assert_eq!(resample(&s, 1, 1), s);
    assert_eq!(resample(&s, 16000, 16000), s);
}

#[test]
fn equal_rates_identity_empty() {
    let s: Vec<i16> = Vec::new();
    assert_eq!(resample(&s, 48000, 48000), s);
}

#[test]
fn downsample_by_two_picks_every_other_sample() {
    let s: Vec<i16> = vec![0, 10, 20, 30, 40, 50];
    // positions 0, 2, 4 fall exactly on source samples
    assert_eq!(resample(&s, 32000, 16000), vec![0, 20, 40]);
}

#[test]
fn downsample_interpolates_between_samples() {
    let s: Vec<i16> = vec![0, 100, 200];
    // ratio 3/2: output 1 sits at source position 1.5 -> (100 + 200) / 2
    assert_eq!(resample(&s, 48000, 32000), vec![0, 150]);
}

#[test]
fn upsample_interpolates() {
    let s: Vec<i16> = vec![0, 100];
    // ratio 1/2: positions 0, 0.5, 1, 1.5 (last clamps to the final sample)
    assert_eq!(resample(&s, 16000, 32000), vec![0, 50, 100, 100]);
}

#[test]
fn downsample_empty_input() {
    let s: Vec<i16> = Vec::new();
    assert!(resample(&s, 48000, 16000).is_empty());
}

#[test]
fn negative_samples_round_down() {
    let s: Vec<i16> = vec![-100, -101];
    // position 0.5: (-100 - 101) / 2 = -100.5, floored to -101
    assert_eq!(resample(&s, 2, 4), vec![-100, -101, -101, -101]);
}
