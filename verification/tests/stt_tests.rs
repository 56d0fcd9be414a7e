use voice_core::stt::{apply_vad, normalize_audio, SttError, VAD_FRAME_SIZE};

fn frames(spec: &[(usize, i16)]) -> Vec<i16> {
    // builds audio out of whole detector frames of constant amplitude
    let mut v = Vec::new();
    for &(count, amp) in spec {
        for _ in 0..count * VAD_FRAME_SIZE {
            v.push(amp);
        }
    }
    v
}

#[test]
fn vad_passes_short_audio_unchanged() {
    let a: Vec<i16> = vec![5; 100];
    assert_eq!(apply_vad(&a), a);
    let empty: Vec<i16> = Vec::new();
    assert_eq!(apply_vad(&empty), empty);
}

#[test]
fn vad_keeps_loud_audio_whole() {
    let a = frames(&[(3, 1000)]);
    assert_eq!(apply_vad(&a), a);
}

#[test]
fn vad_drops_silence_far_from_speech() {
    // 8 frames: silence in 0..7, speech in frame 7; the margin keeps
    // frames 2..7, frames 0 and 1 are dropped
    let a = frames(&[(7, 0), (1, 1000)]);
    let got = apply_vad(&a);
    assert_eq!(got.len(), 6 * VAD_FRAME_SIZE);
    assert_eq!(got, a[2 * VAD_FRAME_SIZE..].to_vec());
}

#[test]
fn vad_merges_short_gaps() {
    // speech at both ends, 13 silent frames between: margins reach frames
    // 0..=5 and 9..=14, the 3-frame hole is a short gap and is kept whole
    let a = frames(&[(1, 1000), (13, 0), (1, 1000)]);
    assert_eq!(apply_vad(&a), a);
}

#[test]
fn vad_cuts_long_gaps() {
    // speech in frames 0 and 22: margins keep 0..=5 and 17..=22; the gap of
    // 11 frames between the regions is too long and is removed
    let a = frames(&[(1, 1000), (21, 0), (1, 1000)]);
    let got = apply_vad(&a);
    let mut want = a[0..6 * VAD_FRAME_SIZE].to_vec();
    want.extend_from_slice(&a[17 * VAD_FRAME_SIZE..23 * VAD_FRAME_SIZE]);
    assert_eq!(got, want);
}

#[test]
fn vad_keeps_trailing_partial_frame_of_speech() {
    // one loud whole frame plus 100 trailing samples: speech runs to the
    // end, so the partial tail is kept too
    let mut a = frames(&[(1, 1000)]);
    for _ in 0..100 {
        a.push(1000);
    }
    assert_eq!(apply_vad(&a), a);
}

#[test]
fn vad_drops_trailing_samples_after_silence() {
    // 7 silent frames after the speech margin has ended, plus a tail:
    // the last whole frame is dropped, so the tail is dropped too
    let mut a = frames(&[(1, 1000), (7, 0)]);
    for _ in 0..100 {
        a.push(1000);
    }
    let got = apply_vad(&a);
    assert_eq!(got, a[0..6 * VAD_FRAME_SIZE].to_vec());
}

#[test]
fn stt_normalization_scales_peak_to_target() {
    let a: Vec<i16> = vec![100, -50, 0];
    assert_eq!(normalize_audio(&a), vec![29491, -14745, 0]);
}

#[test]
fn stt_normalization_skips_near_silence() {
    let a: Vec<i16> = vec![10, -20, 5];
    assert_eq!(normalize_audio(&a), a);
}

#[test]
fn normalization_skips_already_loud_audio() {
    let a: Vec<i16> = vec![30000, -100];
    assert_eq!(normalize_audio(&a), a);
    let empty: Vec<i16> = Vec::new();
    assert_eq!(normalize_audio(&empty), empty);
}

#[test]
fn stt_error_messages() {
    assert_eq!(
        SttError::ModelLoadError("gone".to_string()).message(),
        "failed to load the transcription model: gone"
    );
    assert_eq!(
        SttError::TranscriptionError("bad".to_string()).message(),
        "transcription failed: bad"
    );
}
