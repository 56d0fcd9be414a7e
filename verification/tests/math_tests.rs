use voice_core::math::{isqrt64, tdiv_i64, clamp_sample, apply_gain_q15};

#[test]
fn integer_square_roots() {
    assert_eq!(isqrt64(0), 0);
    assert_eq!(isqrt64(1), 1);
    assert_eq!(isqrt64(3), 1);
    assert_eq!(isqrt64(4), 2);
    assert_eq!(isqrt64(15), 3);
    assert_eq!(isqrt64(16), 4);
    assert_eq!(isqrt64(0x4000_0000), 32768);
    assert_eq!(isqrt64(u64::MAX), 0xffff_ffff);
}

#[test]
fn truncating_division_rounds_toward_zero() {
    assert_eq!(tdiv_i64(7, 2), 3);
    assert_eq!(tdiv_i64(-7, 2), -3);
    assert_eq!(tdiv_i64(6, 3), 2);
    assert_eq!(tdiv_i64(-6, 3), -2);
    assert_eq!(tdiv_i64(0, 5), 0);
}

#[test]
fn clamping_to_the_sample_range() {
    assert_eq!(clamp_sample(40000), 32767);
    assert_eq!(clamp_sample(-40000), -32768);
    assert_eq!(clamp_sample(123), 123);
    assert_eq!(clamp_sample(-32768), -32768);
}

#[test]
fn q15_gain_scaling() {
    assert_eq!(apply_gain_q15(1000, 32768), 1000); // unity
    assert_eq!(apply_gain_q15(1000, 16384), 500); // half
    assert_eq!(apply_gain_q15(-1000, 16384), -500);
    assert_eq!(apply_gain_q15(30000, 65536), 32767); // double, clamped
    assert_eq!(apply_gain_q15(-30000, 65536), -32768);
    assert_eq!(apply_gain_q15(101, 16384), 50); // truncates toward zero
}
