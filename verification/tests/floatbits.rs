use graph_bridge::fbits::f16_to_f32;
use graph_bridge::fbits::f32_to_f16;
use graph_bridge::fbits::f32_to_f64;
use graph_bridge::fbits::f64_to_f32;
use graph_bridge::fbits::f64_trunc_i64;
use graph_bridge::fbits::f64_trunc_u64;
use graph_bridge::fbits::is_inf_f64;
use graph_bridge::fbits::is_nan_f64;
use graph_bridge::fbits::is_neg_f64;

fn check_narrow(x: f64) {
    let expect = (x as f32).to_bits();
    let got = f64_to_f32(x.to_bits());
    assert_eq!(got, expect, "narrowing {x:e} ({:#018x})", x.to_bits());
}

#[test]
fn narrow_f64_to_f32_matches_cast_on_samples() {
    let samples = [
        0.0,
        -0.0,
        1.0,
        -1.0,
        0.1,
        -0.1,
        1.5,
        2.5,
        3.141592653589793,
        1e-40,
        -1e-40,
        1e-45,
        1e-46,
        1.0e38,
        3.4028236e38,
        3.4028235e38,
        1e39,
        f64::MAX,
        f64::MIN,
        f64::MIN_POSITIVE,
        5e-324,
        f64::INFINITY,
        f64::NEG_INFINITY,
        1.0 + 2f64.powi(-24),
        1.0 + 2f64.powi(-23),
        1.0 + 3.0 * 2f64.powi(-24),
        2f64.powi(-126),
        2f64.powi(-127),
        2f64.powi(-149),
        2f64.powi(-150),
        1.5 * 2f64.powi(-149),
        65504.0,
        65520.0,
    ];
    for x in samples {
        check_narrow(x);
    }
}

#[test]
fn narrow_f64_to_f32_matches_cast_on_pseudorandom_bits() {
    let mut state: u64 = 0x243F6A8885A308D3;
    for _ in 0..20000 {
        state = state.wrapping_mul(6364136223846793005).wrapping_add(1442695040888963407);
        let x = f64::from_bits(state);
        if x.is_nan() {
            continue;
        }
        check_narrow(x);
    }
}

#[test]
fn narrow_f64_to_f32_nan_stays_nan() {
    let got = f64_to_f32(f64::NAN.to_bits());
    assert!(f32::from_bits(got).is_nan());
    let got_neg = f64_to_f32((-f64::NAN).to_bits());
    assert!(f32::from_bits(got_neg).is_nan());
}

#[test]
fn widen_f32_to_f64_matches_cast_on_pseudorandom_bits() {
    let mut state: u64 = 0xB7E151628AED2A6A;
    for _ in 0..20000 {
        state = state.wrapping_mul(6364136223846793005).wrapping_add(1442695040888963407);
        let x = f32::from_bits((state >> 16) as u32);
        if x.is_nan() {
            continue;
        }
        assert_eq!(f32_to_f64(x.to_bits()), (x as f64).to_bits(), "widening {x:e}");
    }
}

#[test]
fn half_precision_known_values() {
    assert_eq!(f32_to_f16(1.0f32.to_bits()), 0x3C00);
    assert_eq!(f32_to_f16(1.5f32.to_bits()), 0x3E00);
    assert_eq!(f32_to_f16((-2.0f32).to_bits()), 0xC000);
    assert_eq!(f32_to_f16(3.0f32.to_bits()), 0x4200);
    assert_eq!(f32_to_f16(65504.0f32.to_bits()), 0x7BFF);
    assert_eq!(f32_to_f16(65520.0f32.to_bits()), 0x7C00);
    assert_eq!(f32_to_f16(0.0f32.to_bits()), 0x0000);
    assert_eq!(f32_to_f16((-0.0f32).to_bits()), 0x8000);
    assert_eq!(f32_to_f16(f32::INFINITY.to_bits()), 0x7C00);
    assert_eq!(f32_to_f16(f32::NEG_INFINITY.to_bits()), 0xFC00);
    assert_eq!(f32_to_f16(0.1f32.to_bits()), 0x2E66);
    // smallest half-precision subnormal and the tie just below it
    assert_eq!(f32_to_f16(2f32.powi(-24).to_bits()), 0x0001);
    assert_eq!(f32_to_f16(2f32.powi(-25).to_bits()), 0x0000);
    assert_eq!(f32_to_f16((3.0 * 2f32.powi(-26)).to_bits()), 0x0001);
    // smallest half-precision normal and a subnormal below it
    assert_eq!(f32_to_f16(2f32.powi(-14).to_bits()), 0x0400);
    assert_eq!(f32_to_f16(2f32.powi(-15).to_bits()), 0x0200);
    let nan16 = f32_to_f16(f32::NAN.to_bits());
    assert_eq!(nan16 & 0x7C00, 0x7C00);
    assert_ne!(nan16 & 0x03FF, 0);
}

#[test]
fn half_precision_widening_known_values() {
    assert_eq!(f32::from_bits(f16_to_f32(0x3C00)), 1.0);
    assert_eq!(f32::from_bits(f16_to_f32(0x3E00)), 1.5);
    assert_eq!(f32::from_bits(f16_to_f32(0xC000)), -2.0);
    assert_eq!(f32::from_bits(f16_to_f32(0x7BFF)), 65504.0);
    assert_eq!(f32::from_bits(f16_to_f32(0x0001)), 2f32.powi(-24));
    assert_eq!(f32::from_bits(f16_to_f32(0x0400)), 2f32.powi(-14));
    assert_eq!(f32::from_bits(f16_to_f32(0x0000)), 0.0);
    assert_eq!(f16_to_f32(0x8000), (-0.0f32).to_bits());
    assert_eq!(f32::from_bits(f16_to_f32(0x7C00)), f32::INFINITY);
    assert_eq!(f32::from_bits(f16_to_f32(0xFC00)), f32::NEG_INFINITY);
    assert!(f32::from_bits(f16_to_f32(0x7E00)).is_nan());
}

#[test]
fn half_precision_round_trip_is_identity_on_half_values() {
    for bits in 0u16..=0xFFFF {
        let widened = f16_to_f32(bits);
        if f32::from_bits(widened).is_nan() {
            continue;
        }
        assert_eq!(f32_to_f16(widened), bits, "half round trip {bits:#06x}");
    }
}

#[test]
fn trunc_i64_matches_cast() {
    let samples = [
        0.0,
        -0.0,
        0.5,
        -0.5,
        9.7,
        -9.7,
        1e18,
        -1e18,
        1e30,
        -1e30,
        9.223372036854776e18,
        -9.223372036854776e18,
        f64::NAN,
        f64::INFINITY,
        f64::NEG_INFINITY,
        4294967296.5,
        -4294967296.5,
        2f64.powi(63),
        -(2f64.powi(63)),
        2f64.powi(63) - 1024.0,
    ];
    for x in samples {
        assert_eq!(f64_trunc_i64(x.to_bits()), x as i64, "trunc i64 of {x:e}");
    }
    let mut state: u64 = 0x452821E638D01377;
    for _ in 0..20000 {
        state = state.wrapping_mul(6364136223846793005).wrapping_add(1442695040888963407);
        let x = f64::from_bits(state);
        assert_eq!(f64_trunc_i64(x.to_bits()), x as i64, "trunc i64 of {x:e}");
    }
}

#[test]
fn trunc_u64_matches_cast() {
    let samples = [
        0.0,
        -0.0,
        0.5,
        -0.5,
        -3.7,
        9.7,
        1e19,
        1.8446744073709552e19,
        2e19,
        f64::NAN,
        f64::INFINITY,
        f64::NEG_INFINITY,
        2f64.powi(64),
        2f64.powi(64) - 2048.0,
    ];
    for x in samples {
        assert_eq!(f64_trunc_u64(x.to_bits()), x as u64, "trunc u64 of {x:e}");
    }
    let mut state: u64 = 0xC0AC29B7C97C50DD;
    for _ in 0..20000 {
        state = state.wrapping_mul(6364136223846793005).wrapping_add(1442695040888963407);
        let x = f64::from_bits(state);
        assert_eq!(f64_trunc_u64(x.to_bits()), x as u64, "trunc u64 of {x:e}");
    }
}

#[test]
fn classification_matches_std() {
    let samples = [0.0, -0.0, 1.0, -1.0, f64::NAN, -f64::NAN, f64::INFINITY, f64::NEG_INFINITY];
    for x in samples {
        assert_eq!(is_nan_f64(x.to_bits()), x.is_nan());
        assert_eq!(is_inf_f64(x.to_bits()), x.is_infinite());
        assert_eq!(is_neg_f64(x.to_bits()), x.is_sign_negative());
    }
}
