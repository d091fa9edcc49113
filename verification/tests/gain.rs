use quinn_proto::congestion::bbr2::model::{
    BBR2_PROBE_DOWN_PACING_GAIN, BBR2_PROBE_UP_CWND_GAIN, BBR2_PROBE_UP_PACING_GAIN,
    CYCLE_DRAIN_GAIN, CYCLE_PROBE_GAIN, DEFAULT_DRAIN_GAIN, DEFAULT_HIGH_GAIN,
    DERIVED_HIGH_CWND_GAIN, MODERATE_PROBE_RTT_MULTIPLIER, STARTUP_GROWTH_TARGET,
};
use quinn_proto::gain::{is_below, scale, scale_millionth, UNIT_GAIN};

const GAINS: [u32; 11] = [
    UNIT_GAIN,
    DEFAULT_HIGH_GAIN,
    DEFAULT_DRAIN_GAIN,
    DERIVED_HIGH_CWND_GAIN,
    CYCLE_PROBE_GAIN,
    CYCLE_DRAIN_GAIN,
    BBR2_PROBE_DOWN_PACING_GAIN,
    BBR2_PROBE_UP_PACING_GAIN,
    BBR2_PROBE_UP_CWND_GAIN,
    STARTUP_GROWTH_TARGET,
    MODERATE_PROBE_RTT_MULTIPLIER,
];

/// The factor that a gain stands for.
fn factor(gain: u32) -> f32 {
    gain as f32 / 33_554_432.0
}

/// Numbers of all sizes, from a multiplicative generator.
fn numbers() -> Vec<u64> {
    let mut all = vec![
        0,
        1,
        2,
        3,
        999_999,
        1_000_000,
        (1 << 24) - 1,
        1 << 24,
        (1 << 24) + 1,
        (1 << 53) - 1,
        1 << 53,
        (1 << 53) + 1,
        (1 << 53) + 2,
        (1 << 53) + 3,
        (1 << 63) - 1,
        1 << 63,
        u64::MAX - 1024,
        u64::MAX - 1,
        u64::MAX,
    ];
    let mut state: u64 = 0x9e37_79b9_7f4a_7c15;
    for i in 0..20_000u64 {
        state = state
            .wrapping_mul(6_364_136_223_846_793_005)
            .wrapping_add(1_442_695_040_888_963_407);
        all.push(state >> (i % 64));
    }
    all
}

#[test]
fn constants_are_the_single_precision_gains() {
    assert_eq!(factor(UNIT_GAIN), 1.0);
    assert_eq!(factor(DEFAULT_HIGH_GAIN), 2.885);
    assert_eq!(factor(DEFAULT_DRAIN_GAIN), 1.0 / 2.885f32);
    assert_eq!(factor(DERIVED_HIGH_CWND_GAIN), 2.0);
    assert_eq!(factor(CYCLE_PROBE_GAIN), 1.25);
    assert_eq!(factor(CYCLE_DRAIN_GAIN), 0.75);
    assert_eq!(factor(BBR2_PROBE_DOWN_PACING_GAIN), 0.90);
    assert_eq!(factor(BBR2_PROBE_UP_PACING_GAIN), 1.25);
    assert_eq!(factor(BBR2_PROBE_UP_CWND_GAIN), 2.25);
    assert_eq!(factor(STARTUP_GROWTH_TARGET), 1.25);
    assert_eq!(factor(MODERATE_PROBE_RTT_MULTIPLIER), 0.75);
}

#[test]
fn scaling_agrees_with_double_precision() {
    for gain in GAINS {
        for n in numbers() {
            let native = (n as f64 * factor(gain) as f64) as u64;
            assert_eq!(scale(gain, n), native, "gain {gain:#x}, n {n}");
        }
    }
}

#[test]
fn millionth_part_agrees_with_double_precision() {
    for gain in GAINS {
        for n in numbers() {
            let native = ((factor(gain) as f64 * n as f64) / 1_000_000f64) as u64;
            assert_eq!(scale_millionth(gain, n), native, "gain {gain:#x}, n {n}");
        }
    }
}

#[test]
fn comparison_agrees_with_single_precision() {
    for gain in GAINS {
        for n in numbers() {
            assert_eq!(is_below(gain, n), factor(gain) < n as f32, "gain {gain:#x}, n {n}");
        }
    }
}

#[test]
fn unit_gain_changes_no_number_of_53_bits() {
    for n in numbers() {
        let n = n >> 11;
        assert_eq!(scale(UNIT_GAIN, n), n);
    }
    assert_eq!(scale(UNIT_GAIN, (1 << 53) + 1), 1 << 53);
}

#[test]
fn small_products_only_lose_their_fraction() {
    assert_eq!(scale(CYCLE_PROBE_GAIN, 1_000_001), 1_250_001);
    assert_eq!(scale(CYCLE_DRAIN_GAIN, 7), 5);
    assert_eq!(scale(DEFAULT_HIGH_GAIN, 1_000), 2_884);
}

#[test]
fn products_beyond_64_bits_are_capped() {
    assert_eq!(scale(DERIVED_HIGH_CWND_GAIN, u64::MAX), u64::MAX);
    assert_eq!(scale(UNIT_GAIN, u64::MAX), u64::MAX);
}

#[test]
fn millionth_part_stays_below_55_bits() {
    assert!(scale_millionth(u32::MAX, u64::MAX) < 1 << 55);
    assert_eq!(scale_millionth(UNIT_GAIN, 999_999), 0);
    assert_eq!(scale_millionth(UNIT_GAIN, 1_000_000), 1);
    assert_eq!(scale_millionth(DERIVED_HIGH_CWND_GAIN, 100_000_000 * 40_000), 8_000_000);
}
