use compressor::fixed::Fixed;
use compressor::fixed::SCALE;
use compressor::DecoupledPeakDetector;

fn fx(v: f64) -> Fixed {
    if v.is_finite() && v.abs() < 2147483648.0 {
        Fixed::Finite((v * SCALE as f64).round() as i64)
    } else {
        Fixed::NonFinite
    }
}

fn raw(x: Fixed) -> i64 {
    match x {
        Fixed::Finite(r) => r,
        Fixed::NonFinite => panic!("not finite"),
    }
}

fn coefficient(time_ms: f64, sample_rate: f64) -> Fixed {
    fx((-1000.0 * std::f64::consts::PI / time_ms / sample_rate).exp())
}

#[test]
fn new_detector_is_at_rest() {
    let d = DecoupledPeakDetector::new(fx(0.5), fx(0.25));
    assert_eq!(d.env(), Fixed::zero());
    assert_eq!(d.env2(), Fixed::zero());
}

#[test]
fn process_holds_the_peak_and_smooths_it() {
    let mut d = DecoupledPeakDetector::new(fx(0.5), fx(0.5));
    // env = max(1, 0.5 * 0) = 1, env2 = 0.5 * 0 + 0.5 * 1
    assert_eq!(d.process(fx(1.0)), fx(0.5));
    assert_eq!(d.env(), fx(1.0));
    // env = max(0, 0.5 * 1) = 0.5, env2 = 0.5 * 0.5 + 0.5 * 0.5
    assert_eq!(d.process(fx(0.0)), fx(0.5));
    assert_eq!(d.env(), fx(0.5));
    // env = max(0, 0.25) = 0.25, env2 = 0.25 + 0.125
    assert_eq!(d.process(fx(0.0)), fx(0.375));
    assert_eq!(d.env2(), fx(0.375));
}

#[test]
fn process_smooth_smooths_the_release_too() {
    let mut d = DecoupledPeakDetector::new(fx(0.5), fx(0.75));
    // env = max(2, 0.75 * 0 + 0.25 * 2) = 2, env2 = 0.5 * 0 + 0.5 * 2
    assert_eq!(d.process_smooth(fx(2.0)), fx(1.0));
    assert_eq!(d.env(), fx(2.0));
    // env = max(0, 0.75 * 2 + 0.25 * 0) = 1.5, env2 = 0.5 * 1 + 0.5 * 1.5
    assert_eq!(d.process_smooth(fx(0.0)), fx(1.25));
    assert_eq!(d.env(), fx(1.5));
    // env = max(1, 0.75 * 1.5 + 0.25 * 1) = 1.375, env2 = 0.625 + 0.6875
    assert_eq!(d.process_smooth(fx(1.0)), fx(1.3125));
    assert_eq!(d.env(), fx(1.375));
}

#[test]
fn update_replaces_coefficients_and_keeps_envelopes() {
    let mut d = DecoupledPeakDetector::new(fx(0.5), fx(0.5));
    d.process(fx(1.0));
    d.update(Fixed::zero(), Fixed::zero());
    assert_eq!(d.env(), fx(1.0));
    assert_eq!(d.env2(), fx(0.5));
    // with both coefficients zero the input passes straight through
    assert_eq!(d.process(fx(0.25)), fx(0.25));
    assert_eq!(d.env(), fx(0.25));
}

#[test]
fn zero_time_constants_give_zero_coefficients() {
    assert_eq!(coefficient(0.0, 48000.0), Fixed::zero());
    let mut d = DecoupledPeakDetector::new(coefficient(0.0, 48000.0), coefficient(0.0, 48000.0));
    assert_eq!(d.process_smooth(fx(3.75)), fx(3.75));
    assert_eq!(d.process_smooth(fx(-1.0)), fx(-1.0));
}

#[test]
fn constant_input_converges() {
    let attack = coefficient(10.0, 48000.0);
    let release = coefficient(100.0, 48000.0);
    assert_eq!(attack, Fixed::Finite(4_266_948_592));
    assert_eq!(release, Fixed::Finite(4_292_157_166));
    let mut d = DecoupledPeakDetector::new(attack, release);
    let c = fx(0.5);
    let mut y = Fixed::zero();
    for _ in 0..48000 {
        y = d.process(c);
    }
    assert_eq!(d.env(), c);
    // within 2 / (1 - attack) raw units
    let bound = 2 * SCALE / (SCALE - raw(attack));
    assert!((raw(c) - raw(y)).abs() <= bound);
    assert_eq!(y, Fixed::Finite(2_147_483_495));
    // and it stays there
    for _ in 0..1000 {
        y = d.process(c);
        assert!((raw(c) - raw(y)).abs() <= bound);
    }
}

#[test]
fn constant_input_converges_from_above() {
    let attack = coefficient(10.0, 48000.0);
    let release = coefficient(100.0, 48000.0);
    let mut d = DecoupledPeakDetector::new(attack, release);
    for _ in 0..1000 {
        d.process(fx(8.0));
    }
    let c = fx(0.125);
    let mut y = Fixed::zero();
    for _ in 0..200_000 {
        y = d.process(c);
    }
    assert_eq!(d.env(), c);
    let bound = 2 * SCALE / (SCALE - raw(attack));
    assert!((raw(c) - raw(y)).abs() <= bound);
}

#[test]
fn negative_constant_input_decays_toward_zero() {
    let mut d = DecoupledPeakDetector::new(fx(0.5), fx(0.5));
    let mut y = Fixed::zero();
    for _ in 0..200 {
        y = d.process(fx(-1.0));
    }
    assert_eq!(d.env(), Fixed::zero());
    assert_eq!(y, Fixed::zero());
}

#[test]
fn process_smooth_recovers_from_a_bad_sample() {
    let mut d = DecoupledPeakDetector::new(fx(0.5), fx(0.5));
    d.process_smooth(fx(0.25));
    assert_eq!(d.process_smooth(Fixed::NonFinite), Fixed::one());
    assert_eq!(d.env(), Fixed::one());
    assert_eq!(d.env2(), Fixed::one());
    // the next sample is processed from the state (1, 1)
    // env = max(0.5, 0.5 * 1 + 0.5 * 0.5) = 0.75, env2 = 0.5 + 0.375
    assert_eq!(d.process_smooth(fx(0.5)), fx(0.875));
}

#[test]
fn process_smooth_is_finite_for_any_coefficients() {
    let mut d = DecoupledPeakDetector::new(Fixed::NonFinite, Fixed::NonFinite);
    assert_eq!(d.process_smooth(fx(0.5)), Fixed::one());
    let mut d = DecoupledPeakDetector::new(fx(1.0e9), fx(1.0e9));
    for _ in 0..10 {
        assert!(d.process_smooth(fx(3.0)).is_finite());
        assert!(d.env().is_finite());
    }
}

#[test]
fn process_ignores_a_bad_sample() {
    let mut d = DecoupledPeakDetector::new(fx(0.5), fx(0.5));
    d.process(fx(1.0));
    // env = 0.5 * 1, env2 = 0.5 * 0.5 + 0.5 * 0.5
    assert_eq!(d.process(Fixed::NonFinite), fx(0.5));
    assert_eq!(d.env(), fx(0.5));
}

#[test]
fn process_rounds_each_product_toward_zero() {
    let mut d = DecoupledPeakDetector::new(fx(0.5), fx(0.5));
    // env = 3 raw units, env2 = 0 + trunc(1.5) = 1 raw unit
    assert_eq!(d.process(Fixed::Finite(3)), Fixed::Finite(1));
    // env = max(0, trunc(1.5)) = 1, env2 = trunc(0.5) + trunc(0.5) = 0
    assert_eq!(d.process(Fixed::zero()), Fixed::zero());
    assert_eq!(d.env(), Fixed::Finite(1));
}

#[test]
fn constant_input_converges_with_smoothed_release() {
    let attack = coefficient(10.0, 48000.0);
    let release = coefficient(100.0, 48000.0);
    let mut d = DecoupledPeakDetector::new(attack, release);
    for _ in 0..1000 {
        d.process_smooth(fx(8.0));
    }
    let c = fx(3.75);
    let mut y = Fixed::zero();
    for _ in 0..200_000 {
        y = d.process_smooth(c);
    }
    assert_eq!(d.env(), c);
    let bound = 2 * SCALE / (SCALE - raw(attack));
    assert!((raw(c) - raw(y)).abs() <= bound);
    // from above the roundings do not hold it away
    assert_eq!(y, c);
    // from below they do
    let mut d = DecoupledPeakDetector::new(attack, release);
    for _ in 0..48000 {
        y = d.process_smooth(c);
    }
    assert_eq!(d.env(), c);
    assert_eq!(y, Fixed::Finite(16_106_127_207));
    assert!((raw(c) - raw(y)).abs() <= bound);
}

#[test]
fn stable_follower_stays_finite() {
    let mut d = DecoupledPeakDetector::new(Fixed::Finite(SCALE - 1), Fixed::Finite(SCALE - 1));
    for x in [i64::MAX, i64::MIN, 0, -1, 1, i64::MAX, i64::MIN, i64::MIN] {
        assert!(d.process(Fixed::Finite(x)).is_finite());
        assert!(d.env().is_finite());
    }
    assert!(d.process(Fixed::NonFinite).is_finite());
    let mut d = DecoupledPeakDetector::new(Fixed::Finite(SCALE - 1), Fixed::Finite(SCALE - 1));
    for x in [i64::MAX, i64::MIN, 0, -1, 1, i64::MAX, i64::MIN, i64::MIN] {
        assert!(d.process_smooth(Fixed::Finite(x)).is_finite());
    }
}

#[test]
fn unstable_coefficients_can_leave_the_range() {
    let mut d = DecoupledPeakDetector::new(fx(-1.0e9), fx(0.5));
    d.process(fx(1.0e6));
    assert_eq!(d.process(fx(1.0e6)), Fixed::NonFinite);
    // the plain follower does not recover by itself
    assert_eq!(d.process(fx(0.0)), Fixed::NonFinite);
    // the guarded one does
    assert_eq!(d.process_smooth(fx(0.0)), Fixed::one());
}
