use compressor::fixed::Fixed;
use compressor::fixed::SCALE;
use compressor::Action;
use compressor::Compressor;
use compressor::Event;

fn fx(v: f64) -> Fixed {
    if v.is_finite() && v.abs() < 2147483648.0 {
        Fixed::Finite((v * SCALE as f64).round() as i64)
    } else {
        Fixed::NonFinite
    }
}

fn fl(x: Fixed) -> f64 {
    match x {
        Fixed::Finite(r) => r as f64 / SCALE as f64,
        Fixed::NonFinite => f64::NAN,
    }
}

fn db_to_lin(x: f64) -> f64 {
    10.0f64.powf(x / 20.0)
}

fn lin_to_db(x: f64) -> f64 {
    20.0 * x.log10()
}

fn pole(two_pi_scale: f64, time_ms: f64, sample_rate: f64) -> Fixed {
    fx((-two_pi_scale * std::f64::consts::PI * 1000.0 / time_ms / sample_rate).exp())
}

/// Runs one sample through the exchange, with a stand-in RMS detector that
/// answers `rms_answer`, and counts how often it was asked.
fn run_sample(c: &mut Compressor, input: f64, rms_answer: f64, rms_calls: &mut u32) -> f64 {
    let mut action = c.process(Event::Input(fx(input)));
    for _ in 0..8 {
        action = match action {
            Action::MeasureRms(_) => {
                *rms_calls += 1;
                c.process(Event::Rms(fx(rms_answer)))
            }
            Action::ToDecibels(e) => c.process(Event::Decibels(fx(lin_to_db(fl(e))))),
            Action::ToLinear(g) => c.process(Event::Linear(fx(db_to_lin(fl(g))))),
            Action::Output(m) => return fl(m),
        };
    }
    panic!("the exchange did not end");
}

fn configured(rms_size: f64) -> Compressor {
    let mut c = Compressor::new();
    c.update_prams(
        fx(-10.0),
        Fixed::zero(),
        pole(2.0, 0.0, 48000.0),
        fx(rms_size),
        fx(4.0),
        pole(1.0, 10.0, 48000.0),
        pole(1.0, 100.0, 48000.0),
        fx(db_to_lin(0.0)),
    );
    c
}

#[test]
fn new_compressor_has_neutral_defaults() {
    let c = Compressor::new();
    assert_eq!(c.envelope(), Fixed::zero());
    assert_eq!(c.slope(), Fixed::zero());
    assert_eq!(c.gain(), Fixed::zero());
}

#[test]
fn new_compressor_detects_peaks() {
    let mut c = Compressor::new();
    // no pre-smoothing yet: the envelope is the sample
    assert_eq!(c.process(Event::Input(fx(0.25))), Action::ToDecibels(fx(0.25)));
    assert_eq!(c.envelope(), fx(0.25));
}

#[test]
fn update_derives_the_slope_and_keeps_the_gain() {
    let mut c = Compressor::new();
    c.update_prams(
        fx(-10.0),
        fx(6.0),
        fx(0.5),
        Fixed::zero(),
        fx(4.0),
        fx(0.5),
        fx(0.5),
        fx(2.0),
    );
    assert_eq!(c.slope(), fx(-0.75));
    assert_eq!(c.gain(), fx(2.0));
    assert_eq!(c.envelope(), Fixed::zero());
}

#[test]
fn update_keeps_the_envelopes() {
    let mut c = Compressor::new();
    c.process(Event::Input(fx(0.5)));
    c.update_prams(
        fx(-10.0),
        fx(6.0),
        fx(0.5),
        Fixed::zero(),
        fx(4.0),
        fx(0.5),
        fx(0.5),
        fx(1.0),
    );
    assert_eq!(c.envelope(), fx(0.5));
    // 1 + 0.5 * (0.5 - 1)
    assert_eq!(c.process(Event::Input(fx(1.0))), Action::ToDecibels(fx(0.75)));
}

#[test]
fn update_with_ratio_zero_leaves_no_finite_slope() {
    let mut c = Compressor::new();
    c.update_prams(
        fx(-10.0),
        fx(6.0),
        fx(0.5),
        Fixed::zero(),
        Fixed::zero(),
        fx(0.5),
        fx(0.5),
        fx(1.0),
    );
    assert_eq!(c.slope(), Fixed::NonFinite);
    // inside the knee the gain reduction is not finite; the follower masks it
    assert_eq!(c.process(Event::Decibels(fx(-10.0))), Action::ToLinear(fx(-1.0)));
}

#[test]
fn resize_is_asked_for_only_when_the_window_changes() {
    let mut c = Compressor::new();
    let mut update = |c: &mut Compressor, rms_size: f64| {
        c.update_prams(
            fx(-10.0),
            Fixed::zero(),
            Fixed::zero(),
            fx(rms_size),
            fx(4.0),
            fx(0.5),
            fx(0.5),
            fx(1.0),
        )
    };
    // the window starts at zero
    assert!(!update(&mut c, 0.0));
    assert!(update(&mut c, 5.0));
    assert!(!update(&mut c, 5.0));
    let mut calls = 0;
    for _ in 0..10 {
        run_sample(&mut c, 0.5, 0.5, &mut calls);
    }
    assert!(!update(&mut c, 5.0));
    assert!(update(&mut c, 2.5));
    assert!(!update(&mut c, 2.5));
    assert!(update(&mut c, 0.0));
}

#[test]
fn rms_is_used_from_a_window_of_one_millisecond() {
    let mut c = configured(1.0);
    assert_eq!(c.process(Event::Input(fx(0.5))), Action::MeasureRms(fx(0.5)));
    // asking changes nothing
    assert_eq!(c.envelope(), Fixed::zero());
    assert_eq!(c.process(Event::Rms(fx(0.25))), Action::ToDecibels(fx(0.25)));

    let mut c = configured(0.999);
    assert_eq!(c.process(Event::Input(fx(0.5))), Action::ToDecibels(fx(0.5)));

    let mut c = configured(0.0);
    let mut calls = 0;
    run_sample(&mut c, 0.5, 0.1, &mut calls);
    assert_eq!(calls, 0);

    let mut c = configured(5.0);
    for _ in 0..7 {
        run_sample(&mut c, 0.5, 0.1, &mut calls);
    }
    assert_eq!(calls, 7);
}

#[test]
fn pre_smoothing_is_a_one_pole_filter() {
    let mut c = Compressor::new();
    c.update_prams(
        fx(-10.0),
        Fixed::zero(),
        fx(0.75),
        Fixed::zero(),
        fx(4.0),
        fx(0.5),
        fx(0.5),
        fx(1.0),
    );
    // 1 + 0.75 * (0 - 1)
    assert_eq!(c.process(Event::Input(fx(1.0))), Action::ToDecibels(fx(0.25)));
    // 1 + 0.75 * (0.25 - 1)
    assert_eq!(c.process(Event::Input(fx(1.0))), Action::ToDecibels(fx(0.4375)));
    // 0 + 0.75 * (0.4375 - 0)
    assert_eq!(c.process(Event::Input(fx(0.0))), Action::ToDecibels(fx(0.328125)));
    assert_eq!(c.envelope(), fx(0.328125));
}

#[test]
fn envelope_that_is_not_finite_resets_to_one() {
    let mut c = Compressor::new();
    assert_eq!(c.process(Event::Input(Fixed::NonFinite)), Action::ToDecibels(Fixed::one()));
    assert_eq!(c.envelope(), Fixed::one());
    assert_eq!(c.process(Event::Rms(Fixed::NonFinite)), Action::ToDecibels(Fixed::one()));
}

#[test]
fn gain_reduction_is_smoothed_and_negated() {
    let mut c = Compressor::new();
    c.update_prams(
        fx(-10.0),
        Fixed::zero(),
        Fixed::zero(),
        Fixed::zero(),
        fx(4.0),
        fx(0.5),
        fx(0.5),
        fx(1.0),
    );
    // curve(-5) = -8.75, reduction 3.75; follower: env = 3.75, env2 = 1.875
    assert_eq!(c.process(Event::Decibels(fx(-5.0))), Action::ToLinear(fx(-1.875)));
    // env = max(3.75, 0.5 * 3.75 + 0.5 * 3.75), env2 = 0.9375 + 1.875
    assert_eq!(c.process(Event::Decibels(fx(-5.0))), Action::ToLinear(fx(-2.8125)));
    // below the threshold the reduction is zero:
    // env = max(0, 0.5 * 3.75 + 0.5 * 0) = 1.875, env2 = 1.40625 + 0.9375
    assert_eq!(c.process(Event::Decibels(fx(-20.0))), Action::ToLinear(fx(-2.34375)));
}

#[test]
fn silence_is_masked_by_the_follower() {
    let mut c = configured(0.0);
    // the decibels of zero are not finite, and neither is the reduction
    assert_eq!(c.process(Event::Decibels(fx(lin_to_db(0.0)))), Action::ToLinear(fx(-1.0)));
    let mut calls = 0;
    let m = run_sample(&mut c, 0.0, 0.0, &mut calls);
    assert!((m - db_to_lin(-1.0)).abs() < 1e-9);
}

#[test]
fn output_is_the_gain_or_one() {
    let mut c = configured(0.0);
    assert_eq!(c.process(Event::Linear(fx(0.649))), Action::Output(fx(0.649)));
    assert_eq!(c.process(Event::Linear(Fixed::NonFinite)), Action::Output(Fixed::one()));
    assert_eq!(c.process(Event::Linear(Fixed::Finite(1))), Action::Output(Fixed::Finite(1)));
}

#[test]
fn output_is_finite_and_positive() {
    let mut c = configured(0.0);
    let mut calls = 0;
    for x in [0.0, 1.0e-9, 0.001, 0.5, 1.0, 10.0, 1.0e6, 2.0e9] {
        for _ in 0..50 {
            let m = run_sample(&mut c, x, x, &mut calls);
            assert!(m.is_finite() && m > 0.0, "multiplier {} for input {}", m, x);
        }
    }
    // one bad sample does not stick
    let m = run_sample(&mut c, f64::NAN, 0.0, &mut calls);
    assert!(m.is_finite() && m > 0.0);
    let m = run_sample(&mut c, f64::INFINITY, 0.0, &mut calls);
    assert!(m.is_finite() && m > 0.0);
    let m = run_sample(&mut c, 0.5, 0.0, &mut calls);
    assert!(m.is_finite() && m > 0.0);
}

#[test]
fn constant_input_above_threshold_converges() {
    // threshold -10 dB, ratio 4, hard knee, attack 10 ms, release 100 ms at
    // 48 kHz, peak mode; a constant -5 dB input ends at -3.75 dB of gain
    let mut c = configured(0.0);
    let input = db_to_lin(-5.0);
    assert!((input - 0.562).abs() < 1e-3);
    let mut calls = 0;
    let mut m = 0.0;
    for _ in 0..48000 {
        m = run_sample(&mut c, input, 0.0, &mut calls);
    }
    assert_eq!(calls, 0);
    assert!((m - db_to_lin(-3.75)).abs() < 1e-6, "multiplier {}", m);
    assert!((m - 0.649).abs() < 1e-3);
    // the processed level approaches -8.75 dB
    assert!((lin_to_db(input * m) - -8.75).abs() < 1e-5);
    // early on the gain is still on its way down
    let mut c = configured(0.0);
    let first = run_sample(&mut c, input, 0.0, &mut calls);
    assert!(first > m && first < 1.0);
}

#[test]
fn envelope_stays_between_the_level_and_the_old_envelope() {
    let mut c = Compressor::new();
    c.update_prams(
        fx(-10.0),
        Fixed::zero(),
        fx(0.9),
        Fixed::zero(),
        fx(4.0),
        fx(0.5),
        fx(0.5),
        fx(1.0),
    );
    let mut old = c.envelope();
    for level in [0.0, 1.0, 0.25, 0.25, 100.0, 0.0, 0.0, 3.0e-9, 2.0e9] {
        let envelope = match c.process(Event::Input(fx(level))) {
            Action::ToDecibels(e) => e,
            other => panic!("unexpected {:?}", other),
        };
        let (lo, hi) = if fx(level).le(old) { (fx(level), old) } else { (old, fx(level)) };
        assert!(lo.le(envelope) && envelope.le(hi));
        assert!(envelope.ge(Fixed::zero()));
        old = envelope;
    }
}

#[test]
fn steady_level_gives_a_steady_gain() {
    let mut c = configured(0.0);
    let attack = pole(1.0, 10.0, 48000.0);
    let bound = match attack {
        Fixed::Finite(a) => 2 * SCALE / (SCALE - a),
        Fixed::NonFinite => panic!("not finite"),
    };
    let mut gain = Fixed::zero();
    for _ in 0..48000 {
        gain = match c.process(Event::Decibels(fx(-5.0))) {
            Action::ToLinear(g) => g,
            other => panic!("unexpected {:?}", other),
        };
    }
    match (gain, fx(-3.75)) {
        (Fixed::Finite(g), Fixed::Finite(target)) => assert!((g - target).abs() <= bound),
        _ => panic!("not finite"),
    }
    assert_eq!(gain, Fixed::Finite(-16_106_127_207));
}
