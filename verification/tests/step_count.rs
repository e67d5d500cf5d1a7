use hyetograph::step_count::{step_count, steps_integral};

/// The floating-point computation that `steps_integral` decides exactly on
/// the bit pattern: whether the quotient is within 1e-9 of an integer.
fn float_test(x: f64) -> bool {
    !((x - x.round()).abs() > 1e-9)
}

#[test]
fn exact_integers_are_integral() {
    for x in [0.0f64, 1.0, 6.0, 12.0, 144.0, 1e6, 2f64.powi(52), 2f64.powi(60)] {
        assert!(steps_integral(x.to_bits()), "{} should be integral", x);
    }
}

#[test]
fn near_integers_within_tolerance_pass() {
    for x in [12.0f64 + 5e-10, 12.0 - 5e-10, 1.0 + 1e-10, 144.0 - 9.9e-10] {
        assert!(steps_integral(x.to_bits()), "{} should pass", x);
    }
}

#[test]
fn fractions_outside_tolerance_fail() {
    for x in [60.0f64 / 7.0, 8.5, 0.5, 12.00001, 11.99999, 12.0 + 1e-8] {
        assert!(!steps_integral(x.to_bits()), "{} should fail", x);
    }
}

#[test]
fn matches_the_float_computation() {
    let mut samples: Vec<f64> = Vec::new();
    for i in 1..200u32 {
        for j in 1..60u32 {
            samples.push(f64::from(i) * 60.0 / f64::from(j));
        }
    }
    for k in -40..40i32 {
        samples.push(2f64.powi(k));
        samples.push(2f64.powi(k) + 1.0);
        samples.push(12.0 + 2f64.powi(k) * 1e-9);
    }
    samples.extend([
        0.0,
        -0.0,
        5e-324,
        f64::MIN_POSITIVE,
        1e-10,
        1e-9,
        2e-9,
        0.49999999999999994,
        0.5,
        0.5000000000000001,
        4503599627370495.5,
        f64::MAX,
        f64::INFINITY,
        f64::NEG_INFINITY,
        f64::NAN,
        -8.5,
        -12.0,
        -12.0 - 5e-10,
    ]);
    for x in samples {
        assert_eq!(
            steps_integral(x.to_bits()),
            float_test(x),
            "disagreement at {} (bits {:#x})",
            x,
            x.to_bits()
        );
    }
}

#[test]
fn step_count_of_the_fixture_is_twelve() {
    assert_eq!(step_count((2.0f64 * 60.0 / 10.0).to_bits()), 12);
}

#[test]
fn step_count_matches_the_float_cast() {
    let mut samples: Vec<f64> = Vec::new();
    for i in 1..200u32 {
        for j in 1..60u32 {
            samples.push(f64::from(i) * 60.0 / f64::from(j));
        }
    }
    for k in -40..70i32 {
        samples.push(2f64.powi(k));
        samples.push(2f64.powi(k) + 1.0);
        samples.push(2f64.powi(k) - 1.0);
    }
    samples.extend([
        0.0,
        -0.0,
        5e-324,
        0.5,
        0.49999999999999994,
        1.5,
        2.5,
        4503599627370495.5,
        9007199254740991.0,
        1e300,
        f64::MAX,
        f64::INFINITY,
        f64::NEG_INFINITY,
        f64::NAN,
        -0.4,
        -0.5,
        -12.0,
        -1e300,
    ]);
    for x in samples {
        assert_eq!(
            step_count(x.to_bits()),
            x.round() as usize,
            "disagreement at {} (bits {:#x})",
            x,
            x.to_bits()
        );
    }
}
