use prosic::double::Double;
use prosic::error::ConfigError;
use prosic::prob::Prob;

fn d(x: f64) -> Double {
    Double::from_bits(x.to_bits())
}

fn samples() -> Vec<f64> {
    vec![
        0.0,
        -0.0,
        f64::from_bits(1),
        -f64::from_bits(1),
        f64::MIN_POSITIVE,
        -f64::MIN_POSITIVE,
        f64::from_bits(0x000F_FFFF_FFFF_FFFF),
        1e-300,
        1.25e-4,
        0.12,
        0.25,
        0.5,
        0.999_999_999_999_999_9,
        1.0,
        1.000_000_000_000_000_2,
        2.0,
        3.5,
        -0.5,
        -1.0,
        -2.0,
        1e300,
        -1e300,
        f64::MAX,
        f64::MIN,
        f64::INFINITY,
        f64::NEG_INFINITY,
        f64::NAN,
        -f64::NAN,
        f64::from_bits(0x7FF0_0000_0000_0001),
    ]
}

#[test]
fn order_is_that_of_the_numbers() {
    for &x in samples().iter() {
        for &y in samples().iter() {
            assert_eq!(d(x).le(d(y)), x <= y, "{:?} <= {:?}", x, y);
            assert_eq!(d(x).ge(d(y)), x >= y, "{:?} >= {:?}", x, y);
        }
    }
}

#[test]
fn classes_are_those_of_the_numbers() {
    for &x in samples().iter() {
        assert_eq!(d(x).is_nan(), x.is_nan(), "{:?}", x);
        assert_eq!(d(x).is_finite(), x.is_finite(), "{:?}", x);
    }
}

#[test]
fn positive_is_finite_and_above_zero() {
    for &x in samples().iter() {
        assert_eq!(d(x).is_positive(), x.is_finite() && x > 0.0, "{:?}", x);
    }
}

#[test]
fn bits_round_trip() {
    for &x in samples().iter() {
        assert_eq!(d(x).to_bits(), x.to_bits());
    }
    assert_eq!(Double::from_bits(0x3FF0_0000_0000_0000).to_bits(), 1.0f64.to_bits());
}

#[test]
fn zeros_differ_as_data_and_agree_as_numbers() {
    assert_ne!(d(0.0), d(-0.0));
    assert!(d(0.0).le(d(-0.0)) && d(-0.0).le(d(0.0)));
}

#[test]
fn probability_is_checked_as_the_number_is() {
    for &x in samples().iter() {
        let expected = x >= 0.0 && x <= 1.0;
        match Prob::checked(d(x)) {
            Ok(p) => {
                assert!(expected, "{:?} taken for a probability", x);
                assert_eq!(p.get().to_bits(), x.to_bits());
            }
            Err(e) => {
                assert!(!expected, "{:?} not taken for a probability", x);
                assert_eq!(e, ConfigError::InvalidProbability(d(x)));
            }
        }
    }
}

#[test]
fn probability_takes_both_ends() {
    assert!(Prob::checked(d(0.0)).is_ok());
    assert!(Prob::checked(d(1.0)).is_ok());
    assert!(Prob::checked(d(-0.0)).is_ok());
    assert!(Prob::checked(d(0.5)).is_ok());
}

#[test]
fn probability_refuses_what_lies_outside() {
    assert_eq!(Prob::checked(d(1.5)), Err(ConfigError::InvalidProbability(d(1.5))));
    assert_eq!(Prob::checked(d(-0.1)), Err(ConfigError::InvalidProbability(d(-0.1))));
    assert_eq!(
        Prob::checked(d(1.000_000_000_000_000_2)),
        Err(ConfigError::InvalidProbability(d(1.000_000_000_000_000_2)))
    );
    assert!(Prob::checked(d(f64::NAN)).is_err());
    assert!(Prob::checked(d(f64::INFINITY)).is_err());
    assert!(Prob::checked(d(f64::NEG_INFINITY)).is_err());
}

#[test]
fn certain_probability_is_one() {
    assert_eq!(f64::from_bits(Prob::one().get().to_bits()), 1.0);
}

#[test]
fn probability_is_checked_as_by_bio() {
    for &x in samples().iter() {
        assert_eq!(
            Prob::checked(d(x)).is_ok(),
            bio::stats::Prob::checked(x).is_ok(),
            "{:?}",
            x
        );
    }
}
