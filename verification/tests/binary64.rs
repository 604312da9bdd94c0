//! Double patterns as numbers.

use phoxal_simulator_webots_controller::binary64::Binary64;

fn bits(value: f64) -> Binary64 {
    Binary64::from_bits(value.to_bits())
}

const VALUES: [f64; 18] = [
    0.0,
    -0.0,
    1.0,
    -1.0,
    0.5,
    -0.5,
    0.499_999_999_999_999_94,
    2.5,
    1e-320,
    -1e-320,
    4_503_599_627_370_496.5,
    1.8e19,
    1e300,
    -1e300,
    f64::MAX,
    f64::INFINITY,
    f64::NEG_INFINITY,
    f64::NAN,
];

#[test]
fn patterns_are_classified_as_the_numbers_they_are() {
    for value in VALUES {
        assert_eq!(bits(value).to_bits(), value.to_bits());
        assert_eq!(bits(value).is_finite(), value.is_finite(), "{value}");
        assert_eq!(bits(value).is_nan(), value.is_nan(), "{value}");
        assert_eq!(bits(value).is_zero(), value == 0.0, "{value}");
        assert_eq!(bits(value).is_positive(), value > 0.0, "{value}");
        assert_eq!(bits(value).is_negative(), value < 0.0, "{value}");
    }
}

#[test]
fn patterns_are_ordered_as_the_numbers_they_are() {
    for value in VALUES {
        for other in VALUES {
            assert_eq!(
                bits(value).exceeds(bits(other)),
                value > other,
                "{value} and {other}"
            );
        }
    }
}

#[test]
fn magnitudes_are_rounded_half_away_from_zero() {
    for value in VALUES {
        let rounded = value.abs().round();
        let expected = if rounded < 18_446_744_073_709_551_616.0 {
            Some(rounded as u64)
        } else {
            None
        };
        if !value.is_nan() {
            assert_eq!(bits(value).round_magnitude(), expected, "{value}");
        }
    }
    for value in VALUES {
        for other in VALUES {
            if value.abs() <= other.abs() {
                let limit = u128::from(u64::MAX) + 1;
                let rounded = |number: f64| {
                    bits(number).round_magnitude().map_or(limit, u128::from)
                };
                assert!(rounded(value) <= rounded(other), "{value} and {other}");
            }
        }
    }
    assert_eq!(bits(2.5).round_magnitude(), Some(3));
    assert_eq!(bits(-2.5).round_magnitude(), Some(3));
    assert_eq!(bits(18_446_744_073_709_549_568.0).round_magnitude(), Some(18_446_744_073_709_549_568));
    assert_eq!(bits(18_446_744_073_709_551_616.0).round_magnitude(), None);
}
