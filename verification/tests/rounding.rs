use marith::rounding::{round, round_value};
use marith::{Rat, Value};

#[test]
fn round_1() {
    // 3.454 rounded to 2 digits is 3.45
    assert_eq!(
        round(Rat { num: 3454, den: 1000 }, 2),
        Value::Finite(Rat { num: 345, den: 100 })
    );
}

#[test]
fn round_2() {
    // -3.454 rounded to 2 digits is -3.45
    assert_eq!(
        round(Rat { num: -3454, den: 1000 }, 2),
        Value::Finite(Rat { num: -345, den: 100 })
    );
}

#[test]
fn round_3() {
    // 4.999 rounded to 2 digits is 5
    assert_eq!(
        round(Rat { num: 4999, den: 1000 }, 2),
        Value::Finite(Rat { num: 500, den: 100 })
    );
}

#[test]
fn round_4() {
    // -4.999 rounded to 2 digits is -5
    assert_eq!(
        round(Rat { num: -4999, den: 1000 }, 2),
        Value::Finite(Rat { num: -500, den: 100 })
    );
}

#[test]
fn round_tie_goes_away_from_zero() {
    // 0.5 -> 1, -0.5 -> -1, 2.5 -> 3, -2.5 -> -3 at zero digits
    assert_eq!(round(Rat { num: 5, den: 10 }, 0), Value::Finite(Rat { num: 1, den: 1 }));
    assert_eq!(round(Rat { num: -5, den: 10 }, 0), Value::Finite(Rat { num: -1, den: 1 }));
    assert_eq!(round(Rat { num: 25, den: 10 }, 0), Value::Finite(Rat { num: 3, den: 1 }));
    assert_eq!(round(Rat { num: -25, den: 10 }, 0), Value::Finite(Rat { num: -3, den: 1 }));
    // a tie one digit in: 0.25 -> 0.3
    assert_eq!(round(Rat { num: 25, den: 100 }, 1), Value::Finite(Rat { num: 3, den: 10 }));
}

#[test]
fn round_is_idempotent_on_samples() {
    let samples = [
        Rat { num: 3454, den: 1000 },
        Rat { num: -4999, den: 1000 },
        Rat { num: 1, den: 3 },
        Rat { num: -22, den: 7 },
        Rat { num: 0, den: 1 },
    ];
    for v in samples {
        for d in [0u8, 1, 2, 5] {
            let once = round(v, d);
            let twice = round_value(once, d);
            assert_eq!(twice, once);
        }
    }
}

#[test]
fn round_whole_values_unchanged() {
    assert_eq!(round(Rat { num: 7, den: 1 }, 0), Value::Finite(Rat { num: 7, den: 1 }));
    assert_eq!(round(Rat { num: -7, den: 1 }, 2), Value::Finite(Rat { num: -700, den: 100 }));
}

#[test]
fn round_non_finite_stays_non_finite() {
    assert_eq!(round_value(Value::NonFinite, 3), Value::NonFinite);
}

#[test]
fn round_overflow_is_non_finite() {
    // scaling the largest representable numerator by 10^18 cannot fit
    assert_eq!(round(Rat { num: i64::MAX, den: 1 }, 18), Value::NonFinite);
}
