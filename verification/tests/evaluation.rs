use marith::eval::{evaluate, max_op};
use marith::rat::{add_rat, div_rat, mul_rat, sub_rat};
use marith::{Operator, Rat, Value};

fn whole(n: i64) -> Value {
    Value::Finite(Rat { num: n, den: 1 })
}

#[test]
fn evaluation_respects_precedence() {
    // 2 + 3 * 4 == 14, not 20
    let r = evaluate(
        vec![whole(2), whole(3), whole(4)],
        vec![Operator::Addition, Operator::Multiplication],
    );
    assert_eq!(r, whole(14));
}

#[test]
fn equal_priority_is_left_associative() {
    // 10 - 2 - 5 == 3, not 13
    let r = evaluate(
        vec![whole(10), whole(2), whole(5)],
        vec![Operator::Subtraction, Operator::Subtraction],
    );
    assert_eq!(r, whole(3));
}

#[test]
fn single_operand_evaluates_to_itself() {
    assert_eq!(evaluate(vec![whole(42)], vec![]), whole(42));
}

#[test]
fn division_by_zero_is_non_finite() {
    let r = evaluate(vec![whole(1), whole(0)], vec![Operator::Division]);
    assert_eq!(r, Value::NonFinite);
}

#[test]
fn non_finite_propagates_through_later_steps() {
    // (1 / 0) + 5 stays non-finite
    let r = evaluate(
        vec![whole(1), whole(0), whole(5)],
        vec![Operator::Division, Operator::Addition],
    );
    assert_eq!(r, Value::NonFinite);
}

#[test]
fn max_op_picks_leftmost_highest_priority() {
    assert_eq!(max_op(&vec![Operator::Addition, Operator::Multiplication]), 1);
    assert_eq!(max_op(&vec![Operator::Subtraction, Operator::Subtraction]), 0);
    assert_eq!(
        max_op(&vec![Operator::Multiplication, Operator::Addition, Operator::Division]),
        0
    );
    assert_eq!(
        max_op(&vec![Operator::Addition, Operator::Division, Operator::Multiplication]),
        1
    );
}

#[test]
fn operator_priorities_and_symbols() {
    assert_eq!(Operator::Addition.priority(), 5);
    assert_eq!(Operator::Subtraction.priority(), 5);
    assert_eq!(Operator::Multiplication.priority(), 6);
    assert_eq!(Operator::Division.priority(), 6);
    assert_eq!(Operator::Addition.symbol(), '+');
    assert_eq!(Operator::Subtraction.symbol(), '-');
    assert_eq!(Operator::Multiplication.symbol(), '*');
    assert_eq!(Operator::Division.symbol(), '/');
}

#[test]
fn rational_arithmetic_is_exact() {
    // 1/3 + 1/6 == 9/18
    assert_eq!(
        add_rat(Rat { num: 1, den: 3 }, Rat { num: 1, den: 6 }),
        Value::Finite(Rat { num: 9, den: 18 })
    );
    // 1/2 - 1/3 == 1/6
    assert_eq!(
        sub_rat(Rat { num: 1, den: 2 }, Rat { num: 1, den: 3 }),
        Value::Finite(Rat { num: 1, den: 6 })
    );
    // 2/3 * 3/4 == 6/12
    assert_eq!(
        mul_rat(Rat { num: 2, den: 3 }, Rat { num: 3, den: 4 }),
        Value::Finite(Rat { num: 6, den: 12 })
    );
    // (1/2) / (-3/4) == -4/6 with the sign moved to the numerator
    assert_eq!(
        div_rat(Rat { num: 1, den: 2 }, Rat { num: -3, den: 4 }),
        Value::Finite(Rat { num: -4, den: 6 })
    );
}

#[test]
fn arithmetic_overflow_is_non_finite() {
    assert_eq!(
        mul_rat(Rat { num: i64::MAX, den: 1 }, Rat { num: 2, den: 1 }),
        Value::NonFinite
    );
    assert_eq!(
        add_rat(Rat { num: i64::MAX, den: 1 }, Rat { num: 1, den: 1 }),
        Value::NonFinite
    );
}
