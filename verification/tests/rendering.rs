use marith::render::{dec_string, render_expr, render_scaled};
use marith::Operator;

#[test]
fn renders_whole_numbers_without_point() {
    assert_eq!(render_scaled(5, 0), "5");
    assert_eq!(render_scaled(-5, 0), "-5");
    assert_eq!(render_scaled(0, 0), "0");
    assert_eq!(render_scaled(12345, 0), "12345");
}

#[test]
fn renders_fractions_with_point() {
    assert_eq!(render_scaled(345, 2), "3.45");
    assert_eq!(render_scaled(-345, 2), "-3.45");
    assert_eq!(render_scaled(5, 1), "0.5");
    assert_eq!(render_scaled(-5, 1), "-0.5");
    assert_eq!(render_scaled(1, 18), "0.000000000000000001");
}

#[test]
fn trims_trailing_fraction_zeros() {
    assert_eq!(render_scaled(340, 2), "3.4");
    assert_eq!(render_scaled(300, 2), "3");
    assert_eq!(render_scaled(1000000000000000000, 18), "1");
}

#[test]
fn decimal_numerals() {
    assert_eq!(dec_string(0), "0");
    assert_eq!(dec_string(7), "7");
    assert_eq!(dec_string(1234567890), "1234567890");
}

#[test]
fn renders_expression_with_spaces() {
    let ks = vec![2i64, -3, 4];
    let os = vec![Operator::Addition, Operator::Multiplication];
    assert_eq!(render_expr(&ks, 0, &os), "2 + -3 * 4");
}

#[test]
fn renders_scaled_expression() {
    let ks = vec![25i64, 10];
    let os = vec![Operator::Division];
    assert_eq!(render_expr(&ks, 1, &os), "2.5 / 1");
}
