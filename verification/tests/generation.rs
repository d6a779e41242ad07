use marith::{Config, Operator, Rat, Value};

fn base_config() -> Config {
    Config {
        variable_num: 5,
        variable_min: 1,
        variable_max: 9,
        operators: vec![
            Operator::Addition,
            Operator::Subtraction,
            Operator::Multiplication,
            Operator::Division,
        ],
        variable_decimal_points: 0,
        result_decimal_points: 1,
        num_tasks: 7,
    }
}

#[test]
fn invalid_variable_count_low() {
    let mut c = base_config();
    c.variable_num = 1;
    assert!(!c.is_valid());
}

#[test]
fn invalid_variable_count_high() {
    let mut c = base_config();
    c.variable_num = 31;
    assert!(!c.is_valid());
}

#[test]
fn invalid_empty_operators() {
    let mut c = base_config();
    c.operators = vec![];
    assert!(!c.is_valid());
}

#[test]
fn valid_bounds_accepted() {
    let mut c = base_config();
    c.variable_num = 2;
    assert!(c.is_valid());
    c.variable_num = 30;
    assert!(c.is_valid());
}

#[test]
fn batch_has_requested_count() {
    let c = base_config();
    let tasks = c.generate_new_tasks();
    assert_eq!(tasks.len(), 7);
}

#[test]
fn no_literal_zero_operand_in_text() {
    let mut c = base_config();
    c.variable_min = -3;
    c.variable_max = 3;
    for _ in 0..50 {
        let t = c.generate_new_task();
        for (i, token) in t.task_string.split(' ').enumerate() {
            if i % 2 == 0 {
                assert_ne!(token, "0");
                assert_ne!(token, "-0");
            }
        }
    }
}

#[test]
fn operator_count_and_membership_in_text() {
    let mut c = base_config();
    c.operators = vec![Operator::Addition, Operator::Multiplication];
    let t = c.generate_new_task();
    let tokens: Vec<&str> = t.task_string.split(' ').collect();
    // operands and operators alternate: 2 * variable_num - 1 tokens
    assert_eq!(tokens.len(), 2 * c.variable_num as usize - 1);
    let mut operator_count = 0;
    for (i, token) in tokens.iter().enumerate() {
        if i % 2 == 1 {
            operator_count += 1;
            assert!(*token == "+" || *token == "*");
        }
    }
    assert_eq!(operator_count, c.variable_num as usize - 1);
}

#[test]
fn operands_stay_in_range() {
    let mut c = base_config();
    c.variable_min = 2;
    c.variable_max = 4;
    let t = c.generate_new_task();
    for (i, token) in t.task_string.split(' ').enumerate() {
        if i % 2 == 0 {
            let v: i64 = token.parse().unwrap();
            assert!(2 <= v && v <= 4);
        }
    }
}

#[test]
fn end_to_end_collapsed_range() {
    let c = Config {
        variable_num: 2,
        variable_min: 5,
        variable_max: 5,
        operators: vec![Operator::Addition],
        variable_decimal_points: 0,
        result_decimal_points: 0,
        num_tasks: 1,
    };
    let tasks = c.generate_new_tasks();
    assert_eq!(tasks.len(), 1);
    assert_eq!(tasks[0].task_string, "5 + 5");
    assert_eq!(tasks[0].result, Value::Finite(Rat { num: 10, den: 1 }));
    assert_eq!(tasks[0].result_decimal_points, 0);
}

#[test]
fn result_keeps_configured_scale() {
    // a collapsed multiplicative range: 3 * 3 == 9, rounded to 2 digits
    let c = Config {
        variable_num: 2,
        variable_min: 3,
        variable_max: 3,
        operators: vec![Operator::Multiplication],
        variable_decimal_points: 0,
        result_decimal_points: 2,
        num_tasks: 1,
    };
    let t = c.generate_new_task();
    assert_eq!(t.task_string, "3 * 3");
    assert_eq!(t.result, Value::Finite(Rat { num: 900, den: 100 }));
}

#[test]
fn fractional_operands_render_scaled() {
    // range collapsed to 2 with one decimal digit: every operand is 2
    let c = Config {
        variable_num: 3,
        variable_min: 2,
        variable_max: 2,
        operators: vec![Operator::Addition],
        variable_decimal_points: 1,
        result_decimal_points: 1,
        num_tasks: 1,
    };
    let t = c.generate_new_task();
    assert_eq!(t.task_string, "2 + 2 + 2");
    assert_eq!(t.result, Value::Finite(Rat { num: 60, den: 10 }));
}

#[test]
fn default_config_is_the_documented_one() {
    let c = Config::default();
    assert_eq!(c.variable_num, 3);
    assert_eq!(c.variable_min, -100);
    assert_eq!(c.variable_max, 100);
    assert_eq!(c.operators.len(), 4);
    assert!(c.operators.contains(&Operator::Addition));
    assert!(c.operators.contains(&Operator::Subtraction));
    assert!(c.operators.contains(&Operator::Multiplication));
    assert!(c.operators.contains(&Operator::Division));
    assert_eq!(c.variable_decimal_points, 0);
    assert_eq!(c.result_decimal_points, 1);
    assert_eq!(c.num_tasks, 10);
    assert!(c.is_valid());
}
