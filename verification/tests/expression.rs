use small_step::{Environment, ReduceError};
use small_step::Token::{Add, BoolValue, LessThan, Multiply, Number, Var};

#[test]
fn test_to_string() {
    {
        let actual = Add(
            Box::new(Multiply(Box::new(Number(1)), Box::new(Number(2)))),
            Box::new(Multiply(Box::new(Number(3)), Box::new(Number(4)))),
        );

        let expected = "1 * 2 + 3 * 4";

        assert_eq!(actual.to_string(), expected);
    }

    {
        let bool_actual = BoolValue(true);
        let bool_expected = "true";

        assert_eq!(bool_actual.to_string(), bool_expected);
    }
}

#[test]
fn test_is_reducible() {
    let number_token = Number(1).is_reducible();
    let add_token = Add(Box::new(Number(1)), Box::new(Number(2))).is_reducible();
    let multiply_token = Multiply(Box::new(Number(1)), Box::new(Number(2))).is_reducible();
    let bool_token = BoolValue(true).is_reducible();

    assert_eq!(number_token, false);
    assert_eq!(add_token, true);
    assert_eq!(multiply_token, true);
    assert_eq!(bool_token, false);
}

#[test]
fn test_reduce() {
    {
        let expression = Add(
            Box::new(Multiply(Box::new(Number(1)), Box::new(Number(2)))),
            Box::new(Multiply(Box::new(Number(3)), Box::new(Number(4)))),
        );

        let _env = Environment::new();

        let reduced = expression.reduce(&_env).unwrap();
        let reduced2 = reduced.reduce(&_env).unwrap();
        let reduced3 = reduced2.reduce(&_env).unwrap();

        assert_eq!(reduced.to_string(), "2 + 3 * 4");
        assert_eq!(reduced2.to_string(), "2 + 12");
        assert_eq!(reduced3.to_string(), "14");
    }

    {
        let expression = LessThan(
            Box::new(Number(5)),
            Box::new(Add(Box::new(Number(2)), Box::new(Number(2)))),
        );

        let _env = Environment::new();

        let reduced = expression.reduce(&_env).unwrap();
        let reduced2 = reduced.reduce(&_env).unwrap();

        assert_eq!(reduced.to_string(), "5 < 4");
        assert_eq!(reduced2.to_string(), "false");
    }

    {
        let expression = Add(
            Box::new(Var("x".to_string())),
            Box::new(Var("y".to_string())),
        );

        let mut env = Environment::new();
        env.insert("x".to_string(), Number(3));
        env.insert("y".to_string(), Number(4));

        let reduced = expression.reduce(&env).unwrap();
        let reduced2 = reduced.reduce(&env).unwrap();
        let reduced3 = reduced2.reduce(&env).unwrap();

        assert_eq!(expression.to_string(), "x + y");
        assert_eq!(reduced.to_string(), "3 + y");
        assert_eq!(reduced2.to_string(), "3 + 4");
        assert_eq!(reduced3.to_string(), "7");
    }
}

#[test]
fn test_reduce_on_value_fails() {
    let env = Environment::new();

    assert_eq!(
        Number(1).reduce(&env),
        Err(ReduceError::ReduceOnIrreducible)
    );
    assert_eq!(
        BoolValue(true).reduce(&env),
        Err(ReduceError::ReduceOnIrreducible)
    );
}

#[test]
fn test_unbound_variable_fails() {
    let env = Environment::new();

    assert_eq!(
        Var("z".to_string()).reduce(&env),
        Err(ReduceError::UnboundVariable)
    );
}

#[test]
fn test_ill_typed_operand_fails() {
    let env = Environment::new();

    let add = Add(Box::new(Number(1)), Box::new(BoolValue(true)));
    assert_eq!(add.reduce(&env), Err(ReduceError::IllTypedOperand));

    let multiply = Multiply(Box::new(BoolValue(false)), Box::new(Number(2)));
    assert_eq!(multiply.reduce(&env), Err(ReduceError::IllTypedOperand));

    let less_than = LessThan(Box::new(BoolValue(true)), Box::new(Number(1)));
    assert_eq!(less_than.reduce(&env), Err(ReduceError::IllTypedOperand));
}

#[test]
fn test_bool_value_renders_and_stays() {
    let env = Environment::new();

    assert_eq!(BoolValue(true).to_string(), "true");
    assert_eq!(BoolValue(false).to_string(), "false");
    assert_eq!(BoolValue(true).is_reducible(), false);
    assert_eq!(
        BoolValue(true).reduce(&env),
        Err(ReduceError::ReduceOnIrreducible)
    );
}

#[test]
fn test_number_rendering_edges() {
    assert_eq!(Number(0).to_string(), "0");
    assert_eq!(Number(-5).to_string(), "-5");
    assert_eq!(Number(1234567890).to_string(), "1234567890");
    assert_eq!(Number(i32::MAX).to_string(), "2147483647");
    assert_eq!(Number(i32::MIN).to_string(), "-2147483648");
}

#[test]
fn test_rendering_nested_without_parentheses() {
    let expression = LessThan(
        Box::new(Add(Box::new(Var("a".to_string())), Box::new(Number(1)))),
        Box::new(Multiply(Box::new(Number(-2)), Box::new(Number(3)))),
    );

    assert_eq!(expression.to_string(), "a + 1 < -2 * 3");
}

#[test]
fn test_equal_trees_render_identically() {
    let first = Add(Box::new(Number(7)), Box::new(Var("v".to_string())));
    let second = Add(Box::new(Number(7)), Box::new(Var("v".to_string())));
    let copy = first.deep_clone();

    assert_eq!(first.to_string(), second.to_string());
    assert_eq!(first.to_string(), copy.to_string());
}

#[test]
fn test_leftmost_innermost_order() {
    let env = Environment::new();

    // Both operands reducible: the left one moves first.
    let expression = Add(
        Box::new(Add(Box::new(Number(1)), Box::new(Number(2)))),
        Box::new(Add(Box::new(Number(3)), Box::new(Number(4)))),
    );
    let reduced = expression.reduce(&env).unwrap();
    assert_eq!(reduced.to_string(), "3 + 3 + 4");

    // Left already a value: the right one moves.
    let reduced2 = reduced.reduce(&env).unwrap();
    assert_eq!(reduced2.to_string(), "3 + 7");

    // Both values: the operator is applied.
    let reduced3 = reduced2.reduce(&env).unwrap();
    assert_eq!(reduced3.to_string(), "10");
}

#[test]
fn test_settles_to_number() {
    let env = Environment::new();

    let sum = Add(Box::new(Number(2)), Box::new(Number(2)));
    assert_eq!(sum.settles_to_number(&env), Some(4));

    let overflow = Add(Box::new(Number(i32::MAX)), Box::new(Number(1)));
    assert_eq!(overflow.settles_to_number(&env), None);

    let comparison = LessThan(Box::new(Number(1)), Box::new(Number(2)));
    assert_eq!(comparison.settles_to_number(&env), None);
}

#[test]
fn test_is_well_formed() {
    let env = Environment::new();

    assert!(Number(3).is_well_formed(&env));
    assert!(Add(Box::new(Number(1)), Box::new(Number(2))).is_well_formed(&env));
    assert!(!Var("free".to_string()).is_well_formed(&env));
    assert!(!Add(Box::new(Number(1)), Box::new(BoolValue(true))).is_well_formed(&env));
    assert!(!Add(Box::new(Number(i32::MAX)), Box::new(Number(1))).is_well_formed(&env));

    let mut bound = Environment::new();
    bound.insert("x".to_string(), Number(1));
    assert!(Var("x".to_string()).is_well_formed(&bound));
}
