use small_step::{Environment, Machine};
use small_step::Token::{Add, BoolValue, LessThan, Multiply, Number, Var};

#[test]
fn test_vm() {
    let expression = Add(
        Box::new(Multiply(Box::new(Number(1)), Box::new(Number(2)))),
        Box::new(Multiply(Box::new(Number(3)), Box::new(Number(4)))),
    );

    let mut vm = Machine::new(expression);
    let trace = vm.run();

    let expected = vec![
        "1 * 2 + 3 * 4".to_string(),
        "2 + 3 * 4".to_string(),
        "2 + 12".to_string(),
        "14".to_string(),
    ];
    assert_eq!(trace, expected);
}

#[test]
fn test_run_with_environment() {
    let expression = Add(
        Box::new(Var("x".to_string())),
        Box::new(Var("y".to_string())),
    );

    let mut env = Environment::new();
    env.insert("x".to_string(), Number(3));
    env.insert("y".to_string(), Number(4));

    let mut vm = Machine::with_environment(expression, env);
    assert!(vm.can_run());
    let trace = vm.run();

    let expected = vec![
        "x + y".to_string(),
        "3 + y".to_string(),
        "3 + 4".to_string(),
        "7".to_string(),
    ];
    assert_eq!(trace, expected);
}

#[test]
fn test_run_on_value_halts_immediately() {
    let mut vm = Machine::new(BoolValue(false));
    assert!(vm.can_run());
    let trace = vm.run();

    assert_eq!(trace, vec!["false".to_string()]);
}

#[test]
fn test_run_comparison() {
    let expression = LessThan(
        Box::new(Number(5)),
        Box::new(Add(Box::new(Number(2)), Box::new(Number(2)))),
    );

    let mut vm = Machine::new(expression);
    let trace = vm.run();

    let expected = vec![
        "5 < 2 + 2".to_string(),
        "5 < 4".to_string(),
        "false".to_string(),
    ];
    assert_eq!(trace, expected);
}

#[test]
fn test_step_advances_once() {
    let expression = Add(
        Box::new(Multiply(Box::new(Number(1)), Box::new(Number(2)))),
        Box::new(Multiply(Box::new(Number(3)), Box::new(Number(4)))),
    );

    let mut vm = Machine::new(expression);
    assert!(vm.step().is_ok());
    assert_eq!(vm.current().to_string(), "2 + 3 * 4");
    assert!(vm.step().is_ok());
    assert_eq!(vm.current().to_string(), "2 + 12");
}

#[test]
fn test_can_run_rejects_bad_states() {
    // A free variable.
    let vm = Machine::new(Var("z".to_string()));
    assert!(!vm.can_run());

    // An ill-typed operand.
    let vm = Machine::new(Add(Box::new(Number(1)), Box::new(BoolValue(true))));
    assert!(!vm.can_run());

    // Arithmetic that would overflow along the way.
    let vm = Machine::new(Multiply(
        Box::new(Number(i32::MAX)),
        Box::new(Number(2)),
    ));
    assert!(!vm.can_run());

    // A binding that is not a value.
    let mut env = Environment::new();
    env.insert(
        "x".to_string(),
        Add(Box::new(Number(1)), Box::new(Number(2))),
    );
    let vm = Machine::with_environment(Var("x".to_string()), env);
    assert!(!vm.can_run());
}

#[test]
fn test_environment_rebinds_names() {
    let mut env = Environment::new();
    env.insert("x".to_string(), Number(3));
    env.insert("x".to_string(), Number(9));

    let mut vm = Machine::with_environment(Var("x".to_string()), env);
    let trace = vm.run();

    assert_eq!(trace, vec!["x".to_string(), "9".to_string()]);
}

#[test]
fn test_environment_lookup() {
    let mut env = Environment::new();
    env.insert("x".to_string(), Number(3));

    assert!(env.get(&"x".to_string()).is_some());
    assert!(env.get(&"y".to_string()).is_none());
    assert_eq!(env.get(&"x".to_string()).unwrap().to_string(), "3");
}
