use exprcalc::parse_expression;
use exprcalc::parse_top_level;
use exprcalc::Environment;
use exprcalc::Evaluation;
use exprcalc::Expression;
use exprcalc::Function;
use exprcalc::Real;
use exprcalc::RuntimeError;
use exprcalc::Value;

const DEPTH: usize = 64;

fn run(environment: &Environment, text: &str) -> Evaluation {
    let (rest, expression) = parse_expression(text).unwrap();
    assert_eq!(rest, "", "all of {:?} is one expression", text);
    Value::evaluate(environment, &expression, DEPTH)
}

fn calculate(text: &str) -> Value {
    run(&Environment::new(), text).unwrap().unwrap()
}

fn fail(text: &str) -> RuntimeError {
    run(&Environment::new(), text).unwrap().unwrap_err()
}

fn small(n: i64) -> Value {
    Value::SmallInt(n)
}

fn decimal(significand: i128, exponent: i64) -> Value {
    Value::Real(Real::from_parts(significand, exponent).unwrap())
}

fn load(program: &str) -> Environment {
    let (rest, statements) = parse_top_level(program).unwrap();
    assert_eq!(rest, "", "all of {:?} is a program", program);
    let mut environment = Environment::new();
    environment.define(&statements);
    environment
}

fn value_of(environment: &Environment, text: &str) -> Value {
    run(environment, text).unwrap().unwrap()
}

fn error_of(environment: &Environment, text: &str) -> RuntimeError {
    run(environment, text).unwrap().unwrap_err()
}

#[test]
fn precedence_of_multiplication_over_addition() {
    assert_eq!(calculate("1 + 2 * 3"), small(7));
}

#[test]
fn power_folds_to_the_left() {
    assert_eq!(calculate("2 ^ 3 ^ 2"), small(64));
}

#[test]
fn negation_takes_the_whole_expression() {
    assert_eq!(calculate("-1+2"), small(-3));
}

#[test]
fn sum_beyond_the_fixed_width_is_exact() {
    // 2^64 - 2 = (2^63 - 1) * 2
    assert_eq!(
        calculate("9223372036854775807 + 9223372036854775807"),
        decimal(18446744073709551614, 0)
    );
    assert_eq!(
        calculate("9223372036854775807 + 9223372036854775807"),
        decimal(9223372036854775807, 1)
    );
    // 2^63
    assert_eq!(calculate("9223372036854775807 + 1"), decimal(1, 63));
    assert_eq!(
        calculate("9223372036854775807 + 9223372036854775807").to_string(),
        "18446744073709551614"
    );
}

#[test]
fn sum_within_the_fixed_width_stays_small() {
    assert_eq!(calculate("9223372036854775806 + 1"), small(i64::MAX));
    assert_eq!(calculate("0 - 9223372036854775807 - 1"), small(i64::MIN));
}

#[test]
fn difference_beyond_the_fixed_width_is_exact() {
    // -2^63 - 1
    assert_eq!(calculate("0 - 9223372036854775807 - 1 - 1"), decimal(-9223372036854775809, 0));
    // -2^64
    assert_eq!(
        calculate("(0 - 9223372036854775807 - 1) - 9223372036854775807 - 1"),
        decimal(-1, 64)
    );
}

#[test]
fn product_beyond_the_fixed_width_is_exact() {
    // 2^32 * 2^32 = 2^64
    assert_eq!(calculate("4294967296 * 4294967296"), decimal(1, 64));
    // (2^62 + 1)^2 = 2^124 + 2^63 + 1
    assert_eq!(
        calculate("4611686018427387905 * 4611686018427387905"),
        decimal(21267647932558653975684285001340289025, 0)
    );
    // (2^63 - 1)^2
    assert_eq!(
        calculate("9223372036854775807 * 9223372036854775807"),
        decimal(85070591730234615847396907784232501249, 0)
    );
    // (-2^63)^2 = 2^126
    assert_eq!(
        calculate("(0 - 9223372036854775807 - 1) * (0 - 9223372036854775807 - 1)"),
        decimal(1, 126)
    );
    assert_eq!(calculate("3037000499 * 3037000499"), small(9223372030926249001));
}

#[test]
fn negation_beyond_the_fixed_width_is_promoted() {
    assert_eq!(calculate("-(0 - 9223372036854775807 - 1)"), decimal(1, 63));
    assert_eq!(calculate("-(9223372036854775807)"), small(-i64::MAX));
    assert_eq!(calculate("-(1/2)"), decimal(-1, -1));
}

#[test]
fn exact_division_stays_small() {
    assert_eq!(calculate("4 / 2"), small(2));
    assert_eq!(calculate("(0 - 9) / 3"), small(-3));
    assert_eq!(calculate("9 / (0 - 3)"), small(-3));
    assert_eq!(calculate("(0 - 9) / (0 - 3)"), small(3));
    assert_eq!(calculate("0 / 5"), small(0));
}

#[test]
fn inexact_division_is_decimal() {
    // the quotient is truncated to 126 bits: (2^126 - 1) / 3, scaled by 2^-126
    assert_eq!(calculate("1 / 3"), decimal(28356863910078205288614550619314017621, -126));
    assert_eq!(calculate("7 / 2"), decimal(7, -1));
    assert_eq!(calculate("(0 - 7) / 2"), decimal(-7, -1));
    assert_eq!(calculate("1 / 3").to_string(), "0.3333333333333333333333333333333333333");
    assert_eq!(calculate("7 / 2").to_string(), "3.5");
}

#[test]
fn quotient_beyond_the_fixed_width_is_promoted() {
    // -2^63 / -1 = 2^63
    assert_eq!(calculate("(0 - 9223372036854775807 - 1) / (0 - 1)"), decimal(1, 63));
}

#[test]
fn division_by_zero_fails() {
    assert_eq!(fail("1 / 0"), RuntimeError::DivisionByZero);
    assert_eq!(fail("0 / 0"), RuntimeError::DivisionByZero);
    assert_eq!(fail("(1 / 2) / 0"), RuntimeError::DivisionByZero);
    assert_eq!(fail("1 / ((1 / 3) - (1 / 3))"), RuntimeError::DivisionByZero);
    assert_eq!(fail("(1 / 2) / ((1 / 3) - (1 / 3))"), RuntimeError::DivisionByZero);
}

#[test]
fn mixed_operands_are_computed_as_decimals() {
    assert_eq!(calculate("1 / 2 + 1"), decimal(3, -1));
    assert_eq!(calculate("1 + 1 / 2"), decimal(3, -1));
    assert_eq!(calculate("1 / 2 + 1 / 4"), decimal(3, -2));
    assert_eq!(calculate("3 / 4 - 1 / 4"), decimal(1, -1));
    assert_eq!(calculate("2 - 1 / 2"), decimal(3, -1));
    assert_eq!(calculate("(3 / 2) * (5 / 4)"), decimal(15, -3));
    assert_eq!(calculate("(3 / 2) * 4"), decimal(3, 1));
    assert_eq!(calculate("(3 / 2) / (3 / 4)"), decimal(1, 1));
    assert_eq!(calculate("3 / (3 / 4)"), decimal(1, 2));
}

#[test]
fn a_decimal_stays_a_decimal() {
    // 1/2 + 1/2 is the decimal one, not the integer one
    assert_eq!(calculate("1 / 2 + 1 / 2"), decimal(1, 0));
    assert_eq!(calculate("(1 / 2) * 2").type_tag(), "Decimal");
}

#[test]
fn power_of_integers_stays_small_where_it_fits() {
    assert_eq!(calculate("2 ^ 10"), small(1024));
    assert_eq!(calculate("2 ^ 62"), small(1 << 62));
    assert_eq!(calculate("(0 - 2) ^ 3"), small(-8));
    assert_eq!(calculate("(0 - 2) ^ 63"), small(i64::MIN));
    assert_eq!(calculate("7 ^ 0"), small(1));
    assert_eq!(calculate("0 ^ 0"), small(1));
    assert_eq!(calculate("0 ^ 5"), small(0));
    assert_eq!(calculate("1 ^ 9223372036854775807"), small(1));
    assert_eq!(calculate("(0 - 1) ^ 9223372036854775807"), small(-1));
    assert_eq!(calculate("(0 - 1) ^ 9223372036854775806"), small(1));
    assert_eq!(calculate("3 ^ 39"), small(4052555153018976267));
}

#[test]
fn power_beyond_the_fixed_width_is_decimal() {
    assert_eq!(calculate("2 ^ 63"), decimal(1, 63));
    assert_eq!(calculate("2 ^ 64"), decimal(1, 64));
    // 3^40 = 12157665459056928801
    assert_eq!(calculate("3 ^ 40"), decimal(12157665459056928801, 0));
    assert_eq!(calculate("10 ^ 20"), decimal(95367431640625, 20));
}

#[test]
fn power_by_a_negative_integer_is_decimal() {
    assert_eq!(calculate("2 ^ (0 - 1)"), decimal(1, -1));
    assert_eq!(calculate("4 ^ (0 - 2)"), decimal(1, -4));
    assert_eq!(calculate("(1 / 2) ^ 3"), decimal(1, -3));
    assert_eq!(calculate("(1 / 2) ^ (0 - 3)"), decimal(1, 3));
}

#[test]
fn power_by_a_decimal_goes_through_logarithms() {
    let root = match calculate("4 ^ (1 / 2)") {
        Value::Real(r) => r,
        other => panic!("{:?}", other),
    };
    let approximate = root.significand() as f64 * (root.exponent() as f64).exp2();
    assert!((approximate - 2.0).abs() < 1e-12, "{}", approximate);
    let cube_root = match calculate("(1 / 8) ^ (1 / 3)") {
        Value::Real(r) => r,
        other => panic!("{:?}", other),
    };
    let approximate = cube_root.significand() as f64 * (cube_root.exponent() as f64).exp2();
    assert!((approximate - 0.5).abs() < 1e-12, "{}", approximate);
    assert_eq!(calculate("5 ^ (1 / 2 - 1 / 2)"), decimal(1, 0));
    assert_eq!(calculate("(0 - 2) ^ (1 / 2 + 1 / 2)"), decimal(-1, 1));
    assert_eq!(calculate("0 ^ (1 / 2)"), decimal(0, 0));
}

#[test]
fn power_outside_the_arithmetic_has_no_outcome() {
    let nothing = |text: &str| assert_eq!(run(&Environment::new(), text), None, "{}", text);
    // a division by zero inside the power
    nothing("0 ^ (0 - 1)");
    // a negative base under a fractional exponent
    nothing("(0 - 8) ^ (1 / 3)");
    // exponents beyond the supported range
    nothing("2 ^ 16777217");
    nothing("2 ^ 4611686018427387904");
    nothing("3 ^ 9223372036854775807");
    nothing("(2 ^ 16777216) * 2");
    assert_eq!(calculate("2 ^ 16777216"), decimal(1, 16777216));
}

#[test]
fn unbound_name_fails_with_the_name() {
    assert_eq!(fail("foo"), RuntimeError::UnboundVariable("foo".to_string()));
    assert_eq!(fail("1 + foo"), RuntimeError::UnboundVariable("foo".to_string()));
    assert_eq!(fail("a + b"), RuntimeError::UnboundVariable("a".to_string()));
    assert_eq!(fail("-x"), RuntimeError::UnboundVariable("x".to_string()));
}

#[test]
fn left_operand_fails_first() {
    assert_eq!(fail("1 / 0 + x"), RuntimeError::DivisionByZero);
    assert_eq!(fail("x + 1 / 0"), RuntimeError::UnboundVariable("x".to_string()));
}

#[test]
fn wrong_number_of_arguments_fails() {
    let environment = load("f(a, b) = a + b");
    assert_eq!(
        error_of(&environment, "f(1)"),
        RuntimeError::ParameterMismatch { expected: 2, found: 1 }
    );
    assert_eq!(
        error_of(&environment, "f(1, 2, 3)"),
        RuntimeError::ParameterMismatch { expected: 2, found: 3 }
    );
    assert_eq!(
        error_of(&environment, "f()"),
        RuntimeError::ParameterMismatch { expected: 2, found: 0 }
    );
    assert_eq!(value_of(&environment, "f(1, 2)"), small(3));
}

#[test]
fn arguments_are_counted_before_they_are_evaluated() {
    let environment = load("f(a, b) = a + b");
    assert_eq!(
        error_of(&environment, "f(1 / 0)"),
        RuntimeError::ParameterMismatch { expected: 2, found: 1 }
    );
    assert_eq!(error_of(&environment, "f(1 / 0, x)"), RuntimeError::DivisionByZero);
    assert_eq!(error_of(&environment, "f(x, 1 / 0)"), RuntimeError::UnboundVariable("x".to_string()));
}

#[test]
fn scoping_is_dynamic() {
    let environment = load("f(x) = x + y\ng(y) = f(1)\nh(y) = f(1)");
    assert_eq!(value_of(&environment, "g(10)"), small(11));
    assert_eq!(value_of(&environment, "h(20)"), small(21));
    assert_eq!(error_of(&environment, "f(1)"), RuntimeError::UnboundVariable("y".to_string()));
}

#[test]
fn arguments_are_evaluated_in_the_environment_of_the_caller() {
    let environment = load("second(x, y) = y\nouter(x) = second(2, x)");
    // `x` in the second argument is the caller's `x`, not the parameter just bound
    assert_eq!(value_of(&environment, "outer(7)"), small(7));
    assert_eq!(error_of(&environment, "second(1, x)"), RuntimeError::UnboundVariable("x".to_string()));
}

#[test]
fn last_of_two_parameters_with_one_name_wins() {
    let environment = load("f(x, x) = x");
    assert_eq!(value_of(&environment, "f(1, 2)"), small(2));
}

#[test]
fn later_definition_replaces_an_earlier_one() {
    let environment = load("f(x) = 1\nf(x) = 2");
    assert_eq!(value_of(&environment, "f(0)"), small(2));
    assert_eq!(environment.len(), 1);
}

#[test]
fn type_declarations_bind_nothing() {
    let environment = load("f : Int -> Int\ng(x) = x");
    assert_eq!(environment.len(), 1);
    assert_eq!(error_of(&environment, "f(1)"), RuntimeError::UnboundVariable("f".to_string()));
    // declared types are never held against values
    let environment = load("h : Function -> Nothing\nh(x) = x / 2");
    assert_eq!(value_of(&environment, "h(1)"), decimal(1, -1));
}

#[test]
fn functions_are_values() {
    let environment = load("apply(g, x) = g(x)\ninc(x) = x + 1\nid(x) = x");
    assert_eq!(value_of(&environment, "apply(inc, 4)"), small(5));
    assert_eq!(value_of(&environment, "apply(id(inc), 1)"), small(2));
    match value_of(&environment, "inc") {
        Value::Function(Function { name, parameter_names, body }) => {
            assert_eq!(name, "inc");
            assert_eq!(parameter_names, vec!["x".to_string()]);
            assert_eq!(
                body,
                Expression::Add(
                    Box::new(Expression::Variable("x".to_string())),
                    Box::new(Expression::Integer(1))
                )
            );
        }
        other => panic!("{:?}", other),
    }
}

#[test]
fn parameter_shadows_a_function() {
    let environment = load("f(x) = x + 1\ng(f) = f * 2");
    assert_eq!(value_of(&environment, "g(5)"), small(10));
    assert_eq!(value_of(&environment, "f(5)"), small(6));
}

#[test]
fn call_of_a_number_fails() {
    assert_eq!(
        fail("1(2)"),
        RuntimeError::InvalidType { found: "function".to_string(), operation: "apply".to_string() }
    );
    assert_eq!(
        fail("(1 / 2)()"),
        RuntimeError::InvalidType { found: "function".to_string(), operation: "apply".to_string() }
    );
    assert_eq!(fail("x(1 / 0)"), RuntimeError::UnboundVariable("x".to_string()));
}

#[test]
fn negation_of_a_function_fails() {
    let environment = load("f(x) = x");
    assert_eq!(
        error_of(&environment, "-f"),
        RuntimeError::InvalidType { found: "Function".to_string(), operation: "negate".to_string() }
    );
}

#[test]
fn arithmetic_on_a_function_fails() {
    let environment = load("f(x) = x");
    let mismatch = |first: &str, last: &str, operation: &str| RuntimeError::TypeMismatch {
        first: first.to_string(),
        last: last.to_string(),
        operation: operation.to_string(),
    };
    assert_eq!(error_of(&environment, "f + 1"), mismatch("Function", "SmallInt", "+"));
    assert_eq!(error_of(&environment, "1 - f"), mismatch("SmallInt", "Function", "-"));
    assert_eq!(error_of(&environment, "f * f"), mismatch("Function", "Function", "*"));
    assert_eq!(error_of(&environment, "(1 / 2) / f"), mismatch("Decimal", "Function", "/"));
    assert_eq!(error_of(&environment, "f ^ (1 / 2)"), mismatch("Function", "Decimal", "^"));
    assert_eq!(error_of(&environment, "f / 0"), mismatch("Function", "SmallInt", "/"));
}

#[test]
fn call_depth_is_a_budget() {
    let environment = load("a(x) = x + 1\nb(x) = a(x) + 1\nc(x) = b(x) + 1");
    let (_, expression) = parse_expression("c(0)").unwrap();
    assert_eq!(Value::evaluate(&environment, &expression, 0), None);
    assert_eq!(Value::evaluate(&environment, &expression, 2), None);
    assert_eq!(Value::evaluate(&environment, &expression, 3), Some(Ok(small(3))));
    assert_eq!(Value::evaluate(&environment, &expression, 4), Some(Ok(small(3))));
    assert_eq!(Value::evaluate(&environment, &expression, usize::MAX), Some(Ok(small(3))));
    let (_, plain) = parse_expression("1 + 2").unwrap();
    assert_eq!(Value::evaluate(&environment, &plain, 0), Some(Ok(small(3))));
}

#[test]
fn endless_recursion_has_no_outcome() {
    let environment = load("loop(x) = loop(x + 1)\nself(f) = f(f)");
    assert_eq!(run(&environment, "loop(0)"), None);
    assert_eq!(run(&environment, "self(self)"), None);
    // an error met before the depth runs out is the outcome
    let environment = load("f(x) = 1 / 0 + f(x)");
    assert_eq!(run(&environment, "f(0)"), Some(Err(RuntimeError::DivisionByZero)));
}

#[test]
fn evaluation_leaves_the_environment_as_it_was() {
    let environment = load("f(x) = x + y");
    let (_, call) = parse_expression("f(1)").unwrap();
    let (_, broken) = parse_expression("f(1 / 0)").unwrap();
    for _ in 0..3 {
        assert_eq!(
            Value::evaluate(&environment, &call, DEPTH),
            Some(Err(RuntimeError::UnboundVariable("y".to_string())))
        );
        assert_eq!(
            Value::evaluate(&environment, &broken, DEPTH),
            Some(Err(RuntimeError::DivisionByZero))
        );
        assert_eq!(environment.len(), 1);
        assert!(environment.get(&"x".to_string()).is_none());
    }
}

#[test]
fn operations_on_values_agree_with_the_evaluator() {
    let half = decimal(1, -1);
    assert_eq!(small(1).plus(&small(2)), Some(Ok(small(3))));
    assert_eq!(small(1).minus(&half), Some(Ok(decimal(1, -1))));
    assert_eq!(half.times(&small(6)), Some(Ok(decimal(3, 0))));
    assert_eq!(small(6).divided_by(&small(4)), Some(Ok(decimal(3, -1))));
    assert_eq!(small(6).divided_by(&small(0)), Some(Err(RuntimeError::DivisionByZero)));
    assert_eq!(small(6).raised_to(&small(2)), Some(Ok(small(36))));
    assert_eq!(half.negated(), Some(Ok(decimal(-1, -1))));
    assert_eq!(small(i64::MIN).negated(), Some(Ok(decimal(1, 63))));
    for operator in [
        exprcalc::Operator::Add,
        exprcalc::Operator::Subtract,
        exprcalc::Operator::Multiply,
        exprcalc::Operator::Divide,
        exprcalc::Operator::Power,
    ] {
        let expected = match operator {
            exprcalc::Operator::Add => 10,
            exprcalc::Operator::Subtract => 6,
            exprcalc::Operator::Multiply => 16,
            exprcalc::Operator::Divide => 4,
            exprcalc::Operator::Power => 64,
        };
        assert_eq!(small(8).combined(operator, &small(2)), Some(Ok(small(expected))));
    }
}

#[test]
fn long_chains_are_evaluated() {
    let text = vec!["1"; 500].join(" + ");
    assert_eq!(calculate(&text), small(500));
    let text = format!("{}1", "-".repeat(101));
    assert_eq!(calculate(&text), small(-1));
}
