use exprcalc::Expression;
use exprcalc::Function;
use exprcalc::Operator;
use exprcalc::Real;
use exprcalc::RuntimeError;
use exprcalc::Value;

fn identity() -> Value {
    Value::Function(Function {
        name: "id".to_string(),
        parameter_names: vec!["x".to_string()],
        body: Expression::Variable("x".to_string()),
    })
}

#[test]
fn small_integers_are_written_in_decimal_digits() {
    assert_eq!(Value::SmallInt(0).to_string(), "0");
    assert_eq!(Value::SmallInt(7).to_string(), "7");
    assert_eq!(Value::SmallInt(10).to_string(), "10");
    assert_eq!(Value::SmallInt(-1).to_string(), "-1");
    assert_eq!(Value::SmallInt(1234567890).to_string(), "1234567890");
    assert_eq!(Value::SmallInt(i64::MAX).to_string(), "9223372036854775807");
    assert_eq!(Value::SmallInt(i64::MIN).to_string(), "-9223372036854775808");
}

#[test]
fn decimals_are_written_as_their_decimal_expansion() {
    let number = |significand, exponent| Value::Real(Real::from_parts(significand, exponent).unwrap());
    assert_eq!(number(1, -1).to_string(), "0.5");
    assert_eq!(number(-7, -1).to_string(), "-3.5");
    assert_eq!(number(1, 64).to_string(), "18446744073709551616");
    assert_eq!(number(0, 0).to_string(), "0");
    assert_eq!(number(3, -2).to_string(), "0.75");
}

#[test]
fn functions_are_written_as_a_placeholder() {
    assert_eq!(identity().to_string(), "<function>");
}

#[test]
fn every_value_has_a_type_tag() {
    assert_eq!(Value::SmallInt(1).type_tag(), "SmallInt");
    assert_eq!(Value::Real(Real::from_int(1)).type_tag(), "Decimal");
    assert_eq!(identity().type_tag(), "Function");
}

#[test]
fn every_error_has_a_message() {
    assert_eq!(
        RuntimeError::UnboundVariable("speed".to_string()).to_string(),
        "Unbound variable: speed"
    );
    assert_eq!(
        RuntimeError::InvalidType {
            found: "Function".to_string(),
            operation: "negate".to_string()
        }
        .to_string(),
        "Invalid type: Function for operation negate"
    );
    assert_eq!(
        RuntimeError::TypeMismatch {
            first: "SmallInt".to_string(),
            last: "Function".to_string(),
            operation: "+".to_string()
        }
        .to_string(),
        "Type mismatch: SmallInt + Function"
    );
    assert_eq!(RuntimeError::DivisionByZero.to_string(), "Division by zero");
    assert_eq!(
        RuntimeError::ParameterMismatch { expected: 2, found: 1 }.to_string(),
        "Parameter mismatch: expected 2 arguments, found 1"
    );
    assert_eq!(
        RuntimeError::ParameterMismatch { expected: 0, found: 120 }.to_string(),
        "Parameter mismatch: expected 0 arguments, found 120"
    );
}

#[test]
fn every_operator_has_a_symbol() {
    assert_eq!(Operator::Add.text(), "+");
    assert_eq!(Operator::Subtract.text(), "-");
    assert_eq!(Operator::Multiply.text(), "*");
    assert_eq!(Operator::Divide.text(), "/");
    assert_eq!(Operator::Power.text(), "^");
}

#[test]
fn copies_are_equal_and_independent() {
    let first = identity();
    let copy = first.clone();
    assert_eq!(copy, first);
    let error = RuntimeError::UnboundVariable("x".to_string());
    assert_eq!(error.clone(), error);
    let tree = Expression::ApplyFunction {
        function: Box::new(Expression::Variable("f".to_string())),
        arguments: vec![Expression::Integer(1), Expression::Negate(Box::new(Expression::Integer(2)))],
    };
    assert_eq!(tree.clone(), tree);
}
