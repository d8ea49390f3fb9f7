use exprcalc::parse_top_level;
use exprcalc::Environment;
use exprcalc::Expression;
use exprcalc::Function;
use exprcalc::Real;
use exprcalc::Value;

fn name(text: &str) -> String {
    text.to_string()
}

#[test]
fn new_environment_binds_nothing() {
    let environment = Environment::new();
    assert_eq!(environment.len(), 0);
    assert_eq!(environment.get(&name("x")), None);
}

#[test]
fn insert_binds_and_replaces() {
    let mut environment = Environment::new();
    environment.insert(name("x"), Value::SmallInt(1));
    environment.insert(name("y"), Value::SmallInt(2));
    assert_eq!(environment.len(), 2);
    assert_eq!(environment.get(&name("x")), Some(&Value::SmallInt(1)));
    assert_eq!(environment.get(&name("y")), Some(&Value::SmallInt(2)));
    assert_eq!(environment.get(&name("z")), None);
    environment.insert(name("x"), Value::Real(Real::from_int(3)));
    assert_eq!(environment.len(), 2);
    assert_eq!(environment.get(&name("x")), Some(&Value::Real(Real::from_int(3))));
    assert_eq!(environment.get(&name("y")), Some(&Value::SmallInt(2)));
}

#[test]
fn names_differ_by_every_character() {
    let mut environment = Environment::new();
    environment.insert(name("ab"), Value::SmallInt(1));
    environment.insert(name("aB"), Value::SmallInt(2));
    environment.insert(name("a"), Value::SmallInt(3));
    environment.insert(name(""), Value::SmallInt(4));
    assert_eq!(environment.len(), 4);
    assert_eq!(environment.get(&name("ab")), Some(&Value::SmallInt(1)));
    assert_eq!(environment.get(&name("aB")), Some(&Value::SmallInt(2)));
    assert_eq!(environment.get(&name("a")), Some(&Value::SmallInt(3)));
    assert_eq!(environment.get(&name("")), Some(&Value::SmallInt(4)));
}

#[test]
fn copy_is_independent() {
    let mut environment = Environment::new();
    environment.insert(name("x"), Value::SmallInt(1));
    let mut overlay = environment.clone();
    overlay.insert(name("x"), Value::SmallInt(2));
    overlay.insert(name("y"), Value::SmallInt(3));
    assert_eq!(environment.len(), 1);
    assert_eq!(environment.get(&name("x")), Some(&Value::SmallInt(1)));
    assert_eq!(overlay.len(), 2);
    assert_eq!(overlay.get(&name("x")), Some(&Value::SmallInt(2)));
}

#[test]
fn definitions_become_function_values() {
    let (_, statements) = parse_top_level("f : A -> B\nf(x) = x\ng(a, b) = a\nf(y) = y + 1").unwrap();
    assert_eq!(statements.len(), 4);
    let mut environment = Environment::new();
    environment.insert(name("g"), Value::SmallInt(0));
    environment.insert(name("h"), Value::SmallInt(0));
    environment.define(&statements);
    assert_eq!(environment.len(), 3);
    assert_eq!(environment.get(&name("h")), Some(&Value::SmallInt(0)));
    assert_eq!(
        environment.get(&name("f")),
        Some(&Value::Function(Function {
            name: name("f"),
            parameter_names: vec![name("y")],
            body: Expression::Add(
                Box::new(Expression::Variable(name("y"))),
                Box::new(Expression::Integer(1))
            ),
        }))
    );
    assert_eq!(
        environment.get(&name("g")),
        Some(&Value::Function(Function {
            name: name("g"),
            parameter_names: vec![name("a"), name("b")],
            body: Expression::Variable(name("a")),
        }))
    );
}
