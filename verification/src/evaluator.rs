//! The evaluator: a tree-walking interpreter over the two-tier numeric
//! tower, proved against the meaning of the language.

use vstd::prelude::*;
use vstd::arithmetic::power::pow;
use vstd::arithmetic::power::lemma_pow0;
use vstd::arithmetic::power::lemma_pow1;
use vstd::arithmetic::power::lemma0_pow;
use vstd::arithmetic::power::lemma1_pow;
use vstd::arithmetic::power::lemma_pow_adds;
use crate::environment::Environment;
use crate::number::lemma_of_int_in_range;
use crate::number::optional_view;
use crate::number::Dyadic;
use crate::number::Real;
use crate::number::EXACT_LIMIT;
use crate::semantics::as_decimal;
use crate::semantics::bind;
use crate::semantics::combine;
use crate::semantics::difference;
use crate::semantics::divides;
use crate::semantics::eval;
use crate::semantics::fits;
use crate::semantics::mismatch;
use crate::semantics::negation;
use crate::semantics::power;
use crate::semantics::product;
use crate::semantics::promoted;
use crate::semantics::quotient;
use crate::semantics::sum;
use crate::semantics::Operator;
use crate::semantics::Outcome;
use crate::syntax::names_view;
use crate::syntax::Expression;
use crate::value::RuntimeError;
use crate::value::Value;
use crate::value::ValueModel;

verus! {

/// How an evaluation ends: in a value, in a runtime error, or in nothing.
pub type Evaluation = Option<Result<Value, RuntimeError>>;

/// The model of the end of an evaluation.
pub open spec fn outcome_view(out: Evaluation) -> Outcome {
    match out {
        Some(Ok(value)) => Some(Ok(value@)),
        Some(Err(error)) => Some(Err(error@)),
        None => None,
    }
}

impl Operator {
    /// The symbol of the operator.
    pub fn text(self) -> (symbol: String)
        ensures
            symbol@ == self.symbol(),
    {
        match self {
            Operator::Add => "+".to_string(),
            Operator::Subtract => "-".to_string(),
            Operator::Multiply => "*".to_string(),
            Operator::Divide => "/".to_string(),
            Operator::Power => "^".to_string(),
        }
    }
}

/// The end of a decimal operation: the number, where there is one.
pub open spec fn decimal_result(made: Option<Dyadic>) -> Outcome {
    match made {
        Some(d) => Some(Ok(ValueModel::Real(d))),
        None => None,
    }
}

/// The end of a decimal operation.
fn decimal_evaluation(made: Option<Real>) -> (out: Evaluation)
    ensures
        outcome_view(out) == decimal_result(optional_view(made)),
{
    match made {
        Some(r) => Some(Ok(Value::Real(r))),
        None => None,
    }
}

/// The failure of a binary operator on operands that are not both numbers.
fn mismatched(op: Operator, a: &Value, b: &Value) -> (out: Evaluation)
    ensures
        outcome_view(out) == mismatch(op, a@, b@),
{
    Some(
        Err(
            RuntimeError::TypeMismatch {
                first: a.type_tag(),
                last: b.type_tag(),
                operation: op.text(),
            },
        ),
    )
}

/// The operand on the decimal tier, if it is a number.
fn decimal_operand(v: &Value) -> (made: Option<Real>)
    ensures
        optional_view(made) == as_decimal(v@),
{
    match v {
        Value::SmallInt(n) => Some(Real::from_int(*n)),
        Value::Real(r) => Some(r.clone()),
        Value::Function(_) => None,
    }
}

/// An integer that the fixed-width tier may not hold: promoted where it
/// does not fit.
fn promote(n: i128) -> (out: Evaluation)
    requires
        -EXACT_LIMIT <= n <= EXACT_LIMIT,
    ensures
        outcome_view(out) == promoted(n as int),
{
    if -0x8000_0000_0000_0000 <= n && n <= 0x7fff_ffff_ffff_ffff {
        Some(Ok(Value::SmallInt(n as i64)))
    } else {
        proof {
            lemma_of_int_in_range(n as int);
        }
        match Real::from_parts(n, 0) {
            Some(r) => Some(Ok(Value::Real(r))),
            None => None,
        }
    }
}

/// The integer quotient, where the division leaves no remainder.
fn exact_quotient(x: i64, y: i64) -> (q: Option<i128>)
    ensures
        q is Some <==> divides(y as int, x as int),
        q is Some ==> q->0 == x as int / y as int,
        q is Some ==> -0x8000_0000_0000_0000 <= q->0 <= 0x8000_0000_0000_0000,
{
    if y == 0 {
        return None;
    }
    let a: i128 = if x < 0 {
        -(x as i128)
    } else {
        x as i128
    };
    let b: i128 = if y < 0 {
        -(y as i128)
    } else {
        y as i128
    };
    let rest = a % b;
    let m = a / b;
    let signed: i128 = if (x < 0) != (y < 0) {
        -m
    } else {
        m
    };
    proof {
        let xi = x as int;
        let yi = y as int;
        assert(a == b * m + rest && 0 <= rest < b && 0 <= m <= a) by (nonlinear_arith)
            requires
                m == a / b,
                rest == a % b,
                a >= 0,
                b > 0,
        ;
        if rest == 0 {
            assert(xi == signed * yi) by (nonlinear_arith)
                requires
                    a == b * m,
                    (xi < 0 ==> a == -xi) && (xi >= 0 ==> a == xi),
                    (yi < 0 ==> b == -yi) && (yi >= 0 ==> b == yi),
                    signed == (if (xi < 0) != (yi < 0) {
                        -(m as int)
                    } else {
                        m as int
                    }),
            ;
            lemma_exact_division(xi, yi, signed as int);
        } else {
            if xi % yi == 0 {
                let k = xi / yi;
                assert(xi == yi * k) by (nonlinear_arith)
                    requires
                        yi != 0,
                        xi % yi == 0,
                        k == xi / yi,
                ;
                let kk: int = if (xi < 0) != (yi < 0) {
                    -k
                } else {
                    k
                };
                assert(a == kk * b + 0) by (nonlinear_arith)
                    requires
                        xi == yi * k,
                        (xi < 0 ==> a == -xi) && (xi >= 0 ==> a == xi),
                        (yi < 0 ==> b == -yi) && (yi >= 0 ==> b == yi),
                        kk == (if (xi < 0) != (yi < 0) {
                            -k
                        } else {
                            k
                        }),
                ;
                vstd::arithmetic::div_mod::lemma_fundamental_div_mod_converse(
                    a as int,
                    b as int,
                    kk,
                    0,
                );
            }
        }
    }
    if rest == 0 {
        Some(signed)
    } else {
        None
    }
}

/// A product with a non-zero divisor determines quotient and remainder.
proof fn lemma_exact_division(x: int, y: int, q: int)
    requires
        y != 0,
        x == q * y,
    ensures
        x % y == 0,
        x / y == q,
{
    vstd::arithmetic::div_mod::lemma_fundamental_div_mod(x, y);
    let k = x / y;
    let r = x % y;
    assert(0 <= r < y || 0 <= r < -y) by (nonlinear_arith)
        requires
            y != 0,
            r == x % y,
    ;
    assert((q - k) * y == r) by (nonlinear_arith)
        requires
            x == q * y,
            x == y * k + r,
    ;
    assert(q == k) by (nonlinear_arith)
        requires
            (q - k) * y == r,
            0 <= r < y || 0 <= r < -y,
    ;
    assert(r == 0) by (nonlinear_arith)
        requires
            (q - k) * y == r,
            q == k,
    ;
}

/// Once a power of a base of magnitude two or more leaves the fixed-width
/// tier, every higher power stays outside.
proof fn lemma_power_leaves(x: int, j: nat, k: nat)
    requires
        x >= 2 || x <= -2,
        j <= k,
        !fits(pow(x, j)),
    ensures
        !fits(pow(x, k)),
    decreases k - j,
{
    if j < k {
        lemma_power_leaves(x, j, (k - 1) as nat);
        let p = pow(x, (k - 1) as nat);
        lemma_pow_adds(x, (k - 1) as nat, 1);
        lemma_pow1(x);
        assert(p * x > i64::MAX || p * x < i64::MIN) by (nonlinear_arith)
            requires
                p > i64::MAX || p < i64::MIN,
                x >= 2 || x <= -2,
        ;
    }
}

/// The powers of minus one alternate.
proof fn lemma_power_of_minus_one(e: nat)
    ensures
        pow(-1, e) == (if e % 2 == 0 {
            1int
        } else {
            -1int
        }),
    decreases e,
{
    if e == 0 {
        lemma_pow0(-1);
    } else {
        lemma_power_of_minus_one((e - 1) as nat);
        lemma_pow_adds(-1, (e - 1) as nat, 1);
        lemma_pow1(-1);
    }
}

/// The power of two integers, where it fits the fixed-width tier.
fn fixed_power(x: i64, y: i64) -> (p: Option<i64>)
    requires
        y >= 0,
    ensures
        p is Some <==> fits(pow(x as int, y as nat)),
        p is Some ==> p->0 == pow(x as int, y as nat),
{
    if y == 0 {
        proof {
            lemma_pow0(x as int);
        }
        return Some(1);
    }
    if x == 0 {
        proof {
            lemma0_pow(y as nat);
        }
        return Some(0);
    }
    if x == 1 {
        proof {
            lemma1_pow(y as nat);
        }
        return Some(1);
    }
    if x == -1 {
        proof {
            lemma_power_of_minus_one(y as nat);
        }
        return Some(
            if y % 2 == 0 {
                1
            } else {
                -1
            },
        );
    }
    let mut acc: i64 = 1;
    let mut i: i64 = 0;
    proof {
        lemma_pow0(x as int);
    }
    while i < y
        invariant
            0 <= i <= y,
            x >= 2 || x <= -2,
            acc == pow(x as int, i as nat),
        decreases y - i,
    {
        proof {
            lemma_pow_adds(x as int, i as nat, 1);
            lemma_pow1(x as int);
        }
        match acc.checked_mul(x) {
            Some(next) => {
                acc = next;
                i = i + 1;
            },
            None => {
                proof {
                    lemma_power_leaves(x as int, (i + 1) as nat, y as nat);
                }
                return None;
            },
        }
    }
    Some(acc)
}

impl Value {
    /// Arithmetic negation. A function cannot be negated.
    pub fn negated(&self) -> (out: Evaluation)
        ensures
            outcome_view(out) == negation(self@),
    {
        match self {
            Value::SmallInt(n) => promote(-(*n as i128)),
            Value::Real(r) => Some(Ok(Value::Real(r.negated()))),
            Value::Function(_) => Some(
                Err(
                    RuntimeError::InvalidType {
                        found: self.type_tag(),
                        operation: "negate".to_string(),
                    },
                ),
            ),
        }
    }

    /// Addition on the numeric tower. The sum of two integers is exact: where
    /// it leaves the fixed-width range it is a decimal equal to the sum.
    pub fn plus(&self, other: &Value) -> (out: Evaluation)
        ensures
            outcome_view(out) == sum(self@, other@),
    {
        if let (Value::SmallInt(x), Value::SmallInt(y)) = (self, other) {
            if let Some(n) = x.checked_add(*y) {
                return Some(Ok(Value::SmallInt(n)));
            }
        }
        match (decimal_operand(self), decimal_operand(other)) {
            (Some(x), Some(y)) => {
                let made = x.plus(&y);
                proof {
                    match (self@, other@) {
                        (ValueModel::SmallInt(a), ValueModel::SmallInt(b)) => {
                            lemma_of_int_in_range(a);
                            lemma_of_int_in_range(b);
                            lemma_of_int_in_range(a + b);
                        },
                        _ => {},
                    }
                }
                decimal_evaluation(made)
            },
            _ => mismatched(Operator::Add, self, other),
        }
    }

    /// Subtraction on the numeric tower. The difference of two integers is
    /// exact: where it leaves the fixed-width range it is a decimal equal to
    /// the difference.
    pub fn minus(&self, other: &Value) -> (out: Evaluation)
        ensures
            outcome_view(out) == difference(self@, other@),
    {
        if let (Value::SmallInt(x), Value::SmallInt(y)) = (self, other) {
            if let Some(n) = x.checked_sub(*y) {
                return Some(Ok(Value::SmallInt(n)));
            }
        }
        match (decimal_operand(self), decimal_operand(other)) {
            (Some(x), Some(y)) => {
                let made = x.minus(&y);
                proof {
                    match (self@, other@) {
                        (ValueModel::SmallInt(a), ValueModel::SmallInt(b)) => {
                            lemma_of_int_in_range(a);
                            lemma_of_int_in_range(b);
                            lemma_of_int_in_range(a - b);
                        },
                        _ => {},
                    }
                }
                decimal_evaluation(made)
            },
            _ => mismatched(Operator::Subtract, self, other),
        }
    }

    /// Multiplication on the numeric tower. The product of two integers is
    /// exact: where it leaves the fixed-width range it is a decimal equal to
    /// the product.
    pub fn times(&self, other: &Value) -> (out: Evaluation)
        ensures
            outcome_view(out) == product(self@, other@),
    {
        if let (Value::SmallInt(x), Value::SmallInt(y)) = (self, other) {
            if let Some(n) = x.checked_mul(*y) {
                return Some(Ok(Value::SmallInt(n)));
            }
        }
        match (decimal_operand(self), decimal_operand(other)) {
            (Some(x), Some(y)) => {
                let made = x.times(&y);
                proof {
                    match (self@, other@) {
                        (ValueModel::SmallInt(a), ValueModel::SmallInt(b)) => {
                            lemma_of_int_in_range(a);
                            lemma_of_int_in_range(b);
                            assert(-EXACT_LIMIT <= a * b <= EXACT_LIMIT) by (nonlinear_arith)
                                requires
                                    -0x8000_0000_0000_0000 <= a <= 0x7fff_ffff_ffff_ffff,
                                    -0x8000_0000_0000_0000 <= b <= 0x7fff_ffff_ffff_ffff,
                            ;
                            lemma_of_int_in_range(a * b);
                        },
                        _ => {},
                    }
                }
                decimal_evaluation(made)
            },
            _ => mismatched(Operator::Multiply, self, other),
        }
    }

    /// Division on the numeric tower. An integer quotient without remainder
    /// is exact; a zero divisor fails with `DivisionByZero` on either tier.
    pub fn divided_by(&self, other: &Value) -> (out: Evaluation)
        ensures
            outcome_view(out) == quotient(self@, other@),
    {
        if let (Value::SmallInt(x), Value::SmallInt(y)) = (self, other) {
            if let Some(q) = exact_quotient(*x, *y) {
                return promote(q);
            }
        }
        match (decimal_operand(self), decimal_operand(other)) {
            (Some(x), Some(y)) => {
                if y.is_zero() {
                    Some(Err(RuntimeError::DivisionByZero))
                } else {
                    decimal_evaluation(x.divided_by(&y))
                }
            },
            _ => mismatched(Operator::Divide, self, other),
        }
    }

    /// Exponentiation on the numeric tower.
    pub fn raised_to(&self, other: &Value) -> (out: Evaluation)
        ensures
            outcome_view(out) == power(self@, other@),
    {
        match (self, other) {
            (Value::SmallInt(x), Value::SmallInt(y)) => {
                if *y >= 0 {
                    if let Some(p) = fixed_power(*x, *y) {
                        return Some(Ok(Value::SmallInt(p)));
                    }
                }
                decimal_evaluation(Real::from_int(*x).raised_to_int(*y))
            },
            (Value::Real(x), Value::SmallInt(y)) => decimal_evaluation(x.raised_to_int(*y)),
            (Value::SmallInt(x), Value::Real(y)) => decimal_evaluation(
                Real::from_int(*x).raised_to(y),
            ),
            (Value::Real(x), Value::Real(y)) => decimal_evaluation(x.raised_to(y)),
            _ => mismatched(Operator::Power, self, other),
        }
    }

    /// What a binary operator makes of two values.
    pub fn combined(&self, op: Operator, other: &Value) -> (out: Evaluation)
        ensures
            outcome_view(out) == combine(op, self@, other@),
    {
        match op {
            Operator::Add => self.plus(other),
            Operator::Subtract => self.minus(other),
            Operator::Multiply => self.times(other),
            Operator::Divide => self.divided_by(other),
            Operator::Power => self.raised_to(other),
        }
    }

    /// Evaluates the expression in the environment, with calls nested at
    /// most `depth` deep.
    ///
    /// The result is a value, a runtime error, or nothing: nothing where a
    /// call would nest deeper than `depth`, or where a decimal leaves the
    /// range or the domain of the arithmetic. The environment is not
    /// changed.
    #[verifier::loop_isolation(false)]
    pub fn evaluate(variables: &Environment, expression: &Expression, depth: usize) -> (out:
        Evaluation)
        ensures
            outcome_view(out) == eval(variables@, expression@, depth as nat),
        decreases depth, expression,
    {
        match expression {
            Expression::Integer(value) => Some(Ok(Value::SmallInt(*value))),
            Expression::Variable(name) => match variables.get(name) {
                Some(value) => Some(Ok(value.clone())),
                None => Some(Err(RuntimeError::UnboundVariable(name.clone()))),
            },
            Expression::Negate(a) => match Value::evaluate(variables, a, depth) {
                Some(Ok(value)) => value.negated(),
                other => other,
            },
            Expression::Add(a, b) => match Value::evaluate(variables, a, depth) {
                Some(Ok(x)) => match Value::evaluate(variables, b, depth) {
                    Some(Ok(y)) => x.plus(&y),
                    other => other,
                },
                other => other,
            },
            Expression::Subtract(a, b) => match Value::evaluate(variables, a, depth) {
                Some(Ok(x)) => match Value::evaluate(variables, b, depth) {
                    Some(Ok(y)) => x.minus(&y),
                    other => other,
                },
                other => other,
            },
            Expression::Multiply(a, b) => match Value::evaluate(variables, a, depth) {
                Some(Ok(x)) => match Value::evaluate(variables, b, depth) {
                    Some(Ok(y)) => x.times(&y),
                    other => other,
                },
                other => other,
            },
            Expression::Divide(a, b) => match Value::evaluate(variables, a, depth) {
                Some(Ok(x)) => match Value::evaluate(variables, b, depth) {
                    Some(Ok(y)) => x.divided_by(&y),
                    other => other,
                },
                other => other,
            },
            Expression::Power(a, b) => match Value::evaluate(variables, a, depth) {
                Some(Ok(x)) => match Value::evaluate(variables, b, depth) {
                    Some(Ok(y)) => x.raised_to(&y),
                    other => other,
                },
                other => other,
            },
            Expression::ApplyFunction { function, arguments } => {
                let callee = match Value::evaluate(variables, function, depth) {
                    Some(Ok(Value::Function(f))) => f,
                    Some(Ok(_)) => {
                        return Some(
                            Err(
                                RuntimeError::InvalidType {
                                    found: "function".to_string(),
                                    operation: "apply".to_string(),
                                },
                            ),
                        );
                    },
                    other => {
                        return other;
                    },
                };
                if callee.parameter_names.len() != arguments.len() {
                    return Some(
                        Err(
                            RuntimeError::ParameterMismatch {
                                expected: callee.parameter_names.len(),
                                found: arguments.len(),
                            },
                        ),
                    );
                }
                let ghost env = variables@;
                let ghost parameters = names_view(callee.parameter_names@);
                let ghost models = expression@->ApplyFunction_arguments;
                let mut overlay = variables.clone();
                let mut i: usize = 0;
                while i < arguments.len()
                    invariant
                        i <= arguments.len(),
                        arguments.len() == callee.parameter_names.len(),
                        models.len() == arguments.len(),
                        parameters.len() == arguments.len(),
                        bind(env, overlay@, parameters, models, depth as nat, i as nat) == bind(
                            env,
                            env,
                            parameters,
                            models,
                            depth as nat,
                            0,
                        ),
                    decreases arguments.len() - i,
                {
                    match Value::evaluate(variables, &arguments[i], depth) {
                        Some(Ok(value)) => {
                            overlay.insert(callee.parameter_names[i].clone(), value);
                        },
                        Some(Err(error)) => {
                            return Some(Err(error));
                        },
                        None => {
                            return None;
                        },
                    }
                    i += 1;
                }
                if depth == 0 {
                    None
                } else {
                    Value::evaluate(&overlay, &callee.body, depth - 1)
                }
            },
        }
    }
}

} // verus!
