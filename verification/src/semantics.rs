//! What an expression evaluates to: the meaning of the language, stated
//! over the models of expressions, values and environments.
//!
//! An evaluation ends in a value, in a runtime error, or in nothing: a call
//! nested deeper than the budget allows, or a decimal outside the range and
//! domain of the arithmetic, has no outcome.

use vstd::prelude::*;
use vstd::arithmetic::power::pow;
use crate::decimal::decimal_difference;
use crate::decimal::decimal_integer_power;
use crate::decimal::decimal_power;
use crate::decimal::decimal_product;
use crate::decimal::decimal_quotient;
use crate::decimal::decimal_sum;
use crate::decimal::integer_power_supported;
use crate::decimal::power_supported;
use crate::number::Dyadic;
use crate::syntax::ExpressionModel;
use crate::value::RuntimeErrorModel;
use crate::value::ValueModel;

verus! {

/// How an evaluation ends.
pub type Outcome = Option<Result<ValueModel, RuntimeErrorModel>>;

/// An environment as a mapping.
pub type Bindings = Map<Seq<char>, ValueModel>;

/// The binary operators of the language.
#[derive(Debug, Clone, Copy, PartialEq, Eq, Structural)]
pub enum Operator {
    Add,
    Subtract,
    Multiply,
    Divide,
    Power,
}

impl Operator {
    /// The symbol of the operator.
    pub open spec fn symbol(self) -> Seq<char> {
        match self {
            Operator::Add => "+"@,
            Operator::Subtract => "-"@,
            Operator::Multiply => "*"@,
            Operator::Divide => "/"@,
            Operator::Power => "^"@,
        }
    }
}

/// The integer fits the fixed-width tier.
pub open spec fn fits(n: int) -> bool {
    i64::MIN <= n <= i64::MAX
}

/// A decimal result: the number where it is within the supported range.
pub open spec fn decimal_outcome(d: Dyadic) -> Outcome {
    match d.kept() {
        Some(kept) => Some(Ok(ValueModel::Real(kept))),
        None => None,
    }
}

/// An exact integer result: on the fixed-width tier where it fits, promoted
/// to the decimal tier where it does not.
pub open spec fn promoted(n: int) -> Outcome {
    if fits(n) {
        Some(Ok(ValueModel::SmallInt(n)))
    } else {
        decimal_outcome(Dyadic::of_int(n))
    }
}

/// The failure of a binary operator on operands that are not both numbers.
pub open spec fn mismatch(op: Operator, a: ValueModel, b: ValueModel) -> Outcome {
    Some(
        Err(
            RuntimeErrorModel::TypeMismatch {
                first: a.type_tag(),
                last: b.type_tag(),
                operation: op.symbol(),
            },
        ),
    )
}

/// The operand on the decimal tier, if it is a number.
pub open spec fn as_decimal(v: ValueModel) -> Option<Dyadic> {
    match v {
        ValueModel::SmallInt(n) => Some(Dyadic::of_int(n)),
        ValueModel::Real(d) => Some(d),
        ValueModel::Function(_) => None,
    }
}

/// Negation: exact on both tiers; an integer whose negation does not fit is
/// promoted.
pub open spec fn negation(v: ValueModel) -> Outcome {
    match v {
        ValueModel::SmallInt(n) => promoted(-n),
        ValueModel::Real(d) => Some(Ok(ValueModel::Real(d.negation()))),
        ValueModel::Function(_) => Some(
            Err(
                RuntimeErrorModel::InvalidType { found: v.type_tag(), operation: "negate"@ },
            ),
        ),
    }
}

/// Addition. The sum of two integers is exact: fixed-width where it fits,
/// promoted where it does not. With a decimal operand the sum is computed
/// on the decimal tier.
pub open spec fn sum(a: ValueModel, b: ValueModel) -> Outcome {
    match (a, b) {
        (ValueModel::SmallInt(x), ValueModel::SmallInt(y)) => promoted(x + y),
        _ => match (as_decimal(a), as_decimal(b)) {
            (Some(x), Some(y)) => decimal_outcome(decimal_sum(x, y)),
            _ => mismatch(Operator::Add, a, b),
        },
    }
}

/// Subtraction. The difference of two integers is exact: fixed-width where
/// it fits, promoted where it does not. With a decimal operand the
/// difference is computed on the decimal tier.
pub open spec fn difference(a: ValueModel, b: ValueModel) -> Outcome {
    match (a, b) {
        (ValueModel::SmallInt(x), ValueModel::SmallInt(y)) => promoted(x - y),
        _ => match (as_decimal(a), as_decimal(b)) {
            (Some(x), Some(y)) => decimal_outcome(decimal_difference(x, y)),
            _ => mismatch(Operator::Subtract, a, b),
        },
    }
}

/// Multiplication. The product of two integers is exact: fixed-width where
/// it fits, promoted where it does not. With a decimal operand the product
/// is computed on the decimal tier.
pub open spec fn product(a: ValueModel, b: ValueModel) -> Outcome {
    match (a, b) {
        (ValueModel::SmallInt(x), ValueModel::SmallInt(y)) => promoted(x * y),
        _ => match (as_decimal(a), as_decimal(b)) {
            (Some(x), Some(y)) => decimal_outcome(decimal_product(x, y)),
            _ => mismatch(Operator::Multiply, a, b),
        },
    }
}

/// The integer `y` divides the integer `x`.
pub open spec fn divides(y: int, x: int) -> bool {
    y != 0 && x % y == 0
}

/// Division. An integer quotient without remainder is exact: fixed-width
/// where it fits, promoted where it does not. A zero divisor fails on
/// either tier. Every other quotient is computed on the decimal tier.
pub open spec fn quotient(a: ValueModel, b: ValueModel) -> Outcome {
    match (a, b) {
        (ValueModel::SmallInt(x), ValueModel::SmallInt(y)) if divides(y, x) => promoted(x / y),
        _ => match (as_decimal(a), as_decimal(b)) {
            (Some(x), Some(y)) => if y.significand == 0 {
                Some(Err(RuntimeErrorModel::DivisionByZero))
            } else {
                decimal_outcome(decimal_quotient(x, y))
            },
            _ => mismatch(Operator::Divide, a, b),
        },
    }
}

/// A decimal raised to an integer, where the arithmetic supports it.
pub open spec fn decimal_integer_power_outcome(base: Dyadic, n: int) -> Outcome {
    if integer_power_supported(base, n) {
        decimal_outcome(decimal_integer_power(base, n))
    } else {
        None
    }
}

/// A decimal raised to a decimal, where the arithmetic supports it.
pub open spec fn decimal_power_outcome(base: Dyadic, exponent: Dyadic) -> Outcome {
    if power_supported(base, exponent) {
        decimal_outcome(decimal_power(base, exponent))
    } else {
        None
    }
}

/// Exponentiation: fixed-width for a non-negative integer exponent where
/// the power fits, a decimal power otherwise.
pub open spec fn power(a: ValueModel, b: ValueModel) -> Outcome {
    match (a, b) {
        (ValueModel::SmallInt(x), ValueModel::SmallInt(y)) => if y >= 0 && fits(
            pow(x, y as nat),
        ) {
            Some(Ok(ValueModel::SmallInt(pow(x, y as nat))))
        } else {
            decimal_integer_power_outcome(Dyadic::of_int(x), y)
        },
        (ValueModel::Real(x), ValueModel::SmallInt(y)) => decimal_integer_power_outcome(x, y),
        (ValueModel::SmallInt(x), ValueModel::Real(y)) => decimal_power_outcome(
            Dyadic::of_int(x),
            y,
        ),
        (ValueModel::Real(x), ValueModel::Real(y)) => decimal_power_outcome(x, y),
        _ => mismatch(Operator::Power, a, b),
    }
}

/// What a binary operator makes of two values.
pub open spec fn combine(op: Operator, a: ValueModel, b: ValueModel) -> Outcome {
    match op {
        Operator::Add => sum(a, b),
        Operator::Subtract => difference(a, b),
        Operator::Multiply => product(a, b),
        Operator::Divide => quotient(a, b),
        Operator::Power => power(a, b),
    }
}

/// A binary operator on the outcomes of its operands: the left operand
/// is evaluated first, and the first operand without a value decides.
pub open spec fn sequence(op: Operator, left: Outcome, right: Outcome) -> Outcome {
    match left {
        Some(Ok(a)) => match right {
            Some(Ok(b)) => combine(op, a, b),
            _ => right,
        },
        _ => left,
    }
}

/// What the binding of arguments to parameters ends in.
pub type Bound = Option<Result<Bindings, RuntimeErrorModel>>;

/// The failure of a call on a value that is no function.
pub open spec fn not_callable() -> RuntimeErrorModel {
    RuntimeErrorModel::InvalidType { found: "function"@, operation: "apply"@ }
}

/// Binds the parameters from position `i` on, in order: each argument is
/// evaluated in the caller's environment `env` and installed in `overlay`.
/// The first argument without a value decides.
pub open spec fn bind(
    env: Bindings,
    overlay: Bindings,
    parameters: Seq<Seq<char>>,
    arguments: Seq<ExpressionModel>,
    depth: nat,
    i: nat,
) -> Bound
    decreases depth, arguments, arguments.len() - i,
{
    if i >= arguments.len() || i >= parameters.len() {
        Some(Ok(overlay))
    } else {
        match eval(env, arguments[i as int], depth) {
            Some(Ok(v)) => bind(
                env,
                overlay.insert(parameters[i as int], v),
                parameters,
                arguments,
                depth,
                i + 1,
            ),
            Some(Err(e)) => Some(Err(e)),
            None => None,
        }
    }
}

/// The outcome of evaluating `e` in `env` with calls nested at most
/// `depth` deep.
///
/// Scoping is dynamic: the body of a called function is evaluated in an
/// overlay of the caller's environment, so a free name in the body
/// resolves against whatever is bound at the call site.
pub open spec fn eval(env: Bindings, e: ExpressionModel, depth: nat) -> Outcome
    decreases depth, e, 0nat,
{
    match e {
        ExpressionModel::Integer(n) => Some(Ok(ValueModel::SmallInt(n))),
        ExpressionModel::Variable(name) => if env.dom().contains(name) {
            Some(Ok(env[name]))
        } else {
            Some(Err(RuntimeErrorModel::UnboundVariable(name)))
        },
        ExpressionModel::Negate(a) => match eval(env, *a, depth) {
            Some(Ok(v)) => negation(v),
            other => other,
        },
        ExpressionModel::Add(a, b) => sequence(
            Operator::Add,
            eval(env, *a, depth),
            eval(env, *b, depth),
        ),
        ExpressionModel::Subtract(a, b) => sequence(
            Operator::Subtract,
            eval(env, *a, depth),
            eval(env, *b, depth),
        ),
        ExpressionModel::Multiply(a, b) => sequence(
            Operator::Multiply,
            eval(env, *a, depth),
            eval(env, *b, depth),
        ),
        ExpressionModel::Divide(a, b) => sequence(
            Operator::Divide,
            eval(env, *a, depth),
            eval(env, *b, depth),
        ),
        ExpressionModel::Power(a, b) => sequence(
            Operator::Power,
            eval(env, *a, depth),
            eval(env, *b, depth),
        ),
        ExpressionModel::ApplyFunction { function, arguments } => match eval(
            env,
            *function,
            depth,
        ) {
            Some(Ok(ValueModel::Function(f))) => if f.parameter_names.len() != arguments.len() {
                Some(
                    Err(
                        RuntimeErrorModel::ParameterMismatch {
                            expected: f.parameter_names.len(),
                            found: arguments.len(),
                        },
                    ),
                )
            } else {
                match bind(env, env, f.parameter_names, arguments, depth, 0) {
                    Some(Ok(overlay)) => if depth == 0 {
                        None
                    } else {
                        eval(overlay, f.body, (depth - 1) as nat)
                    },
                    Some(Err(e)) => Some(Err(e)),
                    None => None,
                }
            },
            Some(Ok(_)) => Some(Err(not_callable())),
            other => other,
        },
    }
}

} // verus!
