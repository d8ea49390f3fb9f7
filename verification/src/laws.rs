//! Laws of the language: what holds of every environment, expression and
//! text, proved from the grammar and the meaning of expressions.

use vstd::prelude::*;
use crate::environment::defined;
use crate::grammar::application;
use crate::grammar::atom;
use crate::grammar::level;
use crate::grammar::LEVELS;
use crate::number::lemma_of_int_in_range;
use crate::number::Dyadic;
use crate::number::EXACT_LIMIT;
use crate::semantics::bind;
use crate::semantics::combine;
use crate::semantics::negation;
use crate::semantics::difference;
use crate::semantics::divides;
use crate::semantics::fits;
use crate::semantics::product;
use crate::semantics::eval;
use crate::semantics::quotient;
use crate::semantics::sequence;
use crate::semantics::sum;
use crate::semantics::Bindings;
use crate::semantics::Operator;
use crate::syntax::ExpressionModel;
use crate::syntax::StatementModel;
use crate::value::FunctionModel;
use crate::value::RuntimeErrorModel;
use crate::value::ValueModel;

verus! {

/// A name that the environment does not bind evaluates to the failure
/// `UnboundVariable` with that name, whatever the call depth.
pub proof fn law_unbound_variable(env: Bindings, name: Seq<char>, depth: nat)
    requires
        !env.dom().contains(name),
    ensures
        eval(env, ExpressionModel::Variable(name), depth) == Some(
            Err::<ValueModel, RuntimeErrorModel>(RuntimeErrorModel::UnboundVariable(name)),
        ),
{
}

/// A name that the environment binds evaluates to the value bound.
pub proof fn law_bound_variable(env: Bindings, name: Seq<char>, depth: nat)
    requires
        env.dom().contains(name),
    ensures
        eval(env, ExpressionModel::Variable(name), depth) == Some(
            Ok::<ValueModel, RuntimeErrorModel>(env[name]),
        ),
{
}

/// A call with a number of arguments other than the number of parameters
/// fails with `ParameterMismatch`, which names both numbers. No argument
/// is evaluated.
pub proof fn law_parameter_mismatch(
    env: Bindings,
    callee: ExpressionModel,
    function: FunctionModel,
    arguments: Seq<ExpressionModel>,
    depth: nat,
)
    requires
        eval(env, callee, depth) == Some(
            Ok::<ValueModel, RuntimeErrorModel>(ValueModel::Function(function)),
        ),
        function.parameter_names.len() != arguments.len(),
    ensures
        eval(
            env,
            ExpressionModel::ApplyFunction { function: Box::new(callee), arguments },
            depth,
        ) == Some(
            Err::<ValueModel, RuntimeErrorModel>(
                RuntimeErrorModel::ParameterMismatch {
                    expected: function.parameter_names.len(),
                    found: arguments.len(),
                },
            ),
        ),
{
}

/// A call of anything but a function fails with `InvalidType`.
pub proof fn law_call_of_a_number(
    env: Bindings,
    callee: ExpressionModel,
    value: ValueModel,
    arguments: Seq<ExpressionModel>,
    depth: nat,
)
    requires
        eval(env, callee, depth) == Some(Ok::<ValueModel, RuntimeErrorModel>(value)),
        !(value is Function),
    ensures
        eval(
            env,
            ExpressionModel::ApplyFunction { function: Box::new(callee), arguments },
            depth,
        ) == Some(
            Err::<ValueModel, RuntimeErrorModel>(
                RuntimeErrorModel::InvalidType { found: "function"@, operation: "apply"@ },
            ),
        ),
{
}

/// Scoping is dynamic. Let `f(x) = x + y` be called with one argument in
/// an environment `env`. The free name `y` of the body resolves against
/// `env`, the environment of the call site: the call yields the sum of
/// the argument and whatever `env` binds to `y`, and fails with
/// `UnboundVariable` where `env` does not bind `y`. So two call sites
/// that bind `y` differently get different results from the same
/// function.
pub proof fn law_dynamic_scoping(
    env: Bindings,
    f: Seq<char>,
    declared: Seq<char>,
    x: Seq<char>,
    y: Seq<char>,
    argument: ExpressionModel,
    value: ValueModel,
    depth: nat,
)
    requires
        x != y,
        depth > 0,
        env.dom().contains(f),
        env[f] == ValueModel::Function(
            FunctionModel {
                name: declared,
                parameter_names: seq![x],
                body: ExpressionModel::Add(
                    Box::new(ExpressionModel::Variable(x)),
                    Box::new(ExpressionModel::Variable(y)),
                ),
            },
        ),
        eval(env, argument, depth) == Some(Ok::<ValueModel, RuntimeErrorModel>(value)),
    ensures
        env.dom().contains(y) ==> eval(
            env,
            ExpressionModel::ApplyFunction {
                function: Box::new(ExpressionModel::Variable(f)),
                arguments: seq![argument],
            },
            depth,
        ) == sum(value, env[y]),
        !env.dom().contains(y) ==> eval(
            env,
            ExpressionModel::ApplyFunction {
                function: Box::new(ExpressionModel::Variable(f)),
                arguments: seq![argument],
            },
            depth,
        ) == Some(Err::<ValueModel, RuntimeErrorModel>(RuntimeErrorModel::UnboundVariable(y))),
{
    let parameters = seq![x];
    let arguments = seq![argument];
    let overlay = env.insert(x, value);
    assert(eval(env, ExpressionModel::Variable(f), depth) == Some(
        Ok::<ValueModel, RuntimeErrorModel>(env[f]),
    ));
    reveal_with_fuel(bind, 3);
    assert(bind(env, env, parameters, arguments, depth, 0) == Some(
        Ok::<Bindings, RuntimeErrorModel>(overlay),
    ));
    let body = ExpressionModel::Add(
        Box::new(ExpressionModel::Variable(x)),
        Box::new(ExpressionModel::Variable(y)),
    );
    let inner = (depth - 1) as nat;
    assert(eval(overlay, body, inner) == sequence(
        Operator::Add,
        eval(overlay, ExpressionModel::Variable(x), inner),
        eval(overlay, ExpressionModel::Variable(y), inner),
    ));
}

/// Two call sites that bind the free name of `f(x) = x + y` to different
/// integers get different results from the same call.
pub proof fn law_call_sites_differ(
    here: Bindings,
    there: Bindings,
    f: Seq<char>,
    declared: Seq<char>,
    x: Seq<char>,
    y: Seq<char>,
    k: int,
    a: int,
    b: int,
    depth: nat,
)
    requires
        x != y,
        depth > 0,
        fits(k),
        fits(a),
        fits(b),
        a != b,
        here.dom().contains(f),
        there.dom().contains(f),
        here[f] == there[f],
        here[f] == ValueModel::Function(
            FunctionModel {
                name: declared,
                parameter_names: seq![x],
                body: ExpressionModel::Add(
                    Box::new(ExpressionModel::Variable(x)),
                    Box::new(ExpressionModel::Variable(y)),
                ),
            },
        ),
        here.dom().contains(y),
        there.dom().contains(y),
        here[y] == ValueModel::SmallInt(a),
        there[y] == ValueModel::SmallInt(b),
    ensures
        eval(
            here,
            ExpressionModel::ApplyFunction {
                function: Box::new(ExpressionModel::Variable(f)),
                arguments: seq![ExpressionModel::Integer(k)],
            },
            depth,
        ) != eval(
            there,
            ExpressionModel::ApplyFunction {
                function: Box::new(ExpressionModel::Variable(f)),
                arguments: seq![ExpressionModel::Integer(k)],
            },
            depth,
        ),
{
    let argument = ExpressionModel::Integer(k);
    law_dynamic_scoping(here, f, declared, x, y, argument, ValueModel::SmallInt(k), depth);
    law_dynamic_scoping(there, f, declared, x, y, argument, ValueModel::SmallInt(k), depth);
    lemma_of_int_in_range(k + a);
    lemma_of_int_in_range(k + b);
}

/// Division of a number by zero fails with `DivisionByZero`, on either
/// tier.
pub proof fn law_division_by_zero(a: ValueModel, b: ValueModel)
    requires
        !(a is Function),
        b == ValueModel::SmallInt(0) || b == ValueModel::Real(Dyadic::zero()),
    ensures
        quotient(a, b) == Some(
            Err::<ValueModel, RuntimeErrorModel>(RuntimeErrorModel::DivisionByZero),
        ),
{
}

/// An integer quotient without remainder is exact: it stays on the
/// fixed-width tier where it fits. Any other quotient of two integers by a
/// non-zero divisor is a decimal, or nothing where the decimal leaves the
/// supported range.
pub proof fn law_integer_division(x: int, y: int)
    requires
        fits(x),
        fits(y),
        y != 0,
    ensures
        divides(y, x) && fits(x / y) ==> quotient(ValueModel::SmallInt(x), ValueModel::SmallInt(y))
            == Some(Ok::<ValueModel, RuntimeErrorModel>(ValueModel::SmallInt(x / y))),
        !divides(y, x) ==> match quotient(ValueModel::SmallInt(x), ValueModel::SmallInt(y)) {
            Some(Ok(ValueModel::Real(_))) => true,
            None => true,
            _ => false,
        },
{
    Dyadic::lemma_of_int_zero(y);
}

/// The sum of two fixed-width integers that leaves the fixed-width range is
/// a decimal numerically equal to the exact sum.
pub proof fn law_sum_is_exact(x: int, y: int)
    requires
        fits(x),
        fits(y),
        !fits(x + y),
    ensures
        sum(ValueModel::SmallInt(x), ValueModel::SmallInt(y)) == Some(
            Ok::<ValueModel, RuntimeErrorModel>(ValueModel::Real(Dyadic::of_int(x + y))),
        ),
        Dyadic::of_int(x + y).is_integer(x + y),
{
    lemma_of_int_in_range(x + y);
}

/// The difference of two fixed-width integers that leaves the fixed-width
/// range is a decimal numerically equal to the exact difference.
pub proof fn law_difference_is_exact(x: int, y: int)
    requires
        fits(x),
        fits(y),
        !fits(x - y),
    ensures
        difference(ValueModel::SmallInt(x), ValueModel::SmallInt(y)) == Some(
            Ok::<ValueModel, RuntimeErrorModel>(ValueModel::Real(Dyadic::of_int(x - y))),
        ),
        Dyadic::of_int(x - y).is_integer(x - y),
{
    lemma_of_int_in_range(x - y);
}

/// The product of two fixed-width integers that leaves the fixed-width
/// range is a decimal numerically equal to the exact product.
pub proof fn law_product_is_exact(x: int, y: int)
    requires
        fits(x),
        fits(y),
        !fits(x * y),
    ensures
        product(ValueModel::SmallInt(x), ValueModel::SmallInt(y)) == Some(
            Ok::<ValueModel, RuntimeErrorModel>(ValueModel::Real(Dyadic::of_int(x * y))),
        ),
        Dyadic::of_int(x * y).is_integer(x * y),
{
    assert(-EXACT_LIMIT <= x * y <= EXACT_LIMIT) by (nonlinear_arith)
        requires
            -0x8000_0000_0000_0000 <= x <= 0x7fff_ffff_ffff_ffff,
            -0x8000_0000_0000_0000 <= y <= 0x7fff_ffff_ffff_ffff,
    ;
    lemma_of_int_in_range(x * y);
}

/// Numeric promotion is lossless: every fixed-width integer has a decimal
/// that stands for exactly that integer.
pub proof fn law_promotion_is_lossless(x: int)
    requires
        fits(x),
    ensures
        Dyadic::of_int(x).in_range(),
        Dyadic::of_int(x).is_integer(x),
{
    lemma_of_int_in_range(x);
}

/// Numeric promotion is one-directional: no operator makes a fixed-width
/// integer of a decimal operand.
pub proof fn law_promotion_is_one_way(op: Operator, a: ValueModel, b: ValueModel)
    requires
        a is Real || b is Real,
    ensures
        !(combine(op, a, b) matches Some(Ok(ValueModel::SmallInt(_)))),
        !(a is Real) || !(negation(a) matches Some(Ok(ValueModel::SmallInt(_)))),
{
}

/// A later definition of a name silently replaces an earlier one: after a
/// program is loaded, a name is bound to the function of its last
/// definition.
pub proof fn law_last_definition_wins(
    base: Bindings,
    statements: Seq<StatementModel>,
    at: int,
    name: Seq<char>,
    parameters: Seq<Seq<char>>,
    body: ExpressionModel,
)
    requires
        0 <= at < statements.len(),
        statements[at] == (StatementModel::FunctionDefinition { name, parameters, body }),
        forall|later: int|
            at < later < statements.len() ==> match #[trigger] statements[later] {
                StatementModel::FunctionDefinition { name: other, .. } => other != name,
                StatementModel::FunctionTypeDeclaration { .. } => true,
            },
    ensures
        defined(base, statements).dom().contains(name),
        defined(base, statements)[name] == ValueModel::Function(
            FunctionModel { name, parameter_names: parameters, body },
        ),
    decreases statements.len(),
{
    if at < statements.len() - 1 {
        let front = statements.drop_last();
        assert(front[at] == statements[at]);
        assert forall|later: int| at < later < front.len() implies match #[trigger] front[later] {
            StatementModel::FunctionDefinition { name: other, .. } => other != name,
            StatementModel::FunctionTypeDeclaration { .. } => true,
        } by {
            assert(front[later] == statements[later]);
        }
        law_last_definition_wins(base, front, at, name, parameters, body);
        assert(statements.last() == statements[statements.len() - 1]);
    }
}

/// Type declarations bind nothing: a name that no statement defines is
/// bound after the program is loaded as it was before.
pub proof fn law_declarations_bind_nothing(
    base: Bindings,
    statements: Seq<StatementModel>,
    name: Seq<char>,
)
    requires
        forall|i: int|
            0 <= i < statements.len() ==> match #[trigger] statements[i] {
                StatementModel::FunctionDefinition { name: other, .. } => other != name,
                StatementModel::FunctionTypeDeclaration { .. } => true,
            },
    ensures
        defined(base, statements).dom().contains(name) == base.dom().contains(name),
        base.dom().contains(name) ==> defined(base, statements)[name] == base[name],
    decreases statements.len(),
{
    if statements.len() > 0 {
        let front = statements.drop_last();
        assert forall|i: int| 0 <= i < front.len() implies match #[trigger] front[i] {
            StatementModel::FunctionDefinition { name: other, .. } => other != name,
            StatementModel::FunctionTypeDeclaration { .. } => true,
        } by {
            assert(front[i] == statements[i]);
        }
        law_declarations_bind_nothing(base, front, name);
        assert(statements.last() == statements[statements.len() - 1]);
    }
}

/// An expression is read wherever an atom is read: every rung of the
/// ladder accepts a lone operand, and fails only with the failure of the
/// atom at its start.
pub proof fn law_lone_operand(s: Seq<char>, i: int, rung: nat)
    ensures
        level(s, i, rung) is Ok <==> atom(s, i) is Ok,
        level(s, i, rung) is Err ==> level(s, i, rung)->Err_0 == atom(s, i)->Err_0,
    decreases LEVELS - rung,
{
    if rung < LEVELS {
        law_lone_operand(s, i, rung + 1);
    } else {
        assert(level(s, i, rung) == application(s, i));
    }
}

/// The call depth is a budget and nothing more: an evaluation that ends
/// within a depth ends in the same way within every greater depth.
pub proof fn law_depth_suffices(env: Bindings, e: ExpressionModel, depth: nat, more: nat)
    requires
        eval(env, e, depth) is Some,
        depth <= more,
    ensures
        eval(env, e, more) == eval(env, e, depth),
    decreases depth, e, 0nat,
{
    match e {
        ExpressionModel::Integer(_) => {},
        ExpressionModel::Variable(_) => {},
        ExpressionModel::Negate(a) => {
            law_depth_suffices(env, *a, depth, more);
        },
        ExpressionModel::Add(a, b) => {
            law_depth_suffices(env, *a, depth, more);
            if eval(env, *a, depth) matches Some(Ok(_)) {
                law_depth_suffices(env, *b, depth, more);
            }
        },
        ExpressionModel::Subtract(a, b) => {
            law_depth_suffices(env, *a, depth, more);
            if eval(env, *a, depth) matches Some(Ok(_)) {
                law_depth_suffices(env, *b, depth, more);
            }
        },
        ExpressionModel::Multiply(a, b) => {
            law_depth_suffices(env, *a, depth, more);
            if eval(env, *a, depth) matches Some(Ok(_)) {
                law_depth_suffices(env, *b, depth, more);
            }
        },
        ExpressionModel::Divide(a, b) => {
            law_depth_suffices(env, *a, depth, more);
            if eval(env, *a, depth) matches Some(Ok(_)) {
                law_depth_suffices(env, *b, depth, more);
            }
        },
        ExpressionModel::Power(a, b) => {
            law_depth_suffices(env, *a, depth, more);
            if eval(env, *a, depth) matches Some(Ok(_)) {
                law_depth_suffices(env, *b, depth, more);
            }
        },
        ExpressionModel::ApplyFunction { function, arguments } => {
            law_depth_suffices(env, *function, depth, more);
            match eval(env, *function, depth) {
                Some(Ok(ValueModel::Function(f))) => {
                    if f.parameter_names.len() == arguments.len() {
                        lemma_binding_suffices(
                            env,
                            env,
                            f.parameter_names,
                            arguments,
                            depth,
                            more,
                            0,
                        );
                        match bind(env, env, f.parameter_names, arguments, depth, 0) {
                            Some(Ok(overlay)) => {
                                law_depth_suffices(
                                    overlay,
                                    f.body,
                                    (depth - 1) as nat,
                                    (more - 1) as nat,
                                );
                            },
                            _ => {},
                        }
                    }
                },
                _ => {},
            }
        },
    }
}

/// The binding of arguments ends in the same way within every greater
/// depth.
proof fn lemma_binding_suffices(
    env: Bindings,
    overlay: Bindings,
    parameters: Seq<Seq<char>>,
    arguments: Seq<ExpressionModel>,
    depth: nat,
    more: nat,
    i: nat,
)
    requires
        bind(env, overlay, parameters, arguments, depth, i) is Some,
        depth <= more,
    ensures
        bind(env, overlay, parameters, arguments, more, i) == bind(
            env,
            overlay,
            parameters,
            arguments,
            depth,
            i,
        ),
    decreases depth, arguments, arguments.len() - i,
{
    if i < arguments.len() && i < parameters.len() {
        law_depth_suffices(env, arguments[i as int], depth, more);
        match eval(env, arguments[i as int], depth) {
            Some(Ok(v)) => {
                lemma_binding_suffices(
                    env,
                    overlay.insert(parameters[i as int], v),
                    parameters,
                    arguments,
                    depth,
                    more,
                    i + 1,
                );
            },
            _ => {},
        }
    }
}

} // verus!
