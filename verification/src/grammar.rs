//! The grammar of the language, stated over sequences of characters.
//!
//! ```text
//! program     := (declaration | definition)*
//! declaration := name ':' name '->' name
//! definition  := name '(' (name (',' name)*)? ')' '=' expression
//! atom        := integer | name | '(' expression ')' | '-' expression
//! application := atom ['(' (expression (',' expression)*)? ')']
//! power       := application ('^' application)*
//! divide      := power ('/' power)*
//! multiply    := divide ('*' divide)*
//! subtract    := multiply ('-' multiply)*
//! expression  := subtract ('+' subtract)*
//! ```
//!
//! Every token may stand between blank space. Each binary level folds to
//! the left, the power level too. A minus sign in front of an atom negates
//! the whole expression that follows it. Each function below says what is
//! read at a position and how many characters that takes.

use vstd::prelude::*;
use crate::semantics::Operator;
use crate::syntax::ExpressionModel;
use crate::syntax::StatementModel;
use crate::syntax::TypeModel;
use crate::text::number;
use crate::text::rest;
use crate::text::run;
use crate::text::CharClass;

verus! {

/// The construct that was missing where a parse failed.
#[derive(Debug, Clone, Copy, PartialEq, Eq, Structural)]
pub enum Expected {
    /// One or more letters.
    Name,
    /// The sign `:` of a type declaration.
    Colon,
    /// The sign `->` of a type declaration.
    Arrow,
    /// The sign `(` that opens a parameter list.
    OpenParenthesis,
    /// The sign `)` that closes a parameter list.
    CloseParenthesis,
    /// The sign `=` of a definition.
    Equals,
    /// An expression.
    Expression,
}

/// Where a parse failed and what was missing there.
pub ghost struct Failure {
    pub position: int,
    pub expected: Expected,
}

/// What was read and the number of characters it took, or the failure.
pub type Parsed<T> = Result<(T, nat), Failure>;

/// The number of binary levels of the precedence ladder.
pub const LEVELS: u8 = 5;

/// The operator of a binary level, from the loosest level on.
pub open spec fn operator_of(level: nat) -> Operator {
    if level == 0 {
        Operator::Add
    } else if level == 1 {
        Operator::Subtract
    } else if level == 2 {
        Operator::Multiply
    } else if level == 3 {
        Operator::Divide
    } else {
        Operator::Power
    }
}

/// The sign of a binary operator.
pub open spec fn sign_of(op: Operator) -> char {
    match op {
        Operator::Add => '+',
        Operator::Subtract => '-',
        Operator::Multiply => '*',
        Operator::Divide => '/',
        Operator::Power => '^',
    }
}

/// The node that a binary operator makes of two operands.
pub open spec fn binary(op: Operator, left: ExpressionModel, right: ExpressionModel)
    -> ExpressionModel {
    match op {
        Operator::Add => ExpressionModel::Add(Box::new(left), Box::new(right)),
        Operator::Subtract => ExpressionModel::Subtract(Box::new(left), Box::new(right)),
        Operator::Multiply => ExpressionModel::Multiply(Box::new(left), Box::new(right)),
        Operator::Divide => ExpressionModel::Divide(Box::new(left), Box::new(right)),
        Operator::Power => ExpressionModel::Power(Box::new(left), Box::new(right)),
    }
}

/// Orders the rungs of the ladder at one position: a looser rung is
/// defined by the tighter ones.
pub open spec fn fold_rank(rung: nat) -> nat {
    if rung >= LEVELS {
        3
    } else {
        (3 + 2 * (LEVELS - rung)) as nat
    }
}

/// The blank space at position `i`.
pub open spec fn blank(s: Seq<char>, i: int) -> nat {
    run(s, i, CharClass::Space)
}

/// The character `c` stands at position `i`.
pub open spec fn stands(s: Seq<char>, i: int, c: char) -> bool {
    0 <= i < s.len() && s[i] == c
}

/// The one-character sign `c` between blank space: the characters it
/// takes, if it is there.
pub open spec fn sign(s: Seq<char>, i: int, c: char) -> Option<nat> {
    let lead = blank(s, i);
    if stands(s, i + lead, c) {
        Some(lead + 1 + blank(s, i + lead + 1))
    } else {
        None
    }
}

/// The sign `->` between blank space: the characters it takes, if it is
/// there.
pub open spec fn arrow(s: Seq<char>, i: int) -> Option<nat> {
    let lead = blank(s, i);
    if stands(s, i + lead, '-') && stands(s, i + lead + 1, '>') {
        Some(lead + 2 + blank(s, i + lead + 2))
    } else {
        None
    }
}

/// A failure where a token was looked for: just after the blank space.
pub open spec fn missing(s: Seq<char>, i: int, expected: Expected) -> Failure {
    Failure { position: i + blank(s, i), expected }
}

/// A name between blank space: one or more letters.
pub open spec fn name(s: Seq<char>, i: int) -> Parsed<Seq<char>> {
    let lead = blank(s, i);
    let letters = run(s, i + lead, CharClass::Letter);
    if letters > 0 {
        Ok(
            (
                s.subrange(i + lead, i + lead + letters),
                lead + letters + blank(s, i + lead + letters),
            ),
        )
    } else {
        Err(missing(s, i, Expected::Name))
    }
}

/// An integer literal between blank space: one or more digits that denote
/// a number of the fixed-width tier.
pub open spec fn integer(s: Seq<char>, i: int) -> Option<(int, nat)> {
    let lead = blank(s, i);
    let digits = run(s, i + lead, CharClass::Digit);
    let value = number(s, i + lead, i + lead + digits);
    if digits > 0 && value <= i64::MAX {
        Some((value as int, lead + digits + blank(s, i + lead + digits)))
    } else {
        None
    }
}

/// An atom: an integer literal, a variable, an expression in parentheses,
/// or a negated expression, tried in this order.
pub open spec fn atom(s: Seq<char>, i: int) -> Parsed<ExpressionModel>
    decreases rest(s, i), 1nat,
{
    match integer(s, i) {
        Some((value, taken)) => Ok((ExpressionModel::Integer(value), taken)),
        None => match name(s, i) {
            Ok((letters, taken)) => Ok((ExpressionModel::Variable(letters), taken)),
            Err(_) => match bracketed(s, i) {
                Some(found) => Ok(found),
                None => negative(s, i),
            },
        },
    }
}

/// An expression in parentheses. The closing sign stands where the
/// expression ends.
pub open spec fn bracketed(s: Seq<char>, i: int) -> Option<(ExpressionModel, nat)>
    decreases rest(s, i), 0nat,
{
    let lead = blank(s, i);
    if stands(s, i + lead, '(') {
        match level(s, i + lead + 1, 0) {
            Ok((inner, taken)) => {
                let close = i + lead + 1 + taken;
                if stands(s, close, ')') {
                    Some((inner, lead + 1 + taken + 1 + blank(s, close + 1)))
                } else {
                    None
                }
            },
            Err(_) => None,
        }
    } else {
        None
    }
}

/// A minus sign and the whole expression after it. This is the last
/// alternative of an atom: where it fails, no atom stands.
pub open spec fn negative(s: Seq<char>, i: int) -> Parsed<ExpressionModel>
    decreases rest(s, i), 0nat,
{
    match sign(s, i, '-') {
        Some(taken) => match level(s, i + taken, 0) {
            Ok((inner, more)) => Ok((ExpressionModel::Negate(Box::new(inner)), taken + more)),
            Err(failure) => Err(failure),
        },
        None => Err(missing(s, i, Expected::Expression)),
    }
}

/// The arguments after the first one: each a comma and an expression. A
/// comma that no expression follows is not taken.
pub open spec fn further_arguments(s: Seq<char>, i: int, found: Seq<ExpressionModel>) -> (
    Seq<ExpressionModel>,
    nat,
)
    decreases rest(s, i), 1nat,
{
    match sign(s, i, ',') {
        Some(taken) => match level(s, i + taken, 0) {
            Ok((argument, more)) => {
                let (all, further) = further_arguments(
                    s,
                    i + taken + more,
                    found.push(argument),
                );
                (all, taken + more + further)
            },
            Err(_) => (found, 0),
        },
        None => (found, 0),
    }
}

/// A list of arguments: expressions separated by commas, possibly none.
pub open spec fn arguments(s: Seq<char>, i: int) -> (Seq<ExpressionModel>, nat)
    decreases rest(s, i), 20nat,
{
    match level(s, i, 0) {
        Ok((first, taken)) => {
            let (all, further) = further_arguments(s, i + taken, seq![first]);
            (all, taken + further)
        },
        Err(_) => (Seq::empty(), 0),
    }
}

/// The argument list of a call in parentheses, if one stands at `i`.
pub open spec fn call_suffix(s: Seq<char>, i: int) -> Option<(Seq<ExpressionModel>, nat)>
    decreases rest(s, i), 1nat,
{
    match sign(s, i, '(') {
        Some(open) => {
            let (found, taken) = arguments(s, i + open);
            match sign(s, i + open + taken, ')') {
                Some(close) => Some((found, open + taken + close)),
                None => None,
            }
        },
        None => None,
    }
}

/// An atom, with one argument list where one follows. An argument list
/// that does not close leaves the bare atom.
pub open spec fn application(s: Seq<char>, i: int) -> Parsed<ExpressionModel>
    decreases rest(s, i), 2nat,
{
    match atom(s, i) {
        Ok((callee, taken)) => match call_suffix(s, i + taken) {
            Some((found, more)) => Ok(
                (
                    ExpressionModel::ApplyFunction {
                        function: Box::new(callee),
                        arguments: found,
                    },
                    taken + more,
                ),
            ),
            None => Ok((callee, taken)),
        },
        Err(failure) => Err(failure),
    }
}

/// The operands of a binary level after the first one, folded to the left
/// into `left`: each an operator sign and an operand of the next tighter
/// level. A sign that no operand follows is not taken.
pub open spec fn fold(s: Seq<char>, i: int, rung: nat, left: ExpressionModel) -> (
    ExpressionModel,
    nat,
)
    decreases rest(s, i), fold_rank(rung),
{
    if rung >= LEVELS {
        (left, 0)
    } else {
        match sign(s, i, sign_of(operator_of(rung))) {
            Some(taken) => match level(s, i + taken, rung + 1) {
                Ok((right, more)) => {
                    let (all, further) = fold(
                        s,
                        i + taken + more,
                        rung,
                        binary(operator_of(rung), left, right),
                    );
                    (all, taken + more + further)
                },
                Err(_) => (left, 0),
            },
            None => (left, 0),
        }
    }
}

/// A rung of the precedence ladder: the binary levels from the loosest,
/// rung 0, to the tightest, and the application level below them.
pub open spec fn level(s: Seq<char>, i: int, rung: nat) -> Parsed<ExpressionModel>
    decreases rest(s, i), fold_rank(rung) + 1,
{
    if rung >= LEVELS {
        application(s, i)
    } else {
        match level(s, i, rung + 1) {
            Ok((first, taken)) => {
                let (all, further) = fold(s, i + taken, rung, first);
                Ok((all, taken + further))
            },
            Err(failure) => Err(failure),
        }
    }
}

/// An expression: the loosest rung of the ladder.
pub open spec fn expression(s: Seq<char>, i: int) -> Parsed<ExpressionModel> {
    level(s, i, 0)
}

/// The parameter names after the first one: each a comma and a name.
pub open spec fn further_names(s: Seq<char>, i: int, found: Seq<Seq<char>>) -> (
    Seq<Seq<char>>,
    nat,
)
    decreases rest(s, i),
{
    match sign(s, i, ',') {
        Some(taken) => match name(s, i + taken) {
            Ok((parameter, more)) => {
                let (all, further) = further_names(s, i + taken + more, found.push(parameter));
                (all, taken + more + further)
            },
            Err(_) => (found, 0),
        },
        None => (found, 0),
    }
}

/// A list of parameter names separated by commas, possibly none.
pub open spec fn names(s: Seq<char>, i: int) -> (Seq<Seq<char>>, nat) {
    match name(s, i) {
        Ok((first, taken)) => {
            let (all, further) = further_names(s, i + taken, seq![first]);
            (all, taken + further)
        },
        Err(_) => (Seq::empty(), 0),
    }
}

/// A function definition: `name(parameters) = body`.
pub open spec fn definition(s: Seq<char>, i: int) -> Parsed<StatementModel> {
    match name(s, i) {
        Err(failure) => Err(failure),
        Ok((defined, a)) => match sign(s, i + a, '(') {
            None => Err(missing(s, i + a, Expected::OpenParenthesis)),
            Some(b) => {
                let (parameters, c) = names(s, i + a + b);
                match sign(s, i + a + b + c, ')') {
                    None => Err(missing(s, i + a + b + c, Expected::CloseParenthesis)),
                    Some(d) => match sign(s, i + a + b + c + d, '=') {
                        None => Err(missing(s, i + a + b + c + d, Expected::Equals)),
                        Some(e) => match expression(s, i + a + b + c + d + e) {
                            Err(failure) => Err(failure),
                            Ok((body, f)) => Ok(
                                (
                                    StatementModel::FunctionDefinition {
                                        name: defined,
                                        parameters,
                                        body,
                                    },
                                    a + b + c + d + e + f,
                                ),
                            ),
                        },
                    },
                }
            },
        },
    }
}

/// A function type declaration: `name : domain -> codomain`.
pub open spec fn declaration(s: Seq<char>, i: int) -> Parsed<StatementModel> {
    match name(s, i) {
        Err(failure) => Err(failure),
        Ok((declared, a)) => match sign(s, i + a, ':') {
            None => Err(missing(s, i + a, Expected::Colon)),
            Some(b) => match name(s, i + a + b) {
                Err(failure) => Err(failure),
                Ok((domain, c)) => match arrow(s, i + a + b + c) {
                    None => Err(missing(s, i + a + b + c, Expected::Arrow)),
                    Some(d) => match name(s, i + a + b + c + d) {
                        Err(failure) => Err(failure),
                        Ok((codomain, e)) => Ok(
                            (
                                StatementModel::FunctionTypeDeclaration {
                                    name: declared,
                                    domain: TypeModel::Named(domain),
                                    codomain: TypeModel::Named(codomain),
                                },
                                a + b + c + d + e,
                            ),
                        ),
                    },
                },
            },
        },
    }
}

/// A statement: a type declaration, or else a function definition.
pub open spec fn statement(s: Seq<char>, i: int) -> Parsed<StatementModel> {
    match declaration(s, i) {
        Ok(found) => Ok(found),
        Err(_) => definition(s, i),
    }
}

/// The statements of a program, read greedily: reading stops, without a
/// failure, where no statement stands.
pub open spec fn statements(s: Seq<char>, i: int, found: Seq<StatementModel>) -> (
    Seq<StatementModel>,
    nat,
)
    decreases rest(s, i),
{
    match statement(s, i) {
        Ok((next, taken)) => if 0 <= i < s.len() && taken > 0 {
            let (all, further) = statements(s, i + taken, found.push(next));
            (all, taken + further)
        } else {
            (found, 0)
        },
        Err(_) => (found, 0),
    }
}

/// A program: its statements from the start of the text.
pub open spec fn program(s: Seq<char>) -> (Seq<StatementModel>, nat) {
    statements(s, 0, Seq::empty())
}

} // verus!
