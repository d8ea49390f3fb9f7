//! The parser: one pass over the characters of a text, proved to read
//! exactly what the grammar says.

use vstd::prelude::*;
use vstd::string::StrSliceExecFns;
use crate::grammar::application;
use crate::grammar::arguments;
use crate::grammar::arrow;
use crate::grammar::atom;
use crate::grammar::binary;
use crate::grammar::blank;
use crate::grammar::bracketed;
use crate::grammar::call_suffix;
use crate::grammar::declaration;
use crate::grammar::definition;
use crate::grammar::expression;
use crate::grammar::fold;
use crate::grammar::fold_rank;
use crate::grammar::further_arguments;
use crate::grammar::further_names;
use crate::grammar::integer;
use crate::grammar::level;
use crate::grammar::missing;
use crate::grammar::name;
use crate::grammar::names;
use crate::grammar::negative;
use crate::grammar::operator_of;
use crate::grammar::program;
use crate::grammar::sign;
use crate::grammar::sign_of;
use crate::grammar::statement;
use crate::grammar::statements;
use crate::grammar::Expected;
use crate::grammar::Failure;
use crate::grammar::Parsed;
use crate::grammar::LEVELS;
use crate::semantics::Operator;
use crate::syntax::names_view;
use crate::syntax::Expression;
use crate::syntax::ExpressionModel;
use crate::syntax::StatementModel;
use crate::syntax::TopLevelStatement;
use crate::syntax::Type;
use crate::text::characters;
use crate::text::lemma_run_end;
use crate::text::read_number;
use crate::text::rest;
use crate::text::scan;
use crate::text::spell;
use crate::text::CharClass;

verus! {

/// Where a parse failed, counted in characters from the start of the text,
/// and what was missing there.
#[derive(Debug, Clone, Copy, PartialEq, Eq)]
pub struct ParseFailure {
    pub position: usize,
    pub expected: Expected,
}

impl View for ParseFailure {
    type V = Failure;

    open spec fn view(&self) -> Failure {
        Failure { position: self.position as int, expected: self.expected }
    }
}

/// The models of a vector of expressions.
pub open spec fn expressions_view(items: Seq<Expression>) -> Seq<ExpressionModel> {
    Seq::new(items.len(), |i: int| items[i]@)
}

/// The models of a vector of statements.
pub open spec fn statements_view(items: Seq<TopLevelStatement>) -> Seq<StatementModel> {
    Seq::new(items.len(), |i: int| items[i]@)
}

/// A parse from position `start` gave what the grammar reads there: the
/// same value up to the same position, or the same failure.
pub open spec fn reads<T: View>(
    r: Result<(T, usize), ParseFailure>,
    s: Seq<char>,
    start: usize,
    expected: Parsed<T::V>,
) -> bool {
    match (r, expected) {
        (Ok((value, end)), Ok((model, taken))) => value@ == model && end == start + taken && end
            <= s.len(),
        (Err(failure), Err(model)) => failure@ == model && failure.position <= s.len(),
        _ => false,
    }
}

/// A parse of a whole text gave what the grammar reads at its start, and
/// the rest of the text.
pub open spec fn parsed<T: View>(
    r: Result<(&str, T), ParseFailure>,
    s: Seq<char>,
    expected: Parsed<T::V>,
) -> bool {
    match (r, expected) {
        (Ok((remaining, value)), Ok((model, taken))) => value@ == model && taken <= s.len()
            && remaining@ == s.subrange(taken as int, s.len() as int),
        (Err(failure), Err(model)) => failure@ == model && failure.position <= s.len(),
        _ => false,
    }
}

/// The failure of a token at `start`.
fn missing_at(input: &Vec<char>, start: usize, expected: Expected) -> (failure: ParseFailure)
    requires
        start <= input.len(),
    ensures
        failure@ == missing(input@, start as int, expected),
        failure.position <= input.len(),
{
    ParseFailure { position: scan(input, start, CharClass::Space), expected }
}

/// Reads a one-character sign between blank space.
fn parse_sign(input: &Vec<char>, start: usize, c: char) -> (end: Option<usize>)
    requires
        start <= input.len(),
    ensures
        match end {
            Some(end) => start < end <= input.len() && sign(input@, start as int, c) == Some(
                (end - start) as nat,
            ),
            None => sign(input@, start as int, c) is None,
        },
{
    let at = scan(input, start, CharClass::Space);
    if at < input.len() && input[at] == c {
        Some(scan(input, at + 1, CharClass::Space))
    } else {
        None
    }
}

/// Reads the sign `->` between blank space.
fn parse_arrow(input: &Vec<char>, start: usize) -> (end: Option<usize>)
    requires
        start <= input.len(),
    ensures
        match end {
            Some(end) => start < end <= input.len() && arrow(input@, start as int) == Some(
                (end - start) as nat,
            ),
            None => arrow(input@, start as int) is None,
        },
{
    let at = scan(input, start, CharClass::Space);
    if at < input.len() && input[at] == '-' && at + 1 < input.len() && input[at + 1] == '>' {
        Some(scan(input, at + 2, CharClass::Space))
    } else {
        None
    }
}

/// Reads a name between blank space.
fn parse_name(input: &Vec<char>, start: usize) -> (r: Result<(String, usize), ParseFailure>)
    requires
        start <= input.len(),
    ensures
        reads(r, input@, start, name(input@, start as int)),
        r is Ok ==> start < r->Ok_0.1,
{
    let from = scan(input, start, CharClass::Space);
    let to = scan(input, from, CharClass::Letter);
    if to > from {
        Ok((spell(input, from, to), scan(input, to, CharClass::Space)))
    } else {
        Err(ParseFailure { position: from, expected: Expected::Name })
    }
}

/// Reads an integer literal between blank space.
fn parse_integer(input: &Vec<char>, start: usize) -> (r: Option<(i64, usize)>)
    requires
        start <= input.len(),
    ensures
        match r {
            Some((value, end)) => start < end <= input.len() && integer(input@, start as int)
                == Some((value as int, (end - start) as nat)),
            None => integer(input@, start as int) is None,
        },
{
    let from = scan(input, start, CharClass::Space);
    let to = scan(input, from, CharClass::Digit);
    if to > from {
        proof {
            lemma_run_end(input@, from as int, CharClass::Digit);
        }
        match read_number(input, from, to) {
            Some(value) => Some((value, scan(input, to, CharClass::Space))),
            None => None,
        }
    } else {
        None
    }
}

/// The operator of a binary level.
fn operator_at(rung: u8) -> (op: Operator)
    ensures
        op == operator_of(rung as nat),
{
    if rung == 0 {
        Operator::Add
    } else if rung == 1 {
        Operator::Subtract
    } else if rung == 2 {
        Operator::Multiply
    } else if rung == 3 {
        Operator::Divide
    } else {
        Operator::Power
    }
}

/// The sign of a binary operator.
fn sign_at(op: Operator) -> (c: char)
    ensures
        c == sign_of(op),
{
    match op {
        Operator::Add => '+',
        Operator::Subtract => '-',
        Operator::Multiply => '*',
        Operator::Divide => '/',
        Operator::Power => '^',
    }
}

/// The node that a binary operator makes of two operands.
fn node(op: Operator, left: Expression, right: Expression) -> (made: Expression)
    ensures
        made@ == binary(op, left@, right@),
{
    match op {
        Operator::Add => Expression::Add(Box::new(left), Box::new(right)),
        Operator::Subtract => Expression::Subtract(Box::new(left), Box::new(right)),
        Operator::Multiply => Expression::Multiply(Box::new(left), Box::new(right)),
        Operator::Divide => Expression::Divide(Box::new(left), Box::new(right)),
        Operator::Power => Expression::Power(Box::new(left), Box::new(right)),
    }
}

/// Reads an atom.
fn parse_atom(input: &Vec<char>, start: usize) -> (r: Result<(Expression, usize), ParseFailure>)
    requires
        start <= input.len(),
    ensures
        reads(r, input@, start, atom(input@, start as int)),
    decreases rest(input@, start as int), 1nat,
{
    if let Some((value, end)) = parse_integer(input, start) {
        return Ok((Expression::Integer(value), end));
    }
    if let Ok((letters, end)) = parse_name(input, start) {
        return Ok((Expression::Variable(letters), end));
    }
    if let Some(found) = parse_bracketed(input, start) {
        return Ok(found);
    }
    parse_negative(input, start)
}

/// Reads an expression in parentheses.
fn parse_bracketed(input: &Vec<char>, start: usize) -> (r: Option<(Expression, usize)>)
    requires
        start <= input.len(),
    ensures
        match r {
            Some((inner, end)) => start < end <= input.len() && bracketed(input@, start as int)
                == Some((inner@, (end - start) as nat)),
            None => bracketed(input@, start as int) is None,
        },
    decreases rest(input@, start as int), 0nat,
{
    let at = scan(input, start, CharClass::Space);
    if at < input.len() && input[at] == '(' {
        match parse_level(input, at + 1, 0) {
            Ok((inner, close)) => {
                if close < input.len() && input[close] == ')' {
                    Some((inner, scan(input, close + 1, CharClass::Space)))
                } else {
                    None
                }
            },
            Err(_) => None,
        }
    } else {
        None
    }
}

/// Reads a minus sign and the expression after it.
fn parse_negative(input: &Vec<char>, start: usize) -> (r: Result<
    (Expression, usize),
    ParseFailure,
>)
    requires
        start <= input.len(),
    ensures
        reads(r, input@, start, negative(input@, start as int)),
    decreases rest(input@, start as int), 0nat,
{
    match parse_sign(input, start, '-') {
        Some(after) => match parse_level(input, after, 0) {
            Ok((inner, end)) => Ok((Expression::Negate(Box::new(inner)), end)),
            Err(failure) => Err(failure),
        },
        None => Err(missing_at(input, start, Expected::Expression)),
    }
}

/// Reads a list of arguments.
fn parse_arguments(input: &Vec<char>, start: usize) -> (r: (Vec<Expression>, usize))
    requires
        start <= input.len(),
    ensures
        start <= r.1 <= input.len(),
        arguments(input@, start as int) == (expressions_view(r.0@), (r.1 - start) as nat),
    decreases rest(input@, start as int), 20nat,
{
    let mut found: Vec<Expression> = Vec::new();
    let (first, after) = match parse_level(input, start, 0) {
        Ok(read) => read,
        Err(_) => {
            return (found, start);
        },
    };
    let ghost head = first@;
    found.push(first);
    assert(expressions_view(found@) =~= seq![head]);
    let mut at = after;
    loop
        invariant
            start <= after <= at <= input.len(),
            further_arguments(input@, after as int, seq![head]).0 == further_arguments(
                input@,
                at as int,
                expressions_view(found@),
            ).0,
            further_arguments(input@, after as int, seq![head]).1 == (at - after)
                + further_arguments(input@, at as int, expressions_view(found@)).1,
        ensures
            further_arguments(input@, at as int, expressions_view(found@)) == (
                expressions_view(found@),
                0nat,
            ),
        decreases input.len() - at,
    {
        let next = match parse_sign(input, at, ',') {
            Some(next) => next,
            None => {
                break ;
            },
        };
        match parse_level(input, next, 0) {
            Ok((argument, end)) => {
                let ghost before = expressions_view(found@);
                let ghost model = argument@;
                found.push(argument);
                assert(expressions_view(found@) =~= before.push(model));
                at = end;
            },
            Err(_) => {
                break ;
            },
        }
    }
    (found, at)
}

/// Reads the argument list of a call, if one stands at `start`.
fn parse_call_suffix(input: &Vec<char>, start: usize) -> (r: Option<(Vec<Expression>, usize)>)
    requires
        start <= input.len(),
    ensures
        match r {
            Some((found, end)) => start < end <= input.len() && call_suffix(
                input@,
                start as int,
            ) == Some((expressions_view(found@), (end - start) as nat)),
            None => call_suffix(input@, start as int) is None,
        },
    decreases rest(input@, start as int), 1nat,
{
    match parse_sign(input, start, '(') {
        Some(open) => {
            let (found, after) = parse_arguments(input, open);
            match parse_sign(input, after, ')') {
                Some(end) => Some((found, end)),
                None => None,
            }
        },
        None => None,
    }
}

/// Reads an atom and the argument list after it, where one follows.
fn parse_application(input: &Vec<char>, start: usize) -> (r: Result<
    (Expression, usize),
    ParseFailure,
>)
    requires
        start <= input.len(),
    ensures
        reads(r, input@, start, application(input@, start as int)),
    decreases rest(input@, start as int), 2nat,
{
    match parse_atom(input, start) {
        Ok((callee, after)) => match parse_call_suffix(input, after) {
            Some((found, end)) => {
                let made = Expression::ApplyFunction {
                    function: Box::new(callee),
                    arguments: found,
                };
                assert(made@->ApplyFunction_arguments =~= expressions_view(found@));
                Ok((made, end))
            },
            None => Ok((callee, after)),
        },
        Err(failure) => Err(failure),
    }
}

/// Reads a rung of the precedence ladder: one operand of the next tighter
/// rung, then operator signs and operands for as long as they follow.
fn parse_level(input: &Vec<char>, start: usize, rung: u8) -> (r: Result<
    (Expression, usize),
    ParseFailure,
>)
    requires
        start <= input.len(),
    ensures
        reads(r, input@, start, level(input@, start as int, rung as nat)),
    decreases rest(input@, start as int), fold_rank(rung as nat) + 1,
{
    if rung >= LEVELS {
        return parse_application(input, start);
    }
    let (first, after) = match parse_level(input, start, rung + 1) {
        Ok(read) => read,
        Err(failure) => {
            return Err(failure);
        },
    };
    let op = operator_at(rung);
    let ghost head = first@;
    let mut left = first;
    let mut at = after;
    loop
        invariant
            start <= after <= at <= input.len(),
            rung < LEVELS,
            op == operator_of(rung as nat),
            fold(input@, after as int, rung as nat, head).0 == fold(
                input@,
                at as int,
                rung as nat,
                left@,
            ).0,
            fold(input@, after as int, rung as nat, head).1 == (at - after) + fold(
                input@,
                at as int,
                rung as nat,
                left@,
            ).1,
        ensures
            fold(input@, at as int, rung as nat, left@) == (left@, 0nat),
        decreases input.len() - at,
    {
        let next = match parse_sign(input, at, sign_at(op)) {
            Some(next) => next,
            None => {
                break ;
            },
        };
        match parse_level(input, next, rung + 1) {
            Ok((right, end)) => {
                left = node(op, left, right);
                at = end;
            },
            Err(_) => {
                break ;
            },
        }
    }
    Ok((left, at))
}

/// Reads a list of parameter names.
fn parse_names(input: &Vec<char>, start: usize) -> (r: (Vec<String>, usize))
    requires
        start <= input.len(),
    ensures
        start <= r.1 <= input.len(),
        names(input@, start as int) == (names_view(r.0@), (r.1 - start) as nat),
{
    let mut found: Vec<String> = Vec::new();
    let (first, after) = match parse_name(input, start) {
        Ok(read) => read,
        Err(_) => {
            return (found, start);
        },
    };
    let ghost head = first@;
    found.push(first);
    assert(names_view(found@) =~= seq![head]);
    let mut at = after;
    loop
        invariant
            start <= after <= at <= input.len(),
            further_names(input@, after as int, seq![head]).0 == further_names(
                input@,
                at as int,
                names_view(found@),
            ).0,
            further_names(input@, after as int, seq![head]).1 == (at - after) + further_names(
                input@,
                at as int,
                names_view(found@),
            ).1,
        ensures
            further_names(input@, at as int, names_view(found@)) == (names_view(found@), 0nat),
        decreases input.len() - at,
    {
        let next = match parse_sign(input, at, ',') {
            Some(next) => next,
            None => {
                break ;
            },
        };
        match parse_name(input, next) {
            Ok((parameter, end)) => {
                let ghost before = names_view(found@);
                let ghost model = parameter@;
                found.push(parameter);
                assert(names_view(found@) =~= before.push(model));
                at = end;
            },
            Err(_) => {
                break ;
            },
        }
    }
    (found, at)
}

/// Reads a function definition.
fn parse_definition(input: &Vec<char>, start: usize) -> (r: Result<
    (TopLevelStatement, usize),
    ParseFailure,
>)
    requires
        start <= input.len(),
    ensures
        reads(r, input@, start, definition(input@, start as int)),
        r is Ok ==> start < r->Ok_0.1,
{
    let (defined, a) = match parse_name(input, start) {
        Ok(read) => read,
        Err(failure) => {
            return Err(failure);
        },
    };
    let b = match parse_sign(input, a, '(') {
        Some(end) => end,
        None => {
            return Err(missing_at(input, a, Expected::OpenParenthesis));
        },
    };
    let (parameters, c) = parse_names(input, b);
    let d = match parse_sign(input, c, ')') {
        Some(end) => end,
        None => {
            return Err(missing_at(input, c, Expected::CloseParenthesis));
        },
    };
    let e = match parse_sign(input, d, '=') {
        Some(end) => end,
        None => {
            return Err(missing_at(input, d, Expected::Equals));
        },
    };
    match parse_level(input, e, 0) {
        Ok((body, end)) => Ok(
            (TopLevelStatement::FunctionDefinition { name: defined, parameters, body }, end),
        ),
        Err(failure) => Err(failure),
    }
}

/// Reads a function type declaration.
fn parse_function_type_declaration(input: &Vec<char>, start: usize) -> (r: Result<
    (TopLevelStatement, usize),
    ParseFailure,
>)
    requires
        start <= input.len(),
    ensures
        reads(r, input@, start, declaration(input@, start as int)),
        r is Ok ==> start < r->Ok_0.1,
{
    let (declared, a) = match parse_name(input, start) {
        Ok(read) => read,
        Err(failure) => {
            return Err(failure);
        },
    };
    let b = match parse_sign(input, a, ':') {
        Some(end) => end,
        None => {
            return Err(missing_at(input, a, Expected::Colon));
        },
    };
    let (domain, c) = match parse_name(input, b) {
        Ok(read) => read,
        Err(failure) => {
            return Err(failure);
        },
    };
    let d = match parse_arrow(input, c) {
        Some(end) => end,
        None => {
            return Err(missing_at(input, c, Expected::Arrow));
        },
    };
    match parse_name(input, d) {
        Ok((codomain, end)) => Ok(
            (
                TopLevelStatement::FunctionTypeDeclaration {
                    name: declared,
                    domain: Type::Named(domain),
                    codomain: Type::Named(codomain),
                },
                end,
            ),
        ),
        Err(failure) => Err(failure),
    }
}

/// Reads a statement: a type declaration, or else a function definition.
fn parse_statement(input: &Vec<char>, start: usize) -> (r: Result<
    (TopLevelStatement, usize),
    ParseFailure,
>)
    requires
        start <= input.len(),
    ensures
        reads(r, input@, start, statement(input@, start as int)),
        r is Ok ==> start < r->Ok_0.1,
{
    match parse_function_type_declaration(input, start) {
        Ok(found) => Ok(found),
        Err(_) => parse_definition(input, start),
    }
}

/// Reads the statements of a program.
fn parse_statements(input: &Vec<char>) -> (r: (Vec<TopLevelStatement>, usize))
    ensures
        r.1 <= input.len(),
        program(input@) == (statements_view(r.0@), r.1 as nat),
{
    let mut found: Vec<TopLevelStatement> = Vec::new();
    let mut at: usize = 0;
    assert(statements_view(found@) =~= Seq::<StatementModel>::empty());
    loop
        invariant
            at <= input.len(),
            program(input@).0 == statements(input@, at as int, statements_view(found@)).0,
            program(input@).1 == at + statements(input@, at as int, statements_view(found@)).1,
        ensures
            statements(input@, at as int, statements_view(found@)) == (
                statements_view(found@),
                0nat,
            ),
        decreases input.len() - at,
    {
        match parse_statement(input, at) {
            Ok((next, end)) => {
                let ghost before = statements_view(found@);
                let ghost model = next@;
                found.push(next);
                assert(statements_view(found@) =~= before.push(model));
                at = end;
            },
            Err(_) => {
                break ;
            },
        }
    }
    (found, at)
}

/// Parses one expression at the start of the text.
///
/// Returns the expression tree and the rest of the text, or the failure
/// where no expression stands: a lone operand is an expression, so the
/// parse fails only where no atom can be read.
pub fn parse_expression<'a>(input: &'a str) -> (r: Result<(&'a str, Expression), ParseFailure>)
    ensures
        parsed(r, input@, expression(input@, 0)),
{
    let text = characters(input);
    match parse_level(&text, 0, 0) {
        Ok((tree, end)) => Ok((input.substring_char(end, text.len()), tree)),
        Err(failure) => Err(failure),
    }
}

/// Parses one function definition, `name(parameters) = body`, at the start
/// of the text.
pub fn parse_function_definition<'a>(input: &'a str) -> (r: Result<
    (&'a str, TopLevelStatement),
    ParseFailure,
>)
    ensures
        parsed(r, input@, definition(input@, 0)),
{
    let text = characters(input);
    match parse_definition(&text, 0) {
        Ok((made, end)) => Ok((input.substring_char(end, text.len()), made)),
        Err(failure) => Err(failure),
    }
}

/// Parses the declarations and definitions at the start of the text.
///
/// The parse never fails: it stops at the first position where neither a
/// declaration nor a definition stands, and returns the rest of the text
/// from there.
pub fn parse_top_level<'a>(input: &'a str) -> (r: Result<
    (&'a str, Vec<TopLevelStatement>),
    ParseFailure,
>)
    ensures
        match r {
            Ok((remaining, found)) => {
                &&& statements_view(found@) == program(input@).0
                &&& program(input@).1 <= input@.len()
                &&& remaining@ == input@.subrange(
                    program(input@).1 as int,
                    input@.len() as int,
                )
            },
            Err(_) => false,
        },
{
    let text = characters(input);
    let (found, end) = parse_statements(&text);
    Ok((input.substring_char(end, text.len()), found))
}

} // verus!
