//! The parser against the same grammar written with parser combinators.

use exprcalc::Expected;
use exprcalc::Expression;
use exprcalc::ParseFailure;
use exprcalc::TopLevelStatement;
use exprcalc::Type;
use nom::branch::alt;
use nom::bytes::complete::tag;
use nom::character::complete::alpha1;
use nom::character::complete::char;
use nom::character::complete::digit1;
use nom::character::complete::multispace0;
use nom::combinator::map_res;
use nom::error::ErrorKind;
use nom::error::ParseError;
use nom::multi::fold_many1;
use nom::multi::many0;
use nom::multi::separated_list0;
use nom::sequence::delimited;
use nom::IResult;
use nom::Parser;

fn spaced<'a, O, E: ParseError<&'a str>, F: Parser<&'a str, O, E>>(
    inner: F,
) -> impl Parser<&'a str, O, E> {
    delimited(multispace0, inner, multispace0)
}

fn word(input: &str) -> IResult<&str, &str> {
    spaced(alpha1).parse(input)
}

fn ladder_rung<'a>(
    sign: &'static str,
    operand: fn(&'a str) -> IResult<&'a str, Expression>,
    build: fn(Box<Expression>, Box<Expression>) -> Expression,
    input: &'a str,
) -> IResult<&'a str, Expression> {
    let folded = (|| {
        let (rest, first) = operand(input)?;
        fold_many1(
            |i| {
                let (i, _) = spaced(tag(sign)).parse(i)?;
                operand(i)
            },
            move || first.clone(),
            |left, right| build(Box::new(left), Box::new(right)),
        )
        .parse(rest)
    })();
    folded.or_else(|_| operand(input))
}

fn atom(input: &str) -> IResult<&str, Expression> {
    let integer = spaced(map_res(digit1, |s: &str| s.parse::<i64>().map(Expression::Integer)));
    let variable = spaced(word).map(|s| Expression::Variable(s.to_string()));
    let bracketed = spaced(delimited(tag("("), sum, tag(")")));
    let negative = spaced(char('-')).and(sum).map(|(_, e)| Expression::Negate(Box::new(e)));
    integer.or(variable).or(bracketed).or(negative).parse(input)
}

fn application(input: &str) -> IResult<&str, Expression> {
    let (rest, first) = atom(input)?;
    spaced(char('('))
        .and(separated_list0(spaced(char(',')), sum))
        .and(spaced(char(')')))
        .map(|((_, arguments), _)| Expression::ApplyFunction {
            function: Box::new(first.clone()),
            arguments,
        })
        .parse(rest)
        .or_else(|_| Ok((rest, first)))
}

fn power(input: &str) -> IResult<&str, Expression> {
    ladder_rung("^", application, Expression::Power, input)
}

fn quotient(input: &str) -> IResult<&str, Expression> {
    ladder_rung("/", power, Expression::Divide, input)
}

fn product(input: &str) -> IResult<&str, Expression> {
    ladder_rung("*", quotient, Expression::Multiply, input)
}

fn difference(input: &str) -> IResult<&str, Expression> {
    ladder_rung("-", product, Expression::Subtract, input)
}

fn sum(input: &str) -> IResult<&str, Expression> {
    ladder_rung("+", difference, Expression::Add, input)
}

fn declaration(input: &str) -> IResult<&str, TopLevelStatement> {
    let (input, name) = word(input)?;
    let (input, _) = spaced(tag(":")).parse(input)?;
    let (input, domain) = word(input)?;
    let (input, _) = spaced(tag("->")).parse(input)?;
    let (input, codomain) = word(input)?;
    Ok((
        input,
        TopLevelStatement::FunctionTypeDeclaration {
            name: name.to_string(),
            domain: Type::Named(domain.to_string()),
            codomain: Type::Named(codomain.to_string()),
        },
    ))
}

fn definition(input: &str) -> IResult<&str, TopLevelStatement> {
    let (input, name) = word(input)?;
    let (input, _) = spaced(tag("(")).parse(input)?;
    let (input, parameters) =
        separated_list0(spaced(tag(",")), word.map(|p| p.to_string())).parse(input)?;
    let (input, _) = spaced(tag(")")).parse(input)?;
    let (input, _) = spaced(tag("=")).parse(input)?;
    let (input, body) = sum(input)?;
    Ok((input, TopLevelStatement::FunctionDefinition { name: name.to_string(), parameters, body }))
}

fn program(input: &str) -> IResult<&str, Vec<TopLevelStatement>> {
    many0(alt((declaration, definition))).parse(input)
}

/// Whether the failure names the kind of token that the combinators missed,
/// at the same place.
fn same_failure(text: &str, ours: ParseFailure, theirs: nom::Err<nom::error::Error<&str>>) -> bool {
    let error = match theirs {
        nom::Err::Error(error) => error,
        _ => return false,
    };
    let position = text.chars().count() - error.input.chars().count();
    let kind = match ours.expected {
        Expected::Name => ErrorKind::Alpha,
        Expected::Expression => ErrorKind::Char,
        Expected::Colon
        | Expected::Arrow
        | Expected::OpenParenthesis
        | Expected::CloseParenthesis
        | Expected::Equals => ErrorKind::Tag,
    };
    ours.position == position && error.code == kind
}

fn compare(text: &str) {
    match (exprcalc::parse_expression(text), sum(text)) {
        (Ok((rest, tree)), Ok((other_rest, other_tree))) => {
            assert_eq!((rest, tree), (other_rest, other_tree), "expression {:?}", text)
        }
        (Err(ours), Err(theirs)) => {
            assert!(same_failure(text, ours, theirs), "expression {:?}: {:?}", text, ours)
        }
        (ours, theirs) => panic!("expression {:?}: {:?} against {:?}", text, ours, theirs),
    }
    match (exprcalc::parse_function_definition(text), definition(text)) {
        (Ok(ours), Ok(theirs)) => assert_eq!(ours, theirs, "definition {:?}", text),
        (Err(ours), Err(theirs)) => {
            assert!(same_failure(text, ours, theirs), "definition {:?}: {:?}", text, ours)
        }
        (ours, theirs) => panic!("definition {:?}: {:?} against {:?}", text, ours, theirs),
    }
    match (exprcalc::parse_top_level(text), program(text)) {
        (Ok(ours), Ok(theirs)) => assert_eq!(ours, theirs, "program {:?}", text),
        (ours, theirs) => panic!("program {:?}: {:?} against {:?}", text, ours, theirs),
    }
}

#[test]
fn chosen_texts_read_alike() {
    for text in [
        "",
        " ",
        "1",
        "1 + 2 * 3",
        "2 ^ 3 ^ 2",
        "-1+2",
        "- - )",
        "f(1, 2)",
        "f(1,)",
        "f()",
        "f(x, y) = x + y",
        "f(x,) = 1",
        "f(x) = x g(y) = y",
        "f : Int -> Int\nf(x) = x * 2\n",
        "g : A - > B",
        "9223372036854775807",
        "9223372036854775808",
        "(1 + 2) * (3 - 4) / 5 ^ 6",
        "((1))",
        "a(b)(c)",
        "x é",
        "\u{a0}1",
        "1\t+\r\n2",
        "f ( ) = - ( 1 )",
    ] {
        compare(text);
    }
}

#[test]
fn random_texts_read_alike() {
    let pieces = [
        "1", "23", "0", "x", "foo", "f", "(", ")", "(", ")", ",", "+", "-", "*", "/", "^", " ",
        "\n", "=", ":", "->", "é", "_", "99999999999999999999",
    ];
    let mut state: u64 = 0x2545_f491_4f6c_dd1d;
    for _ in 0..4000 {
        let mut text = String::new();
        state = state.wrapping_mul(6364136223846793005).wrapping_add(1442695040888963407);
        let length = 1 + (state >> 33) % 9;
        for _ in 0..length {
            state = state.wrapping_mul(6364136223846793005).wrapping_add(1442695040888963407);
            text.push_str(pieces[((state >> 33) % pieces.len() as u64) as usize]);
        }
        compare(&text);
    }
}
