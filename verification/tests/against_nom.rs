//! The grammar once more, built from nom's combinators, and run beside the
//! library on the same inputs: both accept the same texts, with the same
//! value and the same text left.

use nom::branch::alt;
use nom::bytes::complete::{escaped_transform, is_not, tag, tag_no_case};
use nom::character::complete::{alpha1, alphanumeric1, digit1};
use nom::character::complete as character;
use nom::combinator::{recognize, value};
use nom::multi::many0;
use nom::sequence::{delimited, pair};
use nom::IResult;
use typed_lambda::ast::{TBoolean, TypeExpr, VariableDeclaration, AST};
use typed_lambda::parser::combinator::{boolean, identifier, number, string};
use typed_lambda::parser::{parse, parse_type_expression, ParseResult};

fn nom_boolean(input: &str) -> IResult<&str, AST<'_>> {
    nom::combinator::map(
        alt((
            value(TBoolean::True, tag_no_case("true")),
            value(TBoolean::False, tag_no_case("false")),
        )),
        AST::BooleanLiteral,
    )(input)
}

fn nom_identifier(input: &str) -> IResult<&str, &str> {
    recognize(pair(alt((alpha1, tag("_"))), many0(alt((alphanumeric1, tag("_"))))))(input)
}

fn nom_number(input: &str) -> IResult<&str, AST<'_>> {
    nom::combinator::map(digit1, |digits: &str| AST::NumberLiteral(digits.to_owned()))(input)
}

fn nom_string(input: &str) -> IResult<&str, AST<'_>> {
    nom::combinator::map(
        delimited(
            character::char('"'),
            escaped_transform(
                is_not("\"\\"),
                '\\',
                alt((
                    value("\\", character::char('\\')),
                    value("\"", character::char('"')),
                )),
            ),
            character::char('"'),
        ),
        AST::StringLiteral,
    )(input)
}

fn nom_ground_type(input: &str) -> IResult<&str, TypeExpr> {
    alt((
        value(TypeExpr::Boolean, tag("boolean")),
        value(TypeExpr::String, tag("string")),
        value(TypeExpr::Number, tag("number")),
    ))(input)
}

fn nom_function_type(input: &str) -> IResult<&str, TypeExpr> {
    let (input, parameter) = nom_ground_type(input)?;
    let (input, _) = tag(" -> ")(input)?;
    let (input, result) = nom_type(input)?;
    Ok((input, TypeExpr::Function(Box::new(parameter), Box::new(result))))
}

fn nom_type(input: &str) -> IResult<&str, TypeExpr> {
    alt((nom_function_type, nom_ground_type))(input)
}

fn nom_declaration(input: &str) -> IResult<&str, VariableDeclaration<'_>> {
    let (input, name) = nom_identifier(input)?;
    let (input, _) = tag(": ")(input)?;
    let (input, typing) = nom_type(input)?;
    Ok((input, VariableDeclaration { name, typing }))
}

fn nom_let(input: &str) -> IResult<&str, AST<'_>> {
    let (input, _) = tag("let ")(input)?;
    let (input, declaration) = nom_declaration(input)?;
    let (input, _) = tag(" = ")(input)?;
    let (input, bound) = nom_expression(input)?;
    let (input, _) = tag(" in ")(input)?;
    let (input, body) = nom_expression(input)?;
    Ok((
        input,
        AST::Let {
            variable_declaration: Box::new(declaration),
            variable_expression: Box::new(bound),
            expression: Box::new(body),
        },
    ))
}

fn nom_function(input: &str) -> IResult<&str, AST<'_>> {
    let (input, _) = tag("\\")(input)?;
    let (input, parameter) = nom_declaration(input)?;
    let (input, _) = tag(". ")(input)?;
    let (input, body) = nom_expression(input)?;
    Ok((input, AST::Function { parameter: Box::new(parameter), body: Box::new(body) }))
}

fn nom_expression(input: &str) -> IResult<&str, AST<'_>> {
    alt((
        nom_boolean,
        nom_string,
        nom_number,
        nom_let,
        nom_function,
        nom::combinator::map(nom_identifier, AST::Variable),
    ))(input)
}

fn same<'a, T: PartialEq + std::fmt::Debug>(
    input: &str,
    ours: ParseResult<'a, T>,
    theirs: IResult<&'a str, T>,
) {
    match (ours, theirs) {
        (Ok(found), Ok(expected)) => assert_eq!(found, expected, "on {:?}", input),
        (Err(_), Err(_)) => (),
        (found, expected) => panic!("on {:?}: {:?} beside {:?}", input, found, expected),
    }
}

fn inputs() -> Vec<String> {
    let seeds = [
        "",
        " ",
        "true",
        "TRUE",
        "TrUe",
        "tRuE and more",
        "tru",
        "truex",
        "false",
        "FaLsE",
        "fals",
        "falsehood",
        "\u{212a}",
        "tr\u{fc}e",
        "0",
        "15",
        "128458457843584359843594359084398534985",
        "007 bond",
        "12ab",
        "\u{663}4",
        "x",
        "_",
        "__",
        "_ident",
        "my_ident",
        "testing123",
        "123testing",
        "a-b",
        "caf\u{e9}",
        "\u{e9}t\u{e9}",
        "let",
        "letter",
        "let ",
        "\"test\"",
        "\"hello, \\\"world\\\"\"",
        "\"a\\\\b\" c",
        "\"\\\\\"",
        "\"\\\"\"",
        "\"\"",
        "\"",
        "\"abc",
        "\"a\\\\",
        "\"ab\\",
        "\"ab\\n\"",
        "\"\\t\"",
        "\"caf\u{e9} \u{1f600}\" rest",
        "\"a\"\"b\"",
        "boolean",
        "string",
        "number",
        "string -> number",
        "string -> number -> boolean",
        "string -> ",
        "number->number",
        "number -> string -> x",
        "Number",
        "let x: string = \"bla\" in x",
        "let x: string = \"bla\" in let y: number = 123 in y",
        "let x: number = let y: number = 1 in 2 in y",
        "let x = 5 in x",
        "let x: number = true in 123",
        "let 1: number = 1 in x",
        "let x: int = 1 in x",
        "let x: number= 1 in x",
        "let x: number = ?",
        "let x: number = 1 of x",
        "let x: number = 1 in ",
        "let x: boolean -> number = \\q: boolean. 123 in \\y: string. x",
        "\\x: number. x",
        "\\x: number. \\y: string. x",
        "\\f: number -> string. f",
        "\\x. x",
        "\\x: foo. x",
        "\\x: number.x",
        "\\x: number. ",
        "\\x: number. \"ab\\n\"",
        "y: string",
        "?",
        "x y",
    ];
    seeds.iter().map(|seed| seed.to_string()).collect()
}

/// Every seed, every seed cut short at each of its characters, and every
/// seed with each of its characters left out.
fn variations() -> Vec<String> {
    let mut all = Vec::new();
    for seed in inputs() {
        let characters: Vec<char> = seed.chars().collect();
        for cut in 0..characters.len() {
            all.push(characters[..cut].iter().collect());
            let mut without = characters.clone();
            without.remove(cut);
            all.push(without.into_iter().collect());
        }
        all.push(seed);
    }
    all
}

#[test]
fn test_expressions_agree_with_nom() {
    for input in variations() {
        same(&input, parse(&input), nom_expression(&input));
    }
}

#[test]
fn test_types_agree_with_nom() {
    for input in variations() {
        same(&input, parse_type_expression(&input), nom_type(&input));
    }
}

#[test]
fn test_tokens_agree_with_nom() {
    for input in variations() {
        same(&input, boolean(&input), nom_boolean(&input));
        same(&input, identifier(&input), nom_identifier(&input));
        same(&input, number(&input), nom_number(&input));
        same(&input, string(&input), nom_string(&input));
    }
}

fn every_character() -> Vec<char> {
    let mut all = Vec::new();
    let mut code: u32 = 0;
    while code <= 0x10ffff {
        if let Some(character) = char::from_u32(code) {
            all.push(character);
        }
        code += 1;
    }
    all
}

#[test]
fn test_first_letter_of_true_agrees_with_nom() {
    for character in every_character() {
        let input = format!("{}rue", character);
        assert_eq!(boolean(&input).is_ok(), "tT".contains(character), "on {:?}", input);
        same(&input, boolean(&input), nom_boolean(&input));
    }
}

#[test]
fn test_inner_letter_of_true_agrees_with_nom() {
    for character in every_character() {
        let input = format!("tr{}e", character);
        assert_eq!(boolean(&input).is_ok(), "uU".contains(character), "on {:?}", input);
        same(&input, boolean(&input), nom_boolean(&input));
    }
}

#[test]
fn test_first_letter_of_false_agrees_with_nom() {
    for character in every_character() {
        let input = format!("{}alse", character);
        assert_eq!(boolean(&input).is_ok(), "fF".contains(character), "on {:?}", input);
        same(&input, boolean(&input), nom_boolean(&input));
    }
}

#[test]
fn test_last_letter_of_false_agrees_with_nom() {
    for character in every_character() {
        let input = format!("fals{}", character);
        assert_eq!(boolean(&input).is_ok(), "eE".contains(character), "on {:?}", input);
        same(&input, boolean(&input), nom_boolean(&input));
    }
}

#[test]
fn test_single_characters_agree_with_nom() {
    for character in every_character() {
        let input = format!("{}1a_", character);
        same(&input, parse(&input), nom_expression(&input));
        let quoted = format!("\"{}\"", character);
        same(&quoted, string(&quoted), nom_string(&quoted));
        let after = format!("a{}", character);
        same(&after, identifier(&after), nom_identifier(&after));
        let digit = format!("1{}", character);
        same(&digit, number(&digit), nom_number(&digit));
    }
}
