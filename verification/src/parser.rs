//! The parser: recursive descent over the text, one function for each
//! production of the grammar.
//!
//! A function reads its input from the first character. Where it accepts, it
//! returns the value and the text that is left; it does not ask that nothing
//! is left. Where it rejects, it returns the text that is left at the
//! furthest position that it reached, and has no other effect.

use crate::ast::{TypeExpr, VariableDeclaration, AST};
use crate::grammar;
use crate::grammar::{either, reads_at, Parsed};
use crate::text::{lemma_suffix_sizes, shorter, skip_word};
use vstd::prelude::*;

pub mod combinator;

verus! {

/// A rejection: the part of the input that begins at the furthest position
/// that the parser reached.
#[derive(Debug, PartialEq)]
pub struct ParseFailure<'a> {
    pub remaining: &'a str,
}

/// What a parsing function returns: the text that is left and the value, or
/// the rejection.
pub type ParseResult<'a, T> = Result<(&'a str, T), ParseFailure<'a>>;

/// `result` is what the outcome `expected` of a production on `input` looks
/// like: the value with the input less the characters consumed, or the input
/// from the position of the rejection on.
pub open spec fn yields<'a, T: View>(
    input: Seq<char>,
    result: ParseResult<'a, T>,
    expected: Parsed<T::V>,
) -> bool {
    match expected {
        Parsed::Accepted { value, consumed } => {
            &&& consumed <= input.len()
            &&& result matches Ok((rest, found))
            &&& found@ == value
            &&& rest@ == input.skip(consumed as int)
        },
        Parsed::Rejected { at } => {
            &&& at <= input.len()
            &&& result matches Err(failure)
            &&& failure.remaining@ == input.skip(at as int)
        },
    }
}

/// An outcome on the text from position `from` on, seen from the start of
/// the text: every position moves by `from`.
spec fn yields_from<'a, T: View>(
    input: Seq<char>,
    from: nat,
    result: ParseResult<'a, T>,
    expected: Parsed<T::V>,
) -> bool {
    match expected {
        Parsed::Accepted { value, consumed } => {
            &&& from + consumed <= input.len()
            &&& result matches Ok((rest, found))
            &&& found@ == value
            &&& rest@ == input.skip((from + consumed) as int)
        },
        Parsed::Rejected { at } => {
            &&& from + at <= input.len()
            &&& result matches Err(failure)
            &&& failure.remaining@ == input.skip((from + at) as int)
        },
    }
}

/// What holds of a result on the rest of a text holds of it from that
/// position in the whole text.
proof fn lemma_yields_from<'a, T: View>(
    input: Seq<char>,
    from: nat,
    result: ParseResult<'a, T>,
    expected: Parsed<T::V>,
)
    requires
        from <= input.len(),
        yields(input.skip(from as int), result, expected),
    ensures
        yields_from(input, from, result, expected),
{
    match expected {
        Parsed::Accepted { value, consumed } => {
            assert(input.skip(from as int).skip(consumed as int) == input.skip(
                (from + consumed) as int,
            ));
        },
        Parsed::Rejected { at } => {
            assert(input.skip(from as int).skip(at as int) == input.skip((from + at) as int));
        },
    }
}

/// A word stands at a position of a text where it stands at the start of
/// the text from that position on.
proof fn lemma_reads_from(input: Seq<char>, from: nat, word: Seq<char>)
    requires
        from <= input.len(),
    ensures
        reads_at(input.skip(from as int), 0, word) == reads_at(input, from, word),
        from + word.len() <= input.len() ==> input.skip(from as int).skip(word.len() as int)
            == input.skip((from + word.len()) as int),
{
    if from + word.len() <= input.len() {
        assert(input.skip(from as int).subrange(0, word.len() as int) == input.subrange(
            from as int,
            (from + word.len()) as int,
        ));
    }
}

/// The further of two rejections of one text: the one that has less of the
/// text left, the first where they stand at the same position.
fn further<'a>(
    first: ParseFailure<'a>,
    second: ParseFailure<'a>,
    Ghost(input): Ghost<Seq<char>>,
    Ghost(first_at): Ghost<nat>,
    Ghost(second_at): Ghost<nat>,
) -> (chosen: ParseFailure<'a>)
    requires
        first_at <= input.len(),
        second_at <= input.len(),
        first.remaining@ == input.skip(first_at as int),
        second.remaining@ == input.skip(second_at as int),
    ensures
        chosen.remaining@ == input.skip(
            if first_at >= second_at {
                first_at as int
            } else {
                second_at as int
            },
        ),
{
    proof {
        if first_at <= second_at {
            lemma_suffix_sizes(input, first_at as int, second_at as int);
        } else {
            lemma_suffix_sizes(input, second_at as int, first_at as int);
        }
    }
    ParseFailure { remaining: shorter(first.remaining, second.remaining) }
}

/// Reads a ground type: `boolean`, `string` or `number`.
pub fn parse_ground_type_expression<'a>(input: &'a str) -> (result: ParseResult<'a, TypeExpr>)
    ensures
        yields(input@, result, grammar::ground_type(input@)),
{
    match skip_word(input, "boolean") {
        Some(rest) => Ok((rest, TypeExpr::Boolean)),
        None => match skip_word(input, "string") {
            Some(rest) => Ok((rest, TypeExpr::String)),
            None => match skip_word(input, "number") {
                Some(rest) => Ok((rest, TypeExpr::Number)),
                None => {
                    assert(input@.skip(0) == input@);
                    Err(ParseFailure { remaining: input })
                },
            },
        },
    }
}

/// Reads a function type: a ground type, ` -> `, and a type expression.
pub fn parse_function_type<'a>(input: &'a str) -> (result: ParseResult<'a, TypeExpr>)
    ensures
        yields(input@, result, grammar::function_type(input@)),
    decreases input@.len(), 0nat,
{
    let (after_parameter, parameter) = match parse_ground_type_expression(input) {
        Ok(found) => found,
        Err(failure) => {
            return Err(failure);
        },
    };
    let ghost consumed = grammar::ground_type(input@)->consumed;
    proof {
        reveal_strlit(" -> ");
        lemma_reads_from(input@, consumed, " -> "@);
    }
    let after_arrow = match skip_word(after_parameter, " -> ") {
        Some(rest) => rest,
        None => {
            return Err(ParseFailure { remaining: after_parameter });
        },
    };
    let ghost from = consumed + " -> "@.len();
    let inner = parse_type_expression(after_arrow);
    proof {
        lemma_yields_from(input@, from, inner, grammar::type_expr(input@.skip(from as int)));
    }
    match inner {
        Ok((rest, result_type)) => Ok(
            (rest, TypeExpr::Function(Box::new(parameter), Box::new(result_type))),
        ),
        Err(failure) => Err(failure),
    }
}

/// Reads a type expression: a function type where there is one, else a
/// ground type.
pub fn parse_type_expression<'a>(input: &'a str) -> (result: ParseResult<'a, TypeExpr>)
    ensures
        yields(input@, result, grammar::type_expr(input@)),
    decreases input@.len(), 1nat,
{
    match parse_function_type(input) {
        Ok(found) => Ok(found),
        Err(first) => match parse_ground_type_expression(input) {
            Ok(found) => Ok(found),
            Err(second) => Err(
                further(
                    first,
                    second,
                    Ghost(input@),
                    Ghost(grammar::function_type(input@)->at),
                    Ghost(grammar::ground_type(input@)->at),
                ),
            ),
        },
    }
}

/// Reads a declaration: an identifier, `: `, and a type expression.
pub fn parse_variable_declaration_with_type<'a>(input: &'a str) -> (result: ParseResult<
    'a,
    VariableDeclaration<'a>,
>)
    ensures
        yields(input@, result, grammar::declaration(input@)),
{
    let (after_name, name) = match combinator::identifier(input) {
        Ok(found) => found,
        Err(failure) => {
            return Err(failure);
        },
    };
    let ghost consumed = grammar::identifier(input@)->consumed;
    proof {
        lemma_reads_from(input@, consumed, ": "@);
    }
    let after_colon = match skip_word(after_name, ": ") {
        Some(rest) => rest,
        None => {
            return Err(ParseFailure { remaining: after_name });
        },
    };
    let ghost from = consumed + ": "@.len();
    let inner = parse_type_expression(after_colon);
    proof {
        lemma_yields_from(input@, from, inner, grammar::type_expr(input@.skip(from as int)));
    }
    match inner {
        Ok((rest, typing)) => Ok((rest, VariableDeclaration { name, typing })),
        Err(failure) => Err(failure),
    }
}

/// Reads a `let`: `let `, a declaration, ` = `, the bound expression, ` in `,
/// and the body. Whether the bound expression has the declared type is not
/// asked here.
pub fn parse_let_expr<'a>(input: &'a str) -> (result: ParseResult<'a, AST<'a>>)
    ensures
        yields(input@, result, grammar::let_expr(input@)),
    decreases input@.len(), 0nat,
{
    let after_let = match skip_word(input, "let ") {
        Some(rest) => rest,
        None => {
            assert(input@.skip(0) == input@);
            return Err(ParseFailure { remaining: input });
        },
    };
    let ghost start = "let "@.len();
    let declared = parse_variable_declaration_with_type(after_let);
    proof {
        reveal_strlit(" = ");
        reveal_strlit(" in ");
        lemma_yields_from(input@, start, declared, grammar::declaration(input@.skip(start as int)));
    }
    let (after_declaration, declaration) = match declared {
        Ok(found) => found,
        Err(failure) => {
            return Err(failure);
        },
    };
    let ghost declared_end = start + grammar::declaration(input@.skip(start as int))->consumed;
    proof {
        lemma_reads_from(input@, declared_end, " = "@);
    }
    let after_equals = match skip_word(after_declaration, " = ") {
        Some(rest) => rest,
        None => {
            return Err(ParseFailure { remaining: after_declaration });
        },
    };
    let ghost bound_from = declared_end + " = "@.len();
    let bound = parse(after_equals);
    proof {
        lemma_yields_from(input@, bound_from, bound, grammar::expr(input@.skip(bound_from as int)));
    }
    let (after_bound, variable_expression) = match bound {
        Ok(found) => found,
        Err(failure) => {
            return Err(failure);
        },
    };
    let ghost bound_end = bound_from + grammar::expr(input@.skip(bound_from as int))->consumed;
    proof {
        lemma_reads_from(input@, bound_end, " in "@);
    }
    let after_in = match skip_word(after_bound, " in ") {
        Some(rest) => rest,
        None => {
            return Err(ParseFailure { remaining: after_bound });
        },
    };
    let ghost body_from = bound_end + " in "@.len();
    let body = parse(after_in);
    proof {
        lemma_yields_from(input@, body_from, body, grammar::expr(input@.skip(body_from as int)));
    }
    match body {
        Ok((rest, expression)) => Ok(
            (
                rest,
                AST::Let {
                    variable_declaration: Box::new(declaration),
                    variable_expression: Box::new(variable_expression),
                    expression: Box::new(expression),
                },
            ),
        ),
        Err(failure) => Err(failure),
    }
}

/// Reads a function: a backslash, the declaration of the parameter, `. `,
/// and the body.
pub fn parse_function<'a>(input: &'a str) -> (result: ParseResult<'a, AST<'a>>)
    ensures
        yields(input@, result, grammar::abstraction(input@)),
    decreases input@.len(), 0nat,
{
    let after_backslash = match skip_word(input, "\\") {
        Some(rest) => rest,
        None => {
            assert(input@.skip(0) == input@);
            return Err(ParseFailure { remaining: input });
        },
    };
    let ghost start = "\\"@.len();
    let declared = parse_variable_declaration_with_type(after_backslash);
    proof {
        reveal_strlit(". ");
        lemma_yields_from(input@, start, declared, grammar::declaration(input@.skip(start as int)));
    }
    let (after_declaration, parameter) = match declared {
        Ok(found) => found,
        Err(failure) => {
            return Err(failure);
        },
    };
    let ghost declared_end = start + grammar::declaration(input@.skip(start as int))->consumed;
    proof {
        lemma_reads_from(input@, declared_end, ". "@);
    }
    let after_stop = match skip_word(after_declaration, ". ") {
        Some(rest) => rest,
        None => {
            return Err(ParseFailure { remaining: after_declaration });
        },
    };
    let ghost body_from = declared_end + ". "@.len();
    let inner = parse(after_stop);
    proof {
        lemma_yields_from(input@, body_from, inner, grammar::expr(input@.skip(body_from as int)));
    }
    match inner {
        Ok((rest, body)) => Ok(
            (rest, AST::Function { parameter: Box::new(parameter), body: Box::new(body) }),
        ),
        Err(failure) => Err(failure),
    }
}

/// Reads a reference to a variable: an identifier.
pub fn parse_variable<'a>(input: &'a str) -> (result: ParseResult<'a, AST<'a>>)
    ensures
        yields(input@, result, grammar::variable(input@)),
{
    match combinator::identifier(input) {
        Ok((rest, name)) => Ok((rest, AST::Variable(name))),
        Err(failure) => Err(failure),
    }
}

/// Reads an expression from the start of `input` and returns it with the
/// text that follows it. The alternatives are tried in the order of the
/// grammar, and the first that accepts decides.
pub fn parse<'a>(input: &'a str) -> (result: ParseResult<'a, AST<'a>>)
    ensures
        yields(input@, result, grammar::expr(input@)),
    decreases input@.len(), 1nat,
{
    let failure = match combinator::boolean(input) {
        Ok(found) => {
            return Ok(found);
        },
        Err(failure) => failure,
    };
    let ghost at = grammar::boolean(input@)->at;
    let failure = match combinator::string(input) {
        Ok(found) => {
            return Ok(found);
        },
        Err(next) => further(
            failure,
            next,
            Ghost(input@),
            Ghost(at),
            Ghost(grammar::string(input@)->at),
        ),
    };
    let ghost at = if at >= grammar::string(input@)->at {
        at
    } else {
        grammar::string(input@)->at
    };
    let failure = match combinator::number(input) {
        Ok(found) => {
            return Ok(found);
        },
        Err(next) => further(
            failure,
            next,
            Ghost(input@),
            Ghost(at),
            Ghost(grammar::number(input@)->at),
        ),
    };
    let ghost at = if at >= grammar::number(input@)->at {
        at
    } else {
        grammar::number(input@)->at
    };
    let failure = match parse_let_expr(input) {
        Ok(found) => {
            return Ok(found);
        },
        Err(next) => further(
            failure,
            next,
            Ghost(input@),
            Ghost(at),
            Ghost(grammar::let_expr(input@)->at),
        ),
    };
    let ghost at = if at >= grammar::let_expr(input@)->at {
        at
    } else {
        grammar::let_expr(input@)->at
    };
    let failure = match parse_function(input) {
        Ok(found) => {
            return Ok(found);
        },
        Err(next) => further(
            failure,
            next,
            Ghost(input@),
            Ghost(at),
            Ghost(grammar::abstraction(input@)->at),
        ),
    };
    let ghost at = if at >= grammar::abstraction(input@)->at {
        at
    } else {
        grammar::abstraction(input@)->at
    };
    match parse_variable(input) {
        Ok(found) => Ok(found),
        Err(next) => Err(
            further(failure, next, Ghost(input@), Ghost(at), Ghost(grammar::variable(input@)->at)),
        ),
    }
}

} // verus!
