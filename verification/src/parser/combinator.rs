//! The tokens of the language: boolean, number and string literals, and
//! identifiers.

use crate::ast::{TBoolean, AST};
use crate::grammar;
use crate::grammar::{body_length, body_value, CharClass};
use crate::parser::{yields, ParseFailure, ParseResult};
use crate::text::{letter, skip_word_ignoring_case, split_first, take_run};
use vstd::prelude::*;

verus! {

/// Reads a boolean literal: `true` or `false`, in any mix of upper and lower
/// case.
pub fn boolean<'a>(input: &'a str) -> (result: ParseResult<'a, AST<'a>>)
    ensures
        yields(input@, result, grammar::boolean(input@)),
{
    match skip_word_ignoring_case(input, "true") {
        Some(rest) => Ok((rest, AST::BooleanLiteral(TBoolean::True))),
        None => match skip_word_ignoring_case(input, "false") {
            Some(rest) => Ok((rest, AST::BooleanLiteral(TBoolean::False))),
            None => {
                assert(input@.skip(0) == input@);
                Err(ParseFailure { remaining: input })
            },
        },
    }
}

/// Reads an identifier: a letter or an underscore, and the letters, digits
/// and underscores that follow it.
pub fn identifier<'a>(input: &'a str) -> (result: ParseResult<'a, &'a str>)
    ensures
        yields(input@, result, grammar::identifier(input@)),
{
    let starts = match split_first(input) {
        Some((first, _)) => letter(first) || first == '_',
        None => false,
    };
    if starts {
        let (name, rest) = take_run(input, CharClass::IdentifierPart);
        Ok((rest, name))
    } else {
        assert(input@.skip(0) == input@);
        Err(ParseFailure { remaining: input })
    }
}

/// Reads a number literal: one or more decimal digits, kept as text.
pub fn number<'a>(input: &'a str) -> (result: ParseResult<'a, AST<'a>>)
    ensures
        yields(input@, result, grammar::number(input@)),
{
    let (digits, rest) = take_run(input, CharClass::Digit);
    if digits.is_empty() {
        assert(input@.skip(0) == input@);
        Err(ParseFailure { remaining: input })
    } else {
        Ok((rest, AST::NumberLiteral(digits.to_owned())))
    }
}

/// Reads the body of a string literal: the plain characters and escapes at
/// the start of `text`. Returns what they stand for, the text after them,
/// and whether there was any.
fn read_body<'a>(text: &'a str) -> (parts: (String, &'a str, bool))
    ensures
        body_length(text@) <= text@.len(),
        parts.0@ == body_value(text@),
        parts.1@ == text@.skip(body_length(text@) as int),
        parts.2 == (body_length(text@) > 0),
{
    let mut value = String::new();
    let mut left: &'a str = text;
    let mut any = false;
    let ghost mut done: int = 0;
    loop
        invariant
            0 <= done <= text@.len(),
            left@ == text@.skip(done),
            body_length(text@) == done + body_length(left@),
            body_value(text@) == value@ + body_value(left@),
            any == (done > 0),
        decreases left@.len(),
    {
        match split_first(left) {
            None => {
                return (value, left, any);
            },
            Some((found, rest)) => {
                if found == '\\' {
                    match split_first(rest) {
                        None => {
                            return (value, left, any);
                        },
                        Some((escaped, after)) => {
                            if escaped == '\\' || escaped == '"' {
                                value.push(escaped);
                                proof {
                                    assert(after@ == left@.skip(2));
                                    done = done + 2;
                                }
                                left = after;
                                any = true;
                            } else {
                                return (value, left, any);
                            }
                        },
                    }
                } else if found == '"' {
                    return (value, left, any);
                } else {
                    value.push(found);
                    proof {
                        done = done + 1;
                    }
                    left = rest;
                    any = true;
                }
            },
        }
    }
}

/// Reads a string literal: a double quote, a body of at least one plain
/// character or escape, and a double quote. In the body `\\` stands for a
/// backslash and `\"` for a double quote; no other escape is read.
pub fn string<'a>(input: &'a str) -> (result: ParseResult<'a, AST<'a>>)
    ensures
        yields(input@, result, grammar::string(input@)),
{
    let body = match split_first(input) {
        Some((first, rest)) => {
            if first == '"' {
                rest
            } else {
                assert(input@.skip(0) == input@);
                return Err(ParseFailure { remaining: input });
            }
        },
        None => {
            assert(input@.skip(0) == input@);
            return Err(ParseFailure { remaining: input });
        },
    };
    let (value, after_body, any) = read_body(body);
    if !any {
        return Err(ParseFailure { remaining: body });
    }
    let ghost length = body_length(body@);
    proof {
        assert(after_body@ == input@.skip(1 + length as int));
    }
    match split_first(after_body) {
        Some((found, rest)) => {
            if found == '"' {
                assert(rest@ == input@.skip(length as int + 2));
                Ok((rest, AST::StringLiteral(value)))
            } else {
                Err(ParseFailure { remaining: after_body })
            }
        },
        None => Err(ParseFailure { remaining: after_body }),
    }
}

} // verus!
