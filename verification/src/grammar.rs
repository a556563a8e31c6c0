//! The grammar of the language, as specification functions on sequences of
//! characters.
//!
//! Each production reads a text from its first character and either accepts a
//! prefix of it, giving a value and the number of characters it took, or
//! rejects the text, giving the furthest position that it reached. A word, an
//! identifier or a number that is not there rejects where it should begin; a
//! string literal rejects where its body ends without a closing quote; a
//! sequence of parts rejects where the part that fails rejects. Where several
//! alternatives are tried, the first that accepts wins; where all reject, the
//! furthest of their positions is reported.

use crate::ast::{Binding, Expr, TBoolean, TypeExpr};
use vstd::prelude::*;

verus! {

/// What a production makes of a text.
pub enum Parsed<T> {
    /// The first `consumed` characters were read as `value`.
    Accepted { value: T, consumed: nat },
    /// Nothing was read; `at` characters precede the furthest position reached.
    Rejected { at: nat },
}

/// Ordered choice: the first outcome if it accepts, else the second if it
/// accepts, else a rejection at the further of the two positions.
pub open spec fn either<T>(first: Parsed<T>, second: Parsed<T>) -> Parsed<T> {
    match first {
        Parsed::Accepted { .. } => first,
        Parsed::Rejected { at: first_at } => match second {
            Parsed::Accepted { .. } => second,
            Parsed::Rejected { at: second_at } => Parsed::Rejected {
                at: if first_at >= second_at {
                    first_at
                } else {
                    second_at
                },
            },
        },
    }
}

/// `text` holds `word` from position `at` on.
pub open spec fn reads_at(text: Seq<char>, at: nat, word: Seq<char>) -> bool {
    &&& at + word.len() <= text.len()
    &&& text.subrange(at as int, (at + word.len()) as int) == word
}

/// `c` is one of the ten decimal digits.
pub open spec fn is_digit(c: char) -> bool {
    '0' <= c <= '9'
}

/// `c` is one of the fifty-two unaccented Latin letters.
pub open spec fn is_letter(c: char) -> bool {
    'a' <= c <= 'z' || 'A' <= c <= 'Z'
}

/// `c` may begin an identifier: a letter or an underscore.
pub open spec fn is_identifier_start(c: char) -> bool {
    is_letter(c) || c == '_'
}

/// `c` may continue an identifier: a letter, a digit or an underscore.
pub open spec fn is_identifier_part(c: char) -> bool {
    is_letter(c) || is_digit(c) || c == '_'
}

/// `a` and `b` are the same character, or the same letter in different case.
pub open spec fn same_letter(a: char, b: char) -> bool {
    a == b || (is_letter(a) && is_letter(b) && (a as u32 == b as u32 + 32 || b as u32 == a as u32
        + 32))
}

/// `text` begins with `word`, where a letter may stand in either case.
pub open spec fn reads_ignoring_case(text: Seq<char>, word: Seq<char>) -> bool {
    &&& word.len() <= text.len()
    &&& forall|i: int| 0 <= i < word.len() ==> same_letter(#[trigger] text[i], word[i])
}

/// A set of characters of which a token is a run.
#[derive(Clone, Copy, Debug)]
pub enum CharClass {
    Digit,
    IdentifierPart,
}

impl CharClass {
    /// `c` belongs to the class.
    pub open spec fn holds(self, c: char) -> bool {
        match self {
            CharClass::Digit => is_digit(c),
            CharClass::IdentifierPart => is_identifier_part(c),
        }
    }
}

/// The number of characters at the start of `text` that all belong to `class`.
pub open spec fn run_length(text: Seq<char>, class: CharClass) -> nat
    decreases text.len(),
{
    if text.len() > 0 && class.holds(text[0]) {
        1 + run_length(text.skip(1), class)
    } else {
        0
    }
}

/// A boolean literal: the word `true` or the word `false`, in any mix of
/// upper and lower case.
pub open spec fn boolean(text: Seq<char>) -> Parsed<Expr> {
    if reads_ignoring_case(text, "true"@) {
        Parsed::Accepted { value: Expr::BooleanLiteral(TBoolean::True), consumed: "true"@.len() }
    } else if reads_ignoring_case(text, "false"@) {
        Parsed::Accepted { value: Expr::BooleanLiteral(TBoolean::False), consumed: "false"@.len() }
    } else {
        Parsed::Rejected { at: 0 }
    }
}

/// An identifier: a letter or an underscore, then as many letters, digits
/// and underscores as follow.
pub open spec fn identifier(text: Seq<char>) -> Parsed<Seq<char>> {
    if text.len() > 0 && is_identifier_start(text[0]) {
        let length = run_length(text, CharClass::IdentifierPart);
        Parsed::Accepted { value: text.take(length as int), consumed: length }
    } else {
        Parsed::Rejected { at: 0 }
    }
}

/// A number literal: as many decimal digits as stand at the start, at least
/// one. The value is the digits as text, of any length.
pub open spec fn number(text: Seq<char>) -> Parsed<Expr> {
    let length = run_length(text, CharClass::Digit);
    if length > 0 {
        Parsed::Accepted { value: Expr::NumberLiteral(text.take(length as int)), consumed: length }
    } else {
        Parsed::Rejected { at: 0 }
    }
}

/// `c` stands for itself inside a string literal: any character but the
/// double quote and the backslash.
pub open spec fn is_plain(c: char) -> bool {
    c != '"' && c != '\\'
}

/// `text` begins with an escape: a backslash followed by a backslash or by a
/// double quote. The escape stands for its second character.
pub open spec fn is_escape(text: Seq<char>) -> bool {
    text.len() >= 2 && text[0] == '\\' && (text[1] == '\\' || text[1] == '"')
}

/// The number of characters at the start of `text` that make up plain
/// characters and escapes.
pub open spec fn body_length(text: Seq<char>) -> nat
    decreases text.len(),
{
    if text.len() > 0 && is_plain(text[0]) {
        1 + body_length(text.skip(1))
    } else if is_escape(text) {
        2 + body_length(text.skip(2))
    } else {
        0
    }
}

/// The characters that the plain characters and escapes at the start of
/// `text` stand for.
pub open spec fn body_value(text: Seq<char>) -> Seq<char>
    decreases text.len(),
{
    if text.len() > 0 && is_plain(text[0]) {
        seq![text[0]] + body_value(text.skip(1))
    } else if is_escape(text) {
        seq![text[1]] + body_value(text.skip(2))
    } else {
        Seq::empty()
    }
}

/// A string literal: a double quote, a body of at least one plain character
/// or escape, and a double quote. The value is what the body stands for.
pub open spec fn string(text: Seq<char>) -> Parsed<Expr> {
    if text.len() > 0 && text[0] == '"' {
        let length = body_length(text.skip(1));
        if length == 0 {
            Parsed::Rejected { at: 1 }
        } else if 1 + length < text.len() && text[1 + length as int] == '"' {
            Parsed::Accepted {
                value: Expr::StringLiteral(body_value(text.skip(1))),
                consumed: length + 2,
            }
        } else {
            Parsed::Rejected { at: 1 + length }
        }
    } else {
        Parsed::Rejected { at: 0 }
    }
}

/// A ground type: one of the words `boolean`, `string` and `number`.
pub open spec fn ground_type(text: Seq<char>) -> Parsed<TypeExpr> {
    if reads_at(text, 0, "boolean"@) {
        Parsed::Accepted { value: TypeExpr::Boolean, consumed: "boolean"@.len() }
    } else if reads_at(text, 0, "string"@) {
        Parsed::Accepted { value: TypeExpr::String, consumed: "string"@.len() }
    } else if reads_at(text, 0, "number"@) {
        Parsed::Accepted { value: TypeExpr::Number, consumed: "number"@.len() }
    } else {
        Parsed::Rejected { at: 0 }
    }
}

/// A function type: a ground type, the arrow ` -> `, and a type expression.
/// The arrow therefore associates to the right.
pub open spec fn function_type(text: Seq<char>) -> Parsed<TypeExpr>
    decreases text.len(), 0nat,
{
    match ground_type(text) {
        Parsed::Rejected { at } => Parsed::Rejected { at },
        Parsed::Accepted { value: parameter, consumed } => {
            if reads_at(text, consumed, " -> "@) {
                let from = consumed + " -> "@.len();
                proof {
                    reveal_strlit(" -> ");
                }
                match type_expr(text.skip(from as int)) {
                    Parsed::Accepted { value: result, consumed: more } => Parsed::Accepted {
                        value: TypeExpr::Function(Box::new(parameter), Box::new(result)),
                        consumed: from + more,
                    },
                    Parsed::Rejected { at } => Parsed::Rejected { at: from + at },
                }
            } else {
                Parsed::Rejected { at: consumed }
            }
        },
    }
}

/// A type expression: a function type, or else a ground type.
pub open spec fn type_expr(text: Seq<char>) -> Parsed<TypeExpr>
    decreases text.len(), 1nat,
{
    either(function_type(text), ground_type(text))
}

/// A declaration: an identifier, a colon and a space, and a type expression.
pub open spec fn declaration(text: Seq<char>) -> Parsed<Binding> {
    match identifier(text) {
        Parsed::Rejected { at } => Parsed::Rejected { at },
        Parsed::Accepted { value: name, consumed } => {
            if reads_at(text, consumed, ": "@) {
                let from = consumed + ": "@.len();
                match type_expr(text.skip(from as int)) {
                    Parsed::Accepted { value: typing, consumed: more } => Parsed::Accepted {
                        value: Binding { name, typing },
                        consumed: from + more,
                    },
                    Parsed::Rejected { at } => Parsed::Rejected { at: from + at },
                }
            } else {
                Parsed::Rejected { at: consumed }
            }
        },
    }
}

/// A `let`: the word `let` and a space, a declaration, ` = `, the bound
/// expression, ` in `, and the body.
pub open spec fn let_expr(text: Seq<char>) -> Parsed<Expr>
    decreases text.len(), 0nat,
{
    if reads_at(text, 0, "let "@) {
        let start = "let "@.len();
        match declaration(text.skip(start as int)) {
            Parsed::Rejected { at } => Parsed::Rejected { at: start + at },
            Parsed::Accepted { value: declaration, consumed } => {
                let declared = start + consumed;
                if reads_at(text, declared, " = "@) {
                    let from = declared + " = "@.len();
                    proof {
                        reveal_strlit(" = ");
                    }
                    match expr(text.skip(from as int)) {
                        Parsed::Rejected { at } => Parsed::Rejected { at: from + at },
                        Parsed::Accepted { value: bound, consumed: more } => {
                            let bound_end = from + more;
                            if reads_at(text, bound_end, " in "@) {
                                let body_from = bound_end + " in "@.len();
                                proof {
                                    reveal_strlit(" in ");
                                }
                                match expr(text.skip(body_from as int)) {
                                    Parsed::Rejected { at } => Parsed::Rejected {
                                        at: body_from + at,
                                    },
                                    Parsed::Accepted { value: body, consumed: rest } => {
                                        Parsed::Accepted {
                                            value: Expr::Let {
                                                declaration,
                                                bound: Box::new(bound),
                                                body: Box::new(body),
                                            },
                                            consumed: body_from + rest,
                                        }
                                    },
                                }
                            } else {
                                Parsed::Rejected { at: bound_end }
                            }
                        },
                    }
                } else {
                    Parsed::Rejected { at: declared }
                }
            },
        }
    } else {
        Parsed::Rejected { at: 0 }
    }
}

/// A function: a backslash, the declaration of the parameter, a full stop
/// and a space, and the body.
pub open spec fn abstraction(text: Seq<char>) -> Parsed<Expr>
    decreases text.len(), 0nat,
{
    if reads_at(text, 0, "\\"@) {
        let start = "\\"@.len();
        match declaration(text.skip(start as int)) {
            Parsed::Rejected { at } => Parsed::Rejected { at: start + at },
            Parsed::Accepted { value: parameter, consumed } => {
                let declared = start + consumed;
                if reads_at(text, declared, ". "@) {
                    let from = declared + ". "@.len();
                    proof {
                        reveal_strlit(". ");
                    }
                    match expr(text.skip(from as int)) {
                        Parsed::Rejected { at } => Parsed::Rejected { at: from + at },
                        Parsed::Accepted { value: body, consumed: more } => Parsed::Accepted {
                            value: Expr::Function { parameter, body: Box::new(body) },
                            consumed: from + more,
                        },
                    }
                } else {
                    Parsed::Rejected { at: declared }
                }
            },
        }
    } else {
        Parsed::Rejected { at: 0 }
    }
}

/// A reference to a variable: an identifier.
pub open spec fn variable(text: Seq<char>) -> Parsed<Expr> {
    match identifier(text) {
        Parsed::Accepted { value: name, consumed } => Parsed::Accepted {
            value: Expr::Variable(name),
            consumed,
        },
        Parsed::Rejected { at } => Parsed::Rejected { at },
    }
}

/// An expression: the first that accepts of a boolean literal, a string
/// literal, a number literal, a `let`, a function and a variable. The words
/// `true`, `false` and `let` are shaped like identifiers, so the order decides
/// what they are read as.
pub open spec fn expr(text: Seq<char>) -> Parsed<Expr>
    decreases text.len(), 1nat,
{
    either(
        boolean(text),
        either(
            string(text),
            either(number(text), either(let_expr(text), either(abstraction(text), variable(text)))),
        ),
    )
}

/// A text of which every character belongs to a class is one run of it.
pub proof fn lemma_run_of_all(text: Seq<char>, class: CharClass)
    requires
        forall|i: int| 0 <= i < text.len() ==> class.holds(text[i]),
    ensures
        run_length(text, class) == text.len(),
    decreases text.len(),
{
    if text.len() > 0 {
        lemma_run_of_all(text.skip(1), class);
    }
}

/// A text that begins with the word `true`, each letter in either case, is
/// read as the literal `True`, and the four characters of the word are
/// consumed.
pub proof fn lemma_true_in_any_case(text: Seq<char>)
    requires
        reads_ignoring_case(text, "true"@),
    ensures
        expr(text) == (Parsed::Accepted {
            value: Expr::BooleanLiteral(TBoolean::True),
            consumed: 4,
        }),
{
    reveal_strlit("true");
}

/// A text that begins with the word `false`, each letter in either case, is
/// read as the literal `False`, and the five characters of the word are
/// consumed.
pub proof fn lemma_false_in_any_case(text: Seq<char>)
    requires
        reads_ignoring_case(text, "false"@),
    ensures
        expr(text) == (Parsed::Accepted {
            value: Expr::BooleanLiteral(TBoolean::False),
            consumed: 5,
        }),
{
    reveal_strlit("true");
    reveal_strlit("false");
}

/// A text of one or more decimal digits and nothing else is read as a
/// number literal that holds the whole text, whatever its length.
pub proof fn lemma_digits_are_a_number(text: Seq<char>)
    requires
        text.len() > 0,
        forall|i: int| 0 <= i < text.len() ==> is_digit(text[i]),
    ensures
        expr(text) == (Parsed::Accepted { value: Expr::NumberLiteral(text), consumed: text.len() }),
{
    reveal_strlit("true");
    reveal_strlit("false");
    lemma_run_of_all(text, CharClass::Digit);
    assert(text.take(text.len() as int) == text);
}

/// A text that begins with a letter or an underscore and holds nothing but
/// letters, digits and underscores is one identifier.
pub proof fn lemma_identifier_whole(text: Seq<char>)
    requires
        text.len() > 0,
        is_identifier_start(text[0]),
        forall|i: int| 0 <= i < text.len() ==> is_identifier_part(text[i]),
    ensures
        identifier(text) == (Parsed::Accepted { value: text, consumed: text.len() }),
{
    lemma_run_of_all(text, CharClass::IdentifierPart);
    assert(text.take(text.len() as int) == text);
}

/// No identifier begins with a digit.
pub proof fn lemma_identifier_begins_with_no_digit(text: Seq<char>)
    requires
        text.len() > 0,
        is_digit(text[0]),
    ensures
        identifier(text) == (Parsed::Rejected::<Seq<char>> { at: 0 }),
{
}

/// The body of a string literal that stands for `value`: a backslash is put
/// before each backslash and each double quote.
pub open spec fn escaped(value: Seq<char>) -> Seq<char>
    decreases value.len(),
{
    if value.len() == 0 {
        Seq::empty()
    } else if is_plain(value[0]) {
        seq![value[0]] + escaped(value.skip(1))
    } else {
        seq!['\\', value[0]] + escaped(value.skip(1))
    }
}

/// The string literal that stands for `value`: its escaped body between
/// double quotes.
pub open spec fn quoted(value: Seq<char>) -> Seq<char> {
    seq!['"'] + escaped(value) + seq!['"']
}

/// An escaped body that a double quote follows is read to its end, and
/// stands for the text that was escaped.
pub proof fn lemma_body_of_escaped(value: Seq<char>, tail: Seq<char>)
    requires
        tail.len() > 0,
        tail[0] == '"',
    ensures
        body_length(escaped(value) + tail) == escaped(value).len(),
        body_value(escaped(value) + tail) == value,
        value.len() > 0 ==> escaped(value).len() > 0,
    decreases value.len(),
{
    let text = escaped(value) + tail;
    if value.len() > 0 {
        let rest = value.skip(1);
        lemma_body_of_escaped(rest, tail);
        if is_plain(value[0]) {
            assert(text.skip(1) == escaped(rest) + tail);
        } else {
            assert(text.skip(2) == escaped(rest) + tail);
        }
    }
}

/// Writing a text as a string literal and reading the literal gives the
/// text back: for every text of at least one character, its literal is
/// accepted with that text as its value, whatever follows the literal.
pub proof fn lemma_string_round_trip(value: Seq<char>, following: Seq<char>)
    requires
        value.len() > 0,
    ensures
        string(quoted(value) + following) == (Parsed::Accepted {
            value: Expr::StringLiteral(value),
            consumed: quoted(value).len(),
        }),
{
    let text = quoted(value) + following;
    let tail = seq!['"'] + following;
    lemma_body_of_escaped(value, tail);
    assert(text.skip(1) == escaped(value) + tail);
}

/// `t` is one of the three ground types.
pub open spec fn is_ground(t: TypeExpr) -> bool {
    t is Number || t is String || t is Boolean
}

/// Every arrow in `t` has a ground type on its left, so that `t` is a chain
/// of ground types that is bracketed from the right.
pub open spec fn nests_to_the_right(t: TypeExpr) -> bool
    decreases t,
{
    match t {
        TypeExpr::Function(parameter, result) => is_ground(*parameter) && nests_to_the_right(
            *result,
        ),
        _ => true,
    }
}

/// Arrows associate to the right: whatever type expression is read, no
/// function type stands on the left of an arrow in it.
pub proof fn lemma_arrows_nest_to_the_right(text: Seq<char>)
    ensures
        function_type(text) matches Parsed::Accepted { value, .. } ==> nests_to_the_right(value),
        type_expr(text) matches Parsed::Accepted { value, .. } ==> nests_to_the_right(value),
    decreases text.len(),
{
    if let Parsed::Accepted { consumed, .. } = ground_type(text) {
        if reads_at(text, consumed, " -> "@) {
            reveal_strlit(" -> ");
            lemma_arrows_nest_to_the_right(text.skip((consumed + " -> "@.len()) as int));
        }
    }
}

} // verus!
