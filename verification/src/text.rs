//! Walking a text: its first character, a word at its start, a run of
//! characters of one class.

use crate::grammar::{
    is_letter, reads_at, reads_ignoring_case, run_length, same_letter, CharClass,
};
use vstd::prelude::*;
use vstd::std_specs::iter::IteratorSpec;
use vstd::string::*;
use vstd::utf8::encode_utf8;

verus! {

broadcast use vstd::string::group_string_axioms;

/// `Chars::as_str` of the standard library: the part of the text that the
/// iterator has not yet walked, as a slice of the text it was made from.
pub assume_specification<'a>[ std::str::Chars::<'a>::as_str ](chars: &std::str::Chars<'a>) -> (rest:
    &'a str)
    ensures
        rest@ == chars.remaining(),
;

/// `String::push` of the standard library: the character is added at the end.
pub assume_specification[ std::string::String::push ](text: &mut std::string::String, c: char)
    ensures
        final(text)@ == old(text)@.push(c),
;

/// The first character of a text and the text after it, or `None` for the
/// empty text.
pub(crate) fn split_first<'a>(text: &'a str) -> (parts: Option<(char, &'a str)>)
    ensures
        parts is None <==> text@.len() == 0,
        parts matches Some((first, rest)) ==> first == text@[0] && rest@ == text@.skip(1),
{
    let mut chars = text.chars();
    match chars.next() {
        Some(first) => Some((first, chars.as_str())),
        None => None,
    }
}

/// Each character between two positions of a text takes at least one byte of
/// its encoding: what follows the earlier position is longer in bytes than
/// what follows the later one, by at least the number of characters between.
pub(crate) proof fn lemma_suffix_sizes(text: Seq<char>, from: int, to: int)
    requires
        0 <= from <= to <= text.len(),
    ensures
        encode_utf8(text.skip(from)).len() >= encode_utf8(text.skip(to)).len() + (to - from),
    decreases to - from,
{
    if from < to {
        assert(text.skip(from).drop_first() == text.skip(from + 1));
        lemma_suffix_sizes(text, from + 1, to);
    }
}

/// A text has no more characters than its encoding has bytes, so their
/// number fits in a `usize`.
pub(crate) fn length_fits(text: &str)
    ensures
        text@.len() <= usize::MAX,
{
    let _bytes: usize = text.as_bytes().len();
    proof {
        lemma_suffix_sizes(text@, 0, text@.len() as int);
        assert(text@.skip(0) == text@);
    }
}

/// The shorter of two texts, counted in bytes; the first if they are equal.
pub(crate) fn shorter<'a>(first: &'a str, second: &'a str) -> (chosen: &'a str)
    ensures
        chosen == if encode_utf8(first@).len() <= encode_utf8(second@).len() {
            first
        } else {
            second
        },
{
    if first.as_bytes().len() <= second.as_bytes().len() {
        first
    } else {
        second
    }
}

/// Tests whether `c` is a letter.
pub(crate) fn letter(c: char) -> (found: bool)
    ensures
        found == is_letter(c),
{
    ('a' <= c && c <= 'z') || ('A' <= c && c <= 'Z')
}

/// Tests whether two characters are the same but for the case of a letter.
pub(crate) fn letters_match(a: char, b: char) -> (same: bool)
    ensures
        same == same_letter(a, b),
{
    a == b || (letter(a) && letter(b) && (a as u32 == b as u32 + 32 || b as u32 == a as u32 + 32))
}

impl CharClass {
    /// Tests whether `c` belongs to the class.
    pub fn admits(self, c: char) -> (found: bool)
        ensures
            found == self.holds(c),
    {
        match self {
            CharClass::Digit => '0' <= c && c <= '9',
            CharClass::IdentifierPart => letter(c) || ('0' <= c && c <= '9') || c == '_',
        }
    }
}

/// Reads `word` at the start of `text`: the text after the word, or `None`
/// where the text does not begin with it.
pub(crate) fn skip_word<'a>(text: &'a str, word: &str) -> (rest: Option<&'a str>)
    ensures
        rest is Some <==> reads_at(text@, 0, word@),
        rest matches Some(after) ==> after@ == text@.skip(word@.len() as int),
{
    let mut left: &'a str = text;
    let mut wanted: &str = word;
    let ghost mut done: int = 0;
    loop
        invariant
            0 <= done <= word@.len(),
            done <= text@.len(),
            wanted@ == word@.skip(done),
            left@ == text@.skip(done),
            text@.take(done) == word@.take(done),
        decreases wanted@.len(),
    {
        match split_first(wanted) {
            None => {
                assert(word@.take(done) == word@);
                return Some(left);
            },
            Some((expected, wanted_rest)) => {
                match split_first(left) {
                    None => {
                        return None;
                    },
                    Some((found, left_rest)) => {
                        if found != expected {
                            return None;
                        }
                        proof {
                            done = done + 1;
                        }
                        left = left_rest;
                        wanted = wanted_rest;
                    },
                }
            },
        }
    }
}

/// Reads `word` at the start of `text` as [`skip_word`] does, but lets a
/// letter of the text stand in either case.
pub(crate) fn skip_word_ignoring_case<'a>(text: &'a str, word: &str) -> (rest: Option<&'a str>)
    ensures
        rest is Some <==> reads_ignoring_case(text@, word@),
        rest matches Some(after) ==> after@ == text@.skip(word@.len() as int),
{
    let mut left: &'a str = text;
    let mut wanted: &str = word;
    let ghost mut done: int = 0;
    loop
        invariant
            0 <= done <= word@.len(),
            done <= text@.len(),
            wanted@ == word@.skip(done),
            left@ == text@.skip(done),
            forall|i: int| 0 <= i < done ==> same_letter(#[trigger] text@[i], word@[i]),
        decreases wanted@.len(),
    {
        match split_first(wanted) {
            None => {
                return Some(left);
            },
            Some((expected, wanted_rest)) => {
                match split_first(left) {
                    None => {
                        return None;
                    },
                    Some((found, left_rest)) => {
                        if !letters_match(found, expected) {
                            return None;
                        }
                        proof {
                            done = done + 1;
                        }
                        left = left_rest;
                        wanted = wanted_rest;
                    },
                }
            },
        }
    }
}

/// Splits `text` after its longest prefix of characters of `class`: the
/// prefix, and the text after it.
pub(crate) fn take_run<'a>(text: &'a str, class: CharClass) -> (parts: (&'a str, &'a str))
    ensures
        run_length(text@, class) <= text@.len(),
        parts.0@ == text@.take(run_length(text@, class) as int),
        parts.1@ == text@.skip(run_length(text@, class) as int),
{
    length_fits(text);
    let mut left: &'a str = text;
    let mut count: usize = 0;
    loop
        invariant
            count <= text@.len() <= usize::MAX,
            left@ == text@.skip(count as int),
            run_length(text@, class) == count + run_length(left@, class),
        decreases left@.len(),
    {
        match split_first(left) {
            None => {
                return (text.substring_char(0, count), left);
            },
            Some((found, rest)) => {
                if !class.admits(found) {
                    return (text.substring_char(0, count), left);
                }
                count = count + 1;
                left = rest;
            },
        }
    }
}

} // verus!
