//! Front end of a small statically typed lambda calculus: the syntax tree, a
//! recursive-descent parser for the textual syntax, and a type checker.
//!
//! Every executable function carries a contract over a mathematical model of
//! its arguments. A text is the sequence of its characters, a tree is its
//! view, the grammar is a family of specification functions in [`grammar`],
//! and the typing rules are the specification function
//! [`type_checker::check_outcome`]. [`parser::parse`] returns what the grammar
//! says of its input, and [`type_checker::type_check`] what the typing rules
//! say of its tree.

pub mod ast;
pub mod grammar;
pub mod parser;
mod text;
pub mod type_checker;
