//! The type checker: a walk over the tree under one environment of bindings.
//!
//! The environment is a single table for the whole walk. A binding made for
//! the body of a `let` or of a function stays in the table when the walk
//! leaves that body, and no earlier binding of the same name is restored.

use crate::ast::{type_text, Expr, TypeExpr, AST};
use vstd::hash_map::StringHashMap;
use vstd::prelude::*;
use vstd::string::StringExecFns;

verus! {

/// Why an expression has no type.
#[derive(Debug, PartialEq)]
pub enum TypeError {
    /// A name was used that no enclosing construct has bound.
    UndefinedVariable(String),
    /// The expression bound by a `let` does not have the declared type. The
    /// message names the variable, the declared type and the type found.
    BadLet(String),
}

/// The mathematical value of a [`TypeError`].
pub enum TypeFault {
    UndefinedVariable(Seq<char>),
    BadLet(Seq<char>),
}

impl View for TypeError {
    type V = TypeFault;

    open spec fn view(&self) -> TypeFault {
        match self {
            TypeError::UndefinedVariable(name) => TypeFault::UndefinedVariable(name@),
            TypeError::BadLet(message) => TypeFault::BadLet(message@),
        }
    }
}

/// The mathematical value of what the checker returns.
pub open spec fn outcome_view(result: Result<TypeExpr, TypeError>) -> Result<TypeExpr, TypeFault> {
    match result {
        Ok(typing) => Ok(typing),
        Err(error) => Err(error@),
    }
}

/// The text that the standard `{:?}` formatting gives for a piece of text:
/// the text between double quotes, with the characters escaped that Rust
/// escapes in a string literal.
pub uninterp spec fn debug_quoted(name: Seq<char>) -> Seq<char>;

/// Formats a name with `format!("{:?}", name)`, the standard library's `Debug`
/// rendering of a `str`. The rendering depends on the characters of the name
/// alone; the contract gives it the name [`debug_quoted`] and says no more.
#[verifier::external_body]
fn quote(name: &str) -> (quoted: String)
    ensures
        quoted@ == debug_quoted(name@),
{
    format!("{:?}", name)
}

/// The message of a `let` whose bound expression has another type than the
/// declared one, given the variable's name as it is shown in the message.
pub open spec fn bad_let_text(shown_name: Seq<char>, declared: TypeExpr, inferred: TypeExpr) -> Seq<
    char,
> {
    "type of variable <"@ + shown_name + ": "@ + type_text(declared)
        + "> in let expression did not match type of expression "@ + type_text(inferred)
}

/// Builds the message of [`TypeError::BadLet`] from the name as it is to be
/// shown, the declared type and the type that the bound expression has.
pub fn bad_let_message(shown_name: &str, declared: &TypeExpr, inferred: &TypeExpr) -> (message:
    String)
    ensures
        message@ == bad_let_text(shown_name@, *declared, *inferred),
{
    let mut message = String::from_str("type of variable <");
    message.append(shown_name);
    message.append(": ");
    let declared_text = declared.to_text();
    message.append(declared_text.as_str());
    message.append("> in let expression did not match type of expression ");
    let inferred_text = inferred.to_text();
    message.append(inferred_text.as_str());
    message
}

/// The table of the names that are bound, each with its type.
pub struct TypeEnvironment {
    bindings: StringHashMap<TypeExpr>,
}

impl View for TypeEnvironment {
    type V = Map<Seq<char>, TypeExpr>;

    closed spec fn view(&self) -> Map<Seq<char>, TypeExpr> {
        self.bindings@
    }
}

impl TypeEnvironment {
    /// An environment without bindings.
    pub fn new() -> (environment: TypeEnvironment)
        ensures
            environment@ == Map::<Seq<char>, TypeExpr>::empty(),
    {
        TypeEnvironment { bindings: StringHashMap::new() }
    }

    /// Binds `name` to `typing`, in place of any binding the name had.
    pub fn bind(&mut self, name: &str, typing: TypeExpr)
        ensures
            final(self)@ == old(self)@.insert(name@, typing),
    {
        self.bindings.insert(name.to_owned(), typing);
    }

    /// The type that `name` is bound to, if it is bound.
    pub fn lookup(&self, name: &str) -> (found: Option<TypeExpr>)
        ensures
            found == if self@.contains_key(name@) {
                Some(self@[name@])
            } else {
                None::<TypeExpr>
            },
    {
        match self.bindings.get(name) {
            Some(typing) => Some(typing.clone()),
            None => None,
        }
    }
}

/// What the walk over `expression` gives when it starts with the bindings
/// `scope`: the bindings at the point where the walk ends, and the type of the
/// expression or the first fault met.
///
/// - A variable has the type it is bound to, and is a fault when unbound.
/// - A literal has its ground type.
/// - A `let` first types the bound expression; that type must equal the
///   declared one, else the `let` is a fault; the name is then bound to it
///   and the type of the `let` is that of its body.
/// - A function binds its parameter to the declared type, and has the
///   function type from that type to the type of its body.
pub open spec fn check_outcome(scope: Map<Seq<char>, TypeExpr>, expression: Expr) -> (
    Map<Seq<char>, TypeExpr>,
    Result<TypeExpr, TypeFault>,
)
    decreases expression,
{
    match expression {
        Expr::Variable(name) => (
            scope,
            if scope.contains_key(name) {
                Ok(scope[name])
            } else {
                Err(TypeFault::UndefinedVariable(name))
            },
        ),
        Expr::BooleanLiteral(_) => (scope, Ok(TypeExpr::Boolean)),
        Expr::StringLiteral(_) => (scope, Ok(TypeExpr::String)),
        Expr::NumberLiteral(_) => (scope, Ok(TypeExpr::Number)),
        Expr::Let { declaration, bound, body } => {
            let (after_bound, bound_outcome) = check_outcome(scope, *bound);
            match bound_outcome {
                Err(fault) => (after_bound, Err(fault)),
                Ok(bound_type) => if bound_type != declaration.typing {
                    (
                        after_bound,
                        Err(
                            TypeFault::BadLet(
                                bad_let_text(
                                    debug_quoted(declaration.name),
                                    declaration.typing,
                                    bound_type,
                                ),
                            ),
                        ),
                    )
                } else {
                    check_outcome(after_bound.insert(declaration.name, bound_type), *body)
                },
            }
        },
        Expr::Function { parameter, body } => {
            let (after_body, body_outcome) = check_outcome(
                scope.insert(parameter.name, parameter.typing),
                *body,
            );
            (
                after_body,
                match body_outcome {
                    Ok(body_type) => Ok(
                        TypeExpr::Function(Box::new(parameter.typing), Box::new(body_type)),
                    ),
                    Err(fault) => Err(fault),
                },
            )
        },
    }
}

/// The type of a whole program, or the fault that it has: the outcome of the
/// walk that starts without bindings.
pub open spec fn type_of(expression: Expr) -> Result<TypeExpr, TypeFault> {
    check_outcome(Map::empty(), expression).1
}

/// Types `expression` under `environment`, and leaves in `environment` the
/// bindings that the walk made.
pub fn check(environment: &mut TypeEnvironment, expression: &AST) -> (result: Result<
    TypeExpr,
    TypeError,
>)
    ensures
        final(environment)@ == check_outcome(old(environment)@, expression@).0,
        outcome_view(result) == check_outcome(old(environment)@, expression@).1,
    decreases expression,
{
    match expression {
        AST::Variable(name) => match environment.lookup(name) {
            Some(typing) => Ok(typing),
            None => Err(TypeError::UndefinedVariable(String::from_str(name))),
        },
        AST::BooleanLiteral(_) => Ok(TypeExpr::Boolean),
        AST::StringLiteral(_) => Ok(TypeExpr::String),
        AST::NumberLiteral(_) => Ok(TypeExpr::Number),
        AST::Let { variable_declaration, variable_expression, expression } => {
            match check(environment, &**variable_expression) {
                Err(error) => Err(error),
                Ok(variable_type) => {
                    if variable_type != variable_declaration.typing {
                        let shown_name = quote(variable_declaration.name);
                        Err(
                            TypeError::BadLet(
                                bad_let_message(
                                    shown_name.as_str(),
                                    &variable_declaration.typing,
                                    &variable_type,
                                ),
                            ),
                        )
                    } else {
                        environment.bind(variable_declaration.name, variable_type);
                        check(environment, &**expression)
                    }
                },
            }
        },
        AST::Function { parameter, body } => {
            environment.bind(parameter.name, parameter.typing.clone());
            match check(environment, &**body) {
                Err(error) => Err(error),
                Ok(body_type) => Ok(
                    TypeExpr::Function(Box::new(parameter.typing.clone()), Box::new(body_type)),
                ),
            }
        },
    }
}

/// Types a whole program, starting without bindings.
pub fn type_check(expression: &AST) -> (result: Result<TypeExpr, TypeError>)
    ensures
        outcome_view(result) == type_of(expression@),
{
    let mut environment = TypeEnvironment::new();
    check(&mut environment, expression)
}

/// Checking a tree twice gives the same answer: what the checker returns is
/// decided by the tree alone, so any two results for trees with the same
/// value agree, whatever was checked in between.
pub proof fn lemma_type_check_repeatable(
    once: AST,
    again: AST,
    first: Result<TypeExpr, TypeError>,
    second: Result<TypeExpr, TypeError>,
)
    requires
        once@ == again@,
        outcome_view(first) == type_of(once@),
        outcome_view(second) == type_of(again@),
    ensures
        outcome_view(first) == outcome_view(second),
{
}

/// A name that nothing has bound is a fault that carries the name.
pub proof fn lemma_unbound_variable(scope: Map<Seq<char>, TypeExpr>, name: Seq<char>)
    requires
        !scope.contains_key(name),
    ensures
        check_outcome(scope, Expr::Variable(name)).1 == Err::<TypeExpr, TypeFault>(
            TypeFault::UndefinedVariable(name),
        ),
{
}

} // verus!
