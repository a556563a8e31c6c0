//! The syntax tree and the type language, with their mathematical views.

use vstd::prelude::*;
use vstd::string::StringExecFns;

verus! {

/// The value of a boolean literal.
#[derive(Clone, Copy, PartialEq, Eq, Structural, Debug)]
pub enum TBoolean {
    True,
    False,
}

/// A type of the language: one of three ground types, or a function type
/// from a parameter type to a return type.
///
/// Two type expressions are equal when they have the same shape, so the
/// specification-level `==` on this type is the equality the checker uses.
#[derive(Debug)]
pub enum TypeExpr {
    Number,
    String,
    Boolean,
    Function(Box<TypeExpr>, Box<TypeExpr>),
}

impl PartialEq for TypeExpr {
    fn eq(&self, other: &Self) -> (equal: bool)
        decreases self,
    {
        match (self, other) {
            (TypeExpr::Number, TypeExpr::Number) => true,
            (TypeExpr::String, TypeExpr::String) => true,
            (TypeExpr::Boolean, TypeExpr::Boolean) => true,
            (TypeExpr::Function(p, r), TypeExpr::Function(q, s)) => {
                (**p).eq(&**q) && (**r).eq(&**s)
            },
            _ => false,
        }
    }
}

impl vstd::std_specs::cmp::PartialEqSpecImpl for TypeExpr {
    open spec fn obeys_eq_spec() -> bool {
        true
    }

    open spec fn eq_spec(&self, other: &Self) -> bool {
        *self == *other
    }
}

impl Eq for TypeExpr {

}

impl Clone for TypeExpr {
    fn clone(&self) -> (copy: Self)
        ensures
            copy == *self,
        decreases self,
    {
        match self {
            TypeExpr::Number => TypeExpr::Number,
            TypeExpr::String => TypeExpr::String,
            TypeExpr::Boolean => TypeExpr::Boolean,
            TypeExpr::Function(p, r) => TypeExpr::Function(
                Box::new((**p).clone()),
                Box::new((**r).clone()),
            ),
        }
    }
}

impl View for TypeExpr {
    type V = TypeExpr;

    open spec fn view(&self) -> TypeExpr {
        *self
    }
}

/// The text that names a type expression in diagnostics: the name of a ground
/// type, or `Function(` parameter `, ` result `)`.
pub open spec fn type_text(t: TypeExpr) -> Seq<char>
    decreases t,
{
    match t {
        TypeExpr::Number => "Number"@,
        TypeExpr::String => "String"@,
        TypeExpr::Boolean => "Boolean"@,
        TypeExpr::Function(p, r) => "Function("@ + type_text(*p) + ", "@ + type_text(*r) + ")"@,
    }
}

impl TypeExpr {
    /// Renders the type expression as text.
    pub fn to_text(&self) -> (text: String)
        ensures
            text@ == type_text(*self),
        decreases self,
    {
        match self {
            TypeExpr::Number => String::from_str("Number"),
            TypeExpr::String => String::from_str("String"),
            TypeExpr::Boolean => String::from_str("Boolean"),
            TypeExpr::Function(p, r) => {
                let mut text = String::from_str("Function(");
                let parameter = (**p).to_text();
                text.append(parameter.as_str());
                text.append(", ");
                let result = (**r).to_text();
                text.append(result.as_str());
                text.append(")");
                text
            },
        }
    }
}

/// A name together with the type it is declared to have, as written at a
/// `let` binding or at a function parameter. The annotation is always present.
#[derive(PartialEq, Debug)]
pub struct VariableDeclaration<'a> {
    pub name: &'a str,
    pub typing: TypeExpr,
}

/// The mathematical value of a [`VariableDeclaration`].
pub struct Binding {
    pub name: Seq<char>,
    pub typing: TypeExpr,
}

impl<'a> View for VariableDeclaration<'a> {
    type V = Binding;

    open spec fn view(&self) -> Binding {
        Binding { name: self.name@, typing: self.typing }
    }
}

impl<'a> VariableDeclaration<'a> {
    /// Renders the declared type as text.
    pub fn typing_to_string(&self) -> (text: String)
        ensures
            text@ == type_text(self.typing),
    {
        self.typing.to_text()
    }
}

/// An expression of the language. Each node owns its children.
#[derive(PartialEq, Debug)]
pub enum AST<'a> {
    Variable(&'a str),
    BooleanLiteral(TBoolean),
    StringLiteral(String),
    NumberLiteral(String),
    Let {
        variable_declaration: Box<VariableDeclaration<'a>>,
        variable_expression: Box<AST<'a>>,
        expression: Box<AST<'a>>,
    },
    Function { parameter: Box<VariableDeclaration<'a>>, body: Box<AST<'a>> },
}

/// The mathematical value of an [`AST`]: the same tree with every piece of
/// text as a sequence of characters.
pub enum Expr {
    Variable(Seq<char>),
    BooleanLiteral(TBoolean),
    StringLiteral(Seq<char>),
    NumberLiteral(Seq<char>),
    Let { declaration: Binding, bound: Box<Expr>, body: Box<Expr> },
    Function { parameter: Binding, body: Box<Expr> },
}

impl<'a> View for AST<'a> {
    type V = Expr;

    open spec fn view(&self) -> Expr
        decreases self,
    {
        match self {
            AST::Variable(name) => Expr::Variable(name@),
            AST::BooleanLiteral(value) => Expr::BooleanLiteral(*value),
            AST::StringLiteral(text) => Expr::StringLiteral(text@),
            AST::NumberLiteral(digits) => Expr::NumberLiteral(digits@),
            AST::Let { variable_declaration, variable_expression, expression } => Expr::Let {
                declaration: (**variable_declaration).view(),
                bound: Box::new((**variable_expression).view()),
                body: Box::new((**expression).view()),
            },
            AST::Function { parameter, body } => Expr::Function {
                parameter: (**parameter).view(),
                body: Box::new((**body).view()),
            },
        }
    }
}

} // verus!
