use typed_lambda::ast::{TBoolean, TypeExpr, VariableDeclaration, AST};
use typed_lambda::parser::{
    parse, parse_function, parse_function_type, parse_ground_type_expression, parse_let_expr,
    parse_type_expression, parse_variable_declaration_with_type, ParseFailure,
};

fn declare(name: &str, typing: TypeExpr) -> Box<VariableDeclaration<'_>> {
    Box::new(VariableDeclaration { name, typing })
}

fn arrow(parameter: TypeExpr, result: TypeExpr) -> TypeExpr {
    TypeExpr::Function(Box::new(parameter), Box::new(result))
}

fn text(value: &str) -> AST<'static> {
    AST::StringLiteral(value.to_owned())
}

fn digits(value: &str) -> AST<'static> {
    AST::NumberLiteral(value.to_owned())
}

#[test]
fn test_let_expr_simple() {
    assert_eq!(
        parse_let_expr(r#"let x: string = "bla" in x"#),
        Ok((
            "",
            AST::Let {
                variable_declaration: declare("x", TypeExpr::String),
                variable_expression: Box::new(text("bla")),
                expression: Box::new(AST::Variable("x")),
            }
        ))
    );
}

#[test]
fn test_let_expr_nested_in_body() {
    assert_eq!(
        parse_let_expr(r#"let x: string = "bla" in let y: number = 123 in y"#),
        Ok((
            "",
            AST::Let {
                variable_declaration: declare("x", TypeExpr::String),
                variable_expression: Box::new(text("bla")),
                expression: Box::new(AST::Let {
                    variable_declaration: declare("y", TypeExpr::Number),
                    variable_expression: Box::new(digits("123")),
                    expression: Box::new(AST::Variable("y")),
                }),
            }
        ))
    );
}

#[test]
fn test_let_expr_nested_in_bound() {
    assert_eq!(
        parse(r#"let x: number = let y: number = 1 in 2 in y"#),
        Ok((
            "",
            AST::Let {
                variable_declaration: declare("x", TypeExpr::Number),
                variable_expression: Box::new(AST::Let {
                    variable_declaration: declare("y", TypeExpr::Number),
                    variable_expression: Box::new(digits("1")),
                    expression: Box::new(digits("2")),
                }),
                expression: Box::new(AST::Variable("y")),
            }
        ))
    );
}

#[test]
fn test_let_expr_without_type() {
    // A declaration always carries its type.
    assert_eq!(parse_let_expr("let x = 5 in x"), Err(ParseFailure { remaining: " = 5 in x" }));
    assert_eq!(parse("let x = 5 in x"), Ok((" x = 5 in x", AST::Variable("let"))));
}

#[test]
fn test_let_expr_does_not_compare_types() {
    assert_eq!(
        parse_let_expr("let x: number = true in 123"),
        Ok((
            "",
            AST::Let {
                variable_declaration: declare("x", TypeExpr::Number),
                variable_expression: Box::new(AST::BooleanLiteral(TBoolean::True)),
                expression: Box::new(digits("123")),
            }
        ))
    );
}

#[test]
fn test_let_expr_rejections() {
    assert_eq!(parse_let_expr("lex x"), Err(ParseFailure { remaining: "lex x" }));
    assert_eq!(parse_let_expr("let 1: number"), Err(ParseFailure { remaining: "1: number" }));
    assert_eq!(parse_let_expr("let x: int = 1 in x"), Err(ParseFailure { remaining: "int = 1 in x" }));
    assert_eq!(parse_let_expr("let x: number= 1 in x"), Err(ParseFailure { remaining: "= 1 in x" }));
    assert_eq!(parse_let_expr("let x: number = ?"), Err(ParseFailure { remaining: "?" }));
    assert_eq!(parse_let_expr("let x: number = 1 of x"), Err(ParseFailure { remaining: " of x" }));
    assert_eq!(parse_let_expr("let x: number = 1 in "), Err(ParseFailure { remaining: "" }));
}

#[test]
fn test_function_simple() {
    assert_eq!(
        parse_function(r#"\x: number. x"#),
        Ok((
            "",
            AST::Function {
                parameter: declare("x", TypeExpr::Number),
                body: Box::new(AST::Variable("x")),
            }
        ))
    );
}

#[test]
fn test_function_nested() {
    assert_eq!(
        parse_function(r#"\x: number. \y: string. x"#),
        Ok((
            "",
            AST::Function {
                parameter: declare("x", TypeExpr::Number),
                body: Box::new(AST::Function {
                    parameter: declare("y", TypeExpr::String),
                    body: Box::new(AST::Variable("x")),
                }),
            }
        ))
    );
}

#[test]
fn test_function_with_function_parameter() {
    assert_eq!(
        parse(r#"\f: number -> string. f"#),
        Ok((
            "",
            AST::Function {
                parameter: declare("f", arrow(TypeExpr::Number, TypeExpr::String)),
                body: Box::new(AST::Variable("f")),
            }
        ))
    );
}

#[test]
fn test_function_rejections() {
    assert_eq!(parse_function("x: number. x"), Err(ParseFailure { remaining: "x: number. x" }));
    assert_eq!(parse_function(r#"\x. x"#), Err(ParseFailure { remaining: ". x" }));
    assert_eq!(parse_function(r#"\x: foo. x"#), Err(ParseFailure { remaining: "foo. x" }));
    assert_eq!(parse_function(r#"\x: number.x"#), Err(ParseFailure { remaining: ".x" }));
    assert_eq!(parse_function(r#"\x: number. "#), Err(ParseFailure { remaining: "" }));
}

#[test]
fn test_type_expression_boolean() {
    assert_eq!(parse_type_expression("boolean"), Ok(("", TypeExpr::Boolean)));
}

#[test]
fn test_type_expression_string() {
    assert_eq!(parse_type_expression("string"), Ok(("", TypeExpr::String)));
}

#[test]
fn test_type_expression_number() {
    assert_eq!(parse_type_expression("number"), Ok(("", TypeExpr::Number)));
}

#[test]
fn test_type_expression_arrow() {
    assert_eq!(
        parse_type_expression("string -> number"),
        Ok(("", arrow(TypeExpr::String, TypeExpr::Number)))
    );
}

#[test]
fn test_type_expression_arrows_associate_to_the_right() {
    let expected = arrow(TypeExpr::String, arrow(TypeExpr::Number, TypeExpr::Boolean));
    assert_eq!(parse_type_expression("string -> number -> boolean"), Ok(("", expected)));
    let other = arrow(arrow(TypeExpr::String, TypeExpr::Number), TypeExpr::Boolean);
    assert_ne!(parse_type_expression("string -> number -> boolean"), Ok(("", other)));
}

#[test]
fn test_type_expression_falls_back_to_ground_type() {
    assert_eq!(parse_type_expression("string -> "), Ok((" -> ", TypeExpr::String)));
    assert_eq!(parse_type_expression("number->number"), Ok(("->number", TypeExpr::Number)));
    assert_eq!(
        parse_type_expression("number -> string -> x"),
        Ok((" -> x", arrow(TypeExpr::Number, TypeExpr::String)))
    );
}

#[test]
fn test_type_expression_rejections() {
    assert_eq!(parse_type_expression("Number"), Err(ParseFailure { remaining: "Number" }));
    assert_eq!(parse_type_expression(""), Err(ParseFailure { remaining: "" }));
    assert_eq!(parse_ground_type_expression("bool"), Err(ParseFailure { remaining: "bool" }));
}

#[test]
fn test_function_type_needs_an_arrow() {
    assert_eq!(parse_function_type("number"), Err(ParseFailure { remaining: "" }));
    assert_eq!(parse_function_type("number -> x"), Err(ParseFailure { remaining: "x" }));
    assert_eq!(
        parse_function_type("number -> boolean."),
        Ok((".", arrow(TypeExpr::Number, TypeExpr::Boolean)))
    );
}

#[test]
fn test_variable_declaration() {
    assert_eq!(
        parse_variable_declaration_with_type("x: number = 1"),
        Ok((" = 1", VariableDeclaration { name: "x", typing: TypeExpr::Number }))
    );
    assert_eq!(
        parse_variable_declaration_with_type("x:number"),
        Err(ParseFailure { remaining: ":number" })
    );
    assert_eq!(
        parse_variable_declaration_with_type("y: string"),
        Ok(("", VariableDeclaration { name: "y", typing: TypeExpr::String }))
    );
}

#[test]
fn test_parse_literals() {
    assert_eq!(parse("true"), Ok(("", AST::BooleanLiteral(TBoolean::True))));
    assert_eq!(parse("FALSE"), Ok(("", AST::BooleanLiteral(TBoolean::False))));
    assert_eq!(parse("8354584"), Ok(("", digits("8354584"))));
    assert_eq!(parse(r#""true""#), Ok(("", text("true"))));
}

#[test]
fn test_parse_keywords_before_identifiers() {
    assert_eq!(parse("truth"), Ok(("", AST::Variable("truth"))));
    assert_eq!(parse("trueness"), Ok(("ness", AST::BooleanLiteral(TBoolean::True))));
    assert_eq!(parse("letter"), Ok(("", AST::Variable("letter"))));
    assert_eq!(parse("let"), Ok(("", AST::Variable("let"))));
}

#[test]
fn test_parse_leaves_what_follows() {
    assert_eq!(parse("y: string"), Ok((": string", AST::Variable("y"))));
    assert_eq!(parse("123testing"), Ok(("testing", digits("123"))));
    assert_eq!(parse("x y"), Ok((" y", AST::Variable("x"))));
}

#[test]
fn test_parse_reports_the_furthest_position() {
    assert_eq!(parse(""), Err(ParseFailure { remaining: "" }));
    assert_eq!(parse("?"), Err(ParseFailure { remaining: "?" }));
    assert_eq!(parse(r#"\x: foo. x"#), Err(ParseFailure { remaining: "foo. x" }));
    assert_eq!(parse(r#""abc"#), Err(ParseFailure { remaining: "" }));
    assert_eq!(parse(r#"\x: number. "ab\n""#), Err(ParseFailure { remaining: r#"\n""# }));
}

#[test]
fn test_parse_example_program() {
    let program = r#"let x: boolean -> number = \q: boolean. 123 in \y: string. x"#;
    assert_eq!(
        parse(program),
        Ok((
            "",
            AST::Let {
                variable_declaration: declare("x", arrow(TypeExpr::Boolean, TypeExpr::Number)),
                variable_expression: Box::new(AST::Function {
                    parameter: declare("q", TypeExpr::Boolean),
                    body: Box::new(digits("123")),
                }),
                expression: Box::new(AST::Function {
                    parameter: declare("y", TypeExpr::String),
                    body: Box::new(AST::Variable("x")),
                }),
            }
        ))
    );
}
