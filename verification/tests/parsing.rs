//! Parser tests: each source text must produce exactly the expected
//! flattened tree.

use zn_lang::ast::{ASTExpression, ASTExpressionKind, ASTStatement, ASTStatementKind, Ast};
use zn_lang::compilation_unit::CompilationUnit;
use zn_lang::lexer::TokenKind;

#[derive(Debug, PartialEq)]
enum TestASTNode {
    Floating(i64, i64, i64),
    Integer(i64),
    Variable(String),
    LetStatement(String),
    ReturnStatement,
    FunctionStatement(Vec<String>),
    BinaryExpr(TokenKind),
    UnaryExpr(TokenKind),
    ParenExpr,
    FunctionCall(String),
}

fn flatten_expr(e: &ASTExpression, out: &mut Vec<TestASTNode>) {
    match &e.kind {
        ASTExpressionKind::IntegerLiteral(i) => out.push(TestASTNode::Integer(*i)),
        ASTExpressionKind::FloatingLiteral(f) => {
            out.push(TestASTNode::Floating(f.whole, f.frac, f.denom))
        }
        ASTExpressionKind::Variable(v) => {
            out.push(TestASTNode::Variable(v.identifier.span.literal.clone()))
        }
        ASTExpressionKind::Unary(u) => {
            out.push(TestASTNode::UnaryExpr(u.operator.token.kind));
            flatten_expr(&u.expr, out);
        }
        ASTExpressionKind::Binary(b) => {
            out.push(TestASTNode::BinaryExpr(b.operator.token.kind));
            flatten_expr(&b.left, out);
            flatten_expr(&b.right, out);
        }
        ASTExpressionKind::Parenthesized(p) => {
            out.push(TestASTNode::ParenExpr);
            flatten_expr(&p.expr, out);
        }
        ASTExpressionKind::FunctionCall(c) => {
            out.push(TestASTNode::FunctionCall(c.identifier.span.literal.clone()));
            for arg in c.arguments.iter() {
                flatten_expr(arg, out);
            }
        }
        ASTExpressionKind::Assignment(_) => {}
        ASTExpressionKind::Error(_) => {}
    }
}

fn flatten_stmt(s: &ASTStatement, out: &mut Vec<TestASTNode>) {
    match &s.kind {
        ASTStatementKind::Expression(e) => flatten_expr(e, out),
        ASTStatementKind::LetStatement(l) => {
            out.push(TestASTNode::LetStatement(l.identifier.span.literal.clone()));
            flatten_expr(&l.initializer, out);
        }
        ASTStatementKind::ReturnStatement(r) => {
            out.push(TestASTNode::ReturnStatement);
            flatten_expr(&r.expr, out);
        }
        ASTStatementKind::CompoundStatement(c) => {
            for inner in c.statements.iter() {
                flatten_stmt(inner, out);
            }
        }
        ASTStatementKind::FunctionStatement(f) => {
            let mut names = Vec::new();
            names.push(f.identifier.span.literal.clone());
            for arg in f.arguments.iter() {
                names.push(arg.identifier.span.literal.clone());
            }
            out.push(TestASTNode::FunctionStatement(names));
            flatten_stmt(&f.body, out);
        }
        ASTStatementKind::ConditionalStatement(c) => {
            flatten_expr(&c.condition, out);
            flatten_stmt(&c.then_branch, out);
            if let Some(e) = &c.else_branch {
                flatten_stmt(&e.else_branch, out);
            }
        }
    }
}

fn flatten(ast: &Ast) -> Vec<TestASTNode> {
    let mut out = Vec::new();
    for s in ast.statements.iter() {
        flatten_stmt(s, &mut out);
    }
    out
}

fn verify_ast(input: &str, expected: Vec<TestASTNode>) {
    let compilation_unit = CompilationUnit::compile(input);
    assert!(compilation_unit.is_ok());
    let actual = match compilation_unit {
        Ok(c) => flatten(&c.ast),
        Err(_) => Vec::new(),
    };
    assert_eq!(
        expected.len(),
        actual.len(),
        "Expected {} nodes only has {} ",
        expected.len(),
        actual.len()
    );
    for (ac, ex) in actual.iter().zip(expected.iter()) {
        assert_eq!(ac, ex, "Node do not match. Expected {:?} but found {:?}", ex, ac)
    }
}

#[test]
fn should_parse_let_statement() {
    let input = "let a = 10;";
    let expected_ast = vec![
        TestASTNode::LetStatement("a".to_string()),
        TestASTNode::Integer(10),
    ];
    verify_ast(input, expected_ast);
}

#[test]
fn should_parse_return_statement() {
    let input = "let a = 7;
                           return a + 10;
                           ";
    let expected_ast = vec![
        TestASTNode::LetStatement("a".to_string()),
        TestASTNode::Integer(7),
        TestASTNode::ReturnStatement,
        TestASTNode::BinaryExpr(TokenKind::Plus),
        TestASTNode::Variable("a".to_string()),
        TestASTNode::Integer(10),
    ];
    verify_ast(input, expected_ast);
}

#[test]
fn should_parse_simple_binary_addition_statement() {
    let input = "10 + 3.1415;";
    let expected_ast = vec![
        TestASTNode::BinaryExpr(TokenKind::Plus),
        TestASTNode::Integer(10),
        TestASTNode::Floating(3, 1415, 10000),
    ];
    verify_ast(input, expected_ast);
}

#[test]
fn should_parse_complex_binary_statement() {
    let input = "let a = (7.2 - 10) / 2 + 3.1415 * 8;";
    let expected_ast = vec![
        TestASTNode::LetStatement("a".to_string()),
        TestASTNode::BinaryExpr(TokenKind::Plus),
        TestASTNode::BinaryExpr(TokenKind::Slash),
        TestASTNode::ParenExpr,
        TestASTNode::BinaryExpr(TokenKind::Minus),
        TestASTNode::Floating(7, 2, 10),
        TestASTNode::Integer(10),
        TestASTNode::Integer(2),
        TestASTNode::BinaryExpr(TokenKind::Astrisk),
        TestASTNode::Floating(3, 1415, 10000),
        TestASTNode::Integer(8),
    ];
    verify_ast(input, expected_ast);
}

#[test]
fn should_parse_function_declaration() {
    let input = "func f(a, b, c) { return a + b + c; }";
    let expected_ast = vec![
        TestASTNode::FunctionStatement(vec![
            "f".to_string(), // function name
            "a".to_string(),
            "b".to_string(),
            "c".to_string(),
        ]),
        TestASTNode::ReturnStatement,
        TestASTNode::BinaryExpr(TokenKind::Plus),
        TestASTNode::BinaryExpr(TokenKind::Plus),
        TestASTNode::Variable("a".to_string()),
        TestASTNode::Variable("b".to_string()),
        TestASTNode::Variable("c".to_string()),
    ];
    verify_ast(input, expected_ast);
}

#[test]
fn should_parse_function_call() {
    let input = "\
        func f(a, b, c) { return a + b + c; }
        f(1, 2, 6)
        ";
    let expected_ast = vec![
        TestASTNode::FunctionStatement(vec![
            "f".to_string(), // function name
            "a".to_string(),
            "b".to_string(),
            "c".to_string(),
        ]),
        TestASTNode::ReturnStatement,
        TestASTNode::BinaryExpr(TokenKind::Plus),
        TestASTNode::BinaryExpr(TokenKind::Plus),
        TestASTNode::Variable("a".to_string()),
        TestASTNode::Variable("b".to_string()),
        TestASTNode::Variable("c".to_string()),
        TestASTNode::FunctionCall("f".to_string()),
        TestASTNode::Integer(1),
        TestASTNode::Integer(2),
        TestASTNode::Integer(6),
    ];
    verify_ast(input, expected_ast);
}

#[test]
fn precedence_shapes_the_tree() {
    let input = "2 + 3 * 4;";
    let expected_ast = vec![
        TestASTNode::BinaryExpr(TokenKind::Plus),
        TestASTNode::Integer(2),
        TestASTNode::BinaryExpr(TokenKind::Astrisk),
        TestASTNode::Integer(3),
        TestASTNode::Integer(4),
    ];
    verify_ast(input, expected_ast);
}

#[test]
fn trailing_comma_in_arguments_is_tolerated_with_a_diagnostic() {
    let r = CompilationUnit::compile("func f(a) { return a; } f(1,);");
    match r {
        Ok(_) => panic!("compilation should fail"),
        Err(d) => {
            assert_eq!(d.diagnostics.len(), 1);
            assert_eq!(d.diagnostics[0].message, "Expected <)>, but found <,>");
        }
    }
}

#[test]
fn expected_expression_diagnostic_for_stray_token() {
    let r = CompilationUnit::compile("return ;,");
    match r {
        Ok(_) => panic!("compilation should fail"),
        Err(d) => {
            assert!(d.diagnostics.len() >= 1);
            assert_eq!(d.diagnostics[0].message, "Expected expression, but found <,>");
        }
    }
}
