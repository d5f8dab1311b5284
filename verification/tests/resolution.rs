//! Resolver tests: which programs are rejected, with which diagnostics.

use zn_lang::ast::Ast;
use zn_lang::ast::ASTExpression;
use zn_lang::ast::ASTStatement;
use zn_lang::ast::FunctionArgumentDeclaration;
use zn_lang::lexer::TextSpan;
use zn_lang::lexer::Token;
use zn_lang::lexer::TokenKind;
use zn_lang::compilation_unit::CompilationUnit;
use zn_lang::diagnostics::DiagnosticsColletion;
use zn_lang::parser::Parser;
use zn_lang::symbol_checker::SymbolChecker;
use zn_lang::symbol_table::SymbolTable;

fn compile_err(input: &str) -> DiagnosticsColletion {
    match CompilationUnit::compile(input) {
        Ok(_) => panic!("compilation should fail"),
        Err(d) => d,
    }
}

#[test]
fn undefined_reference_reports_once_per_occurrence() {
    let d = compile_err("a + b;");
    assert_eq!(d.diagnostics.len(), 2);
    assert_eq!(d.diagnostics[0].message, "Not found in this scope");
    assert_eq!(d.diagnostics[1].message, "Not found in this scope");
}

#[test]
fn arity_mismatch_reports_expected_and_found() {
    let d = compile_err("func f(a, b) { return a + b; } f(1, 2, 3);");
    assert_eq!(d.diagnostics.len(), 1);
    assert_eq!(
        d.diagnostics[0].message,
        "Function f expects 2 arguments but 3 were given"
    );
}

#[test]
fn global_redeclaration_is_reported() {
    let d = compile_err("let a = 1; let a = 2;");
    assert_eq!(d.diagnostics.len(), 1);
    assert_eq!(d.diagnostics[0].message, "Redefinition of global symbol `a`");
}

#[test]
fn calling_a_constant_is_not_callable() {
    let d = compile_err("let a = 1; a(2);");
    assert_eq!(d.diagnostics.len(), 1);
    assert_eq!(d.diagnostics[0].message, "Identifier 'a' is not callable");
}

#[test]
fn calling_an_unknown_name_is_reported() {
    let d = compile_err("g(1);");
    assert_eq!(d.diagnostics.len(), 1);
    assert_eq!(d.diagnostics[0].message, "No identifier named 'g' in scope");
}

#[test]
fn assignment_to_undeclared_name_is_rejected() {
    // Built directly: the expression grammar has no assignment form, so
    // only a constructed tree can reach this check.
    let mut ast = Ast::new();
    ast.add_statement(ASTStatement::expression(ASTExpression::assignment(
        Token::new(TokenKind::Identifier, TextSpan::new(0, 1, "a".to_string())),
        ASTExpression::integer(3),
    )));
    let mut table = SymbolTable::new(DiagnosticsColletion::new());
    table.build(&ast);
    assert_eq!(table.diagnostics.diagnostics.len(), 1);
    assert_eq!(table.diagnostics.diagnostics[0].message, "Not found in this scope");
}

#[test]
fn parameters_resolve_inside_the_body_only() {
    assert!(CompilationUnit::compile("func f(x) { return x; } return f(1);").is_ok());
    let d = compile_err("func f(x) { return x; } return x;");
    assert_eq!(d.diagnostics.len(), 1);
    assert_eq!(d.diagnostics[0].message, "Not found in this scope");
}

#[test]
fn block_scoped_declarations_do_not_leak() {
    // Built directly: the statement grammar has no block form, so only
    // a constructed tree holds a nested compound statement.
    let name = |s: &str| Token::new(TokenKind::Identifier, TextSpan::new(0, s.len(), s.to_string()));
    let inner_block = ASTStatement::compound(vec![ASTStatement::let_statement(
        name("y"),
        ASTExpression::integer(1),
    )]);
    let body = ASTStatement::compound(vec![
        inner_block,
        ASTStatement::return_statement(ASTExpression::identifier(name("y"))),
    ]);
    let mut ast = Ast::new();
    ast.add_statement(ASTStatement::function(
        name("f"),
        vec![FunctionArgumentDeclaration { identifier: name("x") }],
        body,
    ));
    let mut table = SymbolTable::new(DiagnosticsColletion::new());
    table.build(&ast);
    assert_eq!(table.diagnostics.diagnostics.len(), 1);
    assert_eq!(table.diagnostics.diagnostics[0].message, "Not found in this scope");
}

#[test]
fn top_level_compound_is_rejected() {
    // Built directly: the statement grammar has no top-level block form,
    // so only a constructed tree can reach this check.
    let mut ast = Ast::new();
    ast.add_statement(ASTStatement::compound(Vec::new()));
    let mut table = SymbolTable::new(DiagnosticsColletion::new());
    table.build(&ast);
    assert_eq!(table.diagnostics.diagnostics.len(), 1);
    assert_eq!(
        table.diagnostics.diagnostics[0].message,
        "standalone Compound statement not allowed outside of functions"
    );
}

#[test]
fn flat_checker_accepts_declared_names() {
    let mut parser = Parser::from_input(
        "let a = 1; let b = a + 2; b;".to_string(),
        DiagnosticsColletion::new(),
    );
    let mut ast = Ast::new();
    while let Some(s) = parser.next_statement() {
        ast.add_statement(s);
    }
    let mut checker = SymbolChecker::new(parser.diagnostics);
    checker.check(&ast);
    assert_eq!(checker.diagnostics.diagnostics.len(), 0);
}

#[test]
fn flat_checker_reports_unknown_names() {
    let mut parser = Parser::from_input(
        "let a = q;".to_string(),
        DiagnosticsColletion::new(),
    );
    let mut ast = Ast::new();
    while let Some(s) = parser.next_statement() {
        ast.add_statement(s);
    }
    let mut checker = SymbolChecker::new(parser.diagnostics);
    checker.check(&ast);
    assert_eq!(checker.diagnostics.diagnostics.len(), 1);
    assert_eq!(checker.diagnostics.diagnostics[0].message, "Not found in this scope");
}
