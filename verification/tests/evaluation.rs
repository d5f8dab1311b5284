//! Evaluator tests: whole programs and their exact rational results.

use zn_lang::ast::{
    ASTBinaryOperatorKind, ASTExpression, ASTStatement, ASTUnaryOperator, ASTUnaryOperatorKind,
    Ast,
};
use zn_lang::compilation_unit::CompilationUnit;
use zn_lang::lexer::{TextSpan, Token, TokenKind};
use zn_lang::solver::ASTSolver;
use zn_lang::value::{apply_binary, apply_unary, EvalError, Value};

const FUEL: u32 = 64;

fn run_ok(input: &str) -> Value {
    let unit = CompilationUnit::compile(input).expect("compilation should succeed");
    let result = unit.run(FUEL).expect("evaluation should succeed");
    result.expect("the program should produce a value")
}

fn run_err(input: &str) -> EvalError {
    let unit = CompilationUnit::compile(input).expect("compilation should succeed");
    match unit.run(FUEL) {
        Ok(_) => panic!("evaluation should fail"),
        Err(e) => e,
    }
}

#[test]
fn precedence_multiplication_binds_tighter() {
    let v = run_ok("return 2 + 3 * 4;");
    assert_eq!(v, Value { num: 14, den: 1 });
}

#[test]
fn parentheses_override_precedence() {
    let v = run_ok("return (2 + 3) * 4;");
    assert_eq!(v, Value { num: 20, den: 1 });
}

#[test]
fn subtraction_associates_to_the_left() {
    let v = run_ok("return 10 - 3 - 2;");
    assert_eq!(v, Value { num: 5, den: 1 });
}

#[test]
fn division_is_exact() {
    let v = run_ok("return 10 / 4;");
    assert_eq!(v.num * 2, v.den * 5);
}

#[test]
fn call_binds_parameters_and_globals_stay() {
    let v = run_ok("let a = 1;\nfunc f(a) { return a; }\nreturn f(5);");
    assert_eq!(v, Value { num: 5, den: 1 });
    let w = run_ok("let a = 1;\nfunc f(a) { return a; }\nlet c = f(5);\nreturn a;");
    assert_eq!(w, Value { num: 1, den: 1 });
}

#[test]
fn end_to_end_function_program() {
    let input = "func a(c){ let e = 2.15; let g = (10+2)*c - e + 4; return e*c; } return a(7);";
    let unit = CompilationUnit::compile(input).expect("compilation should succeed");
    assert_eq!(unit.ast.statements.len(), 2);
    let v = unit
        .run(FUEL)
        .expect("evaluation should succeed")
        .expect("the program should produce a value");
    // 2.15 * 7 == 15.05, exactly.
    assert_eq!(v, Value { num: 1505, den: 100 });
}

#[test]
fn return_stops_the_remaining_statements() {
    let v = run_ok("func f(x) { return x; let y = 3; return y; } return f(2);");
    assert_eq!(v, Value { num: 2, den: 1 });
}

#[test]
fn logical_operators_evaluate_both_operands() {
    // The operator table only climbs over the four arithmetic
    // operators, so the logical forms are exercised on built trees.
    let and = apply_binary(
        ASTBinaryOperatorKind::LogicAND,
        Value { num: 0, den: 1 },
        Value { num: 1, den: 1 },
    );
    assert_eq!(and, Ok(Value { num: 0, den: 1 }));
    let or = apply_binary(
        ASTBinaryOperatorKind::LogicOR,
        Value { num: 0, den: 1 },
        Value { num: 2, den: 1 },
    );
    assert_eq!(or, Ok(Value { num: 1, den: 1 }));
}

#[test]
fn bitwise_operators_truncate_first() {
    // 13/2 truncates to 6 before the bitwise operation.
    let v = apply_binary(
        ASTBinaryOperatorKind::BitwiseAND,
        Value { num: 13, den: 2 },
        Value { num: 3, den: 1 },
    );
    assert_eq!(v, Ok(Value { num: 2, den: 1 }));
    let w = apply_binary(
        ASTBinaryOperatorKind::BitwiseOR,
        Value { num: 5, den: 1 },
        Value { num: 2, den: 1 },
    );
    assert_eq!(w, Ok(Value { num: 7, den: 1 }));
    let u = apply_binary(
        ASTBinaryOperatorKind::BitwiseXOR,
        Value { num: 5, den: 1 },
        Value { num: 3, den: 1 },
    );
    assert_eq!(u, Ok(Value { num: 6, den: 1 }));
}

#[test]
fn comparisons_yield_one_or_zero() {
    // 7/2 > 3 exactly, which float arithmetic could miss for closer
    // fractions.
    let lt = apply_binary(
        ASTBinaryOperatorKind::LessThan,
        Value { num: 3, den: 1 },
        Value { num: 4, den: 1 },
    );
    assert_eq!(lt, Ok(Value { num: 1, den: 1 }));
    let gt = apply_binary(
        ASTBinaryOperatorKind::GreaterThan,
        Value { num: 7, den: 2 },
        Value { num: 3, den: 1 },
    );
    assert_eq!(gt, Ok(Value { num: 1, den: 1 }));
    let eq = apply_binary(
        ASTBinaryOperatorKind::EqualTo,
        Value { num: 7, den: 2 },
        Value { num: 14, den: 4 },
    );
    assert_eq!(eq, Ok(Value { num: 1, den: 1 }));
}

#[test]
fn unary_operators_on_built_trees() {
    let mut ast = Ast::new();
    ast.add_statement(ASTStatement::return_statement(ASTExpression::unary(
        ASTUnaryOperator {
            kind: ASTUnaryOperatorKind::Minus,
            token: Token::new(TokenKind::Minus, TextSpan::new(0, 1, "-".to_string())),
        },
        ASTExpression::integer(3),
    )));
    let mut solver = ASTSolver::new();
    solver.solve(&ast, FUEL).expect("evaluation should succeed");
    assert_eq!(solver.result_value(), Some(Value { num: -3, den: 1 }));
    assert_eq!(
        apply_unary(ASTUnaryOperatorKind::BitwiseNOT, Value { num: 0, den: 1 }),
        Ok(Value { num: -1, den: 1 })
    );
    assert_eq!(
        apply_unary(ASTUnaryOperatorKind::LogicNot, Value { num: 0, den: 1 }),
        Ok(Value { num: 1, den: 1 })
    );
}

#[test]
fn floating_literal_evaluates_exactly() {
    let v = run_ok("return 7.1;");
    assert_eq!(v, Value { num: 71, den: 10 });
}

#[test]
fn octal_and_hexadecimal_literals_evaluate() {
    assert_eq!(run_ok("return 071;"), Value { num: 57, den: 1 });
    assert_eq!(run_ok("return 0x2;"), Value { num: 2, den: 1 });
}

#[test]
fn division_by_zero_is_reported() {
    assert_eq!(run_err("return 1 / 0;"), EvalError::DivisionByZero);
}

#[test]
fn recursion_exhausts_the_fuel() {
    assert_eq!(
        run_err("func f(x) { return f(x); } return f(1);"),
        EvalError::RecursionLimit
    );
}

#[test]
fn assignment_mutates_the_nearest_binding() {
    // Built directly: the expression grammar has no assignment form.
    let mut ast = Ast::new();
    ast.add_statement(ASTStatement::let_statement(
        ident("a"),
        ASTExpression::integer(1),
    ));
    ast.add_statement(ASTStatement::expression(ASTExpression::assignment(
        ident("a"),
        ASTExpression::integer(9),
    )));
    ast.add_statement(ASTStatement::return_statement(ASTExpression::identifier(
        ident("a"),
    )));
    let mut solver = ASTSolver::new();
    solver.solve(&ast, FUEL).expect("evaluation should succeed");
    assert_eq!(solver.result_value(), Some(Value { num: 9, den: 1 }));
}

fn ident(name: &str) -> Token {
    Token::new(
        TokenKind::Identifier,
        TextSpan::new(0, name.len(), name.to_string()),
    )
}

#[test]
fn assignment_to_undeclared_name_fails_loudly() {
    // Built directly, since the resolver would reject this program.
    let mut ast = Ast::new();
    ast.add_statement(ASTStatement::expression(ASTExpression::assignment(
        ident("ghostly"),
        ASTExpression::integer(1),
    )));
    let mut solver = ASTSolver::new();
    assert_eq!(solver.solve(&ast, FUEL), Err(EvalError::UndefinedVariable));
}

#[test]
fn conditional_takes_the_right_branch() {
    let kw = ident("if");
    let mut ast = Ast::new();
    ast.add_statement(ASTStatement::conditional(
        kw,
        ASTExpression::integer(0),
        ASTStatement::return_statement(ASTExpression::integer(1)),
        Some(zn_lang::ast::ASTElseStatement {
            else_keyword: ident("else"),
            else_branch: Box::new(ASTStatement::return_statement(ASTExpression::integer(2))),
        }),
    ));
    let mut solver = ASTSolver::new();
    solver.solve(&ast, FUEL).expect("evaluation should succeed");
    assert_eq!(solver.result_value(), Some(Value { num: 2, den: 1 }));
}
