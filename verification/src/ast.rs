//! The abstract syntax tree: a single-owner tree of statement and
//! expression nodes, created by the parser and read by the resolver and
//! the evaluator.  Each node type has a ghost view, and `view_stmt_list`
//! gives the view of a whole statement list.

use vstd::prelude::*;
use vstd::string::StrSliceExecFns;
use crate::lexer::{FloatLiteral, TextSpan, Token, SpanView, TokenView};

verus! {

/// The unary operators: arithmetic negation, bitwise complement, logical
/// negation.
#[derive(Debug, Clone, Copy, PartialEq, Eq, Structural)]
pub enum ASTUnaryOperatorKind {
    Minus,
    BitwiseNOT,
    LogicNot,
}

/// A unary operator together with its originating token.
#[derive(Debug)]
pub struct ASTUnaryOperator {
    pub kind: ASTUnaryOperatorKind,
    pub token: Token,
}

/// The binary operators.
#[derive(Debug, Clone, Copy, PartialEq, Eq, Structural)]
pub enum ASTBinaryOperatorKind {
    Plus,
    Minus,
    Multiply,
    Divide,
    EqualTo,
    NotEqualTo,
    LogicAND,
    LogicOR,
    GreaterThan,
    GreaterThanOrEqual,
    LessThan,
    LessThanOrEqual,
    BitwiseOR,
    BitwiseAND,
    BitwiseXOR,
}

/// A binary operator together with its originating token.
#[derive(Debug)]
pub struct ASTBinaryOperator {
    pub kind: ASTBinaryOperatorKind,
    pub token: Token,
}

/// The fixed precedence table: multiplicative operators bind tightest,
/// then additive ones, and every other operator sits at the lowest tier.
pub open spec fn spec_precedence(kind: ASTBinaryOperatorKind) -> u8 {
    match kind {
        ASTBinaryOperatorKind::Plus => 5u8,
        ASTBinaryOperatorKind::Minus => 5u8,
        ASTBinaryOperatorKind::Multiply => 6u8,
        ASTBinaryOperatorKind::Divide => 6u8,
        _ => 1u8,
    }
}

impl ASTBinaryOperator {
    pub fn precedence(&self) -> (r: u8)
        ensures
            r == spec_precedence(self.kind),
    {
        match self.kind {
            ASTBinaryOperatorKind::Plus => 5,
            ASTBinaryOperatorKind::Minus => 5,
            ASTBinaryOperatorKind::Multiply => 6,
            ASTBinaryOperatorKind::Divide => 6,
            _ => 1,
        }
    }
}

/// The closed set of expression forms.
#[derive(Debug)]
pub enum ASTExpressionKind {
    IntegerLiteral(i64),
    FloatingLiteral(FloatLiteral),
    Unary(ASTUnaryExpression),
    Binary(ASTBinaryExpression),
    Parenthesized(ASTParenthesizedExpression),
    Variable(ASTVariableExpression),
    Assignment(ASTAssignmentExpression),
    FunctionCall(ASTFunctionCallExpression),
    Error(TextSpan),
}

#[derive(Debug)]
pub struct ASTExpression {
    pub kind: ASTExpressionKind,
}

#[derive(Debug)]
pub struct ASTUnaryExpression {
    pub operator: ASTUnaryOperator,
    pub expr: Box<ASTExpression>,
}

#[derive(Debug)]
pub struct ASTBinaryExpression {
    pub operator: ASTBinaryOperator,
    pub left: Box<ASTExpression>,
    pub right: Box<ASTExpression>,
}

#[derive(Debug)]
pub struct ASTParenthesizedExpression {
    pub expr: Box<ASTExpression>,
}

#[derive(Debug)]
pub struct ASTVariableExpression {
    pub identifier: Token,
}

#[derive(Debug)]
pub struct ASTAssignmentExpression {
    pub identifier: Token,
    pub expr: Box<ASTExpression>,
}

#[derive(Debug)]
pub struct ASTFunctionCallExpression {
    pub identifier: Token,
    pub arguments: Vec<ASTExpression>,
}

/// The closed set of statement forms.
#[derive(Debug)]
pub enum ASTStatementKind {
    Expression(ASTExpression),
    LetStatement(ASTLetStatement),
    ReturnStatement(ASTReturnStatement),
    CompoundStatement(ASTCompoundStatement),
    FunctionStatement(ASTFunctionStatement),
    ConditionalStatement(ASTConditionalStatement),
}

#[derive(Debug)]
pub struct ASTLetStatement {
    pub identifier: Token,
    pub initializer: ASTExpression,
}

#[derive(Debug)]
pub struct ASTReturnStatement {
    pub expr: ASTExpression,
}

#[derive(Debug)]
pub struct ASTCompoundStatement {
    pub statements: Vec<ASTStatement>,
}

/// A single parameter name in a function declaration.
#[derive(Debug)]
pub struct FunctionArgumentDeclaration {
    pub identifier: Token,
}

#[derive(Debug)]
pub struct ASTFunctionStatement {
    pub identifier: Token,
    pub arguments: Vec<FunctionArgumentDeclaration>,
    pub body: Box<ASTStatement>,
}

#[derive(Debug)]
pub struct ASTElseStatement {
    pub else_keyword: Token,
    pub else_branch: Box<ASTStatement>,
}

#[derive(Debug)]
pub struct ASTConditionalStatement {
    pub keyword: Token,
    pub condition: ASTExpression,
    pub then_branch: Box<ASTStatement>,
    pub else_branch: Option<ASTElseStatement>,
}

#[derive(Debug)]
pub struct ASTStatement {
    pub kind: ASTStatementKind,
}

/// The parsed program: an ordered list of top-level statements.
#[derive(Debug)]
pub struct Ast {
    pub statements: Vec<ASTStatement>,
}

/// The mathematical value of a unary operator.
pub ghost struct UnaryOpView {
    pub kind: ASTUnaryOperatorKind,
    pub token: TokenView,
}

/// The mathematical value of a binary operator.
pub ghost struct BinaryOpView {
    pub kind: ASTBinaryOperatorKind,
    pub token: TokenView,
}

/// The mathematical value of an expression.
pub ghost enum ExprView {
    Integer(i64),
    Floating(FloatLiteral),
    Unary { op: UnaryOpView, expr: Box<ExprView> },
    Binary { op: BinaryOpView, left: Box<ExprView>, right: Box<ExprView> },
    Paren(Box<ExprView>),
    Variable(TokenView),
    Assignment { identifier: TokenView, expr: Box<ExprView> },
    Call { identifier: TokenView, arguments: Seq<ExprView> },
    ErrorExpr(SpanView),
}

/// The mathematical value of an `else` branch.
pub ghost struct ElseView {
    pub else_keyword: TokenView,
    pub else_branch: Box<StmtView>,
}

/// The mathematical value of a statement.
pub ghost enum StmtView {
    Expr(ExprView),
    LetStmt { identifier: TokenView, initializer: ExprView },
    ReturnStmt(ExprView),
    Compound(Seq<StmtView>),
    Function { identifier: TokenView, params: Seq<TokenView>, body: Box<StmtView> },
    Conditional {
        keyword: TokenView,
        condition: ExprView,
        then_branch: Box<StmtView>,
        else_branch: Option<ElseView>,
    },
}

pub open spec fn view_expr(e: ASTExpression) -> ExprView
    decreases e,
{
    match e.kind {
        ASTExpressionKind::IntegerLiteral(i) => ExprView::Integer(i),
        ASTExpressionKind::FloatingLiteral(f) => ExprView::Floating(f),
        ASTExpressionKind::Unary(u) => ExprView::Unary {
            op: UnaryOpView { kind: u.operator.kind, token: u.operator.token@ },
            expr: Box::new(view_expr(*u.expr)),
        },
        ASTExpressionKind::Binary(b) => ExprView::Binary {
            op: BinaryOpView { kind: b.operator.kind, token: b.operator.token@ },
            left: Box::new(view_expr(*b.left)),
            right: Box::new(view_expr(*b.right)),
        },
        ASTExpressionKind::Parenthesized(p) => ExprView::Paren(Box::new(view_expr(*p.expr))),
        ASTExpressionKind::Variable(v) => ExprView::Variable(v.identifier@),
        ASTExpressionKind::Assignment(a) => ExprView::Assignment {
            identifier: a.identifier@,
            expr: Box::new(view_expr(*a.expr)),
        },
        ASTExpressionKind::FunctionCall(c) => ExprView::Call {
            identifier: c.identifier@,
            arguments: view_expr_list(c.arguments@),
        },
        ASTExpressionKind::Error(span) => ExprView::ErrorExpr(span@),
    }
}

pub open spec fn view_expr_list(es: Seq<ASTExpression>) -> Seq<ExprView>
    decreases es,
{
    if es.len() == 0 {
        Seq::empty()
    } else {
        view_expr_list(es.drop_last()).push(view_expr(es.last()))
    }
}

pub open spec fn view_params(ps: Seq<FunctionArgumentDeclaration>) -> Seq<TokenView>
    decreases ps,
{
    if ps.len() == 0 {
        Seq::empty()
    } else {
        view_params(ps.drop_last()).push(ps.last().identifier@)
    }
}

pub open spec fn view_stmt(s: ASTStatement) -> StmtView
    decreases s,
{
    match s.kind {
        ASTStatementKind::Expression(e) => StmtView::Expr(view_expr(e)),
        ASTStatementKind::LetStatement(l) => StmtView::LetStmt {
            identifier: l.identifier@,
            initializer: view_expr(l.initializer),
        },
        ASTStatementKind::ReturnStatement(r) => StmtView::ReturnStmt(view_expr(r.expr)),
        ASTStatementKind::CompoundStatement(c) => StmtView::Compound(view_stmt_list(c.statements@)),
        ASTStatementKind::FunctionStatement(f) => StmtView::Function {
            identifier: f.identifier@,
            params: view_params(f.arguments@),
            body: Box::new(view_stmt(*f.body)),
        },
        ASTStatementKind::ConditionalStatement(c) => StmtView::Conditional {
            keyword: c.keyword@,
            condition: view_expr(c.condition),
            then_branch: Box::new(view_stmt(*c.then_branch)),
            else_branch: match c.else_branch {
                Some(e) => Some(ElseView {
                    else_keyword: e.else_keyword@,
                    else_branch: Box::new(view_stmt(*e.else_branch)),
                }),
                None => None,
            },
        },
    }
}

pub open spec fn view_stmt_list(ss: Seq<ASTStatement>) -> Seq<StmtView>
    decreases ss,
{
    if ss.len() == 0 {
        Seq::empty()
    } else {
        view_stmt_list(ss.drop_last()).push(view_stmt(ss.last()))
    }
}

impl View for ASTExpression {
    type V = ExprView;

    open spec fn view(&self) -> ExprView {
        view_expr(*self)
    }
}

impl View for ASTStatement {
    type V = StmtView;

    open spec fn view(&self) -> StmtView {
        view_stmt(*self)
    }
}

impl View for Ast {
    type V = Seq<StmtView>;

    open spec fn view(&self) -> Seq<StmtView> {
        view_stmt_list(self.statements@)
    }
}

/// Appending one element extends a viewed expression list by its view.
pub proof fn lemma_view_expr_list_push(es: Seq<ASTExpression>, e: ASTExpression)
    ensures
        view_expr_list(es.push(e)) == view_expr_list(es).push(view_expr(e)),
{
    assert(es.push(e).drop_last() =~= es);
    assert(es.push(e).last() == e);
}

/// Appending one element extends a viewed parameter list by its view.
pub proof fn lemma_view_params_push(ps: Seq<FunctionArgumentDeclaration>, p: FunctionArgumentDeclaration)
    ensures
        view_params(ps.push(p)) == view_params(ps).push(p.identifier@),
{
    assert(ps.push(p).drop_last() =~= ps);
    assert(ps.push(p).last() == p);
}

/// Appending one element extends a viewed statement list by its view.
pub proof fn lemma_view_stmt_list_push(ss: Seq<ASTStatement>, s: ASTStatement)
    ensures
        view_stmt_list(ss.push(s)) == view_stmt_list(ss).push(view_stmt(s)),
{
    assert(ss.push(s).drop_last() =~= ss);
    assert(ss.push(s).last() == s);
}

/// The view of each element of a viewed expression list.
pub proof fn lemma_view_expr_list_index(es: Seq<ASTExpression>, i: int)
    requires
        0 <= i < es.len(),
    ensures
        view_expr_list(es).len() == es.len(),
        view_expr_list(es)[i] == view_expr(es[i]),
    decreases es,
{
    if es.len() > 0 {
        if i < es.len() - 1 {
            lemma_view_expr_list_index(es.drop_last(), i);
        } else {
            lemma_view_expr_list_len(es.drop_last());
        }
    }
}

/// A viewed expression list has the length of the list.
pub proof fn lemma_view_expr_list_len(es: Seq<ASTExpression>)
    ensures
        view_expr_list(es).len() == es.len(),
    decreases es,
{
    if es.len() > 0 {
        lemma_view_expr_list_len(es.drop_last());
    }
}

/// A viewed statement list has the length of the list.
pub proof fn lemma_view_stmt_list_len(ss: Seq<ASTStatement>)
    ensures
        view_stmt_list(ss).len() == ss.len(),
    decreases ss,
{
    if ss.len() > 0 {
        lemma_view_stmt_list_len(ss.drop_last());
    }
}

/// The view of each element of a viewed statement list.
pub proof fn lemma_view_stmt_list_index(ss: Seq<ASTStatement>, i: int)
    requires
        0 <= i < ss.len(),
    ensures
        view_stmt_list(ss).len() == ss.len(),
        view_stmt_list(ss)[i] == view_stmt(ss[i]),
    decreases ss,
{
    if ss.len() > 0 {
        if i < ss.len() - 1 {
            lemma_view_stmt_list_index(ss.drop_last(), i);
        } else {
            lemma_view_stmt_list_len(ss.drop_last());
        }
    }
}

/// A viewed parameter list has the length of the list, and the view of
/// each element.
pub proof fn lemma_view_params_index(ps: Seq<FunctionArgumentDeclaration>)
    ensures
        view_params(ps).len() == ps.len(),
        forall|i: int| 0 <= i < ps.len() ==> view_params(ps)[i] == ps[i].identifier@,
    decreases ps,
{
    if ps.len() > 0 {
        lemma_view_params_index(ps.drop_last());
    }
}

impl Ast {
    pub fn new() -> (r: Ast)
        ensures
            r@ == Seq::<StmtView>::empty(),
    {
        Ast { statements: Vec::new() }
    }

    pub fn add_statement(&mut self, statement: ASTStatement)
        ensures
            final(self)@ == old(self)@.push(statement@),
    {
        let ghost ss = self.statements@;
        self.statements.push(statement);
        proof {
            lemma_view_stmt_list_push(ss, statement);
        }
    }
}

/// An exact structural copy of an expression.
pub fn expr_copy(e: &ASTExpression) -> (r: ASTExpression)
    ensures
        r@ == e@,
    decreases *e, 0int,
{
    match &e.kind {
        ASTExpressionKind::IntegerLiteral(i) => ASTExpression {
            kind: ASTExpressionKind::IntegerLiteral(*i),
        },
        ASTExpressionKind::FloatingLiteral(f) => ASTExpression {
            kind: ASTExpressionKind::FloatingLiteral(*f),
        },
        ASTExpressionKind::Unary(u) => ASTExpression {
            kind: ASTExpressionKind::Unary(ASTUnaryExpression {
                operator: ASTUnaryOperator { kind: u.operator.kind, token: u.operator.token.duplicate() },
                expr: Box::new(expr_copy(&u.expr)),
            }),
        },
        ASTExpressionKind::Binary(b) => ASTExpression {
            kind: ASTExpressionKind::Binary(ASTBinaryExpression {
                operator: ASTBinaryOperator { kind: b.operator.kind, token: b.operator.token.duplicate() },
                left: Box::new(expr_copy(&b.left)),
                right: Box::new(expr_copy(&b.right)),
            }),
        },
        ASTExpressionKind::Parenthesized(p) => ASTExpression {
            kind: ASTExpressionKind::Parenthesized(ASTParenthesizedExpression {
                expr: Box::new(expr_copy(&p.expr)),
            }),
        },
        ASTExpressionKind::Variable(v) => ASTExpression {
            kind: ASTExpressionKind::Variable(ASTVariableExpression {
                identifier: v.identifier.duplicate(),
            }),
        },
        ASTExpressionKind::Assignment(a) => ASTExpression {
            kind: ASTExpressionKind::Assignment(ASTAssignmentExpression {
                identifier: a.identifier.duplicate(),
                expr: Box::new(expr_copy(&a.expr)),
            }),
        },
        ASTExpressionKind::FunctionCall(c) => {
            let arguments = exprs_copy(&c.arguments, c.arguments.len());
            proof {
                lemma_view_expr_list_len(c.arguments@);
                assert(view_expr_list(c.arguments@).take(c.arguments@.len() as int)
                    =~= view_expr_list(c.arguments@));
            }
            ASTExpression {
                kind: ASTExpressionKind::FunctionCall(ASTFunctionCallExpression {
                    identifier: c.identifier.duplicate(),
                    arguments,
                }),
            }
        },
        ASTExpressionKind::Error(span) => ASTExpression {
            kind: ASTExpressionKind::Error(span.duplicate()),
        },
    }
}

/// An exact copy of the first `n` expressions of a list.
pub fn exprs_copy(es: &Vec<ASTExpression>, n: usize) -> (r: Vec<ASTExpression>)
    requires
        n <= es@.len(),
    ensures
        view_expr_list(r@) == view_expr_list(es@).take(n as int),
    decreases *es, n, 1int,
{
    if n == 0 {
        let r: Vec<ASTExpression> = Vec::new();
        proof {
            assert(view_expr_list(r@) =~= view_expr_list(es@).take(0));
        }
        r
    } else {
        let mut r = exprs_copy(es, n - 1);
        let ghost before = r@;
        let c = expr_copy(&es[n - 1]);
        r.push(c);
        proof {
            lemma_view_expr_list_push(before, c);
            lemma_view_expr_list_index(es@, n - 1);
            assert(view_expr_list(es@).take(n as int).drop_last()
                =~= view_expr_list(es@).take(n - 1));
            assert(view_expr_list(es@).take(n as int)
                =~= view_expr_list(es@).take(n - 1).push(view_expr(es@[n - 1])));
        }
        r
    }
}

/// An exact structural copy of a statement.
pub fn stmt_copy(s: &ASTStatement) -> (r: ASTStatement)
    ensures
        r@ == s@,
    decreases *s, 0int,
{
    match &s.kind {
        ASTStatementKind::Expression(e) => ASTStatement {
            kind: ASTStatementKind::Expression(expr_copy(e)),
        },
        ASTStatementKind::LetStatement(l) => ASTStatement {
            kind: ASTStatementKind::LetStatement(ASTLetStatement {
                identifier: l.identifier.duplicate(),
                initializer: expr_copy(&l.initializer),
            }),
        },
        ASTStatementKind::ReturnStatement(rs) => ASTStatement {
            kind: ASTStatementKind::ReturnStatement(ASTReturnStatement {
                expr: expr_copy(&rs.expr),
            }),
        },
        ASTStatementKind::CompoundStatement(c) => {
            let statements = stmts_copy(&c.statements, c.statements.len());
            proof {
                lemma_view_stmt_list_len(c.statements@);
                assert(view_stmt_list(c.statements@).take(c.statements@.len() as int)
                    =~= view_stmt_list(c.statements@));
            }
            ASTStatement { kind: ASTStatementKind::CompoundStatement(ASTCompoundStatement {
                statements,
            }) }
        },
        ASTStatementKind::FunctionStatement(f) => {
            let arguments = params_copy(&f.arguments);
            proof {
                lemma_view_params_index(f.arguments@);
                lemma_view_params_index(arguments@);
                assert(view_params(arguments@) =~= view_params(f.arguments@));
            }
            ASTStatement {
                kind: ASTStatementKind::FunctionStatement(ASTFunctionStatement {
                    identifier: f.identifier.duplicate(),
                    arguments,
                    body: Box::new(stmt_copy(&f.body)),
                }),
            }
        },
        ASTStatementKind::ConditionalStatement(c) => {
            let else_branch = match &c.else_branch {
                Some(e) => Some(ASTElseStatement {
                    else_keyword: e.else_keyword.duplicate(),
                    else_branch: Box::new(stmt_copy(&e.else_branch)),
                }),
                None => None,
            };
            ASTStatement {
                kind: ASTStatementKind::ConditionalStatement(ASTConditionalStatement {
                    keyword: c.keyword.duplicate(),
                    condition: expr_copy(&c.condition),
                    then_branch: Box::new(stmt_copy(&c.then_branch)),
                    else_branch,
                }),
            }
        },
    }
}

/// An exact copy of the first `n` statements of a list.
pub fn stmts_copy(ss: &Vec<ASTStatement>, n: usize) -> (r: Vec<ASTStatement>)
    requires
        n <= ss@.len(),
    ensures
        view_stmt_list(r@) == view_stmt_list(ss@).take(n as int),
    decreases *ss, n, 1int,
{
    if n == 0 {
        let r: Vec<ASTStatement> = Vec::new();
        proof {
            assert(view_stmt_list(r@) =~= view_stmt_list(ss@).take(0));
        }
        r
    } else {
        let mut r = stmts_copy(ss, n - 1);
        let ghost before = r@;
        let c = stmt_copy(&ss[n - 1]);
        r.push(c);
        proof {
            lemma_view_stmt_list_push(before, c);
            lemma_view_stmt_list_index(ss@, n - 1);
            assert(view_stmt_list(ss@).take(n as int)
                =~= view_stmt_list(ss@).take(n - 1).push(view_stmt(ss@[n - 1])));
        }
        r
    }
}

/// An exact copy of a parameter list.
pub fn params_copy(ps: &Vec<FunctionArgumentDeclaration>) -> (r: Vec<FunctionArgumentDeclaration>)
    ensures
        r@.len() == ps@.len(),
        forall|i: int| 0 <= i < ps@.len()
            ==> #[trigger] r@[i].identifier@ == ps@[i].identifier@,
{
    let mut r: Vec<FunctionArgumentDeclaration> = Vec::new();
    let mut i: usize = 0;
    while i < ps.len()
        invariant
            i <= ps@.len(),
            r@.len() == i,
            forall|j: int| 0 <= j < i ==> #[trigger] r@[j].identifier@ == ps@[j].identifier@,
        decreases ps@.len() - i,
    {
        r.push(FunctionArgumentDeclaration { identifier: ps[i].identifier.duplicate() });
        i = i + 1;
    }
    r
}

impl ASTVariableExpression {
    /// The variable's name.
    pub fn identifier(&self) -> (r: &str)
        ensures
            r@ == self.identifier@.span.literal,
    {
        self.identifier.span.literal.as_str()
    }
}

impl ASTFunctionCallExpression {
    /// The callee's name.
    pub fn identifier(&self) -> (r: &str)
        ensures
            r@ == self.identifier@.span.literal,
    {
        self.identifier.span.literal.as_str()
    }
}

impl ASTExpression {
    pub fn error(span: TextSpan) -> (r: ASTExpression)
        ensures
            r@ == ExprView::ErrorExpr(span@),
    {
        ASTExpression { kind: ASTExpressionKind::Error(span) }
    }

    pub fn integer(i: i64) -> (r: ASTExpression)
        ensures
            r@ == ExprView::Integer(i),
    {
        ASTExpression { kind: ASTExpressionKind::IntegerLiteral(i) }
    }

    pub fn float(f: FloatLiteral) -> (r: ASTExpression)
        ensures
            r@ == ExprView::Floating(f),
    {
        ASTExpression { kind: ASTExpressionKind::FloatingLiteral(f) }
    }

    pub fn identifier(token: Token) -> (r: ASTExpression)
        ensures
            r@ == ExprView::Variable(token@),
    {
        ASTExpression { kind: ASTExpressionKind::Variable(ASTVariableExpression { identifier: token }) }
    }

    pub fn assignment(token: Token, expr: ASTExpression) -> (r: ASTExpression)
        ensures
            r@ == (ExprView::Assignment { identifier: token@, expr: Box::new(expr@) }),
    {
        ASTExpression {
            kind: ASTExpressionKind::Assignment(ASTAssignmentExpression {
                identifier: token,
                expr: Box::new(expr),
            }),
        }
    }

    pub fn unary(operator: ASTUnaryOperator, expr: ASTExpression) -> (r: ASTExpression)
        ensures
            r@ == (ExprView::Unary {
                op: UnaryOpView { kind: operator.kind, token: operator.token@ },
                expr: Box::new(expr@),
            }),
    {
        ASTExpression {
            kind: ASTExpressionKind::Unary(ASTUnaryExpression { operator, expr: Box::new(expr) }),
        }
    }

    pub fn binary(operator: ASTBinaryOperator, left: ASTExpression, right: ASTExpression) -> (r:
        ASTExpression)
        ensures
            r@ == (ExprView::Binary {
                op: BinaryOpView { kind: operator.kind, token: operator.token@ },
                left: Box::new(left@),
                right: Box::new(right@),
            }),
    {
        ASTExpression {
            kind: ASTExpressionKind::Binary(ASTBinaryExpression {
                operator,
                left: Box::new(left),
                right: Box::new(right),
            }),
        }
    }

    pub fn parenthesized(expr: ASTExpression) -> (r: ASTExpression)
        ensures
            r@ == ExprView::Paren(Box::new(expr@)),
    {
        ASTExpression {
            kind: ASTExpressionKind::Parenthesized(ASTParenthesizedExpression {
                expr: Box::new(expr),
            }),
        }
    }

    pub fn function_call(identifier: Token, arguments: Vec<ASTExpression>) -> (r: ASTExpression)
        ensures
            r@ == (ExprView::Call { identifier: identifier@, arguments: view_expr_list(arguments@) }),
    {
        ASTExpression {
            kind: ASTExpressionKind::FunctionCall(ASTFunctionCallExpression {
                identifier,
                arguments,
            }),
        }
    }
}

impl ASTStatement {
    pub fn expression(expr: ASTExpression) -> (r: ASTStatement)
        ensures
            r@ == StmtView::Expr(expr@),
    {
        ASTStatement { kind: ASTStatementKind::Expression(expr) }
    }

    pub fn return_statement(expr: ASTExpression) -> (r: ASTStatement)
        ensures
            r@ == StmtView::ReturnStmt(expr@),
    {
        ASTStatement { kind: ASTStatementKind::ReturnStatement(ASTReturnStatement { expr }) }
    }

    pub fn let_statement(identifier: Token, initializer: ASTExpression) -> (r: ASTStatement)
        ensures
            r@ == (StmtView::LetStmt { identifier: identifier@, initializer: initializer@ }),
    {
        ASTStatement {
            kind: ASTStatementKind::LetStatement(ASTLetStatement { identifier, initializer }),
        }
    }

    pub fn compound(statements: Vec<ASTStatement>) -> (r: ASTStatement)
        ensures
            r@ == StmtView::Compound(view_stmt_list(statements@)),
    {
        ASTStatement {
            kind: ASTStatementKind::CompoundStatement(ASTCompoundStatement { statements }),
        }
    }

    pub fn conditional(
        if_token: Token,
        condition: ASTExpression,
        then_branch: ASTStatement,
        else_branch: Option<ASTElseStatement>,
    ) -> (r: ASTStatement)
        ensures
            r@ == (StmtView::Conditional {
                keyword: if_token@,
                condition: condition@,
                then_branch: Box::new(then_branch@),
                else_branch: match else_branch {
                    Some(e) => Some(ElseView {
                        else_keyword: e.else_keyword@,
                        else_branch: Box::new(view_stmt(*e.else_branch)),
                    }),
                    None => None,
                },
            }),
    {
        ASTStatement {
            kind: ASTStatementKind::ConditionalStatement(ASTConditionalStatement {
                keyword: if_token,
                condition,
                then_branch: Box::new(then_branch),
                else_branch,
            }),
        }
    }

    pub fn function(
        identifier: Token,
        arguments: Vec<FunctionArgumentDeclaration>,
        body: ASTStatement,
    ) -> (r: ASTStatement)
        ensures
            r@ == (StmtView::Function {
                identifier: identifier@,
                params: view_params(arguments@),
                body: Box::new(body@),
            }),
    {
        ASTStatement {
            kind: ASTStatementKind::FunctionStatement(ASTFunctionStatement {
                identifier,
                arguments,
                body: Box::new(body),
            }),
        }
    }
}

} // verus!
