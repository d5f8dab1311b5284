//! The recursive-descent parser.
//!
//! The parser consumes a token stream filtered of whitespace and statement
//! terminators and produces top-level statements, reporting — never
//! raising — diagnostics for malformed input.  Expression parsing uses
//! precedence climbing: a right operand is parsed recursively only for an
//! operator of strictly higher precedence than the caller's threshold,
//! which makes operators of equal precedence group to the left.
//!
//! Every parsing method is pinned down exactly by a specification-level
//! parser over the sequence of token views: the `spec_parse_*` functions
//! below give, for each entry position, the node produced, the position
//! after it, and the diagnostics appended.

use vstd::prelude::*;
use crate::ast::{
    ASTBinaryOperator, ASTBinaryOperatorKind, ASTExpression, ASTStatement,
    FunctionArgumentDeclaration, BinaryOpView, ExprView, StmtView, spec_precedence,
    view_expr_list, view_params, view_stmt_list, lemma_view_expr_list_push,
    lemma_view_params_push, lemma_view_stmt_list_push,
};
use crate::diagnostics::{
    DiagnosticsColletion, DiagnosticView, spec_expected_expression, spec_unexpected_token,
};
use crate::lexer::{Lexer, Token, TokenKind, TokenView, spec_eof_token, spec_next_token};

verus! {

/// The views of a sequence of tokens.
pub open spec fn view_tokens(ts: Seq<Token>) -> Seq<TokenView> {
    ts.map(|i: int, t: Token| t@)
}

/// How many tokens remain at position `pos`.
pub open spec fn rem(ts: Seq<TokenView>, pos: int) -> int {
    if pos <= ts.len() {
        ts.len() - pos
    } else {
        0
    }
}

/// The index actually read for position `i`: clamped into the token list,
/// so reads at or past the end see the final token.
pub open spec fn clamp_index(ts: Seq<TokenView>, i: int) -> int {
    if i < 0 {
        0
    } else if i >= ts.len() {
        ts.len() - 1
    } else {
        i
    }
}

/// The token seen at position `i`.
pub open spec fn tok_at(ts: Seq<TokenView>, i: int) -> TokenView {
    ts[clamp_index(ts, i)]
}

/// The position after consuming one token: the cursor never moves past
/// the end of the list.
pub open spec fn consume_pos(ts: Seq<TokenView>, pos: int) -> int {
    if pos < ts.len() {
        pos + 1
    } else {
        pos
    }
}

/// The token handed out by a consume at `pos`.
pub open spec fn consumed_tok(ts: Seq<TokenView>, pos: int) -> TokenView {
    tok_at(ts, consume_pos(ts, pos) - 1)
}

/// A consumed token, the position after it, and any diagnostics.
pub ghost struct PTok {
    pub tok: TokenView,
    pub pos: int,
    pub diags: Seq<DiagnosticView>,
}

/// A parsed expression, the position after it, and the diagnostics.
pub ghost struct PExpr {
    pub expr: ExprView,
    pub pos: int,
    pub diags: Seq<DiagnosticView>,
}

/// A parsed statement, the position after it, and the diagnostics.
pub ghost struct PStmt {
    pub stmt: StmtView,
    pub pos: int,
    pub diags: Seq<DiagnosticView>,
}

/// A parsed argument list, the position after it, and the diagnostics.
pub ghost struct PArgs {
    pub args: Seq<ExprView>,
    pub pos: int,
    pub diags: Seq<DiagnosticView>,
}

/// A parsed parameter list, the position after it, and the diagnostics.
pub ghost struct PParams {
    pub params: Seq<TokenView>,
    pub pos: int,
    pub diags: Seq<DiagnosticView>,
}

/// A parsed statement list, the position after it, and the diagnostics.
pub ghost struct PStmts {
    pub stmts: Seq<StmtView>,
    pub pos: int,
    pub diags: Seq<DiagnosticView>,
}

/// Consuming a token of an expected kind: the cursor always advances, and
/// a mismatch reports a diagnostic without halting.
pub open spec fn spec_consume_expected(ts: Seq<TokenView>, pos: int, expected: TokenKind) -> PTok {
    let t = consumed_tok(ts, pos);
    PTok {
        tok: t,
        pos: consume_pos(ts, pos),
        diags: if t.kind != expected {
            seq![spec_unexpected_token(expected, t)]
        } else {
            Seq::empty()
        },
    }
}

/// The binary operator denoted by the token at `pos`, if any.
pub open spec fn spec_binary_operator(ts: Seq<TokenView>, pos: int) -> Option<BinaryOpView> {
    let t = tok_at(ts, pos);
    match t.kind {
        TokenKind::Plus => Some(BinaryOpView { kind: ASTBinaryOperatorKind::Plus, token: t }),
        TokenKind::Minus => Some(BinaryOpView { kind: ASTBinaryOperatorKind::Minus, token: t }),
        TokenKind::Astrisk => Some(BinaryOpView { kind: ASTBinaryOperatorKind::Multiply, token: t }),
        TokenKind::Slash => Some(BinaryOpView { kind: ASTBinaryOperatorKind::Divide, token: t }),
        _ => None,
    }
}

/// The operator-climbing loop: as long as the current token is a binary
/// operator of strictly higher precedence than `prec`, consume it, parse
/// the right operand with that precedence, and fold it into `left`.
pub open spec fn spec_bin_loop(ts: Seq<TokenView>, pos: int, left: ExprView, prec: u8) -> PExpr
    decreases rem(ts, pos), 3int,
{
    match spec_binary_operator(ts, pos) {
        Some(op) => {
            if spec_precedence(op.kind) > prec && pos < ts.len() {
                let right = spec_parse_binary(ts, pos + 1, spec_precedence(op.kind));
                let folded = ExprView::Binary {
                    op,
                    left: Box::new(left),
                    right: Box::new(right.expr),
                };
                if right.pos > pos {
                    let rest = spec_bin_loop(ts, right.pos, folded, prec);
                    PExpr { expr: rest.expr, pos: rest.pos, diags: right.diags + rest.diags }
                } else {
                    PExpr { expr: folded, pos: right.pos, diags: right.diags }
                }
            } else {
                PExpr { expr: left, pos, diags: Seq::empty() }
            }
        },
        None => PExpr { expr: left, pos, diags: Seq::empty() },
    }
}

/// A binary expression: a primary operand followed by the climbing loop.
pub open spec fn spec_parse_binary(ts: Seq<TokenView>, pos: int, prec: u8) -> PExpr
    decreases rem(ts, pos), 4int,
{
    let first = spec_parse_primary(ts, pos);
    if first.pos >= pos {
        let looped = spec_bin_loop(ts, first.pos, first.expr, prec);
        PExpr { expr: looped.expr, pos: looped.pos, diags: first.diags + looped.diags }
    } else {
        first
    }
}

/// An expression: a binary expression with the lowest threshold.
pub open spec fn spec_parse_expression(ts: Seq<TokenView>, pos: int) -> PExpr
    decreases rem(ts, pos), 5int,
{
    spec_parse_binary(ts, pos, 0)
}

/// The argument-list loop.  Each round tolerates a stray comma (with a
/// diagnostic), parses one argument, and then either stops at a trailing
/// comma directly before the closing parenthesis (consuming the comma,
/// with a diagnostic) or steps over a separating comma.
pub open spec fn spec_args_loop(ts: Seq<TokenView>, pos: int) -> PArgs
    decreases rem(ts, pos), 6int,
{
    let cur = tok_at(ts, pos).kind;
    if cur == TokenKind::RightParen || cur == TokenKind::Eof || pos >= ts.len() {
        PArgs { args: Seq::empty(), pos, diags: Seq::empty() }
    } else {
        let comma_diags: Seq<DiagnosticView> = if cur == TokenKind::Comma {
            seq![spec_unexpected_token(TokenKind::Identifier, tok_at(ts, pos))]
        } else {
            Seq::empty()
        };
        let p1 = if cur == TokenKind::Comma {
            consume_pos(ts, pos)
        } else {
            pos
        };
        let arg = spec_parse_expression(ts, p1);
        let cur2 = tok_at(ts, arg.pos).kind;
        let nxt = tok_at(ts, arg.pos + 1).kind;
        if cur2 == TokenKind::Comma && nxt == TokenKind::RightParen {
            let close = spec_consume_expected(ts, arg.pos, TokenKind::RightParen);
            PArgs {
                args: seq![arg.expr],
                pos: close.pos,
                diags: comma_diags + arg.diags + close.diags,
            }
        } else {
            let p2 = if cur2 == TokenKind::Comma {
                consume_pos(ts, arg.pos)
            } else {
                arg.pos
            };
            if p2 > pos {
                let rest = spec_args_loop(ts, p2);
                PArgs {
                    args: seq![arg.expr] + rest.args,
                    pos: rest.pos,
                    diags: comma_diags + arg.diags + rest.diags,
                }
            } else {
                PArgs { args: seq![arg.expr], pos: p2, diags: comma_diags + arg.diags }
            }
        }
    }
}

/// An argument list: a leading comma is reported against the following
/// token and skipped, then the loop runs until the closing parenthesis.
pub open spec fn spec_parse_arguments(ts: Seq<TokenView>, pos: int) -> PArgs
    decreases rem(ts, pos), 7int,
{
    let leading = tok_at(ts, pos).kind == TokenKind::Comma;
    let d0: Seq<DiagnosticView> = if leading {
        seq![spec_unexpected_token(TokenKind::Identifier, tok_at(ts, pos + 1))]
    } else {
        Seq::empty()
    };
    let p0 = if leading {
        consume_pos(ts, pos)
    } else {
        pos
    };
    let body = spec_args_loop(ts, p0);
    PArgs { args: body.args, pos: body.pos, diags: d0 + body.diags }
}

/// A function call after its identifier: consume the opening parenthesis,
/// parse the arguments, and expect the closing parenthesis.
pub open spec fn spec_parse_call(ts: Seq<TokenView>, pos: int, ident: TokenView) -> PExpr
    decreases rem(ts, pos), 1int,
{
    let p1 = consume_pos(ts, pos);
    if p1 > pos {
        let args = spec_parse_arguments(ts, p1);
        let close = spec_consume_expected(ts, args.pos, TokenKind::RightParen);
        PExpr {
            expr: ExprView::Call { identifier: ident, arguments: args.args },
            pos: close.pos,
            diags: args.diags + close.diags,
        }
    } else {
        PExpr {
            expr: ExprView::Call { identifier: ident, arguments: Seq::empty() },
            pos: p1,
            diags: Seq::empty(),
        }
    }
}

/// A primary expression: a literal, a variable or call, a parenthesized
/// expression, or — for any other token — an "expected expression"
/// diagnostic and an error placeholder carrying that token's span.
pub open spec fn spec_parse_primary(ts: Seq<TokenView>, pos: int) -> PExpr
    decreases rem(ts, pos), 2int,
{
    let t = consumed_tok(ts, pos);
    let p1 = consume_pos(ts, pos);
    match t.kind {
        TokenKind::Integer(i) => PExpr { expr: ExprView::Integer(i), pos: p1, diags: Seq::empty() },
        TokenKind::Floating(f) => PExpr {
            expr: ExprView::Floating(f),
            pos: p1,
            diags: Seq::empty(),
        },
        TokenKind::Identifier => {
            if tok_at(ts, p1).kind == TokenKind::LeftParen {
                spec_parse_call(ts, p1, t)
            } else {
                PExpr { expr: ExprView::Variable(t), pos: p1, diags: Seq::empty() }
            }
        },
        TokenKind::LeftParen => {
            if p1 > pos {
                let inner = spec_parse_binary(ts, p1, 0);
                let close = spec_consume_expected(ts, inner.pos, TokenKind::RightParen);
                PExpr {
                    expr: ExprView::Paren(Box::new(inner.expr)),
                    pos: close.pos,
                    diags: inner.diags + close.diags,
                }
            } else {
                PExpr { expr: ExprView::ErrorExpr(t.span), pos: p1, diags: Seq::empty() }
            }
        },
        _ => PExpr {
            expr: ExprView::ErrorExpr(t.span),
            pos: p1,
            diags: seq![spec_expected_expression(t)],
        },
    }
}

/// A return statement: the keyword, then the returned expression.
pub open spec fn spec_parse_return(ts: Seq<TokenView>, pos: int) -> PStmt
    decreases rem(ts, pos), 8int,
{
    let kw = spec_consume_expected(ts, pos, TokenKind::Return);
    let e = spec_parse_expression(ts, kw.pos);
    PStmt { stmt: StmtView::ReturnStmt(e.expr), pos: e.pos, diags: kw.diags + e.diags }
}

/// A let statement: the keyword, the declared name, `=`, and the
/// initializer expression.
pub open spec fn spec_parse_let(ts: Seq<TokenView>, pos: int) -> PStmt
    decreases rem(ts, pos), 8int,
{
    let kw = spec_consume_expected(ts, pos, TokenKind::Let);
    let name = spec_consume_expected(ts, kw.pos, TokenKind::Identifier);
    let eq = spec_consume_expected(ts, name.pos, TokenKind::Equal);
    let e = spec_parse_expression(ts, eq.pos);
    PStmt {
        stmt: StmtView::LetStmt { identifier: name.tok, initializer: e.expr },
        pos: e.pos,
        diags: kw.diags + name.diags + eq.diags + e.diags,
    }
}

/// An expression statement: just an expression.
pub open spec fn spec_parse_expression_statement(ts: Seq<TokenView>, pos: int) -> PStmt
    decreases rem(ts, pos), 8int,
{
    let e = spec_parse_expression(ts, pos);
    PStmt { stmt: StmtView::Expr(e.expr), pos: e.pos, diags: e.diags }
}

/// The parameter-list loop: one identifier per round, stepping over a
/// separating comma, until the closing parenthesis.
pub open spec fn spec_params_loop(ts: Seq<TokenView>, pos: int) -> PParams
    decreases rem(ts, pos), 6int,
{
    let cur = tok_at(ts, pos).kind;
    if cur == TokenKind::RightParen || cur == TokenKind::Eof || pos >= ts.len() {
        PParams { params: Seq::empty(), pos, diags: Seq::empty() }
    } else {
        let name = spec_consume_expected(ts, pos, TokenKind::Identifier);
        let p2 = if tok_at(ts, name.pos).kind == TokenKind::Comma {
            consume_pos(ts, name.pos)
        } else {
            name.pos
        };
        if p2 > pos {
            let rest = spec_params_loop(ts, p2);
            PParams {
                params: seq![name.tok] + rest.params,
                pos: rest.pos,
                diags: name.diags + rest.diags,
            }
        } else {
            PParams { params: seq![name.tok], pos: p2, diags: name.diags }
        }
    }
}

/// The function-body loop: statements until the closing brace.
pub open spec fn spec_body_loop(ts: Seq<TokenView>, pos: int) -> PStmts
    decreases rem(ts, pos), 10int,
{
    let cur = tok_at(ts, pos).kind;
    if cur == TokenKind::RightBrace || cur == TokenKind::Eof || pos >= ts.len() {
        PStmts { stmts: Seq::empty(), pos, diags: Seq::empty() }
    } else {
        let s = spec_parse_statement(ts, pos);
        if s.pos > pos {
            let rest = spec_body_loop(ts, s.pos);
            PStmts {
                stmts: seq![s.stmt] + rest.stmts,
                pos: rest.pos,
                diags: s.diags + rest.diags,
            }
        } else {
            PStmts { stmts: seq![s.stmt], pos: s.pos, diags: s.diags }
        }
    }
}

/// A function declaration: the keyword, the name, the parenthesized
/// parameter list, and a brace-delimited compound body.
pub open spec fn spec_parse_function(ts: Seq<TokenView>, pos: int) -> PStmt
    decreases rem(ts, pos), 8int,
{
    let kw = spec_consume_expected(ts, pos, TokenKind::Func);
    let name = spec_consume_expected(ts, kw.pos, TokenKind::Identifier);
    let open = spec_consume_expected(ts, name.pos, TokenKind::LeftParen);
    let params = spec_params_loop(ts, open.pos);
    let close = spec_consume_expected(ts, params.pos, TokenKind::RightParen);
    let brace = spec_consume_expected(ts, close.pos, TokenKind::LeftBrace);
    let body = if pos < ts.len() && brace.pos > pos {
        spec_body_loop(ts, brace.pos)
    } else {
        PStmts { stmts: Seq::empty(), pos: brace.pos, diags: Seq::empty() }
    };
    let endbrace = spec_consume_expected(ts, body.pos, TokenKind::RightBrace);
    PStmt {
        stmt: StmtView::Function {
            identifier: name.tok,
            params: params.params,
            body: Box::new(StmtView::Compound(body.stmts)),
        },
        pos: endbrace.pos,
        diags: kw.diags + name.diags + open.diags + params.diags + close.diags + brace.diags
            + body.diags + endbrace.diags,
    }
}

/// Statement dispatch on the current token's kind.
pub open spec fn spec_parse_statement(ts: Seq<TokenView>, pos: int) -> PStmt
    decreases rem(ts, pos), 9int,
{
    let k = tok_at(ts, pos).kind;
    if k == TokenKind::Let {
        spec_parse_let(ts, pos)
    } else if k == TokenKind::Return {
        spec_parse_return(ts, pos)
    } else if k == TokenKind::Func {
        spec_parse_function(ts, pos)
    } else {
        spec_parse_expression_statement(ts, pos)
    }
}

/// A parsed program: its statements and all parsing diagnostics.
pub ghost struct PProgram {
    pub stmts: Seq<StmtView>,
    pub diags: Seq<DiagnosticView>,
}

/// Parsing a whole program: statements until the end-of-input token.
pub open spec fn spec_parse_program(ts: Seq<TokenView>, pos: int) -> PProgram
    decreases rem(ts, pos), 12int,
{
    if pos >= ts.len() || tok_at(ts, pos).kind == TokenKind::Eof {
        PProgram { stmts: Seq::empty(), diags: Seq::empty() }
    } else {
        let s = spec_parse_statement(ts, pos);
        if s.pos > pos {
            let rest = spec_parse_program(ts, s.pos);
            PProgram { stmts: seq![s.stmt] + rest.stmts, diags: s.diags + rest.diags }
        } else {
            PProgram { stmts: seq![s.stmt], diags: s.diags }
        }
    }
}

/// The token stream with whitespace and statement terminators removed.
pub open spec fn spec_filter_tokens(ts: Seq<TokenView>) -> Seq<TokenView>
    decreases ts,
{
    if ts.len() == 0 {
        Seq::empty()
    } else {
        let rest = spec_filter_tokens(ts.drop_last());
        if ts.last().kind == TokenKind::Whitespace || ts.last().kind == TokenKind::SemiColon {
            rest
        } else {
            rest.push(ts.last())
        }
    }
}

/// The filtered stream, completed with an end-of-input token where the
/// input did not supply one.
pub open spec fn spec_prepare_tokens(ts: Seq<TokenView>) -> Seq<TokenView> {
    let f = spec_filter_tokens(ts);
    if f.len() == 0 || f.last().kind != TokenKind::Eof {
        f.push(spec_eof_token())
    } else {
        f
    }
}

/// The whole token stream the lexer produces from state
/// (`cursor`, `fin`), ending with the end-of-input token.
pub open spec fn spec_lex_stream(s: Seq<char>, cursor: int, fin: bool) -> Seq<TokenView>
    decreases rem_chars(s, cursor), (if fin { 0int } else { 1int }),
{
    if fin {
        Seq::empty()
    } else if cursor >= s.len() {
        seq![spec_eof_token()]
    } else {
        let step = spec_next_token(s, cursor, false);
        match step.token {
            Some(t) => {
                if step.cursor > cursor {
                    seq![t] + spec_lex_stream(s, step.cursor, false)
                } else {
                    seq![t]
                }
            },
            None => Seq::empty(),
        }
    }
}

/// How many characters remain at `cursor`.
pub open spec fn rem_chars(s: Seq<char>, cursor: int) -> int {
    if cursor <= s.len() {
        s.len() - cursor
    } else {
        0
    }
}

/// Filtering distributes over appending one token.
pub proof fn lemma_filter_push(ts: Seq<TokenView>, t: TokenView)
    ensures
        spec_filter_tokens(ts.push(t)) == (
            if t.kind == TokenKind::Whitespace || t.kind == TokenKind::SemiColon {
                spec_filter_tokens(ts)
            } else {
                spec_filter_tokens(ts).push(t)
            }
        ),
{
    assert(ts.push(t).drop_last() =~= ts);
    assert(ts.push(t).last() == t);
}

/// Viewing distributes over appending one token.
pub proof fn lemma_view_tokens_push(ts: Seq<Token>, t: Token)
    ensures
        view_tokens(ts.push(t)) =~= view_tokens(ts).push(t@),
{
}

/// The parser: the filtered token list, a cursor, and the diagnostics
/// sink the parsing methods report into.
#[derive(Debug)]
pub struct Parser {
    pub tokens: Vec<Token>,
    pub cursor: usize,
    pub diagnostics: DiagnosticsColletion,
}

impl Parser {
    /// The views of the parser's tokens.
    pub closed spec fn toks(&self) -> Seq<TokenView> {
        view_tokens(self.tokens@)
    }

    /// The current position.
    pub closed spec fn at(&self) -> int {
        self.cursor as int
    }

    /// There is always at least one token, the list ends with the
    /// end-of-input token, and the cursor stays inside the list.
    pub closed spec fn wf(&self) -> bool {
        &&& self.tokens@.len() >= 1
        &&& self.toks().last().kind == TokenKind::Eof
        &&& self.cursor <= self.tokens@.len()
    }

    /// Builds a parser over `tokens`, filtered of whitespace and
    /// semicolons and completed with an end-of-input token if need be.
    pub fn new(tokens: Vec<Token>, diagnostics: DiagnosticsColletion) -> (r: Parser)
        ensures
            r.wf(),
            r.at() == 0,
            r.toks() == spec_prepare_tokens(view_tokens(tokens@)),
            r.diagnostics@ == diagnostics@,
    {
        let mut filtered: Vec<Token> = Vec::new();
        let mut i: usize = 0;
        while i < tokens.len()
            invariant
                i <= tokens.len(),
                view_tokens(filtered@) == spec_filter_tokens(view_tokens(tokens@.take(i as int))),
            decreases tokens.len() - i,
        {
            let ghost prefix = view_tokens(tokens@.take(i as int));
            let t = &tokens[i];
            proof {
                assert(tokens@.take(i + 1).drop_last() =~= tokens@.take(i as int));
                assert(view_tokens(tokens@.take(i + 1)).drop_last()
                    =~= view_tokens(tokens@.take(i + 1).drop_last()));
                assert(view_tokens(tokens@.take(i + 1)).last() == tokens@[i as int]@);
            }
            if !(matches!(t.kind, TokenKind::Whitespace) || matches!(t.kind, TokenKind::SemiColon)) {
                let d = t.duplicate();
                let ghost before = filtered@;
                filtered.push(d);
                proof {
                    lemma_view_tokens_push(before, d);
                }
            }
            i = i + 1;
        }
        proof {
            assert(tokens@.take(tokens@.len() as int) =~= tokens@);
        }
        let needs_eof = if filtered.len() == 0 {
            true
        } else {
            !matches!(filtered[filtered.len() - 1].kind, TokenKind::Eof)
        };
        if needs_eof {
            let eof = Token::new(
                TokenKind::Eof,
                crate::lexer::TextSpan::new(0, 0, "\0".to_owned()),
            );
            let ghost before = filtered@;
            filtered.push(eof);
            proof {
                lemma_view_tokens_push(before, eof);
            }
        }
        Parser { tokens: filtered, cursor: 0, diagnostics }
    }

    /// Builds a parser straight from source text: runs the lexer to the
    /// end and keeps everything but whitespace and semicolons.
    pub fn from_input(input: String, diagnostics: DiagnosticsColletion) -> (r: Parser)
        ensures
            r.wf(),
            r.at() == 0,
            r.toks() == spec_prepare_tokens(spec_lex_stream(input@, 0, false)),
            r.diagnostics@ == diagnostics@,
    {
        let ghost s = input@;
        let mut lx = Lexer::new(input);
        let mut collected: Vec<Token> = Vec::new();
        loop
            invariant_except_break
                lx.wf(),
                lx.text() == s,
                spec_lex_stream(s, 0, false) =~= view_tokens(collected@)
                    + spec_lex_stream(s, lx.at(), lx.done()),
            ensures
                view_tokens(collected@) =~= spec_lex_stream(s, 0, false),
            decreases rem_chars(s, lx.at()), (if lx.done() { 0int } else { 1int }),
        {
            let ghost pos0 = lx.at();
            let ghost fin0 = lx.done();
            let r = lx.next_token();
            match r {
                Some(t) => {
                    proof {
                        if pos0 < s.len() {
                            crate::lexer::lemma_token_progress(s, pos0);
                        }
                    }
                    let ghost before = collected@;
                    collected.push(t);
                    proof {
                        lemma_view_tokens_push(before, t);
                        assert(view_tokens(collected@) + spec_lex_stream(s, lx.at(), lx.done())
                            =~= view_tokens(before)
                                + (seq![t@] + spec_lex_stream(s, lx.at(), lx.done())));
                    }
                },
                None => {
                    break;
                },
            }
        }
        Parser::new(collected, diagnostics)
    }

    /// The token at the cursor; at or past the end this is the final
    /// (end-of-input) token.
    fn current_token(&self) -> (r: &Token)
        requires
            self.wf(),
        ensures
            r@ == tok_at(self.toks(), self.at()),
    {
        let idx = if self.cursor < self.tokens.len() {
            self.cursor
        } else {
            self.tokens.len() - 1
        };
        &self.tokens[idx]
    }

    /// The token one past the cursor, clamped into the list.
    fn peek_next(&self) -> (r: &Token)
        requires
            self.wf(),
        ensures
            r@ == tok_at(self.toks(), self.at() + 1),
    {
        let idx = if self.cursor < self.tokens.len() - 1 {
            self.cursor + 1
        } else {
            self.tokens.len() - 1
        };
        &self.tokens[idx]
    }

    /// Consumes one token: advances the cursor (never past the end) and
    /// hands the token back.
    fn consume(&mut self) -> (r: Token)
        requires
            old(self).wf(),
        ensures
            final(self).wf(),
            final(self).toks() == old(self).toks(),
            final(self).diagnostics@ == old(self).diagnostics@,
            r@ == consumed_tok(old(self).toks(), old(self).at()),
            final(self).at() == consume_pos(old(self).toks(), old(self).at()),
            old(self).at() <= final(self).at(),
            old(self).at() < old(self).toks().len() ==> final(self).at() == old(self).at() + 1,
    {
        if self.cursor < self.tokens.len() {
            self.cursor = self.cursor + 1;
        }
        let idx = if self.cursor >= 1 {
            self.cursor - 1
        } else {
            0
        };
        self.tokens[idx].duplicate()
    }

    /// Consumes one token and reports a diagnostic if it is not of the
    /// expected kind; the cursor advances either way.
    fn consume_expected(&mut self, expected: TokenKind) -> (r: Token)
        requires
            old(self).wf(),
        ensures
            final(self).wf(),
            final(self).toks() == old(self).toks(),
            ({
                let step = spec_consume_expected(old(self).toks(), old(self).at(), expected);
                &&& r@ == step.tok
                &&& final(self).at() == step.pos
                &&& final(self).diagnostics@ == old(self).diagnostics@ + step.diags
            }),
            old(self).at() <= final(self).at(),
            old(self).at() < old(self).toks().len() ==> final(self).at() == old(self).at() + 1,
    {
        let token = self.consume();
        if !(token.kind == expected) {
            self.diagnostics.report_unexpected_token(&expected, &token);
        } else {
            proof {
                assert(old(self).diagnostics@ + Seq::<DiagnosticView>::empty()
                    =~= old(self).diagnostics@);
            }
        }
        token
    }

    /// The binary operator denoted by the current token, if any.
    fn parse_binary_operator(&self) -> (r: Option<ASTBinaryOperator>)
        requires
            self.wf(),
        ensures
            match (r, spec_binary_operator(self.toks(), self.at())) {
                (Some(op), Some(sv)) => op.kind == sv.kind && op.token@ == sv.token,
                (None, None) => true,
                _ => false,
            },
    {
        let t = self.current_token();
        match t.kind {
            TokenKind::Plus => Some(ASTBinaryOperator {
                kind: ASTBinaryOperatorKind::Plus,
                token: t.duplicate(),
            }),
            TokenKind::Minus => Some(ASTBinaryOperator {
                kind: ASTBinaryOperatorKind::Minus,
                token: t.duplicate(),
            }),
            TokenKind::Astrisk => Some(ASTBinaryOperator {
                kind: ASTBinaryOperatorKind::Multiply,
                token: t.duplicate(),
            }),
            TokenKind::Slash => Some(ASTBinaryOperator {
                kind: ASTBinaryOperatorKind::Divide,
                token: t.duplicate(),
            }),
            _ => None,
        }
    }

    /// A primary expression, as `spec_parse_primary` gives it.
    fn parse_primary_expression(&mut self) -> (r: ASTExpression)
        requires
            old(self).wf(),
        ensures
            final(self).wf(),
            final(self).toks() == old(self).toks(),
            ({
                let s = spec_parse_primary(old(self).toks(), old(self).at());
                &&& r@ == s.expr
                &&& final(self).at() == s.pos
                &&& final(self).diagnostics@ == old(self).diagnostics@ + s.diags
            }),
            old(self).at() <= final(self).at(),
            old(self).at() < old(self).toks().len() ==> old(self).at() < final(self).at(),
        decreases rem(old(self).toks(), old(self).at()), 2int,
    {
        let ghost ts = old(self).toks();
        let token = self.consume();
        match token.kind {
            TokenKind::Integer(i) => {
                proof {
                    assert(self.diagnostics@ =~= old(self).diagnostics@
                        + spec_parse_primary(ts, old(self).at()).diags);
                }
                ASTExpression::integer(i)
            },
            TokenKind::Floating(f) => {
                proof {
                    assert(self.diagnostics@ =~= old(self).diagnostics@
                        + spec_parse_primary(ts, old(self).at()).diags);
                }
                ASTExpression::float(f)
            },
            TokenKind::Identifier => {
                if matches!(self.current_token().kind, TokenKind::LeftParen) {
                    let r = self.parse_function_call_expression(token);
                    r
                } else {
                    proof {
                        assert(self.diagnostics@ =~= old(self).diagnostics@
                            + spec_parse_primary(ts, old(self).at()).diags);
                    }
                    ASTExpression::identifier(token)
                }
            },
            TokenKind::LeftParen => {
                let expr = self.parse_binary_expression(0);
                let _found = self.consume_expected(TokenKind::RightParen);
                proof {
                    let s = spec_parse_primary(ts, old(self).at());
                    let inner = spec_parse_binary(ts, old(self).at() + 1, 0);
                    assert(old(self).diagnostics@ + (inner.diags
                        + spec_consume_expected(ts, inner.pos, TokenKind::RightParen).diags)
                        =~= (old(self).diagnostics@ + inner.diags)
                            + spec_consume_expected(ts, inner.pos, TokenKind::RightParen).diags);
                }
                ASTExpression::parenthesized(expr)
            },
            _ => {
                self.diagnostics.report_expected_expression(&token);
                proof {
                    assert(old(self).diagnostics@.push(spec_expected_expression(token@))
                        =~= old(self).diagnostics@ + seq![spec_expected_expression(token@)]);
                }
                ASTExpression::error(token.span)
            },
        }
    }

    /// A function call after its identifier token has been consumed: the
    /// opening parenthesis, the arguments, and the closing parenthesis.
    fn parse_function_call_expression(&mut self, identifier: Token) -> (r: ASTExpression)
        requires
            old(self).wf(),
            tok_at(old(self).toks(), old(self).at()).kind == TokenKind::LeftParen,
        ensures
            final(self).wf(),
            final(self).toks() == old(self).toks(),
            ({
                let s = spec_parse_call(old(self).toks(), old(self).at(), identifier@);
                &&& r@ == s.expr
                &&& final(self).at() == s.pos
                &&& final(self).diagnostics@ == old(self).diagnostics@ + s.diags
            }),
            old(self).at() <= final(self).at(),
        decreases rem(old(self).toks(), old(self).at()), 1int,
    {
        let ghost ts = old(self).toks();
        proof {
            if old(self).at() >= ts.len() {
                assert(tok_at(ts, old(self).at()) == ts.last());
            }
        }
        let _ = self.consume();
        let arguments = self.parse_arguments_list();
        let _close = self.consume_expected(TokenKind::RightParen);
        proof {
            let args_s = spec_parse_arguments(ts, old(self).at() + 1);
            let close_s = spec_consume_expected(ts, args_s.pos, TokenKind::RightParen);
            assert(old(self).diagnostics@ + (args_s.diags + close_s.diags)
                =~= (old(self).diagnostics@ + args_s.diags) + close_s.diags);
        }
        ASTExpression::function_call(identifier, arguments)
    }

    /// The comma-separated argument list of a call, up to (but not
    /// including) the closing parenthesis, except that a trailing comma
    /// directly before it is consumed here.
    #[verifier::rlimit(60)]
    fn parse_arguments_list(&mut self) -> (r: Vec<ASTExpression>)
        requires
            old(self).wf(),
        ensures
            final(self).wf(),
            final(self).toks() == old(self).toks(),
            ({
                let s = spec_parse_arguments(old(self).toks(), old(self).at());
                &&& view_expr_list(r@) == s.args
                &&& final(self).at() == s.pos
                &&& final(self).diagnostics@ == old(self).diagnostics@ + s.diags
            }),
            old(self).at() <= final(self).at(),
        decreases rem(old(self).toks(), old(self).at()), 7int,
    {
        let ghost ts = old(self).toks();
        if matches!(self.current_token().kind, TokenKind::Comma) {
            let ahead = self.peek_next().duplicate();
            self.diagnostics.report_unexpected_token(&TokenKind::Identifier, &ahead);
            proof {
                assert(old(self).diagnostics@.push(
                    spec_unexpected_token(TokenKind::Identifier, tok_at(ts, old(self).at() + 1)))
                    =~= old(self).diagnostics@ + seq![
                        spec_unexpected_token(TokenKind::Identifier, tok_at(ts, old(self).at() + 1))
                    ]);
            }
            let _ = self.consume();
        } else {
            proof {
                assert(old(self).diagnostics@ + Seq::<DiagnosticView>::empty()
                    =~= old(self).diagnostics@);
            }
        }
        let mut arguments: Vec<ASTExpression> = Vec::new();
        proof {
            assert(view_expr_list(arguments@) =~= Seq::<ExprView>::empty());
        }
        let ghost p0 = self.at();
        self.parse_args_rest(&mut arguments);
        proof {
            let body = spec_args_loop(ts, p0);
            let d0: Seq<DiagnosticView> = if tok_at(ts, old(self).at()).kind == TokenKind::Comma {
                seq![spec_unexpected_token(TokenKind::Identifier, tok_at(ts, old(self).at() + 1))]
            } else {
                Seq::empty()
            };
            assert(Seq::<ExprView>::empty() + body.args =~= body.args);
            assert((old(self).diagnostics@ + d0) + body.diags
                =~= old(self).diagnostics@ + (d0 + body.diags));
        }
        arguments
    }

    /// The body of the argument-list loop: one argument per round, as
    /// `spec_args_loop` gives it, appended to `arguments`.
    #[verifier::rlimit(60)]
    fn parse_args_rest(&mut self, arguments: &mut Vec<ASTExpression>)
        requires
            old(self).wf(),
        ensures
            final(self).wf(),
            final(self).toks() == old(self).toks(),
            ({
                let s = spec_args_loop(old(self).toks(), old(self).at());
                &&& view_expr_list(final(arguments)@) == view_expr_list(old(arguments)@) + s.args
                &&& final(self).at() == s.pos
                &&& final(self).diagnostics@ == old(self).diagnostics@ + s.diags
            }),
            old(self).at() <= final(self).at(),
        decreases rem(old(self).toks(), old(self).at()), 6int,
    {
        let ghost ts = old(self).toks();
        let ghost entry = old(self).at();
        let ghost cur = spec_args_loop(ts, entry);
        let stop = {
            let k = &self.current_token().kind;
            matches!(k, TokenKind::RightParen) || matches!(k, TokenKind::Eof)
        };
        if stop {
            proof {
                assert(view_expr_list(arguments@) + Seq::<ExprView>::empty()
                    =~= view_expr_list(arguments@));
                assert(self.diagnostics@ + Seq::<DiagnosticView>::empty()
                    =~= self.diagnostics@);
            }
            return;
        }
        proof {
            if entry >= ts.len() {
                assert(tok_at(ts, entry) == ts.last());
            }
        }
        let ghost comma_diags: Seq<DiagnosticView> =
            if tok_at(ts, entry).kind == TokenKind::Comma {
                seq![spec_unexpected_token(TokenKind::Identifier, tok_at(ts, entry))]
            } else {
                Seq::empty()
            };
        if matches!(self.current_token().kind, TokenKind::Comma) {
            let here = self.current_token().duplicate();
            self.diagnostics.report_unexpected_token(&TokenKind::Identifier, &here);
            proof {
                assert(old(self).diagnostics@.push(spec_unexpected_token(
                    TokenKind::Identifier, tok_at(ts, entry)))
                    =~= old(self).diagnostics@ + comma_diags);
            }
            let _ = self.consume();
        } else {
            proof {
                assert(old(self).diagnostics@ + comma_diags =~= old(self).diagnostics@);
            }
        }
        let arg = self.parse_expression();
        let ghost arg_s = spec_parse_expression(ts, if tok_at(ts, entry).kind
            == TokenKind::Comma { consume_pos(ts, entry) } else { entry });
        let ghost before_args = arguments@;
        arguments.push(arg);
        proof {
            lemma_view_expr_list_push(before_args, arg);
        }
        let trailing = matches!(self.current_token().kind, TokenKind::Comma)
            && matches!(self.peek_next().kind, TokenKind::RightParen);
        if trailing {
            let _ = self.consume_expected(TokenKind::RightParen);
            proof {
                let close_s = spec_consume_expected(ts, arg_s.pos, TokenKind::RightParen);
                assert(cur.args =~= seq![arg_s.expr]);
                assert(view_expr_list(before_args).push(arg_s.expr)
                    =~= view_expr_list(before_args) + cur.args);
                assert(old(self).diagnostics@ + (comma_diags + arg_s.diags + close_s.diags)
                    =~= ((old(self).diagnostics@ + comma_diags) + arg_s.diags) + close_s.diags);
            }
            return;
        }
        if matches!(self.current_token().kind, TokenKind::Comma) {
            let _ = self.consume();
        }
        let ghost p2 = self.at();
        let ghost d2 = self.diagnostics@;
        let ghost before_rest = arguments@;
        self.parse_args_rest(arguments);
        proof {
            let rest = spec_args_loop(ts, p2);
            assert(cur.args =~= seq![arg_s.expr] + rest.args);
            assert(view_expr_list(before_args).push(arg_s.expr) + rest.args
                =~= view_expr_list(before_args) + (seq![arg_s.expr] + rest.args));
            assert(old(self).diagnostics@ + (comma_diags + arg_s.diags + rest.diags)
                =~= ((old(self).diagnostics@ + comma_diags) + arg_s.diags) + rest.diags);
        }
    }

    /// A binary expression above the given precedence threshold: a
    /// primary operand, then the climbing loop.
    #[verifier::loop_isolation(false)]
    fn parse_binary_expression(&mut self, precedence: u8) -> (r: ASTExpression)
        requires
            old(self).wf(),
        ensures
            final(self).wf(),
            final(self).toks() == old(self).toks(),
            ({
                let s = spec_parse_binary(old(self).toks(), old(self).at(), precedence);
                &&& r@ == s.expr
                &&& final(self).at() == s.pos
                &&& final(self).diagnostics@ == old(self).diagnostics@ + s.diags
            }),
            old(self).at() <= final(self).at(),
            old(self).at() < old(self).toks().len() ==> old(self).at() < final(self).at(),
        decreases rem(old(self).toks(), old(self).at()), 4int,
    {
        let ghost ts = old(self).toks();
        let ghost entry = old(self).at();
        let mut left = self.parse_primary_expression();
        let ghost first = spec_parse_primary(ts, entry);
        let ghost pos0 = self.at();
        let ghost d0 = self.diagnostics@;
        let ghost target = spec_bin_loop(ts, pos0, first.expr, precedence);
        let mut done = false;
        while !done
            invariant
                self.wf(),
                self.toks() == ts,
                entry <= pos0 <= self.at(),
                entry < ts.len() ==> entry < pos0,
                !done ==> ({
                    let cur = spec_bin_loop(ts, self.at(), left@, precedence);
                    &&& cur.expr == target.expr
                    &&& cur.pos == target.pos
                    &&& self.diagnostics@ + cur.diags == d0 + target.diags
                }),
                done ==> left@ == target.expr
                    && self.at() == target.pos
                    && self.diagnostics@ == d0 + target.diags,
            decreases rem(ts, self.at()) + (if done { 0int } else { 1int }),
        {
            let ghost pos_iter = self.at();
            let ghost d_iter = self.diagnostics@;
            let ghost cur = spec_bin_loop(ts, pos_iter, left@, precedence);
            let operator = self.parse_binary_operator();
            match operator {
                Some(operator) => {
                    let operator_precedence = operator.precedence();
                    if operator_precedence > precedence {
                        proof {
                            if pos_iter >= ts.len() {
                                assert(tok_at(ts, pos_iter) == ts.last());
                            }
                            assert(entry < ts.len());
                            assert(rem(ts, pos_iter + 1) < rem(ts, entry));
                        }
                        let _ = self.consume();
                        let right = self.parse_binary_expression(operator_precedence);
                        let ghost right_s = spec_parse_binary(ts, pos_iter + 1,
                            operator_precedence);
                        left = ASTExpression::binary(operator, left, right);
                        proof {
                            let rest = spec_bin_loop(ts, self.at(), left@, precedence);
                            assert(d_iter + (right_s.diags + rest.diags)
                                =~= (d_iter + right_s.diags) + rest.diags);
                        }
                    } else {
                        proof {
                            assert(self.diagnostics@ + Seq::<DiagnosticView>::empty()
                                =~= self.diagnostics@);
                        }
                        done = true;
                    }
                },
                None => {
                    proof {
                        assert(self.diagnostics@ + Seq::<DiagnosticView>::empty()
                            =~= self.diagnostics@);
                    }
                    done = true;
                },
            }
        }
        proof {
            let s = spec_parse_binary(ts, entry, precedence);
            assert(old(self).diagnostics@ + (first.diags + target.diags)
                =~= (old(self).diagnostics@ + first.diags) + target.diags);
        }
        left
    }

    /// A return statement.
    fn parse_return_statement(&mut self) -> (r: ASTStatement)
        requires
            old(self).wf(),
        ensures
            final(self).wf(),
            final(self).toks() == old(self).toks(),
            ({
                let s = spec_parse_return(old(self).toks(), old(self).at());
                &&& r@ == s.stmt
                &&& final(self).at() == s.pos
                &&& final(self).diagnostics@ == old(self).diagnostics@ + s.diags
            }),
            old(self).at() <= final(self).at(),
            old(self).at() < old(self).toks().len() ==> old(self).at() < final(self).at(),
        decreases rem(old(self).toks(), old(self).at()), 8int,
    {
        let ghost ts = old(self).toks();
        let _kw = self.consume_expected(TokenKind::Return);
        let expr = self.parse_expression();
        proof {
            let kw = spec_consume_expected(ts, old(self).at(), TokenKind::Return);
            let e = spec_parse_expression(ts, kw.pos);
            assert(old(self).diagnostics@ + (kw.diags + e.diags)
                =~= (old(self).diagnostics@ + kw.diags) + e.diags);
        }
        ASTStatement::return_statement(expr)
    }

    /// A let statement.
    fn parse_let_statement(&mut self) -> (r: ASTStatement)
        requires
            old(self).wf(),
        ensures
            final(self).wf(),
            final(self).toks() == old(self).toks(),
            ({
                let s = spec_parse_let(old(self).toks(), old(self).at());
                &&& r@ == s.stmt
                &&& final(self).at() == s.pos
                &&& final(self).diagnostics@ == old(self).diagnostics@ + s.diags
            }),
            old(self).at() <= final(self).at(),
            old(self).at() < old(self).toks().len() ==> old(self).at() < final(self).at(),
        decreases rem(old(self).toks(), old(self).at()), 8int,
    {
        let ghost ts = old(self).toks();
        let _kw = self.consume_expected(TokenKind::Let);
        let identifier = self.consume_expected(TokenKind::Identifier);
        let _eq = self.consume_expected(TokenKind::Equal);
        let expr = self.parse_expression();
        proof {
            let kw = spec_consume_expected(ts, old(self).at(), TokenKind::Let);
            let name = spec_consume_expected(ts, kw.pos, TokenKind::Identifier);
            let eq = spec_consume_expected(ts, name.pos, TokenKind::Equal);
            let e = spec_parse_expression(ts, eq.pos);
            assert(old(self).diagnostics@ + (kw.diags + name.diags + eq.diags + e.diags)
                =~= (((old(self).diagnostics@ + kw.diags) + name.diags) + eq.diags) + e.diags);
        }
        ASTStatement::let_statement(identifier, expr)
    }

    /// An expression statement.
    fn parse_expression_statement(&mut self) -> (r: ASTStatement)
        requires
            old(self).wf(),
        ensures
            final(self).wf(),
            final(self).toks() == old(self).toks(),
            ({
                let s = spec_parse_expression_statement(old(self).toks(), old(self).at());
                &&& r@ == s.stmt
                &&& final(self).at() == s.pos
                &&& final(self).diagnostics@ == old(self).diagnostics@ + s.diags
            }),
            old(self).at() <= final(self).at(),
            old(self).at() < old(self).toks().len() ==> old(self).at() < final(self).at(),
        decreases rem(old(self).toks(), old(self).at()), 8int,
    {
        let expr = self.parse_expression();
        ASTStatement::expression(expr)
    }

    /// The body of the parameter-list loop: one declared name per round,
    /// as `spec_params_loop` gives it, appended to `params`.
    fn parse_params_rest(&mut self, params: &mut Vec<FunctionArgumentDeclaration>)
        requires
            old(self).wf(),
        ensures
            final(self).wf(),
            final(self).toks() == old(self).toks(),
            ({
                let s = spec_params_loop(old(self).toks(), old(self).at());
                &&& view_params(final(params)@) == view_params(old(params)@) + s.params
                &&& final(self).at() == s.pos
                &&& final(self).diagnostics@ == old(self).diagnostics@ + s.diags
            }),
            old(self).at() <= final(self).at(),
        decreases rem(old(self).toks(), old(self).at()), 6int,
    {
        let ghost ts = old(self).toks();
        let ghost entry = old(self).at();
        let ghost cur = spec_params_loop(ts, entry);
        let stop = {
            let k = &self.current_token().kind;
            matches!(k, TokenKind::RightParen) || matches!(k, TokenKind::Eof)
        };
        if stop {
            proof {
                assert(view_params(params@) + Seq::<TokenView>::empty() =~= view_params(params@));
                assert(self.diagnostics@ + Seq::<DiagnosticView>::empty() =~= self.diagnostics@);
            }
            return;
        }
        proof {
            if entry >= ts.len() {
                assert(tok_at(ts, entry) == ts.last());
            }
        }
        let name = self.consume_expected(TokenKind::Identifier);
        let ghost name_s = spec_consume_expected(ts, entry, TokenKind::Identifier);
        let decl = FunctionArgumentDeclaration { identifier: name };
        let ghost before = params@;
        params.push(decl);
        proof {
            lemma_view_params_push(before, decl);
        }
        if matches!(self.current_token().kind, TokenKind::Comma) {
            let _ = self.consume();
        }
        let ghost p2 = self.at();
        self.parse_params_rest(params);
        proof {
            let rest = spec_params_loop(ts, p2);
            assert(cur.params =~= seq![name_s.tok] + rest.params);
            assert(view_params(before).push(name_s.tok) + rest.params
                =~= view_params(before) + (seq![name_s.tok] + rest.params));
            assert(old(self).diagnostics@ + (name_s.diags + rest.diags)
                =~= (old(self).diagnostics@ + name_s.diags) + rest.diags);
        }
    }

    /// The body of the function-body loop: one statement per round, as
    /// `spec_body_loop` gives it, appended to `body`.
    fn parse_body_rest(&mut self, body: &mut Vec<ASTStatement>)
        requires
            old(self).wf(),
        ensures
            final(self).wf(),
            final(self).toks() == old(self).toks(),
            ({
                let s = spec_body_loop(old(self).toks(), old(self).at());
                &&& view_stmt_list(final(body)@) == view_stmt_list(old(body)@) + s.stmts
                &&& final(self).at() == s.pos
                &&& final(self).diagnostics@ == old(self).diagnostics@ + s.diags
            }),
            old(self).at() <= final(self).at(),
        decreases rem(old(self).toks(), old(self).at()), 10int,
    {
        let ghost ts = old(self).toks();
        let ghost entry = old(self).at();
        let ghost cur = spec_body_loop(ts, entry);
        let stop = {
            let k = &self.current_token().kind;
            matches!(k, TokenKind::RightBrace) || matches!(k, TokenKind::Eof)
        };
        if stop {
            proof {
                assert(view_stmt_list(body@) + Seq::<StmtView>::empty() =~= view_stmt_list(body@));
                assert(self.diagnostics@ + Seq::<DiagnosticView>::empty() =~= self.diagnostics@);
            }
            return;
        }
        proof {
            if entry >= ts.len() {
                assert(tok_at(ts, entry) == ts.last());
            }
        }
        let stmt = self.parse_statement();
        let ghost stmt_s = spec_parse_statement(ts, entry);
        let ghost before = body@;
        body.push(stmt);
        proof {
            lemma_view_stmt_list_push(before, stmt);
        }
        let ghost p2 = self.at();
        self.parse_body_rest(body);
        proof {
            let rest = spec_body_loop(ts, p2);
            assert(cur.stmts =~= seq![stmt_s.stmt] + rest.stmts);
            assert(view_stmt_list(before).push(stmt_s.stmt) + rest.stmts
                =~= view_stmt_list(before) + (seq![stmt_s.stmt] + rest.stmts));
            assert(old(self).diagnostics@ + (stmt_s.diags + rest.diags)
                =~= (old(self).diagnostics@ + stmt_s.diags) + rest.diags);
        }
    }

    /// A function declaration: keyword, name, parameter list in
    /// parentheses, and a brace-delimited compound body.
    #[verifier::rlimit(60)]
    fn parse_function_statement(&mut self) -> (r: ASTStatement)
        requires
            old(self).wf(),
        ensures
            final(self).wf(),
            final(self).toks() == old(self).toks(),
            ({
                let s = spec_parse_function(old(self).toks(), old(self).at());
                &&& r@ == s.stmt
                &&& final(self).at() == s.pos
                &&& final(self).diagnostics@ == old(self).diagnostics@ + s.diags
            }),
            old(self).at() <= final(self).at(),
            old(self).at() < old(self).toks().len() ==> old(self).at() < final(self).at(),
        decreases rem(old(self).toks(), old(self).at()), 8int,
    {
        let ghost ts = old(self).toks();
        let entry_cursor = self.cursor;
        let _kw = self.consume_expected(TokenKind::Func);
        let identifier = self.consume_expected(TokenKind::Identifier);
        let _open = self.consume_expected(TokenKind::LeftParen);
        let mut params: Vec<FunctionArgumentDeclaration> = Vec::new();
        proof {
            assert(view_params(params@) =~= Seq::<TokenView>::empty());
        }
        self.parse_params_rest(&mut params);
        let _close = self.consume_expected(TokenKind::RightParen);
        let _brace = self.consume_expected(TokenKind::LeftBrace);
        let mut body: Vec<ASTStatement> = Vec::new();
        proof {
            assert(view_stmt_list(body@) =~= Seq::<StmtView>::empty());
        }
        if self.cursor > entry_cursor {
            self.parse_body_rest(&mut body);
        } else {
            proof {
                assert(tok_at(ts, self.at()) == ts.last());
            }
        }
        let _endbrace = self.consume_expected(TokenKind::RightBrace);
        proof {
            let e = old(self).at();
            let kw = spec_consume_expected(ts, e, TokenKind::Func);
            let name = spec_consume_expected(ts, kw.pos, TokenKind::Identifier);
            let open = spec_consume_expected(ts, name.pos, TokenKind::LeftParen);
            let ps = spec_params_loop(ts, open.pos);
            let close = spec_consume_expected(ts, ps.pos, TokenKind::RightParen);
            let brace = spec_consume_expected(ts, close.pos, TokenKind::LeftBrace);
            let bd = if e < ts.len() && brace.pos > e {
                spec_body_loop(ts, brace.pos)
            } else {
                PStmts { stmts: Seq::empty(), pos: brace.pos, diags: Seq::empty() }
            };
            let endbrace = spec_consume_expected(ts, bd.pos, TokenKind::RightBrace);
            assert(Seq::<TokenView>::empty() + ps.params =~= ps.params);
            assert(view_stmt_list(body@) =~= bd.stmts);
            assert(old(self).diagnostics@ + (kw.diags + name.diags + open.diags + ps.diags
                + close.diags + brace.diags + bd.diags + endbrace.diags)
                =~= (((((((old(self).diagnostics@ + kw.diags) + name.diags) + open.diags)
                    + ps.diags) + close.diags) + brace.diags) + bd.diags) + endbrace.diags);
        }
        let compound = ASTStatement::compound(body);
        ASTStatement::function(identifier, params, compound)
    }

    /// Statement dispatch on the current token's kind.
    fn parse_statement(&mut self) -> (r: ASTStatement)
        requires
            old(self).wf(),
        ensures
            final(self).wf(),
            final(self).toks() == old(self).toks(),
            ({
                let s = spec_parse_statement(old(self).toks(), old(self).at());
                &&& r@ == s.stmt
                &&& final(self).at() == s.pos
                &&& final(self).diagnostics@ == old(self).diagnostics@ + s.diags
            }),
            old(self).at() <= final(self).at(),
            old(self).at() < old(self).toks().len() ==> old(self).at() < final(self).at(),
        decreases rem(old(self).toks(), old(self).at()), 9int,
    {
        let k = self.current_token().kind;
        if matches!(k, TokenKind::Let) {
            self.parse_let_statement()
        } else if matches!(k, TokenKind::Return) {
            self.parse_return_statement()
        } else if matches!(k, TokenKind::Func) {
            self.parse_function_statement()
        } else {
            self.parse_expression_statement()
        }
    }

    /// The next top-level statement, or nothing at the end of the input.
    pub fn next_statement(&mut self) -> (r: Option<ASTStatement>)
        requires
            old(self).wf(),
        ensures
            final(self).wf(),
            final(self).toks() == old(self).toks(),
            ({
                if tok_at(old(self).toks(), old(self).at()).kind == TokenKind::Eof {
                    &&& r is None
                    &&& final(self).at() == old(self).at()
                    &&& final(self).diagnostics@ == old(self).diagnostics@
                } else {
                    let s = spec_parse_statement(old(self).toks(), old(self).at());
                    &&& r matches Some(stmt) && stmt@ == s.stmt
                    &&& final(self).at() == s.pos
                    &&& final(self).diagnostics@ == old(self).diagnostics@ + s.diags
                    &&& old(self).at() < final(self).at()
                }
            }),
            old(self).at() <= final(self).at(),
        decreases rem(old(self).toks(), old(self).at()), 11int,
    {
        if matches!(self.current_token().kind, TokenKind::Eof) {
            return None;
        }
        proof {
            if old(self).at() >= old(self).toks().len() {
                assert(tok_at(old(self).toks(), old(self).at()) == old(self).toks().last());
            }
        }
        Some(self.parse_statement())
    }

    /// An expression: binary parsing from the lowest threshold.
    fn parse_expression(&mut self) -> (r: ASTExpression)
        requires
            old(self).wf(),
        ensures
            final(self).wf(),
            final(self).toks() == old(self).toks(),
            ({
                let s = spec_parse_expression(old(self).toks(), old(self).at());
                &&& r@ == s.expr
                &&& final(self).at() == s.pos
                &&& final(self).diagnostics@ == old(self).diagnostics@ + s.diags
            }),
            old(self).at() <= final(self).at(),
            old(self).at() < old(self).toks().len() ==> old(self).at() < final(self).at(),
        decreases rem(old(self).toks(), old(self).at()), 5int,
    {
        self.parse_binary_expression(0)
    }
}

} // verus!
