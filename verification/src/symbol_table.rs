//! The two-pass scope resolver.
//!
//! The collect pass records every top-level `let` and `func` declaration
//! into one global symbol table keyed by name, reporting a redeclaration
//! diagnostic on a collision and rejecting statement forms that may not
//! stand at the top level (a bare compound block or conditional).  A
//! top-level `return` is legal: it yields the program's result.
//!
//! The check pass re-walks the tree with a stack of lexical scopes.  A
//! compound statement pushes a scope; a function body pushes one seeded
//! with the parameter bindings, so a called function sees only its
//! parameters, enclosing declarations already in scope, and the global
//! table.  A `let` checks its initializer first and declares its name
//! afterwards.  Every variable reference and assignment target is
//! resolved innermost-first with the global table as fallback; every call
//! is checked for a known, callable name with the right argument count.
//! Resolution never stops at the first failure: each failure produces
//! exactly one diagnostic and the walk continues.

use vstd::prelude::*;
use crate::ast::{
    ASTExpression, ASTExpressionKind, ASTStatement, ASTStatementKind, Ast, ExprView, StmtView,
    view_expr_list, view_stmt, view_stmt_list, lemma_view_expr_list_index,
    lemma_view_stmt_list_index, lemma_view_params_index,
};
use crate::diagnostics::{
    DiagnosticsColletion, DiagnosticView, DiagnosticKind, spec_undefined_variable,
    spec_undefined_identifier, spec_not_a_callable, spec_arity_mismatch,
};
use crate::lexer::{TextSpan, SpanView, TokenView};
use vstd::string::StringExecFns;

verus! {

/// A named variable (or constant) entry.
#[derive(Debug)]
pub struct VariableInfo {
    pub name: String,
}

/// A named function entry with its ordered parameter names.
#[derive(Debug)]
pub struct FunctionInfo {
    pub name: String,
    pub parameters: Vec<String>,
}

/// One entry of a scope or of the global table.
#[derive(Debug)]
pub enum Symbol {
    Variable(VariableInfo),
    Constant(VariableInfo),
    Function(FunctionInfo),
}

/// The mathematical value of a `Symbol`.
#[verifier::ext_equal]
pub ghost enum SymbolView {
    Variable(Seq<char>),
    Constant(Seq<char>),
    Function(Seq<char>, Seq<Seq<char>>),
}

impl View for Symbol {
    type V = SymbolView;

    open spec fn view(&self) -> SymbolView {
        match self {
            Symbol::Variable(v) => SymbolView::Variable(v.name@),
            Symbol::Constant(v) => SymbolView::Constant(v.name@),
            Symbol::Function(f) => SymbolView::Function(
                f.name@,
                f.parameters@.map(|i: int, p: String| p@),
            ),
        }
    }
}

/// The name a symbol is keyed by.
pub open spec fn sym_name(s: SymbolView) -> Seq<char> {
    match s {
        SymbolView::Variable(n) => n,
        SymbolView::Constant(n) => n,
        SymbolView::Function(n, _) => n,
    }
}

impl Symbol {
    /// The name this symbol is keyed by.
    pub fn name(&self) -> (r: String)
        ensures
            r@ == sym_name(self@),
    {
        match self {
            Symbol::Variable(a) => a.name.clone(),
            Symbol::Constant(a) => a.name.clone(),
            Symbol::Function(a) => a.name.clone(),
        }
    }
}

/// The latest entry with the given name, if any.
pub open spec fn find_sym(syms: Seq<SymbolView>, name: Seq<char>) -> Option<SymbolView>
    decreases syms,
{
    if syms.len() == 0 {
        None
    } else if sym_name(syms.last()) == name {
        Some(syms.last())
    } else {
        find_sym(syms.drop_last(), name)
    }
}

/// Innermost-first resolution through the scope stack.
pub open spec fn lookup_scopes(scopes: Seq<Seq<SymbolView>>, name: Seq<char>) -> Option<SymbolView>
    decreases scopes,
{
    if scopes.len() == 0 {
        None
    } else {
        match find_sym(scopes.last(), name) {
            Some(s) => Some(s),
            None => lookup_scopes(scopes.drop_last(), name),
        }
    }
}

/// Full resolution: the scope stack innermost-first, then the global
/// table.
pub open spec fn spec_lookup(
    globals: Seq<SymbolView>,
    scopes: Seq<Seq<SymbolView>>,
    name: Seq<char>,
) -> Option<SymbolView> {
    match lookup_scopes(scopes, name) {
        Some(s) => Some(s),
        None => find_sym(globals, name),
    }
}

/// The redeclaration diagnostic for a global name.
pub open spec fn spec_redeclaration(name: Seq<char>, span: SpanView) -> DiagnosticView {
    DiagnosticView {
        message: "Redefinition of global symbol `"@ + name + "`"@,
        kind: DiagnosticKind::Error,
        span,
    }
}

/// The diagnostic for a statement form that may not stand at the top
/// level.
pub open spec fn spec_illegal_top_level(message: Seq<char>) -> DiagnosticView {
    DiagnosticView {
        message,
        kind: DiagnosticKind::Error,
        span: SpanView { start: 0, end: 0, literal: ""@ },
    }
}

/// Declaring a global name: a collision reports a redeclaration and
/// keeps the first entry.
pub open spec fn spec_declare_global(
    globals: Seq<SymbolView>,
    sym: SymbolView,
    span: SpanView,
) -> (Seq<SymbolView>, Seq<DiagnosticView>) {
    if find_sym(globals, sym_name(sym)) is Some {
        (globals, seq![spec_redeclaration(sym_name(sym), span)])
    } else {
        (globals.push(sym), Seq::empty())
    }
}

/// The parameter names of a declared function.
pub open spec fn param_names(params: Seq<TokenView>) -> Seq<Seq<char>> {
    params.map(|i: int, t: TokenView| t.span.literal)
}

/// The collect pass over one top-level statement.
pub open spec fn spec_collect_stmt(
    globals: Seq<SymbolView>,
    s: StmtView,
) -> (Seq<SymbolView>, Seq<DiagnosticView>) {
    match s {
        StmtView::LetStmt { identifier, .. } => spec_declare_global(
            globals,
            SymbolView::Constant(identifier.span.literal),
            identifier.span,
        ),
        StmtView::Function { identifier, params, .. } => spec_declare_global(
            globals,
            SymbolView::Function(identifier.span.literal, param_names(params)),
            identifier.span,
        ),
        StmtView::Compound(_) => (globals, seq![spec_illegal_top_level("standalone Compound statement not allowed outside of functions"@)]),
        StmtView::Conditional { .. } => (globals, seq![spec_illegal_top_level("If statement not allowed outside of functions"@)]),
        StmtView::ReturnStmt(_) => (globals, Seq::empty()),
        StmtView::Expr(_) => (globals, Seq::empty()),
    }
}

/// The collect pass over a top-level statement list, first to last.
pub open spec fn spec_collect_stmts(
    globals: Seq<SymbolView>,
    ss: Seq<StmtView>,
) -> (Seq<SymbolView>, Seq<DiagnosticView>)
    decreases ss,
{
    if ss.len() == 0 {
        (globals, Seq::empty())
    } else {
        let first = spec_collect_stmts(globals, ss.drop_last());
        let next = spec_collect_stmt(first.0, ss.last());
        (next.0, first.1 + next.1)
    }
}

/// Declaring a local name in the innermost scope; with no open scope the
/// name is already the global one and nothing changes.
pub open spec fn spec_declare_local(
    scopes: Seq<Seq<SymbolView>>,
    sym: SymbolView,
) -> Seq<Seq<SymbolView>> {
    if scopes.len() > 0 {
        scopes.update(scopes.len() - 1, scopes.last().push(sym))
    } else {
        scopes
    }
}

/// The check pass over an expression: the diagnostics it reports.
/// Expressions never change the scope stack.
pub open spec fn spec_check_expr(
    globals: Seq<SymbolView>,
    scopes: Seq<Seq<SymbolView>>,
    e: ExprView,
) -> Seq<DiagnosticView>
    decreases e,
{
    match e {
        ExprView::Integer(_) => Seq::empty(),
        ExprView::Floating(_) => Seq::empty(),
        ExprView::ErrorExpr(_) => Seq::empty(),
        ExprView::Variable(t) => {
            if spec_lookup(globals, scopes, t.span.literal) is None {
                seq![spec_undefined_variable(t.span)]
            } else {
                Seq::empty()
            }
        },
        ExprView::Assignment { identifier, expr } => {
            let target: Seq<DiagnosticView> =
                if spec_lookup(globals, scopes, identifier.span.literal) is None {
                    seq![spec_undefined_variable(identifier.span)]
                } else {
                    Seq::empty()
                };
            target + spec_check_expr(globals, scopes, *expr)
        },
        ExprView::Unary { expr, .. } => spec_check_expr(globals, scopes, *expr),
        ExprView::Binary { left, right, .. } => spec_check_expr(globals, scopes, *left)
            + spec_check_expr(globals, scopes, *right),
        ExprView::Paren(inner) => spec_check_expr(globals, scopes, *inner),
        ExprView::Call { identifier, arguments } => {
            match spec_lookup(globals, scopes, identifier.span.literal) {
                None => seq![spec_undefined_identifier(identifier.span)],
                Some(SymbolView::Function(_, params)) => {
                    if params.len() != arguments.len() {
                        seq![spec_arity_mismatch(identifier.span, params.len(), arguments.len())]
                    } else {
                        spec_check_exprs(globals, scopes, arguments)
                    }
                },
                Some(_) => seq![spec_not_a_callable(identifier.span)],
            }
        },
    }
}

/// The check pass over an argument list, left to right.
pub open spec fn spec_check_exprs(
    globals: Seq<SymbolView>,
    scopes: Seq<Seq<SymbolView>>,
    es: Seq<ExprView>,
) -> Seq<DiagnosticView>
    decreases es,
{
    if es.len() == 0 {
        Seq::empty()
    } else {
        spec_check_exprs(globals, scopes, es.drop_last())
            + spec_check_expr(globals, scopes, es.last())
    }
}

/// The scope seeded with a function's parameters.
pub open spec fn param_scope(params: Seq<TokenView>) -> Seq<SymbolView> {
    params.map(|i: int, t: TokenView| SymbolView::Variable(t.span.literal))
}

/// The check pass over one statement: the scope stack after it and the
/// diagnostics it reports.
pub open spec fn spec_check_stmt(
    globals: Seq<SymbolView>,
    scopes: Seq<Seq<SymbolView>>,
    s: StmtView,
) -> (Seq<Seq<SymbolView>>, Seq<DiagnosticView>)
    decreases s,
{
    match s {
        StmtView::Expr(e) => (scopes, spec_check_expr(globals, scopes, e)),
        StmtView::ReturnStmt(e) => (scopes, spec_check_expr(globals, scopes, e)),
        StmtView::LetStmt { identifier, initializer } => {
            let d = spec_check_expr(globals, scopes, initializer);
            (spec_declare_local(scopes, SymbolView::Constant(identifier.span.literal)), d)
        },
        StmtView::Compound(ss) => {
            let inner = spec_check_stmts(globals, scopes.push(Seq::empty()), ss);
            (pop_scope(inner.0), inner.1)
        },
        StmtView::Function { identifier, params, body } => {
            let declared = spec_declare_local(
                scopes,
                SymbolView::Function(identifier.span.literal, param_names(params)),
            );
            let inner = match *body {
                StmtView::Compound(ss) => spec_check_stmts(
                    globals,
                    declared.push(param_scope(params)),
                    ss,
                ),
                _ => spec_check_stmt(globals, declared.push(param_scope(params)), *body),
            };
            (pop_scope(inner.0), inner.1)
        },
        StmtView::Conditional { condition, then_branch, else_branch, .. } => {
            let dc = spec_check_expr(globals, scopes, condition);
            let then = spec_check_stmt(globals, scopes, *then_branch);
            match else_branch {
                Some(e) => {
                    let els = spec_check_stmt(globals, then.0, *e.else_branch);
                    (els.0, dc + then.1 + els.1)
                },
                None => (then.0, dc + then.1),
            }
        },
    }
}

/// Dropping the innermost scope.
pub open spec fn pop_scope(scopes: Seq<Seq<SymbolView>>) -> Seq<Seq<SymbolView>> {
    if scopes.len() > 0 {
        scopes.drop_last()
    } else {
        scopes
    }
}

/// The check pass over a statement list, first to last, threading the
/// scope stack.
pub open spec fn spec_check_stmts(
    globals: Seq<SymbolView>,
    scopes: Seq<Seq<SymbolView>>,
    ss: Seq<StmtView>,
) -> (Seq<Seq<SymbolView>>, Seq<DiagnosticView>)
    decreases ss,
{
    if ss.len() == 0 {
        (scopes, Seq::empty())
    } else {
        let first = spec_check_stmts(globals, scopes, ss.drop_last());
        let next = spec_check_stmt(globals, first.0, ss.last());
        (next.0, first.1 + next.1)
    }
}

/// How many resolution failures the check pass meets in an expression:
/// an unresolvable variable reference or assignment target, an unknown
/// callee, a known but uncallable callee, or a call with the wrong
/// argument count.  Arguments of a failed call are not counted, since
/// the check skips them.
pub open spec fn undef_count_expr(
    globals: Seq<SymbolView>,
    scopes: Seq<Seq<SymbolView>>,
    e: ExprView,
) -> nat
    decreases e,
{
    match e {
        ExprView::Integer(_) => 0,
        ExprView::Floating(_) => 0,
        ExprView::ErrorExpr(_) => 0,
        ExprView::Variable(t) => if spec_lookup(globals, scopes, t.span.literal) is None {
            1nat
        } else {
            0
        },
        ExprView::Assignment { identifier, expr } => (
            if spec_lookup(globals, scopes, identifier.span.literal) is None {
                1nat
            } else {
                0nat
            }
        ) + undef_count_expr(globals, scopes, *expr),
        ExprView::Unary { expr, .. } => undef_count_expr(globals, scopes, *expr),
        ExprView::Binary { left, right, .. } => undef_count_expr(globals, scopes, *left)
            + undef_count_expr(globals, scopes, *right),
        ExprView::Paren(inner) => undef_count_expr(globals, scopes, *inner),
        ExprView::Call { identifier, arguments } => {
            match spec_lookup(globals, scopes, identifier.span.literal) {
                None => 1,
                Some(SymbolView::Function(_, params)) => if params.len() != arguments.len() {
                    1nat
                } else {
                    undef_count_exprs(globals, scopes, arguments)
                },
                Some(_) => 1,
            }
        },
    }
}

/// As `undef_count_expr`, over an argument list.
pub open spec fn undef_count_exprs(
    globals: Seq<SymbolView>,
    scopes: Seq<Seq<SymbolView>>,
    es: Seq<ExprView>,
) -> nat
    decreases es,
{
    if es.len() == 0 {
        0
    } else {
        undef_count_exprs(globals, scopes, es.drop_last())
            + undef_count_expr(globals, scopes, es.last())
    }
}

/// The check pass reports exactly one diagnostic per resolution
/// failure in an expression: no failure is dropped and none is reported
/// twice.
pub proof fn lemma_one_diagnostic_per_failure_expr(
    globals: Seq<SymbolView>,
    scopes: Seq<Seq<SymbolView>>,
    e: ExprView,
)
    ensures
        spec_check_expr(globals, scopes, e).len() == undef_count_expr(globals, scopes, e),
    decreases e, 0int,
{
    match e {
        ExprView::Assignment { expr, .. } => {
            lemma_one_diagnostic_per_failure_expr(globals, scopes, *expr);
        },
        ExprView::Unary { expr, .. } => {
            lemma_one_diagnostic_per_failure_expr(globals, scopes, *expr);
        },
        ExprView::Binary { left, right, .. } => {
            lemma_one_diagnostic_per_failure_expr(globals, scopes, *left);
            lemma_one_diagnostic_per_failure_expr(globals, scopes, *right);
        },
        ExprView::Paren(inner) => {
            lemma_one_diagnostic_per_failure_expr(globals, scopes, *inner);
        },
        ExprView::Call { identifier, arguments } => {
            match spec_lookup(globals, scopes, identifier.span.literal) {
                Some(SymbolView::Function(_, params)) => {
                    if params.len() == arguments.len() {
                        lemma_one_diagnostic_per_failure_exprs(globals, scopes, arguments);
                    }
                },
                _ => {},
            }
        },
        _ => {},
    }
}

/// As `lemma_one_diagnostic_per_failure_expr`, over an argument list.
pub proof fn lemma_one_diagnostic_per_failure_exprs(
    globals: Seq<SymbolView>,
    scopes: Seq<Seq<SymbolView>>,
    es: Seq<ExprView>,
)
    ensures
        spec_check_exprs(globals, scopes, es).len() == undef_count_exprs(globals, scopes, es),
    decreases es, 1int,
{
    if es.len() > 0 {
        lemma_one_diagnostic_per_failure_exprs(globals, scopes, es.drop_last());
        lemma_one_diagnostic_per_failure_expr(globals, scopes, es.last());
    }
}

/// An unresolvable variable reference produces exactly one diagnostic:
/// the undefined-variable error carrying that occurrence's span.
pub proof fn lemma_undefined_variable_reports_once(
    globals: Seq<SymbolView>,
    scopes: Seq<Seq<SymbolView>>,
    t: TokenView,
)
    requires
        spec_lookup(globals, scopes, t.span.literal) is None,
    ensures
        spec_check_expr(globals, scopes, ExprView::Variable(t))
            =~= seq![spec_undefined_variable(t.span)],
{
}

/// A call to a known function with the wrong number of arguments
/// produces exactly one diagnostic, whose message states the expected
/// and the found count; the arguments themselves are not walked.
pub proof fn lemma_arity_mismatch_reports_once(
    globals: Seq<SymbolView>,
    scopes: Seq<Seq<SymbolView>>,
    identifier: TokenView,
    arguments: Seq<ExprView>,
    name: Seq<char>,
    params: Seq<Seq<char>>,
)
    requires
        spec_lookup(globals, scopes, identifier.span.literal)
            == Some(SymbolView::Function(name, params)),
        params.len() != arguments.len(),
    ensures
        spec_check_expr(globals, scopes, ExprView::Call { identifier, arguments })
            =~= seq![spec_arity_mismatch(identifier.span, params.len(), arguments.len())],
{
}

/// As `undef_count_expr`, over one statement, threading the scope stack
/// exactly as the check pass does.
pub open spec fn undef_count_stmt(
    globals: Seq<SymbolView>,
    scopes: Seq<Seq<SymbolView>>,
    s: StmtView,
) -> nat
    decreases s, 0int,
{
    match s {
        StmtView::Expr(e) => undef_count_expr(globals, scopes, e),
        StmtView::ReturnStmt(e) => undef_count_expr(globals, scopes, e),
        StmtView::LetStmt { initializer, .. } => undef_count_expr(globals, scopes, initializer),
        StmtView::Compound(ss) => undef_count_stmts(globals, scopes.push(Seq::empty()), ss),
        StmtView::Function { identifier, params, body } => {
            let declared = spec_declare_local(
                scopes,
                SymbolView::Function(identifier.span.literal, param_names(params)),
            );
            match *body {
                StmtView::Compound(ss) => undef_count_stmts(
                    globals,
                    declared.push(param_scope(params)),
                    ss,
                ),
                _ => undef_count_stmt(globals, declared.push(param_scope(params)), *body),
            }
        },
        StmtView::Conditional { condition, then_branch, else_branch, .. } => {
            let c = undef_count_expr(globals, scopes, condition);
            let t = undef_count_stmt(globals, scopes, *then_branch);
            match else_branch {
                Some(e) => c + t + undef_count_stmt(
                    globals,
                    spec_check_stmt(globals, scopes, *then_branch).0,
                    *e.else_branch,
                ),
                None => c + t,
            }
        },
    }
}

/// As `undef_count_stmt`, over a statement list.
pub open spec fn undef_count_stmts(
    globals: Seq<SymbolView>,
    scopes: Seq<Seq<SymbolView>>,
    ss: Seq<StmtView>,
) -> nat
    decreases ss, 1int,
{
    if ss.len() == 0 {
        0
    } else {
        undef_count_stmts(globals, scopes, ss.drop_last()) + undef_count_stmt(
            globals,
            spec_check_stmts(globals, scopes, ss.drop_last()).0,
            ss.last(),
        )
    }
}

/// The check pass reports exactly one diagnostic per resolution failure
/// across a whole statement, however deep the failure sits; the walk
/// never stops at the first failure.
pub proof fn lemma_one_diagnostic_per_failure_stmt(
    globals: Seq<SymbolView>,
    scopes: Seq<Seq<SymbolView>>,
    s: StmtView,
)
    ensures
        spec_check_stmt(globals, scopes, s).1.len() == undef_count_stmt(globals, scopes, s),
    decreases s, 0int,
{
    match s {
        StmtView::Expr(e) => {
            lemma_one_diagnostic_per_failure_expr(globals, scopes, e);
        },
        StmtView::ReturnStmt(e) => {
            lemma_one_diagnostic_per_failure_expr(globals, scopes, e);
        },
        StmtView::LetStmt { initializer, .. } => {
            lemma_one_diagnostic_per_failure_expr(globals, scopes, initializer);
        },
        StmtView::Compound(ss) => {
            lemma_one_diagnostic_per_failure_stmts(globals, scopes.push(Seq::empty()), ss);
        },
        StmtView::Function { identifier, params, body } => {
            let declared = spec_declare_local(
                scopes,
                SymbolView::Function(identifier.span.literal, param_names(params)),
            );
            match *body {
                StmtView::Compound(ss) => {
                    lemma_one_diagnostic_per_failure_stmts(
                        globals,
                        declared.push(param_scope(params)),
                        ss,
                    );
                },
                _ => {
                    lemma_one_diagnostic_per_failure_stmt(
                        globals,
                        declared.push(param_scope(params)),
                        *body,
                    );
                },
            }
        },
        StmtView::Conditional { condition, then_branch, else_branch, .. } => {
            lemma_one_diagnostic_per_failure_expr(globals, scopes, condition);
            lemma_one_diagnostic_per_failure_stmt(globals, scopes, *then_branch);
            match else_branch {
                Some(e) => {
                    lemma_one_diagnostic_per_failure_stmt(
                        globals,
                        spec_check_stmt(globals, scopes, *then_branch).0,
                        *e.else_branch,
                    );
                },
                None => {},
            }
        },
    }
}

/// As `lemma_one_diagnostic_per_failure_stmt`, over a statement list.
pub proof fn lemma_one_diagnostic_per_failure_stmts(
    globals: Seq<SymbolView>,
    scopes: Seq<Seq<SymbolView>>,
    ss: Seq<StmtView>,
)
    ensures
        spec_check_stmts(globals, scopes, ss).1.len() == undef_count_stmts(globals, scopes, ss),
    decreases ss, 1int,
{
    if ss.len() > 0 {
        lemma_one_diagnostic_per_failure_stmts(globals, scopes, ss.drop_last());
        lemma_one_diagnostic_per_failure_stmt(
            globals,
            spec_check_stmts(globals, scopes, ss.drop_last()).0,
            ss.last(),
        );
    }
}

/// The check pass touches only the innermost scope: one statement keeps
/// the depth of the scope stack and every outer scope's contents.
pub proof fn lemma_check_stmt_depth(
    g: Seq<SymbolView>,
    sc: Seq<Seq<SymbolView>>,
    s: StmtView,
)
    ensures
        spec_check_stmt(g, sc, s).0.len() == sc.len(),
        forall|i: int| 0 <= i < sc.len() - 1 ==> spec_check_stmt(g, sc, s).0[i] == sc[i],
    decreases s, 0int,
{
    match s {
        StmtView::Expr(_) => {},
        StmtView::ReturnStmt(_) => {},
        StmtView::LetStmt { .. } => {},
        StmtView::Compound(ss) => {
            lemma_check_stmts_depth(g, sc.push(Seq::empty()), ss);
            let inner = spec_check_stmts(g, sc.push(Seq::empty()), ss);
            assert forall|i: int| 0 <= i < sc.len() - 1
                implies spec_check_stmt(g, sc, s).0[i] == sc[i] by {
                assert(inner.0[i] == sc.push(Seq::empty())[i]);
            }
        },
        StmtView::Function { identifier, params, body } => {
            let declared = spec_declare_local(
                sc,
                SymbolView::Function(identifier.span.literal, param_names(params)),
            );
            let pushed = declared.push(param_scope(params));
            match *body {
                StmtView::Compound(ss) => {
                    lemma_check_stmts_depth(g, pushed, ss);
                    let inner = spec_check_stmts(g, pushed, ss);
                    assert forall|i: int| 0 <= i < sc.len() - 1
                        implies spec_check_stmt(g, sc, s).0[i] == sc[i] by {
                        assert(inner.0[i] == pushed[i]);
                        assert(pushed[i] == declared[i]);
                        assert(declared[i] == sc[i]);
                    }
                },
                _ => {
                    lemma_check_stmt_depth(g, pushed, *body);
                    let inner = spec_check_stmt(g, pushed, *body);
                    assert forall|i: int| 0 <= i < sc.len() - 1
                        implies spec_check_stmt(g, sc, s).0[i] == sc[i] by {
                        assert(inner.0[i] == pushed[i]);
                        assert(pushed[i] == declared[i]);
                        assert(declared[i] == sc[i]);
                    }
                },
            }
        },
        StmtView::Conditional { condition, then_branch, else_branch, .. } => {
            lemma_check_stmt_depth(g, sc, *then_branch);
            match else_branch {
                Some(e) => {
                    let then = spec_check_stmt(g, sc, *then_branch);
                    lemma_check_stmt_depth(g, then.0, *e.else_branch);
                    let els = spec_check_stmt(g, then.0, *e.else_branch);
                    assert forall|i: int| 0 <= i < sc.len() - 1
                        implies spec_check_stmt(g, sc, s).0[i] == sc[i] by {
                        assert(els.0[i] == then.0[i]);
                        assert(then.0[i] == sc[i]);
                    }
                },
                None => {},
            }
        },
    }
}

/// As `lemma_check_stmt_depth`, for a statement list.
pub proof fn lemma_check_stmts_depth(
    g: Seq<SymbolView>,
    sc: Seq<Seq<SymbolView>>,
    ss: Seq<StmtView>,
)
    ensures
        spec_check_stmts(g, sc, ss).0.len() == sc.len(),
        forall|i: int| 0 <= i < sc.len() - 1 ==> spec_check_stmts(g, sc, ss).0[i] == sc[i],
    decreases ss, 1int,
{
    if ss.len() > 0 {
        lemma_check_stmts_depth(g, sc, ss.drop_last());
        lemma_check_stmt_depth(g, spec_check_stmts(g, sc, ss.drop_last()).0, ss.last());
    }
}

/// Both passes over a whole program: the global table of the collect
/// pass and the diagnostics of both passes in order.
pub open spec fn spec_resolve(ss: Seq<StmtView>) -> (Seq<SymbolView>, Seq<DiagnosticView>) {
    let collected = spec_collect_stmts(Seq::empty(), ss);
    let checked = spec_check_stmts(collected.0, Seq::empty(), ss);
    (collected.0, collected.1 + checked.1)
}

/// One step of the collect fold.
pub proof fn lemma_collect_take(g0: Seq<SymbolView>, ss: Seq<StmtView>, i: int)
    requires
        0 <= i < ss.len(),
    ensures
        spec_collect_stmts(g0, ss.take(i + 1)) == ({
            let first = spec_collect_stmts(g0, ss.take(i));
            let next = spec_collect_stmt(first.0, ss[i]);
            (next.0, first.1 + next.1)
        }),
{
    assert(ss.take(i + 1).drop_last() =~= ss.take(i));
    assert(ss.take(i + 1).last() == ss[i]);
}

/// One step of the check fold.
pub proof fn lemma_check_take(
    g: Seq<SymbolView>,
    sc0: Seq<Seq<SymbolView>>,
    ss: Seq<StmtView>,
    i: int,
)
    requires
        0 <= i < ss.len(),
    ensures
        spec_check_stmts(g, sc0, ss.take(i + 1)) == ({
            let first = spec_check_stmts(g, sc0, ss.take(i));
            let next = spec_check_stmt(g, first.0, ss[i]);
            (next.0, first.1 + next.1)
        }),
{
    assert(ss.take(i + 1).drop_last() =~= ss.take(i));
    assert(ss.take(i + 1).last() == ss[i]);
}

/// One step of the argument-check fold.
pub proof fn lemma_check_exprs_take(
    g: Seq<SymbolView>,
    sc: Seq<Seq<SymbolView>>,
    es: Seq<ExprView>,
    i: int,
)
    requires
        0 <= i < es.len(),
    ensures
        spec_check_exprs(g, sc, es.take(i + 1))
            == spec_check_exprs(g, sc, es.take(i)) + spec_check_expr(g, sc, es[i]),
{
    assert(es.take(i + 1).drop_last() =~= es.take(i));
    assert(es.take(i + 1).last() == es[i]);
}

/// The views of a single scope.
pub open spec fn view_scope(v: Seq<Symbol>) -> Seq<SymbolView> {
    v.map(|i: int, s: Symbol| s@)
}

/// The views of the whole scope stack.
pub open spec fn view_scopes(v: Seq<Vec<Symbol>>) -> Seq<Seq<SymbolView>> {
    v.map(|i: int, inner: Vec<Symbol>| view_scope(inner@))
}

/// The two-pass symbol table: one global table, a stack of lexical
/// scopes used during the check pass, and the diagnostics sink.
#[derive(Debug)]
pub struct SymbolTable {
    pub global_scope: Vec<Symbol>,
    pub scopes: Vec<Vec<Symbol>>,
    pub diagnostics: DiagnosticsColletion,
}

impl SymbolTable {
    /// The views of the global table.
    pub open spec fn globals(&self) -> Seq<SymbolView> {
        view_scope(self.global_scope@)
    }

    /// The views of the scope stack.
    pub open spec fn sc(&self) -> Seq<Seq<SymbolView>> {
        view_scopes(self.scopes@)
    }

    pub fn new(diagnostics: DiagnosticsColletion) -> (r: SymbolTable)
        ensures
            r.globals() == Seq::<SymbolView>::empty(),
            r.sc() == Seq::<Seq<SymbolView>>::empty(),
            r.diagnostics@ == diagnostics@,
    {
        let r = SymbolTable { global_scope: Vec::new(), scopes: Vec::new(), diagnostics };
        proof {
            assert(r.globals() =~= Seq::<SymbolView>::empty());
            assert(r.sc() =~~= Seq::<Seq<SymbolView>>::empty());
        }
        r
    }

    /// Opens a fresh innermost scope.
    fn enter_scope(&mut self)
        ensures
            final(self).globals() == old(self).globals(),
            final(self).diagnostics@ == old(self).diagnostics@,
            final(self).sc() == old(self).sc().push(Seq::<SymbolView>::empty()),
    {
        self.scopes.push(Vec::new());
        proof {
            assert(self.sc() =~~= old(self).sc().push(Seq::<SymbolView>::empty()));
        }
    }

    /// Opens a fresh innermost scope holding the given symbols.
    fn enter_scope_with(&mut self, seeded: Vec<Symbol>)
        ensures
            final(self).globals() == old(self).globals(),
            final(self).diagnostics@ == old(self).diagnostics@,
            final(self).sc() == old(self).sc().push(view_scope(seeded@)),
    {
        let ghost v = seeded@;
        self.scopes.push(seeded);
        proof {
            assert(self.sc() =~~= old(self).sc().push(view_scope(v)));
        }
    }

    /// Closes the innermost scope.
    fn exit_scope(&mut self)
        ensures
            final(self).globals() == old(self).globals(),
            final(self).diagnostics@ == old(self).diagnostics@,
            final(self).sc() == pop_scope(old(self).sc()),
    {
        if self.scopes.len() > 0 {
            self.scopes.pop();
        }
        proof {
            assert(self.sc() =~~= pop_scope(old(self).sc()));
        }
    }

    /// Declares a name in the innermost scope; with no open scope the
    /// name is already global and nothing changes.
    fn declare_local_identifier(&mut self, symbol: Symbol)
        ensures
            final(self).globals() == old(self).globals(),
            final(self).diagnostics@ == old(self).diagnostics@,
            final(self).sc() == spec_declare_local(old(self).sc(), symbol@),
    {
        let ghost sv = symbol@;
        if self.scopes.len() > 0 {
            let mut inner = match self.scopes.pop() {
                Some(v) => v,
                None => Vec::new(),
            };
            let ghost before = inner@;
            inner.push(symbol);
            proof {
                assert(view_scope(inner@) =~= view_scope(before).push(sv));
            }
            self.scopes.push(inner);
            proof {
                assert(self.sc() =~~= spec_declare_local(old(self).sc(), sv));
            }
        } else {
            proof {
                assert(self.sc() =~~= spec_declare_local(old(self).sc(), sv));
            }
        }
    }

    /// Declares a top-level name: a collision reports a redeclaration
    /// against `span` and keeps the first entry.
    fn declare_global_identifier(&mut self, symbol: Symbol, span: TextSpan)
        ensures
            final(self).sc() == old(self).sc(),
            ({
                let d = spec_declare_global(old(self).globals(), symbol@, span@);
                &&& final(self).globals() == d.0
                &&& final(self).diagnostics@ == old(self).diagnostics@ + d.1
            }),
    {
        let ghost sv = symbol@;
        let name = symbol.name();
        let existing = find_in(&self.global_scope, name.as_str());
        if existing {
            let mut message = "Redefinition of global symbol `".to_owned();
            message.append(name.as_str());
            message.append("`");
            self.diagnostics.report_error(message, span);
            proof {
                assert(old(self).diagnostics@.push(spec_redeclaration(sym_name(sv), span@))
                    =~= old(self).diagnostics@ + seq![spec_redeclaration(sym_name(sv), span@)]);
            }
        } else {
            let ghost before = self.global_scope@;
            self.global_scope.push(symbol);
            proof {
                assert(view_scope(self.global_scope@) =~= view_scope(before).push(sv));
                assert(old(self).diagnostics@ + Seq::<DiagnosticView>::empty()
                    =~= old(self).diagnostics@);
            }
        }
    }

    /// Resolves a name: the scope stack innermost-first, then the global
    /// table.
    fn lookup(&self, name: &str) -> (r: Option<&Symbol>)
        ensures
            match r {
                Some(s) => spec_lookup(self.globals(), self.sc(), name@) == Some(s@),
                None => spec_lookup(self.globals(), self.sc(), name@) is None,
            },
    {
        let mut k = self.scopes.len();
        proof {
            assert(self.sc().take(self.scopes@.len() as int) =~~= self.sc());
        }
        while k > 0
            invariant
                k <= self.scopes.len(),
                lookup_scopes(self.sc(), name@) == lookup_scopes(self.sc().take(k as int), name@),
            decreases k,
        {
            k = k - 1;
            let found = find_index(&self.scopes[k], name);
            proof {
                assert(self.sc().take(k + 1).drop_last() =~~= self.sc().take(k as int));
                assert(self.sc().take(k + 1).last() == view_scope(self.scopes@[k as int]@));
            }
            match found {
                Some(j) => {
                    return Some(&self.scopes[k][j]);
                },
                None => {},
            }
        }
        proof {
            assert(self.sc().take(0) =~~= Seq::<Seq<SymbolView>>::empty());
        }
        match find_index_global(&self.global_scope, name) {
            Some(j) => Some(&self.global_scope[j]),
            None => None,
        }
    }
}

impl SymbolTable {
    /// Both passes over a freshly built table: collect all top-level
    /// declarations, then check the whole tree.
    pub fn build(&mut self, ast: &Ast)
        requires
            old(self).globals() == Seq::<SymbolView>::empty(),
            old(self).sc() == Seq::<Seq<SymbolView>>::empty(),
        ensures
            final(self).globals() == spec_resolve(ast@).0,
            final(self).sc() == Seq::<Seq<SymbolView>>::empty(),
            final(self).diagnostics@ == old(self).diagnostics@ + spec_resolve(ast@).1,
    {
        let n = ast.statements.len();
        proof {
            assert(view_stmt_list(ast.statements@).take(
                view_stmt_list(ast.statements@).len() as int) =~= view_stmt_list(ast.statements@));
            crate::ast::lemma_view_stmt_list_len(ast.statements@);
        }
        self.collect_statements(&ast.statements, n);
        self.check_statements(&ast.statements, n);
        proof {
            let ss = view_stmt_list(ast.statements@);
            let collected = spec_collect_stmts(Seq::empty(), ss);
            let checked = spec_check_stmts(collected.0, Seq::empty(), ss);
            assert((old(self).diagnostics@ + collected.1) + checked.1
                =~= old(self).diagnostics@ + (collected.1 + checked.1));
            lemma_check_stmts_depth(collected.0, Seq::empty(), ss);
            assert(checked.0 =~~= Seq::<Seq<SymbolView>>::empty());
        }
    }

    /// The collect pass over the first `n` top-level statements.
    fn collect_statements(&mut self, ss: &Vec<ASTStatement>, n: usize)
        requires
            n <= ss@.len(),
        ensures
            final(self).sc() == old(self).sc(),
            ({
                let c = spec_collect_stmts(old(self).globals(), view_stmt_list(ss@).take(n as int));
                &&& final(self).globals() == c.0
                &&& final(self).diagnostics@ == old(self).diagnostics@ + c.1
            }),
        decreases n,
    {
        if n == 0 {
            proof {
                assert(view_stmt_list(ss@).take(0) =~= Seq::<StmtView>::empty());
                assert(old(self).diagnostics@ + Seq::<DiagnosticView>::empty()
                    =~= old(self).diagnostics@);
            }
            return;
        }
        self.collect_statements(ss, n - 1);
        proof {
            crate::ast::lemma_view_stmt_list_index(ss@, n - 1);
            assert(view_stmt_list(ss@).take(n as int).drop_last()
                =~= view_stmt_list(ss@).take(n - 1));
            assert(view_stmt_list(ss@).take(n as int).last() == view_stmt_list(ss@)[n - 1]);
        }
        let ghost g1 = self.globals();
        let ghost d1 = self.diagnostics@;
        self.collect_statement(&ss[n - 1]);
        proof {
            let c1 = spec_collect_stmts(old(self).globals(), view_stmt_list(ss@).take(n - 1));
            let c2 = spec_collect_stmt(g1, view_stmt_list(ss@)[n - 1]);
            assert((old(self).diagnostics@ + c1.1) + c2.1
                =~= old(self).diagnostics@ + (c1.1 + c2.1));
        }
    }

    /// The collect pass over one top-level statement.
    fn collect_statement(&mut self, s: &ASTStatement)
        ensures
            final(self).sc() == old(self).sc(),
            ({
                let c = spec_collect_stmt(old(self).globals(), s@);
                &&& final(self).globals() == c.0
                &&& final(self).diagnostics@ == old(self).diagnostics@ + c.1
            }),
    {
        match &s.kind {
            ASTStatementKind::LetStatement(l) => {
                let sym = Symbol::Constant(VariableInfo { name: l.identifier.span.literal.clone() });
                self.declare_global_identifier(sym, l.identifier.span.duplicate());
            },
            ASTStatementKind::FunctionStatement(f) => {
                let parameters = param_name_vec(&f.arguments);
                let sym = Symbol::Function(FunctionInfo {
                    name: f.identifier.span.literal.clone(),
                    parameters,
                });
                proof {
                    lemma_view_params_index(f.arguments@);
                    assert(sym@ =~~= SymbolView::Function(
                        f.identifier.span.literal@,
                        param_names(crate::ast::view_params(f.arguments@)),
                    ));
                }
                self.declare_global_identifier(sym, f.identifier.span.duplicate());
            },
            ASTStatementKind::CompoundStatement(_) => {
                self.diagnostics.report_error(
                    "standalone Compound statement not allowed outside of functions".to_owned(),
                    TextSpan::new(0, 0, "".to_owned()),
                );
                proof {
                    let d = spec_illegal_top_level(
                        "standalone Compound statement not allowed outside of functions"@);
                    assert(old(self).diagnostics@.push(d) =~= old(self).diagnostics@ + seq![d]);
                }
            },
            ASTStatementKind::ConditionalStatement(_) => {
                self.diagnostics.report_error(
                    "If statement not allowed outside of functions".to_owned(),
                    TextSpan::new(0, 0, "".to_owned()),
                );
                proof {
                    let d = spec_illegal_top_level("If statement not allowed outside of functions"@);
                    assert(old(self).diagnostics@.push(d) =~= old(self).diagnostics@ + seq![d]);
                }
            },
            ASTStatementKind::ReturnStatement(_) => {
                proof {
                    assert(old(self).diagnostics@ + Seq::<DiagnosticView>::empty()
                        =~= old(self).diagnostics@);
                }
            },
            ASTStatementKind::Expression(_) => {
                proof {
                    assert(old(self).diagnostics@ + Seq::<DiagnosticView>::empty()
                        =~= old(self).diagnostics@);
                }
            },
        }
    }

    /// The check pass over the first `n` statements of a list, threading
    /// the scope stack.
    fn check_statements(&mut self, ss: &Vec<ASTStatement>, n: usize)
        requires
            n <= ss@.len(),
        ensures
            final(self).globals() == old(self).globals(),
            ({
                let c = spec_check_stmts(
                    old(self).globals(),
                    old(self).sc(),
                    view_stmt_list(ss@).take(n as int),
                );
                &&& final(self).sc() == c.0
                &&& final(self).diagnostics@ == old(self).diagnostics@ + c.1
            }),
        decreases *ss, n, 4int,
    {
        if n == 0 {
            proof {
                assert(view_stmt_list(ss@).take(0) =~= Seq::<StmtView>::empty());
                assert(old(self).diagnostics@ + Seq::<DiagnosticView>::empty()
                    =~= old(self).diagnostics@);
            }
            return;
        }
        self.check_statements(ss, n - 1);
        proof {
            crate::ast::lemma_view_stmt_list_index(ss@, n - 1);
            assert(view_stmt_list(ss@).take(n as int).drop_last()
                =~= view_stmt_list(ss@).take(n - 1));
            assert(view_stmt_list(ss@).take(n as int).last() == view_stmt_list(ss@)[n - 1]);
        }
        let ghost sc1 = self.sc();
        self.check_statement(&ss[n - 1]);
        proof {
            let c1 = spec_check_stmts(old(self).globals(), old(self).sc(),
                view_stmt_list(ss@).take(n - 1));
            let c2 = spec_check_stmt(old(self).globals(), sc1, view_stmt_list(ss@)[n - 1]);
            assert((old(self).diagnostics@ + c1.1) + c2.1
                =~= old(self).diagnostics@ + (c1.1 + c2.1));
        }
    }

    /// The check pass over one statement.
    #[verifier::rlimit(60)]
    fn check_statement(&mut self, s: &ASTStatement)
        ensures
            final(self).globals() == old(self).globals(),
            ({
                let c = spec_check_stmt(old(self).globals(), old(self).sc(), s@);
                &&& final(self).sc() == c.0
                &&& final(self).diagnostics@ == old(self).diagnostics@ + c.1
            }),
        decreases *s, 0int, 5int,
    {
        match &s.kind {
            ASTStatementKind::Expression(e) => {
                self.check_expression(e);
            },
            ASTStatementKind::ReturnStatement(r) => {
                self.check_expression(&r.expr);
            },
            ASTStatementKind::LetStatement(l) => {
                self.check_expression(&l.initializer);
                let sym = Symbol::Constant(VariableInfo { name: l.identifier.span.literal.clone() });
                self.declare_local_identifier(sym);
                proof {
                    let c0 = spec_check_stmt(old(self).globals(), old(self).sc(), s@);
                    assert(self.sc() == c0.0);
                    assert(self.diagnostics@ == old(self).diagnostics@ + c0.1);
                }
            },
            ASTStatementKind::CompoundStatement(c) => {
                self.enter_scope();
                let n = c.statements.len();
                proof {
                    crate::ast::lemma_view_stmt_list_len(c.statements@);
                    assert(view_stmt_list(c.statements@).take(n as int)
                        =~= view_stmt_list(c.statements@));
                }
                self.check_statements(&c.statements, n);
                self.exit_scope();
                proof {
                    let c0 = spec_check_stmt(old(self).globals(), old(self).sc(), s@);
                    assert(self.sc() == c0.0);
                    assert(self.diagnostics@ == old(self).diagnostics@ + c0.1);
                }
            },
            ASTStatementKind::FunctionStatement(f) => {
                let parameters = param_name_vec(&f.arguments);
                let sym = Symbol::Function(FunctionInfo {
                    name: f.identifier.span.literal.clone(),
                    parameters,
                });
                proof {
                    lemma_view_params_index(f.arguments@);
                    assert(sym@ =~~= SymbolView::Function(
                        f.identifier.span.literal@,
                        param_names(crate::ast::view_params(f.arguments@)),
                    ));
                }
                self.declare_local_identifier(sym);
                proof {
                    assert(self.sc() == spec_declare_local(old(self).sc(), SymbolView::Function(
                        f.identifier.span.literal@,
                        param_names(crate::ast::view_params(f.arguments@)),
                    )));
                }
                let seeded = param_symbol_vec(&f.arguments);
                proof {
                    lemma_view_params_index(f.arguments@);
                    assert(view_scope(seeded@)
                        =~~= param_scope(crate::ast::view_params(f.arguments@)));
                }
                self.enter_scope_with(seeded);
                proof {
                    assert(self.sc() == spec_declare_local(old(self).sc(), SymbolView::Function(
                        f.identifier.span.literal@,
                        param_names(crate::ast::view_params(f.arguments@)),
                    )).push(param_scope(crate::ast::view_params(f.arguments@))));
                }
                match &f.body.kind {
                    ASTStatementKind::CompoundStatement(c) => {
                        let n = c.statements.len();
                        proof {
                            crate::ast::lemma_view_stmt_list_len(c.statements@);
                            assert(view_stmt_list(c.statements@).take(n as int)
                                =~= view_stmt_list(c.statements@));
                        }
                        self.check_statements(&c.statements, n);
                        proof {
                            assert(view_stmt(*f.body)
                                == StmtView::Compound(view_stmt_list(c.statements@)));
                            let ps = crate::ast::view_params(f.arguments@);
                            let declared = spec_declare_local(old(self).sc(),
                                SymbolView::Function(f.identifier.span.literal@,
                                    param_names(ps)));
                            let inner = spec_check_stmts(old(self).globals(),
                                declared.push(param_scope(ps)), view_stmt_list(c.statements@));
                            assert(self.sc() == inner.0);
                            assert(self.diagnostics@ == old(self).diagnostics@ + inner.1);
                        }
                    },
                    _ => {
                        self.check_statement(&f.body);
                        proof {
                            let ps = crate::ast::view_params(f.arguments@);
                            let declared = spec_declare_local(old(self).sc(),
                                SymbolView::Function(f.identifier.span.literal@,
                                    param_names(ps)));
                            let inner = spec_check_stmt(old(self).globals(),
                                declared.push(param_scope(ps)), view_stmt(*f.body));
                            assert(self.sc() == inner.0);
                            assert(self.diagnostics@ == old(self).diagnostics@ + inner.1);
                        }
                    },
                }
                self.exit_scope();
                proof {
                    let c0 = spec_check_stmt(old(self).globals(), old(self).sc(), s@);
                    assert(self.sc() == c0.0);
                    assert(self.diagnostics@ == old(self).diagnostics@ + c0.1);
                }
            },
            ASTStatementKind::ConditionalStatement(c) => {
                self.check_expression(&c.condition);
                self.check_statement(&c.then_branch);
                match &c.else_branch {
                    Some(e) => {
                        let ghost scels0 = self.sc();
                        self.check_statement(&e.else_branch);
                        proof {
                            let dc = spec_check_expr(old(self).globals(), old(self).sc(),
                                c.condition@);
                            let then = spec_check_stmt(old(self).globals(), old(self).sc(),
                                c.then_branch@);
                            let els = spec_check_stmt(old(self).globals(), scels0,
                                e.else_branch@);
                            assert(((old(self).diagnostics@ + dc) + then.1) + els.1
                                =~= old(self).diagnostics@ + (dc + then.1 + els.1));
                        }
                    },
                    None => {
                        proof {
                            let dc = spec_check_expr(old(self).globals(), old(self).sc(),
                                c.condition@);
                            let then = spec_check_stmt(old(self).globals(), old(self).sc(),
                                c.then_branch@);
                            assert((old(self).diagnostics@ + dc) + then.1
                                =~= old(self).diagnostics@ + (dc + then.1));
                        }
                    },
                }
            },
        }
    }

    /// The check pass over the first `n` arguments of a call.
    fn check_arguments(&mut self, args: &Vec<ASTExpression>, n: usize)
        requires
            n <= args@.len(),
        ensures
            final(self).globals() == old(self).globals(),
            final(self).sc() == old(self).sc(),
            final(self).diagnostics@ == old(self).diagnostics@ + spec_check_exprs(
                old(self).globals(),
                old(self).sc(),
                view_expr_list(args@).take(n as int),
            ),
        decreases *args, n, 2int,
    {
        if n == 0 {
            proof {
                assert(view_expr_list(args@).take(0) =~= Seq::<ExprView>::empty());
                assert(old(self).diagnostics@ + Seq::<DiagnosticView>::empty()
                    =~= old(self).diagnostics@);
            }
            return;
        }
        self.check_arguments(args, n - 1);
        proof {
            lemma_view_expr_list_index(args@, n - 1);
            assert(view_expr_list(args@).take(n as int).drop_last()
                =~= view_expr_list(args@).take(n - 1));
            assert(view_expr_list(args@).take(n as int).last() == view_expr_list(args@)[n - 1]);
        }
        self.check_expression(&args[n - 1]);
        proof {
            let d1 = spec_check_exprs(old(self).globals(), old(self).sc(),
                view_expr_list(args@).take(n - 1));
            let d2 = spec_check_expr(old(self).globals(), old(self).sc(),
                view_expr_list(args@)[n - 1]);
            assert((old(self).diagnostics@ + d1) + d2 =~= old(self).diagnostics@ + (d1 + d2));
        }
    }

    /// The check pass over one expression.
    #[verifier::rlimit(60)]
    fn check_expression(&mut self, e: &ASTExpression)
        ensures
            final(self).globals() == old(self).globals(),
            final(self).sc() == old(self).sc(),
            final(self).diagnostics@ == old(self).diagnostics@ + spec_check_expr(
                old(self).globals(),
                old(self).sc(),
                e@,
            ),
        decreases *e, 0int, 1int,
    {
        match &e.kind {
            ASTExpressionKind::IntegerLiteral(_) => {
                proof {
                    assert(old(self).diagnostics@ + Seq::<DiagnosticView>::empty()
                        =~= old(self).diagnostics@);
                }
            },
            ASTExpressionKind::FloatingLiteral(_) => {
                proof {
                    assert(old(self).diagnostics@ + Seq::<DiagnosticView>::empty()
                        =~= old(self).diagnostics@);
                }
            },
            ASTExpressionKind::Error(_) => {
                proof {
                    assert(old(self).diagnostics@ + Seq::<DiagnosticView>::empty()
                        =~= old(self).diagnostics@);
                }
            },
            ASTExpressionKind::Variable(v) => {
                let missing = self.lookup(v.identifier.span.literal.as_str()).is_none();
                if missing {
                    self.diagnostics.report_undefined_variable(v.identifier.span.duplicate());
                    proof {
                        assert(old(self).diagnostics@.push(
                            spec_undefined_variable(v.identifier.span@))
                            =~= old(self).diagnostics@ + seq![
                                spec_undefined_variable(v.identifier.span@)]);
                    }
                } else {
                    proof {
                        assert(old(self).diagnostics@ + Seq::<DiagnosticView>::empty()
                            =~= old(self).diagnostics@);
                    }
                }
            },
            ASTExpressionKind::Assignment(a) => {
                let missing = self.lookup(a.identifier.span.literal.as_str()).is_none();
                let ghost target: Seq<DiagnosticView> = if missing {
                    seq![spec_undefined_variable(a.identifier.span@)]
                } else {
                    Seq::empty()
                };
                if missing {
                    self.diagnostics.report_undefined_variable(a.identifier.span.duplicate());
                    proof {
                        assert(old(self).diagnostics@.push(
                            spec_undefined_variable(a.identifier.span@))
                            =~= old(self).diagnostics@ + target);
                    }
                } else {
                    proof {
                        assert(old(self).diagnostics@ + target =~= old(self).diagnostics@);
                    }
                }
                self.check_expression(&a.expr);
                proof {
                    let d2 = spec_check_expr(old(self).globals(), old(self).sc(), a.expr@);
                    assert((old(self).diagnostics@ + target) + d2
                        =~= old(self).diagnostics@ + (target + d2));
                }
            },
            ASTExpressionKind::Unary(u) => {
                self.check_expression(&u.expr);
            },
            ASTExpressionKind::Binary(b) => {
                self.check_expression(&b.left);
                self.check_expression(&b.right);
                proof {
                    let d1 = spec_check_expr(old(self).globals(), old(self).sc(), b.left@);
                    let d2 = spec_check_expr(old(self).globals(), old(self).sc(), b.right@);
                    assert((old(self).diagnostics@ + d1) + d2
                        =~= old(self).diagnostics@ + (d1 + d2));
                }
            },
            ASTExpressionKind::Parenthesized(p) => {
                self.check_expression(&p.expr);
            },
            ASTExpressionKind::FunctionCall(c) => {
                let shape: (bool, Option<usize>) = match self.lookup(
                    c.identifier.span.literal.as_str()) {
                    None => (false, None),
                    Some(Symbol::Function(f)) => (true, Some(f.parameters.len())),
                    Some(_) => (true, None),
                };
                match shape {
                    (false, _) => {
                        self.diagnostics.report_undefined_identifier(
                            c.identifier.span.duplicate());
                        proof {
                            assert(old(self).diagnostics@.push(
                                spec_undefined_identifier(c.identifier.span@))
                                =~= old(self).diagnostics@ + seq![
                                    spec_undefined_identifier(c.identifier.span@)]);
                        }
                    },
                    (true, Some(expected)) => {
                        let found = c.arguments.len();
                        proof {
                            crate::ast::lemma_view_expr_list_len(c.arguments@);
                        }
                        if expected != found {
                            self.diagnostics.report_number_of_function_arguments_mismatch(
                                c.identifier.span.duplicate(),
                                expected,
                                found,
                            );
                            proof {
                                assert(old(self).diagnostics@.push(spec_arity_mismatch(
                                    c.identifier.span@, expected as nat, found as nat))
                                    =~= old(self).diagnostics@ + seq![spec_arity_mismatch(
                                        c.identifier.span@, expected as nat, found as nat)]);
                            }
                        } else {
                            proof {
                                assert(view_expr_list(c.arguments@).take(
                                    c.arguments@.len() as int)
                                    =~= view_expr_list(c.arguments@));
                            }
                            self.check_arguments(&c.arguments, found);
                        }
                    },
                    (true, None) => {
                        self.diagnostics.report_not_a_callable(c.identifier.span.duplicate());
                        proof {
                            assert(old(self).diagnostics@.push(
                                spec_not_a_callable(c.identifier.span@))
                                =~= old(self).diagnostics@ + seq![
                                    spec_not_a_callable(c.identifier.span@)]);
                        }
                    },
                }
            },
        }
    }
}

/// The parameter names of a declaration, cloned in order.
fn param_name_vec(params: &Vec<crate::ast::FunctionArgumentDeclaration>) -> (r: Vec<String>)
    ensures
        r@.len() == params@.len(),
        forall|i: int| 0 <= i < params@.len()
            ==> #[trigger] r@[i]@ == params@[i].identifier.span.literal@,
{
    let mut out: Vec<String> = Vec::new();
    let mut i: usize = 0;
    while i < params.len()
        invariant
            i <= params@.len(),
            out@.len() == i,
            forall|j: int| 0 <= j < i
                ==> #[trigger] out@[j]@ == params@[j].identifier.span.literal@,
        decreases params@.len() - i,
    {
        out.push(params[i].identifier.span.literal.clone());
        i = i + 1;
    }
    out
}

/// The parameters of a declaration as variable symbols, in order.
fn param_symbol_vec(params: &Vec<crate::ast::FunctionArgumentDeclaration>) -> (r: Vec<Symbol>)
    ensures
        r@.len() == params@.len(),
        forall|i: int| 0 <= i < params@.len()
            ==> #[trigger] r@[i]@ == SymbolView::Variable(params@[i].identifier.span.literal@),
{
    let mut out: Vec<Symbol> = Vec::new();
    let mut i: usize = 0;
    while i < params.len()
        invariant
            i <= params@.len(),
            out@.len() == i,
            forall|j: int| 0 <= j < i
                ==> #[trigger] out@[j]@ == SymbolView::Variable(params@[j].identifier.span.literal@),
        decreases params@.len() - i,
    {
        out.push(Symbol::Variable(VariableInfo {
            name: params[i].identifier.span.literal.clone(),
        }));
        i = i + 1;
    }
    out
}

/// Whether the global table holds an entry with this name.
fn find_in(v: &Vec<Symbol>, name: &str) -> (r: bool)
    ensures
        r == (find_sym(view_scope(v@), name@) is Some),
{
    match find_index_global(v, name) {
        Some(_) => true,
        None => false,
    }
}

/// The index of the latest entry with this name, if any.
fn find_index_global(v: &Vec<Symbol>, name: &str) -> (r: Option<usize>)
    ensures
        match r {
            Some(j) => j < v@.len() && find_sym(view_scope(v@), name@) == Some(v@[j as int]@),
            None => find_sym(view_scope(v@), name@) is None,
        },
{
    find_index(v, name)
}

/// The index of the latest entry with this name, if any.
fn find_index(v: &Vec<Symbol>, name: &str) -> (r: Option<usize>)
    ensures
        match r {
            Some(j) => j < v@.len() && find_sym(view_scope(v@), name@) == Some(v@[j as int]@),
            None => find_sym(view_scope(v@), name@) is None,
        },
{
    let mut k = v.len();
    proof {
        assert(view_scope(v@).take(v@.len() as int) =~= view_scope(v@));
    }
    while k > 0
        invariant
            k <= v.len(),
            find_sym(view_scope(v@), name@) == find_sym(view_scope(v@).take(k as int), name@),
        decreases k,
    {
        k = k - 1;
        proof {
            assert(view_scope(v@).take(k + 1).drop_last() =~= view_scope(v@).take(k as int));
            assert(view_scope(v@).take(k + 1).last() == v@[k as int]@);
        }
        let entry_name = v[k].name();
        if crate::text::str_eq(entry_name.as_str(), name) {
            return Some(k);
        }
    }
    proof {
        assert(view_scope(v@).take(0) =~= Seq::<SymbolView>::empty());
    }
    None
}

} // verus!
