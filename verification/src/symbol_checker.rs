//! A flat, single-table symbol check: one pass over the tree with one
//! list of declared names and no lexical scoping.  Every `let` records
//! its name; every variable reference and every callee is looked up in
//! that one list, and an unknown name reports an undefined-variable
//! diagnostic.  The scoped, two-pass resolver supersedes this check; it
//! is kept as the simple validator for single-scope programs.

use vstd::prelude::*;
use crate::ast::{
    ASTExpression, ASTExpressionKind, ASTStatement, ASTStatementKind, Ast, ExprView, StmtView,
    view_expr_list, view_stmt_list, lemma_view_expr_list_index, lemma_view_stmt_list_index,
};
use crate::diagnostics::{DiagnosticsColletion, DiagnosticView, spec_undefined_variable};
use crate::text::str_eq;

verus! {

/// Whether the list holds this name.
pub open spec fn has_name(syms: Seq<Seq<char>>, name: Seq<char>) -> bool
    decreases syms,
{
    if syms.len() == 0 {
        false
    } else if syms.last() == name {
        true
    } else {
        has_name(syms.drop_last(), name)
    }
}

/// The diagnostics of the flat check over one expression.
pub open spec fn flat_check_expr(syms: Seq<Seq<char>>, e: ExprView) -> Seq<DiagnosticView>
    decreases e,
{
    match e {
        ExprView::Integer(_) => Seq::empty(),
        ExprView::Floating(_) => Seq::empty(),
        ExprView::ErrorExpr(_) => Seq::empty(),
        ExprView::Assignment { .. } => Seq::empty(),
        ExprView::Variable(t) => if !has_name(syms, t.span.literal) {
            seq![spec_undefined_variable(t.span)]
        } else {
            Seq::empty()
        },
        ExprView::Unary { expr, .. } => flat_check_expr(syms, *expr),
        ExprView::Binary { left, right, .. } => flat_check_expr(syms, *left) + flat_check_expr(
            syms,
            *right,
        ),
        ExprView::Paren(inner) => flat_check_expr(syms, *inner),
        ExprView::Call { identifier, arguments } => {
            let head: Seq<DiagnosticView> = if !has_name(syms, identifier.span.literal) {
                seq![spec_undefined_variable(identifier.span)]
            } else {
                Seq::empty()
            };
            head + flat_check_exprs(syms, arguments)
        },
    }
}

/// As `flat_check_expr`, over an argument list.
pub open spec fn flat_check_exprs(syms: Seq<Seq<char>>, es: Seq<ExprView>) -> Seq<DiagnosticView>
    decreases es,
{
    if es.len() == 0 {
        Seq::empty()
    } else {
        flat_check_exprs(syms, es.drop_last()) + flat_check_expr(syms, es.last())
    }
}

/// The flat check over one statement: the names after it and the
/// diagnostics.
pub open spec fn flat_check_stmt(syms: Seq<Seq<char>>, s: StmtView) -> (
    Seq<Seq<char>>,
    Seq<DiagnosticView>,
)
    decreases s, 0int,
{
    match s {
        StmtView::Expr(e) => (syms, flat_check_expr(syms, e)),
        StmtView::ReturnStmt(e) => (syms, flat_check_expr(syms, e)),
        StmtView::LetStmt { identifier, initializer } => {
            let syms2 = syms.push(identifier.span.literal);
            (syms2, flat_check_expr(syms2, initializer))
        },
        StmtView::Compound(ss) => flat_check_stmts(syms, ss),
        StmtView::Function { body, .. } => {
            match *body {
                StmtView::Compound(ss) => flat_check_stmts(syms, ss),
                _ => flat_check_stmt(syms, *body),
            }
        },
        StmtView::Conditional { condition, then_branch, else_branch, .. } => {
            let dc = flat_check_expr(syms, condition);
            let then = flat_check_stmt(syms, *then_branch);
            match else_branch {
                Some(e) => {
                    let els = flat_check_stmt(then.0, *e.else_branch);
                    (els.0, dc + then.1 + els.1)
                },
                None => (then.0, dc + then.1),
            }
        },
    }
}

/// As `flat_check_stmt`, over a statement list in order.
pub open spec fn flat_check_stmts(syms: Seq<Seq<char>>, ss: Seq<StmtView>) -> (
    Seq<Seq<char>>,
    Seq<DiagnosticView>,
)
    decreases ss, 1int,
{
    if ss.len() == 0 {
        (syms, Seq::empty())
    } else {
        let first = flat_check_stmts(syms, ss.drop_last());
        let next = flat_check_stmt(first.0, ss.last());
        (next.0, first.1 + next.1)
    }
}

/// The flat checker: the declared names and the diagnostics sink.
#[derive(Debug)]
pub struct SymbolChecker {
    pub symbols: Vec<String>,
    pub diagnostics: DiagnosticsColletion,
}

impl SymbolChecker {
    /// The views of the declared names.
    pub open spec fn syms(&self) -> Seq<Seq<char>> {
        self.symbols@.map(|i: int, s: String| s@)
    }

    pub fn new(diagnostics: DiagnosticsColletion) -> (r: SymbolChecker)
        ensures
            r.syms() == Seq::<Seq<char>>::empty(),
            r.diagnostics@ == diagnostics@,
    {
        let r = SymbolChecker { symbols: Vec::new(), diagnostics };
        proof {
            assert(r.syms() =~~= Seq::<Seq<char>>::empty());
        }
        r
    }

    /// The whole flat check over a program.
    pub fn check(&mut self, ast: &Ast)
        ensures
            ({
                let c = flat_check_stmts(old(self).syms(), ast@);
                &&& final(self).syms() == c.0
                &&& final(self).diagnostics@ == old(self).diagnostics@ + c.1
            }),
    {
        let n = ast.statements.len();
        proof {
            crate::ast::lemma_view_stmt_list_len(ast.statements@);
            assert(view_stmt_list(ast.statements@).take(n as int)
                =~= view_stmt_list(ast.statements@));
        }
        self.check_statements(&ast.statements, n);
    }

    /// Whether a name was declared.
    fn knows(&self, name: &str) -> (r: bool)
        ensures
            r == has_name(self.syms(), name@),
    {
        let mut k = self.symbols.len();
        proof {
            assert(self.syms().take(self.symbols@.len() as int) =~~= self.syms());
        }
        while k > 0
            invariant
                k <= self.symbols@.len(),
                has_name(self.syms(), name@) == has_name(self.syms().take(k as int), name@),
            decreases k,
        {
            k = k - 1;
            proof {
                assert(self.syms().take(k + 1).drop_last() =~~= self.syms().take(k as int));
                assert(self.syms().take(k + 1).last() == self.symbols@[k as int]@);
            }
            if str_eq(self.symbols[k].as_str(), name) {
                return true;
            }
        }
        proof {
            assert(self.syms().take(0) =~~= Seq::<Seq<char>>::empty());
        }
        false
    }

    /// The flat check over the first `n` statements.
    fn check_statements(&mut self, ss: &Vec<ASTStatement>, n: usize)
        requires
            n <= ss@.len(),
        ensures
            ({
                let c = flat_check_stmts(old(self).syms(), view_stmt_list(ss@).take(n as int));
                &&& final(self).syms() == c.0
                &&& final(self).diagnostics@ == old(self).diagnostics@ + c.1
            }),
        decreases *ss, n, 3int,
    {
        if n == 0 {
            proof {
                assert(view_stmt_list(ss@).take(0) =~= Seq::<StmtView>::empty());
                assert(old(self).diagnostics@ + Seq::<DiagnosticView>::empty()
                    =~= old(self).diagnostics@);
            }
            return;
        }
        self.check_statements(ss, n - 1);
        proof {
            lemma_view_stmt_list_index(ss@, n - 1);
            assert(view_stmt_list(ss@).take(n as int).drop_last()
                =~= view_stmt_list(ss@).take(n - 1));
            assert(view_stmt_list(ss@).take(n as int).last() == view_stmt_list(ss@)[n - 1]);
        }
        let ghost mid = self.syms();
        self.check_statement(&ss[n - 1]);
        proof {
            let c1 = flat_check_stmts(old(self).syms(), view_stmt_list(ss@).take(n - 1));
            let c2 = flat_check_stmt(mid, view_stmt_list(ss@)[n - 1]);
            assert((old(self).diagnostics@ + c1.1) + c2.1
                =~= old(self).diagnostics@ + (c1.1 + c2.1));
        }
    }

    /// The flat check over one statement.
    fn check_statement(&mut self, s: &ASTStatement)
        ensures
            ({
                let c = flat_check_stmt(old(self).syms(), s@);
                &&& final(self).syms() == c.0
                &&& final(self).diagnostics@ == old(self).diagnostics@ + c.1
            }),
        decreases *s, 0int, 2int,
    {
        match &s.kind {
            ASTStatementKind::Expression(e) => {
                self.check_expression(e);
            },
            ASTStatementKind::ReturnStatement(r) => {
                self.check_expression(&r.expr);
            },
            ASTStatementKind::LetStatement(l) => {
                let ghost before = self.syms();
                self.symbols.push(l.identifier.span.literal.clone());
                proof {
                    assert(self.syms() =~~= before.push(l.identifier.span.literal@));
                }
                self.check_expression(&l.initializer);
            },
            ASTStatementKind::CompoundStatement(c) => {
                let n = c.statements.len();
                proof {
                    crate::ast::lemma_view_stmt_list_len(c.statements@);
                    assert(view_stmt_list(c.statements@).take(n as int)
                        =~= view_stmt_list(c.statements@));
                }
                self.check_statements(&c.statements, n);
            },
            ASTStatementKind::FunctionStatement(f) => {
                match &f.body.kind {
                    ASTStatementKind::CompoundStatement(c) => {
                        let n = c.statements.len();
                        proof {
                            crate::ast::lemma_view_stmt_list_len(c.statements@);
                            assert(view_stmt_list(c.statements@).take(n as int)
                                =~= view_stmt_list(c.statements@));
                            assert(crate::ast::view_stmt(*f.body)
                                == StmtView::Compound(view_stmt_list(c.statements@)));
                        }
                        self.check_statements(&c.statements, n);
                    },
                    _ => {
                        self.check_statement(&f.body);
                    },
                }
            },
            ASTStatementKind::ConditionalStatement(c) => {
                self.check_expression(&c.condition);
                self.check_statement(&c.then_branch);
                match &c.else_branch {
                    Some(e) => {
                        let ghost mid = self.syms();
                        self.check_statement(&e.else_branch);
                        proof {
                            let dc = flat_check_expr(old(self).syms(), c.condition@);
                            let then = flat_check_stmt(old(self).syms(), c.then_branch@);
                            let els = flat_check_stmt(then.0, e.else_branch@);
                            assert(((old(self).diagnostics@ + dc) + then.1) + els.1
                                =~= old(self).diagnostics@ + (dc + then.1 + els.1));
                        }
                    },
                    None => {
                        proof {
                            let dc = flat_check_expr(old(self).syms(), c.condition@);
                            let then = flat_check_stmt(old(self).syms(), c.then_branch@);
                            assert((old(self).diagnostics@ + dc) + then.1
                                =~= old(self).diagnostics@ + (dc + then.1));
                        }
                    },
                }
            },
        }
    }

    /// The flat check over the first `n` arguments of a call.
    fn check_arguments(&mut self, args: &Vec<ASTExpression>, n: usize)
        requires
            n <= args@.len(),
        ensures
            final(self).syms() == old(self).syms(),
            final(self).diagnostics@ == old(self).diagnostics@ + flat_check_exprs(
                old(self).syms(),
                view_expr_list(args@).take(n as int),
            ),
        decreases *args, n, 1int,
    {
        if n == 0 {
            proof {
                assert(view_expr_list(args@).take(0) =~= Seq::<ExprView>::empty());
                assert(old(self).diagnostics@ + Seq::<DiagnosticView>::empty()
                    =~= old(self).diagnostics@);
            }
            return;
        }
        self.check_arguments(args, n - 1);
        proof {
            lemma_view_expr_list_index(args@, n - 1);
            assert(view_expr_list(args@).take(n as int).drop_last()
                =~= view_expr_list(args@).take(n - 1));
            assert(view_expr_list(args@).take(n as int).last() == view_expr_list(args@)[n - 1]);
        }
        self.check_expression(&args[n - 1]);
        proof {
            let d1 = flat_check_exprs(old(self).syms(), view_expr_list(args@).take(n - 1));
            let d2 = flat_check_expr(old(self).syms(), view_expr_list(args@)[n - 1]);
            assert((old(self).diagnostics@ + d1) + d2 =~= old(self).diagnostics@ + (d1 + d2));
        }
    }

    /// The flat check over one expression.
    fn check_expression(&mut self, e: &ASTExpression)
        ensures
            final(self).syms() == old(self).syms(),
            final(self).diagnostics@ == old(self).diagnostics@ + flat_check_expr(
                old(self).syms(),
                e@,
            ),
        decreases *e, 0int, 0int,
    {
        match &e.kind {
            ASTExpressionKind::IntegerLiteral(_)
            | ASTExpressionKind::FloatingLiteral(_)
            | ASTExpressionKind::Error(_)
            | ASTExpressionKind::Assignment(_) => {
                proof {
                    assert(old(self).diagnostics@ + Seq::<DiagnosticView>::empty()
                        =~= old(self).diagnostics@);
                }
            },
            ASTExpressionKind::Variable(v) => {
                if !self.knows(v.identifier.span.literal.as_str()) {
                    self.diagnostics.report_undefined_variable(v.identifier.span.duplicate());
                    proof {
                        assert(old(self).diagnostics@.push(
                            spec_undefined_variable(v.identifier.span@))
                            =~= old(self).diagnostics@ + seq![
                                spec_undefined_variable(v.identifier.span@)]);
                    }
                } else {
                    proof {
                        assert(old(self).diagnostics@ + Seq::<DiagnosticView>::empty()
                            =~= old(self).diagnostics@);
                    }
                }
            },
            ASTExpressionKind::Unary(u) => {
                self.check_expression(&u.expr);
            },
            ASTExpressionKind::Binary(b) => {
                self.check_expression(&b.left);
                self.check_expression(&b.right);
                proof {
                    let d1 = flat_check_expr(old(self).syms(), b.left@);
                    let d2 = flat_check_expr(old(self).syms(), b.right@);
                    assert((old(self).diagnostics@ + d1) + d2
                        =~= old(self).diagnostics@ + (d1 + d2));
                }
            },
            ASTExpressionKind::Parenthesized(p) => {
                self.check_expression(&p.expr);
            },
            ASTExpressionKind::FunctionCall(c) => {
                let ghost head: Seq<DiagnosticView> = if !has_name(
                    old(self).syms(), c.identifier.span.literal@) {
                    seq![spec_undefined_variable(c.identifier.span@)]
                } else {
                    Seq::empty()
                };
                if !self.knows(c.identifier.span.literal.as_str()) {
                    self.diagnostics.report_undefined_variable(c.identifier.span.duplicate());
                    proof {
                        assert(old(self).diagnostics@.push(
                            spec_undefined_variable(c.identifier.span@))
                            =~= old(self).diagnostics@ + head);
                    }
                } else {
                    proof {
                        assert(old(self).diagnostics@ + head =~= old(self).diagnostics@);
                    }
                }
                let n = c.arguments.len();
                proof {
                    crate::ast::lemma_view_expr_list_len(c.arguments@);
                    assert(view_expr_list(c.arguments@).take(n as int)
                        =~= view_expr_list(c.arguments@));
                }
                self.check_arguments(&c.arguments, n);
                proof {
                    let d2 = flat_check_exprs(old(self).syms(), view_expr_list(c.arguments@));
                    assert((old(self).diagnostics@ + head) + d2
                        =~= old(self).diagnostics@ + (head + d2));
                }
            },
        }
    }
}

} // verus!
