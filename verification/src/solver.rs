//! The tree-walking evaluator.
//!
//! Executes a validated tree directly over a stack of scopes mapping
//! names to rational values.  A function call evaluates each argument in
//! the caller's scopes, then runs the body with a fresh scope stack
//! holding only the parameter bindings, so a called function sees only
//! its parameters and the global scope.  A `return` statement stops the
//! remaining statements of its enclosing body and hands its value to the
//! call site.  The logical operators evaluate both operands; assignment
//! mutates the nearest enclosing binding and never creates one.  Call
//! depth is bounded by an explicit fuel counter; exhausting it reports a
//! recursion-limit error instead of exhausting the native stack.

use vstd::prelude::*;
use crate::ast::{
    ASTExpression, ASTExpressionKind, ASTStatement, ASTStatementKind, Ast, ExprView, StmtView,
    view_expr_list, view_stmt, view_stmt_list, lemma_view_expr_list_index,
    lemma_view_stmt_list_index, lemma_view_params_index, stmt_copy,
};
use crate::value::{
    EvalError, Value, spec_apply_binary, spec_apply_unary, spec_float_value, spec_int_value,
    value_wf, apply_binary, apply_unary, float_value,
};
use crate::text::str_eq;

verus! {

/// One name-to-value binding.
#[derive(Debug)]
pub struct Binding {
    pub name: String,
    pub value: Value,
}

/// The mathematical value of a binding.
#[verifier::ext_equal]
pub ghost struct BindingView {
    pub name: Seq<char>,
    pub value: Value,
}

impl View for Binding {
    type V = BindingView;

    open spec fn view(&self) -> BindingView {
        BindingView { name: self.name@, value: self.value }
    }
}

/// A function registered at run time: its name, parameter names, and
/// body.
#[derive(Debug)]
pub struct StoredFunction {
    pub name: String,
    pub params: Vec<String>,
    pub body: ASTStatement,
}

/// The mathematical value of a stored function.
#[verifier::ext_equal]
pub ghost struct FunView {
    pub name: Seq<char>,
    pub params: Seq<Seq<char>>,
    pub body: StmtView,
}

impl View for StoredFunction {
    type V = FunView;

    open spec fn view(&self) -> FunView {
        FunView {
            name: self.name@,
            params: self.params@.map(|i: int, p: String| p@),
            body: self.body@,
        }
    }
}

/// How a statement finished: normally, or through a `return` carrying
/// the returned value.
#[derive(Debug, Clone, Copy, PartialEq, Eq, Structural)]
pub enum StmtFlow {
    Normal,
    Returned(Value),
}

/// The whole evaluator state: the global scope, the local scope stack of
/// the running body, the functions registered so far, and the value most
/// recently produced by an expression.
#[verifier::ext_equal]
pub ghost struct EnvView {
    pub globals: Seq<BindingView>,
    pub locals: Seq<Seq<BindingView>>,
    pub functions: Seq<FunView>,
    pub last: Option<Value>,
}

/// The views of one scope.
pub open spec fn view_bindings(v: Seq<Binding>) -> Seq<BindingView> {
    v.map(|i: int, b: Binding| b@)
}

/// The views of the local scope stack.
pub open spec fn view_locals(v: Seq<Vec<Binding>>) -> Seq<Seq<BindingView>> {
    v.map(|i: int, inner: Vec<Binding>| view_bindings(inner@))
}

/// The views of the function list.
pub open spec fn view_functions(v: Seq<StoredFunction>) -> Seq<FunView> {
    v.map(|i: int, f: StoredFunction| f@)
}

/// Every value stored in a scope is well formed.
pub open spec fn scope_values_wf(s: Seq<BindingView>) -> bool {
    forall|i: int| 0 <= i < s.len() ==> value_wf(#[trigger] s[i].value)
}

/// Every value anywhere in the state is well formed.
pub open spec fn env_wf(env: EnvView) -> bool {
    &&& scope_values_wf(env.globals)
    &&& forall|i: int| 0 <= i < env.locals.len() ==> scope_values_wf(#[trigger] env.locals[i])
    &&& match env.last {
        Some(v) => value_wf(v),
        None => true,
    }
}

/// The latest binding with this name in one scope.
pub open spec fn find_binding(s: Seq<BindingView>, name: Seq<char>) -> Option<Value>
    decreases s,
{
    if s.len() == 0 {
        None
    } else if s.last().name == name {
        Some(s.last().value)
    } else {
        find_binding(s.drop_last(), name)
    }
}

/// Innermost-first lookup through the local scopes.
pub open spec fn find_in_locals(ls: Seq<Seq<BindingView>>, name: Seq<char>) -> Option<Value>
    decreases ls,
{
    if ls.len() == 0 {
        None
    } else {
        match find_binding(ls.last(), name) {
            Some(v) => Some(v),
            None => find_in_locals(ls.drop_last(), name),
        }
    }
}

/// Full lookup: the local scopes innermost-first, then the globals.
pub open spec fn spec_lookup_value(env: EnvView, name: Seq<char>) -> Option<Value> {
    match find_in_locals(env.locals, name) {
        Some(v) => Some(v),
        None => find_binding(env.globals, name),
    }
}

/// Updating the latest binding with this name in one scope, if any.
pub open spec fn assign_in_scope(
    s: Seq<BindingView>,
    name: Seq<char>,
    v: Value,
) -> Option<Seq<BindingView>>
    decreases s,
{
    if s.len() == 0 {
        None
    } else if s.last().name == name {
        Some(s.update(s.len() - 1, BindingView { name: s.last().name, value: v }))
    } else {
        match assign_in_scope(s.drop_last(), name, v) {
            Some(s2) => Some(s2.push(s.last())),
            None => None,
        }
    }
}

/// Updating the nearest binding in the local scopes, if any.
pub open spec fn assign_in_locals(
    ls: Seq<Seq<BindingView>>,
    name: Seq<char>,
    v: Value,
) -> Option<Seq<Seq<BindingView>>>
    decreases ls,
{
    if ls.len() == 0 {
        None
    } else {
        match assign_in_scope(ls.last(), name, v) {
            Some(s2) => Some(ls.update(ls.len() - 1, s2)),
            None => match assign_in_locals(ls.drop_last(), name, v) {
                Some(l2) => Some(l2.push(ls.last())),
                None => None,
            },
        }
    }
}

/// Assignment mutates the nearest enclosing binding, searched
/// innermost-first with the globals as fallback; an absent binding is
/// never created.
pub open spec fn spec_assign(env: EnvView, name: Seq<char>, v: Value) -> Option<EnvView> {
    match assign_in_locals(env.locals, name, v) {
        Some(l2) => Some(EnvView { locals: l2, ..env }),
        None => match assign_in_scope(env.globals, name, v) {
            Some(g2) => Some(EnvView { globals: g2, ..env }),
            None => None,
        },
    }
}

/// Declaring a binding in the innermost scope: the top local scope when
/// one is open, else the globals.
pub open spec fn spec_declare(env: EnvView, name: Seq<char>, v: Value) -> EnvView {
    if env.locals.len() > 0 {
        EnvView {
            locals: env.locals.update(
                env.locals.len() - 1,
                env.locals.last().push(BindingView { name, value: v }),
            ),
            ..env
        }
    } else {
        EnvView { globals: env.globals.push(BindingView { name, value: v }), ..env }
    }
}

/// The latest registered function with this name.
pub open spec fn find_function(fs: Seq<FunView>, name: Seq<char>) -> Option<FunView>
    decreases fs,
{
    if fs.len() == 0 {
        None
    } else if fs.last().name == name {
        Some(fs.last())
    } else {
        find_function(fs.drop_last(), name)
    }
}

/// The parameter scope of a call: each value bound to the parameter name
/// in the same position.
pub open spec fn spec_param_bindings(params: Seq<Seq<char>>, vals: Seq<Value>) -> Seq<BindingView> {
    Seq::new(params.len(), |i: int| BindingView { name: params[i], value: vals[i] })
}

/// Evaluating one expression: the state after it and its value or error.
pub open spec fn spec_eval_expr(env: EnvView, e: ExprView, fuel: nat) -> (
    EnvView,
    Result<Value, EvalError>,
)
    decreases fuel, 0int, e,
{
    match e {
        ExprView::Integer(i) => {
            let v = spec_int_value(i);
            (EnvView { last: Some(v), ..env }, Ok(v))
        },
        ExprView::Floating(f) => {
            match spec_float_value(f.whole, f.frac, f.denom) {
                Ok(v) => (EnvView { last: Some(v), ..env }, Ok(v)),
                Err(err) => (env, Err(err)),
            }
        },
        // An error placeholder only survives in trees that were never
        // validated; evaluating one fails loudly.
        ExprView::ErrorExpr(_) => (env, Err(EvalError::MissingValue)),
        ExprView::Variable(t) => {
            match spec_lookup_value(env, t.span.literal) {
                Some(v) => (EnvView { last: Some(v), ..env }, Ok(v)),
                None => (env, Err(EvalError::UndefinedVariable)),
            }
        },
        ExprView::Paren(inner) => spec_eval_expr(env, *inner, fuel),
        ExprView::Unary { op, expr } => {
            let sub = spec_eval_expr(env, *expr, fuel);
            match sub.1 {
                Ok(v) => {
                    match spec_apply_unary(op.kind, v) {
                        Ok(r) => (EnvView { last: Some(r), ..sub.0 }, Ok(r)),
                        Err(err) => (sub.0, Err(err)),
                    }
                },
                Err(err) => (sub.0, Err(err)),
            }
        },
        ExprView::Binary { op, left, right } => {
            let l = spec_eval_expr(env, *left, fuel);
            match l.1 {
                Ok(lv) => {
                    let r = spec_eval_expr(l.0, *right, fuel);
                    match r.1 {
                        Ok(rv) => {
                            match spec_apply_binary(op.kind, lv, rv) {
                                Ok(v) => (EnvView { last: Some(v), ..r.0 }, Ok(v)),
                                Err(err) => (r.0, Err(err)),
                            }
                        },
                        Err(err) => (r.0, Err(err)),
                    }
                },
                Err(err) => (l.0, Err(err)),
            }
        },
        ExprView::Assignment { identifier, expr } => {
            let sub = spec_eval_expr(env, *expr, fuel);
            match sub.1 {
                Ok(v) => {
                    match spec_assign(sub.0, identifier.span.literal, v) {
                        Some(env2) => (env2, Ok(v)),
                        None => (sub.0, Err(EvalError::UndefinedVariable)),
                    }
                },
                Err(err) => (sub.0, Err(err)),
            }
        },
        ExprView::Call { identifier, arguments } => {
            let args = spec_eval_args(env, arguments, fuel);
            match args.1 {
                Ok(vals) => {
                    match find_function(args.0.functions, identifier.span.literal) {
                        Some(f) => {
                            if f.params.len() != vals.len() {
                                (args.0, Err(EvalError::ArityMismatch))
                            } else if fuel == 0 {
                                (args.0, Err(EvalError::RecursionLimit))
                            } else {
                                let callee = EnvView {
                                    locals: seq![spec_param_bindings(f.params, vals)],
                                    ..args.0
                                };
                                let body = match f.body {
                                    StmtView::Compound(ss) => spec_eval_stmts(
                                        callee,
                                        ss,
                                        (fuel - 1) as nat,
                                    ),
                                    _ => spec_eval_stmt(callee, f.body, (fuel - 1) as nat),
                                };
                                let restored = EnvView { locals: args.0.locals, ..body.0 };
                                match body.1 {
                                    Ok(StmtFlow::Returned(v)) => (
                                        EnvView { last: Some(v), ..restored },
                                        Ok(v),
                                    ),
                                    Ok(StmtFlow::Normal) => {
                                        match restored.last {
                                            Some(v) => (
                                                EnvView { last: Some(v), ..restored },
                                                Ok(v),
                                            ),
                                            None => (restored, Err(EvalError::MissingValue)),
                                        }
                                    },
                                    Err(err) => (restored, Err(err)),
                                }
                            }
                        },
                        None => (args.0, Err(EvalError::UndefinedFunction)),
                    }
                },
                Err(err) => (args.0, Err(err)),
            }
        },
    }
}

/// Evaluating an argument list left to right, stopping at the first
/// error.
pub open spec fn spec_eval_args(env: EnvView, es: Seq<ExprView>, fuel: nat) -> (
    EnvView,
    Result<Seq<Value>, EvalError>,
)
    decreases fuel, 0int, es,
{
    if es.len() == 0 {
        (env, Ok(Seq::empty()))
    } else {
        let first = spec_eval_args(env, es.drop_last(), fuel);
        match first.1 {
            Ok(vals) => {
                let lastr = spec_eval_expr(first.0, es.last(), fuel);
                match lastr.1 {
                    Ok(v) => (lastr.0, Ok(vals.push(v))),
                    Err(err) => (lastr.0, Err(err)),
                }
            },
            Err(err) => (first.0, Err(err)),
        }
    }
}

/// Executing one statement.
pub open spec fn spec_eval_stmt(env: EnvView, s: StmtView, fuel: nat) -> (
    EnvView,
    Result<StmtFlow, EvalError>,
)
    decreases fuel, 1int, s,
{
    match s {
        StmtView::Expr(e) => {
            let r = spec_eval_expr(env, e, fuel);
            match r.1 {
                Ok(_) => (r.0, Ok(StmtFlow::Normal)),
                Err(err) => (r.0, Err(err)),
            }
        },
        StmtView::ReturnStmt(e) => {
            let r = spec_eval_expr(env, e, fuel);
            match r.1 {
                Ok(v) => (r.0, Ok(StmtFlow::Returned(v))),
                Err(err) => (r.0, Err(err)),
            }
        },
        StmtView::LetStmt { identifier, initializer } => {
            let r = spec_eval_expr(env, initializer, fuel);
            match r.1 {
                Ok(v) => (spec_declare(r.0, identifier.span.literal, v), Ok(StmtFlow::Normal)),
                Err(err) => (r.0, Err(err)),
            }
        },
        StmtView::Compound(ss) => spec_eval_stmts(env, ss, fuel),
        StmtView::Function { identifier, params, body } => {
            let name = identifier.span.literal;
            let registered = EnvView {
                functions: env.functions.push(FunView {
                    name,
                    params: crate::symbol_table::param_names(params),
                    body: *body,
                }),
                ..env
            };
            (spec_declare(registered, name, Value { num: 0, den: 1 }), Ok(StmtFlow::Normal))
        },
        StmtView::Conditional { condition, then_branch, else_branch, .. } => {
            let c = spec_eval_expr(env, condition, fuel);
            match c.1 {
                Ok(v) => {
                    if v.num != 0 {
                        spec_eval_stmt(c.0, *then_branch, fuel)
                    } else {
                        match else_branch {
                            Some(e) => spec_eval_stmt(c.0, *e.else_branch, fuel),
                            None => (c.0, Ok(StmtFlow::Normal)),
                        }
                    }
                },
                Err(err) => (c.0, Err(err)),
            }
        },
    }
}

/// Executing a statement list in order, stopping early at a `return` or
/// an error.
pub open spec fn spec_eval_stmts(env: EnvView, ss: Seq<StmtView>, fuel: nat) -> (
    EnvView,
    Result<StmtFlow, EvalError>,
)
    decreases fuel, 1int, ss,
{
    if ss.len() == 0 {
        (env, Ok(StmtFlow::Normal))
    } else {
        let first = spec_eval_stmts(env, ss.drop_last(), fuel);
        match first.1 {
            Ok(StmtFlow::Normal) => spec_eval_stmt(first.0, ss.last(), fuel),
            _ => first,
        }
    }
}

/// A found binding in a well-formed scope holds a well-formed value.
pub proof fn lemma_find_binding_wf(s: Seq<BindingView>, name: Seq<char>)
    requires
        scope_values_wf(s),
    ensures
        match find_binding(s, name) {
            Some(v) => value_wf(v),
            None => true,
        },
    decreases s,
{
    if s.len() > 0 && !(s.last().name == name) {
        assert(scope_values_wf(s.drop_last())) by {
            assert(forall|i: int| 0 <= i < s.drop_last().len()
                ==> #[trigger] s.drop_last()[i] == s[i]);
        }
        lemma_find_binding_wf(s.drop_last(), name);
    }
}

/// A found binding anywhere in a well-formed state holds a well-formed
/// value.
pub proof fn lemma_lookup_wf(env: EnvView, name: Seq<char>)
    requires
        env_wf(env),
    ensures
        match spec_lookup_value(env, name) {
            Some(v) => value_wf(v),
            None => true,
        },
{
    lemma_find_in_locals_wf(env.locals, name);
    lemma_find_binding_wf(env.globals, name);
}

/// As `lemma_find_binding_wf`, through the local scope stack.
pub proof fn lemma_find_in_locals_wf(ls: Seq<Seq<BindingView>>, name: Seq<char>)
    requires
        forall|i: int| 0 <= i < ls.len() ==> scope_values_wf(#[trigger] ls[i]),
    ensures
        match find_in_locals(ls, name) {
            Some(v) => value_wf(v),
            None => true,
        },
    decreases ls,
{
    if ls.len() > 0 {
        lemma_find_binding_wf(ls.last(), name);
        lemma_find_in_locals_wf(ls.drop_last(), name);
    }
}

/// Declaring a well-formed value keeps the state well formed.
pub proof fn lemma_declare_wf(env: EnvView, name: Seq<char>, v: Value)
    requires
        env_wf(env),
        value_wf(v),
    ensures
        env_wf(spec_declare(env, name, v)),
{
    let out = spec_declare(env, name, v);
    if env.locals.len() > 0 {
        assert forall|i: int| 0 <= i < out.locals.len()
            implies scope_values_wf(#[trigger] out.locals[i]) by {
            if i < env.locals.len() - 1 {
                assert(out.locals[i] == env.locals[i]);
            } else {
                assert(out.locals[i] == env.locals.last().push(BindingView { name, value: v }));
                assert forall|j: int| 0 <= j < out.locals[i].len()
                    implies value_wf(#[trigger] out.locals[i][j].value) by {
                    if j < env.locals.last().len() {
                        assert(out.locals[i][j] == env.locals.last()[j]);
                    }
                }
            }
        }
    } else {
        assert forall|j: int| 0 <= j < out.globals.len()
            implies value_wf(#[trigger] out.globals[j].value) by {
            if j < env.globals.len() {
                assert(out.globals[j] == env.globals[j]);
            }
        }
    }
}

/// An exact copy of a list of names.
fn clone_strings(v: &Vec<String>) -> (r: Vec<String>)
    ensures
        r@.len() == v@.len(),
        forall|i: int| 0 <= i < v@.len() ==> #[trigger] r@[i]@ == v@[i]@,
{
    let mut out: Vec<String> = Vec::new();
    let mut i: usize = 0;
    while i < v.len()
        invariant
            i <= v@.len(),
            out@.len() == i,
            forall|j: int| 0 <= j < i ==> #[trigger] out@[j]@ == v@[j]@,
        decreases v@.len() - i,
    {
        out.push(v[i].clone());
        i = i + 1;
    }
    out
}

/// The parameter names of a declaration, cloned in order.
fn param_strings(params: &Vec<crate::ast::FunctionArgumentDeclaration>) -> (r: Vec<String>)
    ensures
        r@.len() == params@.len(),
        forall|i: int| 0 <= i < params@.len()
            ==> #[trigger] r@[i]@ == params@[i].identifier.span.literal@,
{
    let mut out: Vec<String> = Vec::new();
    let mut i: usize = 0;
    while i < params.len()
        invariant
            i <= params@.len(),
            out@.len() == i,
            forall|j: int| 0 <= j < i
                ==> #[trigger] out@[j]@ == params@[j].identifier.span.literal@,
        decreases params@.len() - i,
    {
        out.push(params[i].identifier.span.literal.clone());
        i = i + 1;
    }
    out
}

/// Updates the latest binding with this name, as `assign_in_scope`.
fn assign_scope_exec(s: &mut Vec<Binding>, name: &str, v: Value) -> (r: bool)
    ensures
        match assign_in_scope(view_bindings(old(s)@), name@, v) {
            Some(s2) => r && view_bindings(final(s)@) == s2,
            None => !r && final(s)@ == old(s)@,
        },
        scope_values_wf(view_bindings(old(s)@)) && value_wf(v)
            ==> scope_values_wf(view_bindings(final(s)@)),
    decreases s@.len(),
{
    let popped = s.pop();
    match popped {
        None => {
            false
        },
        Some(last) => {
            if str_eq(last.name.as_str(), name) {
                let ghost lastv = last@;
                s.push(Binding { name: last.name, value: v });
                proof {
                    assert(view_bindings(final(s)@)
                        =~~= view_bindings(old(s)@).update(
                            view_bindings(old(s)@).len() - 1,
                            BindingView { name: lastv.name, value: v },
                        ));
                    assert(view_bindings(old(s)@).drop_last() =~~= view_bindings(old(s)@.drop_last()));
                }
                true
            } else {
                proof {
                    assert(view_bindings(old(s)@).drop_last() =~~= view_bindings(old(s)@.drop_last()));
                }
                let r = assign_scope_exec(s, name, v);
                let ghost mid = s@;
                s.push(last);
                proof {
                    assert(view_bindings(final(s)@) =~~= view_bindings(mid).push(last@));
                    if !r {
                        assert(final(s)@ =~= old(s)@);
                    }
                }
                r
            }
        },
    }
}

/// Updates the nearest binding in the local scopes, as
/// `assign_in_locals`.
fn assign_locals_exec(ls: &mut Vec<Vec<Binding>>, name: &str, v: Value) -> (r: bool)
    ensures
        match assign_in_locals(view_locals(old(ls)@), name@, v) {
            Some(l2) => r && view_locals(final(ls)@) == l2,
            None => !r && view_locals(final(ls)@) == view_locals(old(ls)@),
        },
        (forall|i: int| 0 <= i < old(ls)@.len()
            ==> scope_values_wf(#[trigger] view_locals(old(ls)@)[i])) && value_wf(v)
            ==> forall|i: int| 0 <= i < final(ls)@.len()
                ==> scope_values_wf(#[trigger] view_locals(final(ls)@)[i]),
    decreases ls@.len(),
{
    let popped = ls.pop();
    match popped {
        None => {
            false
        },
        Some(mut lastsc) => {
            proof {
                assert(view_locals(old(ls)@).drop_last() =~~= view_locals(old(ls)@.drop_last()));
                assert(view_locals(old(ls)@).last() == view_bindings(old(ls)@.last()@));
            }
            let hit = assign_scope_exec(&mut lastsc, name, v);
            if hit {
                let ghost mid = ls@;
                let ghost scv = lastsc@;
                ls.push(lastsc);
                proof {
                    assert(view_locals(final(ls)@) =~~= view_locals(mid).push(view_bindings(scv)));
                    assert(view_locals(final(ls)@)
                        =~~= view_locals(old(ls)@).update(
                            view_locals(old(ls)@).len() - 1,
                            view_bindings(scv),
                        ));
                }
                true
            } else {
                let r = assign_locals_exec(ls, name, v);
                let ghost mid = ls@;
                let ghost scv = lastsc@;
                ls.push(lastsc);
                proof {
                    assert(view_locals(final(ls)@) =~~= view_locals(mid).push(view_bindings(scv)));
                    if !r {
                        assert(view_locals(final(ls)@) =~~= view_locals(old(ls)@));
                    }
                }
                r
            }
        },
    }
}

/// The latest binding with this name in one scope, by scanning from the
/// end.
fn find_binding_exec(s: &Vec<Binding>, name: &str) -> (r: Option<Value>)
    ensures
        r == find_binding(view_bindings(s@), name@),
{
    let mut k = s.len();
    proof {
        assert(view_bindings(s@).take(s@.len() as int) =~= view_bindings(s@));
    }
    while k > 0
        invariant
            k <= s@.len(),
            find_binding(view_bindings(s@), name@)
                == find_binding(view_bindings(s@).take(k as int), name@),
        decreases k,
    {
        k = k - 1;
        proof {
            assert(view_bindings(s@).take(k + 1).drop_last() =~= view_bindings(s@).take(k as int));
            assert(view_bindings(s@).take(k + 1).last() == s@[k as int]@);
        }
        if str_eq(s[k].name.as_str(), name) {
            return Some(s[k].value);
        }
    }
    proof {
        assert(view_bindings(s@).take(0) =~= Seq::<BindingView>::empty());
    }
    None
}

/// The evaluator: the global scope, the local scope stack, the
/// registered functions, and the most recently produced value.
#[derive(Debug)]
pub struct ASTSolver {
    pub globals: Vec<Binding>,
    pub locals: Vec<Vec<Binding>>,
    pub functions: Vec<StoredFunction>,
    pub result: Option<Value>,
}

impl ASTSolver {
    /// The whole evaluator state.
    pub open spec fn env(&self) -> EnvView {
        EnvView {
            globals: view_bindings(self.globals@),
            locals: view_locals(self.locals@),
            functions: view_functions(self.functions@),
            last: self.result,
        }
    }

    pub fn new() -> (r: ASTSolver)
        ensures
            r.env() == (EnvView {
                globals: Seq::<BindingView>::empty(),
                locals: Seq::<Seq<BindingView>>::empty(),
                functions: Seq::<FunView>::empty(),
                last: None::<Value>,
            }),
            env_wf(r.env()),
    {
        let r = ASTSolver {
            globals: Vec::new(),
            locals: Vec::new(),
            functions: Vec::new(),
            result: None,
        };
        proof {
            assert(r.env() =~~= (EnvView {
                globals: Seq::<BindingView>::empty(),
                locals: Seq::<Seq<BindingView>>::empty(),
                functions: Seq::<FunView>::empty(),
                last: None::<Value>,
            }));
        }
        r
    }

    /// The final value, if any statement produced one.
    pub fn result_value(&self) -> (r: Option<Value>)
        ensures
            r == self.env().last,
    {
        self.result
    }

    /// Resolves a name, innermost scope first, then the globals.
    fn lookup_value(&self, name: &str) -> (r: Option<Value>)
        ensures
            r == spec_lookup_value(self.env(), name@),
    {
        let mut k = self.locals.len();
        proof {
            assert(view_locals(self.locals@).take(self.locals@.len() as int)
                =~~= view_locals(self.locals@));
        }
        while k > 0
            invariant
                k <= self.locals@.len(),
                find_in_locals(view_locals(self.locals@), name@)
                    == find_in_locals(view_locals(self.locals@).take(k as int), name@),
            decreases k,
        {
            k = k - 1;
            proof {
                assert(view_locals(self.locals@).take(k + 1).drop_last()
                    =~~= view_locals(self.locals@).take(k as int));
                assert(view_locals(self.locals@).take(k + 1).last()
                    == view_bindings(self.locals@[k as int]@));
            }
            match find_binding_exec(&self.locals[k], name) {
                Some(v) => {
                    return Some(v);
                },
                None => {},
            }
        }
        proof {
            assert(view_locals(self.locals@).take(0) =~~= Seq::<Seq<BindingView>>::empty());
        }
        find_binding_exec(&self.globals, name)
    }

    /// Declares a binding in the innermost scope.
    fn declare_binding(&mut self, name: String, v: Value)
        ensures
            final(self).env() == spec_declare(old(self).env(), name@, v),
    {
        let ghost nm = name@;
        if self.locals.len() > 0 {
            let mut inner = match self.locals.pop() {
                Some(x) => x,
                None => Vec::new(),
            };
            let ghost before = inner@;
            inner.push(Binding { name, value: v });
            proof {
                assert(view_bindings(inner@)
                    =~~= view_bindings(before).push(BindingView { name: nm, value: v }));
            }
            let ghost mid = self.locals@;
            self.locals.push(inner);
            proof {
                assert(view_locals(self.locals@)
                    =~~= view_locals(mid).push(view_bindings(before).push(
                        BindingView { name: nm, value: v })));
                assert(final(self).env() =~~= spec_declare(old(self).env(), nm, v));
            }
        } else {
            let ghost before = self.globals@;
            self.globals.push(Binding { name, value: v });
            proof {
                assert(view_bindings(self.globals@)
                    =~~= view_bindings(before).push(BindingView { name: nm, value: v }));
                assert(final(self).env() =~~= spec_declare(old(self).env(), nm, v));
            }
        }
    }

    /// Evaluates one expression, exactly as `spec_eval_expr` gives it.
    #[verifier::rlimit(100)]
    fn eval_expression(&mut self, e: &ASTExpression, fuel: u32) -> (r: Result<Value, EvalError>)
        requires
            env_wf(old(self).env()),
        ensures
            ({
                let s = spec_eval_expr(old(self).env(), e@, fuel as nat);
                &&& final(self).env() == s.0
                &&& r == s.1
            }),
            env_wf(final(self).env()),
            r matches Ok(v) ==> value_wf(v),
        decreases fuel, 0int, *e,
    {
        match &e.kind {
            ASTExpressionKind::IntegerLiteral(i) => {
                let v = Value::from_integer(*i);
                self.result = Some(v);
                proof {
                    assert(self.env() =~~= (EnvView { last: Some(v), ..old(self).env() }));
                }
                Ok(v)
            },
            ASTExpressionKind::FloatingLiteral(f) => {
                match float_value(f.whole, f.frac, f.denom) {
                    Ok(v) => {
                        self.result = Some(v);
                        proof {
                            assert(self.env() =~~= (EnvView { last: Some(v), ..old(self).env() }));
                        }
                        Ok(v)
                    },
                    Err(err) => Err(err),
                }
            },
            ASTExpressionKind::Error(_) => Err(EvalError::MissingValue),
            ASTExpressionKind::Variable(var) => {
                let found = self.lookup_value(var.identifier.span.literal.as_str());
                match found {
                    Some(v) => {
                        proof {
                            lemma_lookup_wf(self.env(), var.identifier.span.literal@);
                        }
                        self.result = Some(v);
                        proof {
                            assert(self.env() =~~= (EnvView { last: Some(v), ..old(self).env() }));
                        }
                        Ok(v)
                    },
                    None => Err(EvalError::UndefinedVariable),
                }
            },
            ASTExpressionKind::Parenthesized(p) => self.eval_expression(&p.expr, fuel),
            ASTExpressionKind::Unary(u) => {
                match self.eval_expression(&u.expr, fuel) {
                    Ok(v) => {
                        match apply_unary(u.operator.kind, v) {
                            Ok(rv) => {
                                let ghost mid = self.env();
                                self.result = Some(rv);
                                proof {
                                    assert(self.env() =~~= (EnvView { last: Some(rv), ..mid }));
                                }
                                Ok(rv)
                            },
                            Err(err) => Err(err),
                        }
                    },
                    Err(err) => Err(err),
                }
            },
            ASTExpressionKind::Binary(b) => {
                match self.eval_expression(&b.left, fuel) {
                    Ok(lv) => {
                        match self.eval_expression(&b.right, fuel) {
                            Ok(rv) => {
                                match apply_binary(b.operator.kind, lv, rv) {
                                    Ok(v) => {
                                        let ghost mid = self.env();
                                        self.result = Some(v);
                                        proof {
                                            assert(self.env()
                                                =~~= (EnvView { last: Some(v), ..mid }));
                                        }
                                        Ok(v)
                                    },
                                    Err(err) => Err(err),
                                }
                            },
                            Err(err) => Err(err),
                        }
                    },
                    Err(err) => Err(err),
                }
            },
            ASTExpressionKind::Assignment(a) => {
                match self.eval_expression(&a.expr, fuel) {
                    Ok(v) => {
                        let ghost mid = self.env();
                        let in_locals = assign_locals_exec(
                            &mut self.locals,
                            a.identifier.span.literal.as_str(),
                            v,
                        );
                        if in_locals {
                            proof {
                                assert(self.env() =~~= (match spec_assign(
                                    mid, a.identifier.span.literal@, v) {
                                    Some(env2) => env2,
                                    None => mid,
                                }));
                            }
                            Ok(v)
                        } else {
                            let in_globals = assign_scope_exec(
                                &mut self.globals,
                                a.identifier.span.literal.as_str(),
                                v,
                            );
                            if in_globals {
                                proof {
                                    assert(self.env() =~~= (match spec_assign(
                                        mid, a.identifier.span.literal@, v) {
                                        Some(env2) => env2,
                                        None => mid,
                                    }));
                                }
                                Ok(v)
                            } else {
                                proof {
                                    assert(self.env() =~~= mid);
                                }
                                Err(EvalError::UndefinedVariable)
                            }
                        }
                    },
                    Err(err) => Err(err),
                }
            },
            ASTExpressionKind::FunctionCall(c) => {
                proof {
                    crate::ast::lemma_view_expr_list_len(c.arguments@);
                    assert(view_expr_list(c.arguments@).take(c.arguments@.len() as int)
                        =~= view_expr_list(c.arguments@));
                }
                let vals = match self.eval_arguments(&c.arguments, c.arguments.len(), fuel) {
                    Ok(x) => x,
                    Err(err) => {
                        return Err(err);
                    },
                };
                let idx = match self.find_function_index(c.identifier.span.literal.as_str()) {
                    Some(i) => i,
                    None => {
                        return Err(EvalError::UndefinedFunction);
                    },
                };
                let params = clone_strings(&self.functions[idx].params);
                let body = stmt_copy(&self.functions[idx].body);
                if params.len() != vals.len() {
                    return Err(EvalError::ArityMismatch);
                }
                if fuel == 0 {
                    return Err(EvalError::RecursionLimit);
                }
                let ghost fview = self.functions@[idx as int]@;
                let mut bindings: Vec<Binding> = Vec::new();
                let mut i: usize = 0;
                while i < params.len()
                    invariant
                        i <= params@.len(),
                        params@.len() == vals@.len(),
                        bindings@.len() == i,
                        forall|j: int| 0 <= j < i ==> #[trigger] bindings@[j]@
                            == (BindingView { name: params@[j]@, value: vals@[j] }),
                    decreases params@.len() - i,
                {
                    bindings.push(Binding { name: params[i].clone(), value: vals[i] });
                    i = i + 1;
                }
                proof {
                    assert(view_bindings(bindings@)
                        =~~= spec_param_bindings(fview.params, vals@));
                }
                let ghost before_call = self.env();
                let mut newlocals: Vec<Vec<Binding>> = Vec::new();
                newlocals.push(bindings);
                core::mem::swap(&mut newlocals, &mut self.locals);
                proof {
                    assert(self.env() =~~= (EnvView {
                        locals: seq![spec_param_bindings(fview.params, vals@)],
                        ..before_call
                    }));
                    assert(view_locals(newlocals@) =~~= before_call.locals);
                }
                let flow = match &body.kind {
                    ASTStatementKind::CompoundStatement(cmp) => {
                        proof {
                            crate::ast::lemma_view_stmt_list_len(cmp.statements@);
                            assert(view_stmt_list(cmp.statements@).take(
                                cmp.statements@.len() as int) =~= view_stmt_list(cmp.statements@));
                            assert(fview.body == StmtView::Compound(view_stmt_list(cmp.statements@)));
                        }
                        self.eval_statements(&cmp.statements, cmp.statements.len(), fuel - 1)
                    },
                    _ => self.eval_statement(&body, fuel - 1),
                };
                core::mem::swap(&mut newlocals, &mut self.locals);
                proof {
                    assert(self.env().locals =~~= before_call.locals);
                }
                match flow {
                    Ok(StmtFlow::Returned(v)) => {
                        let ghost restored = self.env();
                        self.result = Some(v);
                        proof {
                            assert(self.env() =~~= (EnvView { last: Some(v), ..restored }));
                        }
                        Ok(v)
                    },
                    Ok(StmtFlow::Normal) => {
                        let last = self.result;
                        match last {
                            Some(v) => {
                                let ghost restored = self.env();
                                self.result = Some(v);
                                proof {
                                    assert(self.env() =~~= (EnvView { last: Some(v), ..restored }));
                                }
                                Ok(v)
                            },
                            None => Err(EvalError::MissingValue),
                        }
                    },
                    Err(err) => Err(err),
                }
            },
        }
    }

    /// Evaluates the first `n` arguments left to right, as
    /// `spec_eval_args` gives it.
    fn eval_arguments(&mut self, args: &Vec<ASTExpression>, n: usize, fuel: u32) -> (r: Result<
        Vec<Value>,
        EvalError,
    >)
        requires
            env_wf(old(self).env()),
            n <= args@.len(),
        ensures
            ({
                let s = spec_eval_args(old(self).env(), view_expr_list(args@).take(n as int),
                    fuel as nat);
                &&& final(self).env() == s.0
                &&& match (r, s.1) {
                    (Ok(vs), Ok(svs)) => vs@ == svs,
                    (Err(e1), Err(e2)) => e1 == e2,
                    _ => false,
                }
            }),
            env_wf(final(self).env()),
            r matches Ok(vs) ==> forall|i: int| 0 <= i < vs@.len()
                ==> value_wf(#[trigger] vs@[i]),
        decreases fuel, 0int, *args, n,
    {
        if n == 0 {
            proof {
                assert(view_expr_list(args@).take(0) =~= Seq::<ExprView>::empty());
            }
            let r: Vec<Value> = Vec::new();
            proof {
                assert(r@ =~= Seq::<Value>::empty());
            }
            return Ok(r);
        }
        let mut vs = match self.eval_arguments(args, n - 1, fuel) {
            Ok(x) => x,
            Err(err) => {
                proof {
                    crate::ast::lemma_view_expr_list_len(args@);
                    assert(view_expr_list(args@).take(n as int).drop_last()
                        =~= view_expr_list(args@).take(n - 1));
                }
                return Err(err);
            },
        };
        proof {
            lemma_view_expr_list_index(args@, n - 1);
            assert(view_expr_list(args@).take(n as int).drop_last()
                =~= view_expr_list(args@).take(n - 1));
            assert(view_expr_list(args@).take(n as int).last() == view_expr_list(args@)[n - 1]);
        }
        match self.eval_expression(&args[n - 1], fuel) {
            Ok(v) => {
                vs.push(v);
                Ok(vs)
            },
            Err(err) => Err(err),
        }
    }

    /// Executes one statement, exactly as `spec_eval_stmt` gives it.
    #[verifier::rlimit(100)]
    fn eval_statement(&mut self, s: &ASTStatement, fuel: u32) -> (r: Result<StmtFlow, EvalError>)
        requires
            env_wf(old(self).env()),
        ensures
            ({
                let sp = spec_eval_stmt(old(self).env(), s@, fuel as nat);
                &&& final(self).env() == sp.0
                &&& r == sp.1
            }),
            env_wf(final(self).env()),
            r matches Ok(StmtFlow::Returned(v)) ==> value_wf(v),
        decreases fuel, 1int, *s,
    {
        match &s.kind {
            ASTStatementKind::Expression(e) => {
                match self.eval_expression(e, fuel) {
                    Ok(_) => Ok(StmtFlow::Normal),
                    Err(err) => Err(err),
                }
            },
            ASTStatementKind::ReturnStatement(rs) => {
                match self.eval_expression(&rs.expr, fuel) {
                    Ok(v) => Ok(StmtFlow::Returned(v)),
                    Err(err) => Err(err),
                }
            },
            ASTStatementKind::LetStatement(l) => {
                match self.eval_expression(&l.initializer, fuel) {
                    Ok(v) => {
                        self.declare_binding(l.identifier.span.literal.clone(), v);
                        proof {
                            lemma_declare_wf(spec_eval_expr(old(self).env(), l.initializer@,
                                fuel as nat).0, l.identifier.span.literal@, v);
                        }
                        Ok(StmtFlow::Normal)
                    },
                    Err(err) => Err(err),
                }
            },
            ASTStatementKind::CompoundStatement(cmp) => {
                proof {
                    crate::ast::lemma_view_stmt_list_len(cmp.statements@);
                    assert(view_stmt_list(cmp.statements@).take(cmp.statements@.len() as int)
                        =~= view_stmt_list(cmp.statements@));
                }
                self.eval_statements(&cmp.statements, cmp.statements.len(), fuel)
            },
            ASTStatementKind::FunctionStatement(f) => {
                let stored = StoredFunction {
                    name: f.identifier.span.literal.clone(),
                    params: param_strings(&f.arguments),
                    body: stmt_copy(&f.body),
                };
                proof {
                    lemma_view_params_index(f.arguments@);
                    assert(stored@ =~~= (FunView {
                        name: f.identifier.span.literal@,
                        params: crate::symbol_table::param_names(
                            crate::ast::view_params(f.arguments@)),
                        body: f.body@,
                    }));
                }
                let ghost before = self.env();
                let ghost storedv = stored@;
                self.functions.push(stored);
                proof {
                    assert(view_functions(self.functions@)
                        =~~= before.functions.push(storedv));
                    assert(self.env() =~~= (EnvView {
                        functions: before.functions.push(storedv),
                        ..before
                    }));
                }
                self.declare_binding(f.identifier.span.literal.clone(), Value { num: 0, den: 1 });
                proof {
                    lemma_declare_wf(EnvView { functions: before.functions.push(storedv),
                        ..before }, f.identifier.span.literal@, Value { num: 0, den: 1 });
                }
                Ok(StmtFlow::Normal)
            },
            ASTStatementKind::ConditionalStatement(c) => {
                match self.eval_expression(&c.condition, fuel) {
                    Ok(v) => {
                        if !v.is_zero() {
                            self.eval_statement(&c.then_branch, fuel)
                        } else {
                            match &c.else_branch {
                                Some(els) => self.eval_statement(&els.else_branch, fuel),
                                None => Ok(StmtFlow::Normal),
                            }
                        }
                    },
                    Err(err) => Err(err),
                }
            },
        }
    }

    /// Executes the first `n` statements of a list in order, stopping
    /// early at a `return` or an error, as `spec_eval_stmts` gives it.
    fn eval_statements(&mut self, ss: &Vec<ASTStatement>, n: usize, fuel: u32) -> (r: Result<
        StmtFlow,
        EvalError,
    >)
        requires
            env_wf(old(self).env()),
            n <= ss@.len(),
        ensures
            ({
                let sp = spec_eval_stmts(old(self).env(), view_stmt_list(ss@).take(n as int),
                    fuel as nat);
                &&& final(self).env() == sp.0
                &&& r == sp.1
            }),
            env_wf(final(self).env()),
            r matches Ok(StmtFlow::Returned(v)) ==> value_wf(v),
        decreases fuel, 1int, *ss, n,
    {
        if n == 0 {
            proof {
                assert(view_stmt_list(ss@).take(0) =~= Seq::<StmtView>::empty());
            }
            return Ok(StmtFlow::Normal);
        }
        let first = self.eval_statements(ss, n - 1, fuel);
        proof {
            lemma_view_stmt_list_index(ss@, n - 1);
            assert(view_stmt_list(ss@).take(n as int).drop_last()
                =~= view_stmt_list(ss@).take(n - 1));
            assert(view_stmt_list(ss@).take(n as int).last() == view_stmt_list(ss@)[n - 1]);
        }
        match first {
            Ok(StmtFlow::Normal) => self.eval_statement(&ss[n - 1], fuel),
            other => other,
        }
    }

    /// Executes a whole program's top-level statements in order; a
    /// top-level `return` stops the remaining statements.  The final
    /// value, if any, is afterwards available from `result_value`.
    pub fn solve(&mut self, ast: &Ast, fuel: u32) -> (r: Result<(), EvalError>)
        requires
            env_wf(old(self).env()),
        ensures
            ({
                let sp = spec_eval_stmts(old(self).env(), ast@, fuel as nat);
                &&& final(self).env() == sp.0
                &&& match (r, sp.1) {
                    (Ok(()), Ok(_)) => true,
                    (Err(e1), Err(e2)) => e1 == e2,
                    _ => false,
                }
            }),
            env_wf(final(self).env()),
    {
        proof {
            crate::ast::lemma_view_stmt_list_len(ast.statements@);
            assert(view_stmt_list(ast.statements@).take(ast.statements@.len() as int)
                =~= view_stmt_list(ast.statements@));
        }
        match self.eval_statements(&ast.statements, ast.statements.len(), fuel) {
            Ok(_) => Ok(()),
            Err(err) => Err(err),
        }
    }

    /// The latest registered function with this name.
    fn find_function_index(&self, name: &str) -> (r: Option<usize>)
        ensures
            match r {
                Some(j) => j < self.functions@.len() && find_function(
                    view_functions(self.functions@),
                    name@,
                ) == Some(self.functions@[j as int]@),
                None => find_function(view_functions(self.functions@), name@) is None,
            },
    {
        let mut k = self.functions.len();
        proof {
            assert(view_functions(self.functions@).take(self.functions@.len() as int)
                =~~= view_functions(self.functions@));
        }
        while k > 0
            invariant
                k <= self.functions@.len(),
                find_function(view_functions(self.functions@), name@)
                    == find_function(view_functions(self.functions@).take(k as int), name@),
            decreases k,
        {
            k = k - 1;
            proof {
                assert(view_functions(self.functions@).take(k + 1).drop_last()
                    =~~= view_functions(self.functions@).take(k as int));
                assert(view_functions(self.functions@).take(k + 1).last()
                    == self.functions@[k as int]@);
            }
            if str_eq(self.functions[k].name.as_str(), name) {
                return Some(k);
            }
        }
        proof {
            assert(view_functions(self.functions@).take(0) =~~= Seq::<FunView>::empty());
        }
        None
    }
}

} // verus!
