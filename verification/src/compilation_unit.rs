//! The front-end pipeline: source text to a validated tree.
//!
//! `compile` lexes the text, parses the filtered token stream into a
//! tree, and runs the two-pass resolver over it.  Any non-zero
//! diagnostic count rejects the compilation: a validated unit — the only
//! kind `compile` hands out — always carries an empty diagnostics sink,
//! so a tree with reported errors is never evaluated.  `run` executes a
//! validated unit's tree; the program's result is the value of a
//! top-level `return`, or the value of the last evaluated expression.

use vstd::prelude::*;
use crate::ast::{Ast, StmtView};
use crate::diagnostics::{DiagnosticsColletion, DiagnosticView};
use crate::parser::{Parser, rem, spec_lex_stream, spec_parse_program, spec_parse_statement,
    spec_prepare_tokens, tok_at};
use crate::solver::{ASTSolver, EnvView, BindingView, FunView, StmtFlow, env_wf, spec_eval_stmts};
use crate::symbol_table::{SymbolTable, SymbolView, spec_resolve};
use crate::value::{EvalError, Value};

verus! {

/// The diagnostics of compiling a text: parsing first, then both
/// resolver passes.
pub open spec fn spec_compile_diags(text: Seq<char>) -> Seq<DiagnosticView> {
    let toks = spec_prepare_tokens(spec_lex_stream(text, 0, false));
    let prog = spec_parse_program(toks, 0);
    prog.diags + spec_resolve(prog.stmts).1
}

/// The statements a text parses into.
pub open spec fn spec_compile_stmts(text: Seq<char>) -> Seq<StmtView> {
    let toks = spec_prepare_tokens(spec_lex_stream(text, 0, false));
    spec_parse_program(toks, 0).stmts
}

/// A validated compilation: the parsed tree and the (empty) diagnostics
/// sink it was validated against.
#[derive(Debug)]
pub struct CompilationUnit {
    pub ast: Ast,
    pub diagnostics: DiagnosticsColletion,
}

impl CompilationUnit {
    /// Lexes, parses and resolves `input`.  Succeeds exactly when no
    /// diagnostic was reported anywhere; a failed compilation hands back
    /// all accumulated diagnostics instead of a unit, so a tree with
    /// errors is never evaluated.
    pub fn compile(input: &str) -> (r: Result<CompilationUnit, DiagnosticsColletion>)
        ensures
            match r {
                Ok(c) => {
                    &&& spec_compile_diags(input@).len() == 0
                    &&& c.ast@ == spec_compile_stmts(input@)
                    &&& c.diagnostics@ == spec_compile_diags(input@)
                },
                Err(d) => {
                    &&& spec_compile_diags(input@).len() > 0
                    &&& d@ == spec_compile_diags(input@)
                },
            },
    {
        let ghost text = input@;
        let mut parser = Parser::from_input(input.to_owned(), DiagnosticsColletion::new());
        let ghost toks = parser.toks();
        let ghost target = spec_parse_program(toks, 0);
        let mut ast = Ast::new();
        proof {
            assert(Seq::<DiagnosticView>::empty() + target.diags =~= target.diags);
            assert(Seq::<StmtView>::empty() + target.stmts =~= target.stmts);
        }
        let mut done = false;
        while !done
            invariant
                parser.wf(),
                parser.toks() == toks,
                !done ==> ({
                    let cur = spec_parse_program(toks, parser.at());
                    &&& target.stmts == ast@ + cur.stmts
                    &&& target.diags == parser.diagnostics@ + cur.diags
                }),
                done ==> ast@ == target.stmts && parser.diagnostics@ == target.diags,
            decreases rem(toks, parser.at()), (if done { 0int } else { 1int }),
        {
            let ghost pos_iter = parser.at();
            let ghost d_iter = parser.diagnostics@;
            let r = parser.next_statement();
            match r {
                Some(stmt) => {
                    proof {
                        if pos_iter >= toks.len() {
                            assert(tok_at(toks, pos_iter) == toks.last());
                        }
                    }
                    let ghost s = spec_parse_statement(toks, pos_iter);
                    let ghost before = ast@;
                    ast.add_statement(stmt);
                    proof {
                        let rest = spec_parse_program(toks, parser.at());
                        assert(before + (seq![s.stmt] + rest.stmts)
                            =~= before.push(s.stmt) + rest.stmts);
                        assert(d_iter + (s.diags + rest.diags)
                            =~= (d_iter + s.diags) + rest.diags);
                    }
                },
                None => {
                    done = true;
                },
            }
        }
        let mut table = SymbolTable::new(parser.diagnostics);
        table.build(&ast);
        proof {
            assert(target.diags + spec_resolve(target.stmts).1 =~= spec_compile_diags(text));
        }
        if table.diagnostics.len() == 0 {
            Ok(CompilationUnit { ast, diagnostics: table.diagnostics })
        } else {
            Err(table.diagnostics)
        }
    }

    /// Executes the validated tree with the given call-depth fuel and
    /// hands back the program's result, if any statement produced one.
    pub fn run(&self, fuel: u32) -> (r: Result<Option<Value>, EvalError>)
        ensures
            ({
                let sp = spec_eval_stmts(spec_empty_env(), self.ast@, fuel as nat);
                match r {
                    Ok(v) => sp.1 is Ok && v == sp.0.last,
                    Err(e) => sp.1 == Err::<StmtFlow, EvalError>(e),
                }
            }),
    {
        let mut solver = ASTSolver::new();
        proof {
            assert(solver.env() =~~= spec_empty_env());
        }
        match solver.solve(&self.ast, fuel) {
            Ok(()) => Ok(solver.result_value()),
            Err(e) => Err(e),
        }
    }
}

/// The evaluator's starting state: nothing declared, nothing produced.
pub open spec fn spec_empty_env() -> EnvView {
    EnvView {
        globals: Seq::<BindingView>::empty(),
        locals: Seq::<Seq<BindingView>>::empty(),
        functions: Seq::<FunView>::empty(),
        last: None::<Value>,
    }
}

} // verus!
