//! Front end for a small imperative expression language: a lexer that turns
//! source text into tokens, a recursive-descent parser that builds a syntax
//! tree while accumulating diagnostics, a two-pass scope resolver that
//! validates declarations and uses, and a tree-walking evaluator over exact
//! rational numbers.

pub mod ast;
pub mod chars;
pub mod compilation_unit;
pub mod diagnostics;
pub mod lexer;
pub mod parser;
pub mod solver;
pub mod sourcetext;
pub mod symbol_checker;
pub mod symbol_table;
pub mod text;
pub mod value;
