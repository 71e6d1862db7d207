//! Semantic analysis for a C-like language.
//!
//! The heart of the crate is the analyzer: given an abstract syntax tree,
//! it checks scoping rules, resolves identifiers to declarations and
//! re-derives a type for every statement and expression, reporting the
//! first violation found.  Every analyzer function carries an exact
//! contract against a mathematical interpreter over the same tree, so
//! what each one returns - and on which inputs it fails, with which
//! error - is stated and proved, not just tested.
//!
//! - [`types`] holds the closed, structurally-compared type model;
//! - [`scope`] the stack of lexical scopes with its three lookup rules;
//! - [`specifiers`] the canonical declaration-specifier table;
//! - [`exprs`] and [`stmts`] the expression and statement analyzers;
//! - [`laws`] the library-wide properties, proved once over the model;
//! - [`lex`] and [`parse`] a small front end that feeds the analyzer;
//! - [`graph`] a plain edge-list graph used alongside the language work.

pub mod ast;
pub mod error;
pub mod exprs;
pub mod graph;
pub mod laws;
pub mod lex;
pub mod parse;
pub mod scope;
pub mod specifiers;
pub mod stmts;
pub mod types;
