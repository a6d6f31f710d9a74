//! Utilities that make working with token trees easier: structural
//! comparison, a backtracking token parser, a token visitor and
//! `compile_error!` diagnostics.
pub mod decimal;
pub mod escape;
pub mod token;
pub mod visitor;
pub mod diagnostic;
pub mod extension;
pub mod parser;
