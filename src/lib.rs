//! A small call-by-name evaluator for an untyped lambda calculus with
//! literals, data constructors and case expressions.
//!
//! Every executable item states its behaviour over [`syntax::Term`], the
//! mathematical model of an expression tree.

pub mod syntax;
pub mod tree;
pub mod rename;
pub mod reduce;
pub mod stepper;
pub mod laws;
