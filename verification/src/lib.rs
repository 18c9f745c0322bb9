//! A small interpreter for a parenthesized, Lisp-like expression language.
//!
//! Source text is scanned into positioned tokens (`lexer`), the tokens are
//! parsed into a tree of tagged values built over an immutable, shareable
//! cons-list (`lisptype`, `conslist`, `parser`), and the tree is reduced to a
//! final value against a mutable symbol table (`evaluator`).
//!
//! The language's fractional numbers are carried as exact rationals
//! (`rational`), so every arithmetic result and every division-by-zero check
//! is stated and proved exactly.

pub mod conslist;
pub mod evaluator;
pub mod laws;
pub mod lexer;
pub mod lisptype;
pub mod parser;
pub mod rational;
pub mod type_enums;
