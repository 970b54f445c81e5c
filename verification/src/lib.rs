//! A reader for a small DOT-like graph description language.
//!
//! [`tokenize::tokenize`] turns source text into tokens and
//! [`ast::parse_graph`] turns tokens into a syntax tree. Each function is
//! proved to compute what a mathematical definition says: the scanner and the
//! comment remover in [`tokenize`], the productions in [`grammar`], over the
//! tree model in [`model`]. [`laws`] holds theorems about those definitions.
//!
//! What is taken from `std` on trust stands in [`text`]: which characters
//! are alphabetic, which are alphanumeric and what the lowercase form of a
//! text is, which the contracts name and say nothing more of, and that
//! `String::push` appends.

pub mod ast;
pub mod grammar;
pub mod laws;
pub mod model;
pub mod text;
pub mod tokenize;
