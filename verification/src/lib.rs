//! A semantic analyzer for a small, Rust-like language.
//!
//! The analyzer consumes an already-parsed abstract syntax tree and checks
//! binding correctness, mutability discipline, type consistency and
//! closure-capture legality, producing an ordered list of diagnostics and
//! an accept/reject verdict. It performs no I/O and never panics; every
//! check is a total function over the tree.

pub mod analysis;
pub mod ast;
pub mod diag;
pub mod laws;
pub mod samples;
pub mod scope;
pub mod types;
