//! Rule-driven structural diffing of two versions of one source file.
//!
//! Given a model of the old and the new syntax tree, the raw text of both
//! versions, and a set of rules naming functions, call sites and traits of
//! interest, the engine emits one human-readable report per detected change.

pub mod catalog;
pub mod config;
pub mod laws;
pub mod model;
pub mod strategies;
pub mod text;
