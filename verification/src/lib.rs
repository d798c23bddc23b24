//! Compiles a parsed C++ header's declaration tree into a normalized API
//! description: a declaration walker, a type resolver, a constant-value
//! evaluator, and a cross-translation-unit merger over a small schema model.

pub mod input;
pub mod laws;
pub mod merge;
pub mod paths;
pub mod report;
pub mod resolve;
pub mod schema;
pub mod value;
pub mod walk;
