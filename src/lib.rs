//! Requirements tracing for Rust sources.
//!
//! The library walks the concrete syntax tree of each source file of a
//! project, builds a tree of traceable items (functions and structs, scoped
//! by modules and impl blocks), collects the trace and exclusion annotations
//! found in comments, follows module declarations into further files, and
//! flattens the result into interchange records.
pub mod annotations;
pub mod context;
pub mod cst;
pub mod laws;
pub mod location;
pub mod node;
pub mod resolve;
pub mod session;
pub mod visitor;
