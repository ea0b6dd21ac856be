//! The semantic analysis engine: class table construction, inheritance-graph
//! validation, symbol and override checking, and expression type inference.

pub mod analyzer;
pub mod class_table;
pub mod collector;
pub mod errors;
pub mod laws;
pub mod symbols;
pub mod type_checker;
