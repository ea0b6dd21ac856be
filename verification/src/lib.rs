//! Static-semantics front end for a small object-oriented teaching language:
//! lexical scanning, a class-level AST, and a pipeline of semantic checks
//! (inheritance-graph validation, symbol and override checking, and
//! expression-level type inference with nominal subtyping).

pub mod ast;
pub mod builtins;
pub mod parsing;
pub mod scanner;
pub mod semantic;
pub mod sequtil;
pub mod strutil;
