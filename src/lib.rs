//! References to bindings in a small expression language: checking them
//! against the declared scopes, typing them, reading them at runtime, and
//! lowering them to bytecode and to native code that read the same value;
//! the "did you mean" diagnostic for undefined names; and the decisions of a
//! Unix socket sink.

pub mod ident;
pub mod value;
pub mod levenshtein;
pub mod table;
pub mod type_def;
pub mod env;
pub mod state;
pub mod diagnostic;
pub mod vm;
pub mod native;
pub mod variable;
pub mod unix;
