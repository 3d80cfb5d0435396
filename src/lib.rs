//! Interpreter for deterministic single-tape Turing machines described in a
//! small line-oriented text format.

pub mod executor;
pub mod laws;
pub mod machine;
pub mod parser;
pub mod tape;
pub mod text;
