//! A small-step operational-semantics evaluator for a tiny expression
//! language: integers, booleans, named variables, addition, multiplication
//! and comparison. An expression is reduced one step at a time until it
//! reaches an irreducible value, and every intermediate state can be
//! rendered as text.

pub mod environment;
pub mod laws;
pub mod machine;
pub mod render;
pub mod semantics;
pub mod token;

pub use environment::Environment;
pub use machine::Machine;
pub use semantics::ReduceError;
pub use token::Token;
