//! A hardened arithmetic expression evaluator.
//!
//! Untrusted callers hand in a textual expression; the library validates it,
//! tokenizes it, and parses it by recursive descent into an expression tree,
//! rejecting malformed or unsafe input with a typed diagnosis. Numeric
//! evaluation over 64-bit floats is left to the embedding program, which
//! consults the verified bit-pattern checks in [`numeric`] to reject division
//! by zero and non-finite intermediate results.

pub mod ast;
pub mod calculator;
pub mod error;
pub mod laws;
pub mod numeric;
pub mod parser;
pub mod tokenizer;
