//! A minimal stack machine for numeric array evaluation.
//!
//! The library evaluates a small, whitespace-separated instruction language
//! against an operand stack that is seeded with two caller-supplied scalar
//! arguments. Evaluation is sandboxed: an instruction that would need
//! filesystem access is refused. The single entry point degrades to an empty
//! result on every failure instead of raising an error to the caller.
//!
//! The machine's numeric domain is the 64-bit integers of magnitude at most
//! 2^53, the range on which widening to a 64-bit float is exact, so a caller
//! on a floating-point boundary can convert results without loss.

pub mod facade;
pub mod laws;
pub mod lexer;
pub mod machine;
pub mod parser;
pub mod value;
