//! A fixed-capacity interpreter for a small stack-based command language.
//!
//! The engine keeps a bounded stack of signed 32-bit values, an append-only
//! word dictionary with shadowing lookup, a tokenizer over null-terminated
//! line buffers, and a two-state (interactive / compiling) evaluator.  All
//! observable behaviour — stack effects, dictionary growth, and the bytes
//! written to the output channel — is stated in the contracts and proved.

pub mod dict;
pub mod errors;
pub mod interp;
pub mod laws;
pub mod numbers;
pub mod output;
pub mod semantics;
pub mod stack;
