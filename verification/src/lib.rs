//! A single-pass source-to-source transformer that strips type-only syntax
//! (ambient declarations, interfaces, type aliases, casts, type annotations)
//! from a statically-typed superset of a dynamic scripting language.
//!
//! The core is a character-level tokenizer combined with a contextual token
//! classifier and a family of pause/resume state machines that suppress
//! type-only regions from the output.

pub mod ast;
pub mod continuation;
pub mod laws;
pub mod parser;
pub mod pauser;
pub mod plain;
