//! Code generator for a small source-to-source compiler that lowers a
//! structured intermediate representation into Lua source text.
//!
//! The [`ast`] module defines the token tree the parser hands over,
//! [`model`] gives the mathematical definition of the emitted text and of
//! well-formedness, [`weight`] bounds the indentation arithmetic,
//! [`compiler`] holds the executable generator — proved to produce exactly
//! the text the model describes — and [`laws`] states the general
//! properties of the emission as proved theorems.

pub mod ast;
pub mod model;
pub mod weight;
pub mod digits;
pub mod compiler;
pub mod laws;
