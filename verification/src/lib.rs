//! Generator for SQLSTATE error-code bindings.
//!
//! The library turns the text of a reference table of standardized error
//! codes (one `<code> <category> <PREFIXED_NAME> ...` declaration per line)
//! into Rust source: a wrapper type around a code string, one named constant
//! per symbolic name, and a static perfect-hash lookup table mapping each
//! distinct code to its first-declared constant.

pub mod emit;
pub mod lines;
pub mod ordered;
pub mod parse;
pub mod phfmap;
pub mod state;
pub mod table;
