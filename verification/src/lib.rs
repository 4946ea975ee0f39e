//! A single-pass lexical scanner for a small C-like scripting language.
//!
//! The scanner walks the extended grapheme clusters of a source text once,
//! from front to back, and produces two ordered lists: the tokens it
//! recognised, closed by an end-of-input token, and the errors it met on the
//! way. Malformed input never stops the scan.

pub mod error;
pub mod graphemes;
pub mod laws;
pub mod render;
pub mod rules;
pub mod scanner;
pub mod token;
