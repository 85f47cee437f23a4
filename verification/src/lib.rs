//! Lexical-analysis front end for a small scripting language: it turns raw
//! source text into a sequence of classified tokens (punctuation, operators,
//! literals, keywords, identifiers) while tracking line numbers, and
//! accumulates lexical errors instead of aborting, so that a whole source
//! unit is diagnosed in one pass.

pub mod errors;
pub mod laws;
pub mod scanner;
pub mod superiterator;
pub mod text;
pub mod token;
