//! A scanner for a small scripting language: it turns source text into line-stamped
//! tokens, and reports characters it does not recognize as tokens of their own.
pub mod laws;
pub mod lexicon;
pub mod scanner;
pub mod text;
pub mod token;
