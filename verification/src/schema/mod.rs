//! The schema language: syntax tree, grammar, and the rules on annotations.

pub mod ast;
pub mod grammar;
pub mod laws;
pub mod meaning_laws;
pub mod parser;
pub mod round_trip;
pub mod rule_laws;
pub mod validate;
