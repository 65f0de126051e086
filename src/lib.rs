//! A parser for CSS at-rules over a stream of tokens with source spans.
pub mod token;
pub mod ast;
pub mod parser;
pub mod names;
pub mod family;
pub mod at_rules;
pub mod conditions;
pub mod lint;
