//! A tiny expression-oriented scripting language: tokenizer, parser,
//! lexically scoped environment, and tree-walking evaluator.
//!
//! Source text goes in, a single runtime value comes out.  Every stage is
//! specified against a mathematical model: the tokenizer against a
//! character-level scanning function, the parser against the grammar, and
//! the evaluator against a recursive interpreter over the
//! model of the environment.

pub mod environment;
pub mod expression;
mod float;
pub mod laws;
pub mod lexer;
pub mod numeric;
pub mod parser;
pub mod render;
pub mod runtime;
mod text;
