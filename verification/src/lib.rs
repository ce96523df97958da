//! A small compiler front end for the `uwu` scripting language: a
//! state-machine lexer, a recursive-descent parser with precedence
//! climbing, a macro expander, a gradual type environment, and a family of
//! cursor-guarded code generators that emit target-language text.

pub mod ast;
pub mod codegen;
pub mod compiler;
pub mod diagnostics;
pub mod env;
pub mod macros;
pub mod parser;
pub mod strutil;
pub mod types;
pub mod tokenizer;
pub mod tokens;
