//! Lexical analysis for a small Lua-like scripting language.

pub mod chars;
pub mod token;
pub mod number;
pub mod error;
pub mod quoted;
pub mod grammar;
pub mod lexer;
pub mod report;
pub mod laws;
