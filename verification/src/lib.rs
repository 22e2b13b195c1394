//! A small expression language: text is split into tokens, tokens are parsed
//! into a tree, and the tree is evaluated against nested scopes of variables.
//!
//! The crate holds no floating-point code. A float value is its IEEE 754
//! binary64 bit pattern, and whatever needs float hardware (reading a decimal
//! literal, arithmetic, printing) is looked up in a table of facts that the
//! host fills in: see [`float::FloatFacts`].

pub mod text;
pub mod op;
pub mod float;
pub mod types;
pub mod error;
pub mod keyword;
pub mod token;
pub mod lexer;
pub mod node;
pub mod parser;
pub mod variable;
pub mod symbol_table;
pub mod context;
pub mod interpreter;
pub mod laws;
