//! A tree-walking interpreter for a small dynamically typed, lexically
//! scoped scripting language with first-class functions.
//!
//! The pipeline has three stages: the scanner turns a byte source into a
//! token stream, the parser turns tokens into an abstract syntax tree by
//! recursive descent, and the interpreter walks the tree with a chain of
//! lexical scopes, producing printed output and a final value.

pub mod ast;
pub mod environment;
pub mod interpreter;
pub mod laws;
pub mod parser;
pub mod result;
pub mod scanner;
pub mod semantics;
pub mod shared;
pub mod text;
pub mod tokens;
