//! Scanner and recursive-descent parser for WinZig, a small Pascal-like
//! teaching language: source text is turned into tokens, the tokens into a
//! syntax tree, and the tree can be rendered as an indented outline.
use vstd::prelude::*;

pub mod ast;
pub mod classify;
pub mod laws;
pub mod lexer;
pub mod parser;
pub mod text;
pub mod tree;
