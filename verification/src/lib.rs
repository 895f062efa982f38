//! A compiler for a minimal subset of C: one `int` function whose body returns
//! an integer expression. Source text is split into tokens, the tokens are
//! parsed into a syntax tree whose shape encodes operator precedence, and the
//! tree is turned into x86-64 assembly lines.

pub mod compiler;
pub mod generator;
pub mod lexer;
pub mod machine;
pub mod parser;
pub mod pattern;
pub mod semantics;
pub mod text;
pub mod unparse;
