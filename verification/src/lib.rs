//! A recursive-descent parser for EGL, a tiny nested-expression language.
//!
//! An EGL program is a start keyword (`HI`), then either an end marker (`!`)
//! or a brace-delimited block holding one nested expression (or nothing),
//! followed by the end marker.  Any amount of whitespace may separate the
//! tokens.  `parser::parse_egl` parses a whole input string into an
//! [`ast::EGLAst`] tree or reports a [`error::ParseError`].

pub mod ast;
pub mod error;
pub mod grammar;
pub mod laws;
pub mod parser;
