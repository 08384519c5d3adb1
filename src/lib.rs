//! A lexing engine driven by grammars of named states, each an ordered list
//! of regular-expression rules, and an HTML renderer for its tokens.

pub mod formatter;
pub mod grammar;
pub mod html;
pub mod lexer;
pub mod pattern;
pub mod text;
pub mod token;
