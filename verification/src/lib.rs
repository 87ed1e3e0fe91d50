//! A lexer, parser, formatter and syntax checker for the Psy pseudocode
//! language, together with the integer and text helpers of its native
//! modules.
pub mod text;
pub mod unicode;
pub mod number;
pub mod token;
pub mod lexer;
pub mod ast;
pub mod grammar;
pub mod parser;
pub mod rules;
pub mod checker;
pub mod formatter;
pub mod symbols;
pub mod native;
pub mod task;
pub mod json_text;
pub mod integers;
pub mod url;
pub mod crypto;
pub mod editor;
pub mod exports;
pub mod definitions;
pub mod hover;
pub mod fields;
pub mod server;
pub mod json;
