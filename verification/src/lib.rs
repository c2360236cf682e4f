//! A lexical analyzer for a small expression and statement language.
//!
//! The scanner turns a sequence of characters into a sequence of tokens that
//! always ends with an end-of-input token. Every executable function carries
//! a contract over the mathematical model in [`model`].

pub mod charclass;
pub mod laws;
pub mod lexer;
pub mod model;
pub mod numeral;
pub mod text;
pub mod token;
