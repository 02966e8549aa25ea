//! A two-phase front end for a small PHP-like scripting language: a
//! character-level lexer built from an ordered list of recognizers, and a
//! recursive-descent builder that turns the token sequence into a syntax tree.
//!
//! Lexing: `reader` holds the character cursor, `recognizer` the lexical
//! rules, `lexing` what the pipeline of rules computes, and `tokenizer` the
//! pipeline itself. Parsing: `grammar` says which tree a token sequence
//! stands for, and `ast` builds it as a `node`. The two `_laws` modules hold
//! what is proved of every run.

pub mod reader;
pub mod token;
pub mod recognizer;
pub mod lexing;
pub mod lexing_laws;
pub mod tokenizer;
pub mod node;
pub mod grammar;
pub mod grammar_laws;
pub mod ast;
