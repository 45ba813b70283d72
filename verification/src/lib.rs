//! A minimal Lisp-family scripting language core: a lexer that turns source
//! text into tokens, a recursive-descent parser that builds S-expression
//! trees, and an evaluator that walks those trees against a lexical
//! environment seeded with built-in functions and one built-in macro.
//!
//! Every stage carries a contract relating it to a mathematical model of the
//! language: `spec_tokenize` for the lexer, `spec_parse` for the parser and
//! `sp_eval_exprs` for the evaluator.

pub mod builtin;
pub mod interp;
pub mod parser;
pub mod read;
pub mod runtime;
pub mod tokenizer;
