//! Front end of a toy-language translator: a finite-state lexical scanner
//! that turns source text into a stream of classified tokens, and a
//! table-driven predictive parser that checks the token stream against a
//! fixed grammar, emits a derivation trace, and records declared
//! identifiers into a symbol table.

pub mod fsm;
pub mod lexer;
pub mod parser;
pub mod tokens;
