//! Front end of a compiler for a small schema language: lexing, parsing,
//! diagnostics, a duplicate-name pass and a memoising query database.
//!
//! Every executable function carries a contract over the mathematical
//! models defined next to it. A source text is modelled as its UTF-8 bytes,
//! and every position is a byte offset.
//!
//! - `span`, `token`, `chars`: byte ranges, tokens, byte classes.
//! - `lexer`, `lexer_laws`: what the next token of a text is, the lexer that
//!   computes it, and what holds of every token.
//! - `ast`, `grammar`, `parser`: the tree, what each production reads from a
//!   text, and the parser that computes it.
//! - `writing`: how each node is written, and the laws that the parser reads
//!   a node exactly where the text spells it.
//! - `diagnostics`, `text`, `format`, `error`: reports, lines and columns,
//!   and how a report is shown.
//! - `visitor`, `symbol`, `interner`, `symbols`, `passes`: walking a tree,
//!   and the pass that finds names declared twice.
//! - `db`, `queries`: the inputs, and the queries that are computed once.
//! - `testing`: a database around one text.

pub mod ast;
pub mod chars;
pub mod db;
pub mod diagnostics;
pub mod error;
pub mod format;
pub mod grammar;
pub mod interner;
pub mod lexer;
pub mod lexer_laws;
pub mod parser;
pub mod passes;
pub mod queries;
pub mod span;
pub mod symbol;
pub mod symbols;
pub mod testing;
pub mod text;
pub mod token;
pub mod visitor;
pub mod writing;
