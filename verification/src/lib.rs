//! A scanner, parser and tree-walking evaluator for a small expression
//! language: arithmetic, string concatenation, comparisons, equality,
//! unary negation and logical not, and parenthesised grouping.
//!
//! Numbers are IEEE-754 binary64 values, carried as their bit patterns.
//! The sign flip and the comparisons are computed here on the bits; the
//! rounding operations (decimal text to number, the four arithmetic
//! operations, number to decimal text) are supplied by the caller as
//! functions, and every contract holds for whatever those functions return.
//!
//! Each stage has its mathematical description beside it: `lexis` for the
//! scanner, `grammar` and `derivation` for the parser, and the relation
//! `evaluates` for the interpreter. `laws` states what follows from them.
pub mod number;

pub mod token;

pub mod error;

pub mod util;

pub mod lexis;

pub mod scanner;

pub mod expr;

pub mod grammar;

pub mod derivation;

pub mod parser;

pub mod ast_printer;

pub mod interpreter;

pub mod pipeline;

pub mod laws;
