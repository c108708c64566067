//! The front end of a small imperative language: a tokenizer that tracks positions, a
//! parser for declarations, types and expressions, and an evaluator for expressions.
//!
//! Source text goes through [`lexer`] to located tokens, through [`parser`] to the nodes
//! of [`node`], and expressions through [`interpreter`] to values. What each stage makes of
//! its input is stated as a function of the input: [`scan`] for the tokenizer, [`grammar`]
//! for the parser, [`value`] and [`interpreter::eval`] for the evaluator.
//!
//! The library holds no floating-point code. A floating value is the bit pattern of its 64
//! bits; its order and its sign are read from the bits, and whoever uses the library reads
//! floating literals and does the arithmetic on floating values.

pub mod ascii;
pub mod text;
pub mod decimal;
pub mod token;
pub mod scan;
pub mod lexer;
pub mod node;
pub mod syntaxtree;
pub mod grammar;
pub mod parser;
pub mod value;
pub mod interpreter;
