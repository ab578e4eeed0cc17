//! A small dynamically typed scripting language: a lexer that turns source
//! text into located tokens, a recursive-descent parser that turns tokens
//! into a syntax tree, and an evaluator that walks the tree against a chain
//! of lexical scopes.
//!
//! The library holds no floating-point code. A number is kept as the bit
//! pattern of an IEEE-754 double; sign, order and rounding are read off the
//! bits, while arithmetic, the reading of a literal and the printing of a
//! number are asked of the caller, one request at a time (see
//! [`interpreter`]).
pub mod ast;
pub mod environment;
pub mod icps;
pub mod interpreter;
pub mod number;
pub mod parser;
pub mod roundtrip;
pub mod scanner;
pub mod text;
pub mod theorems;
pub mod token;
pub mod value;
