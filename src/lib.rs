//! Lowers functions of a small, dynamically typed scripting language into a
//! functional intermediate representation that a graph-reduction evaluator
//! can run.
//!
//! The pieces, leaves first:
//! - [`numeric`]: the 24-bit number domain of the target runtime;
//! - [`text`]: small verified string helpers;
//! - [`ast`]: the source syntax tree handed over by a parser;
//! - [`ir`]: terms, statements, algebraic types, definitions and errors;
//! - [`ops`]: the operator mapping table;
//! - [`program`]: the program book, its registries and the entry point;
//! - [`compile`]: expression lowering, continuation threading and the
//!   switch idiom;
//! - [`laws`]: properties that relate several of the above;
//! - [`scanner`]: a tokenizer for a textual dump of a syntax tree;
//! - [`tree`]: host-side tree values and their IR terms.
pub mod numeric;
pub mod text;
pub mod ast;
pub mod ir;
pub mod ops;
pub mod program;
pub mod compile;
pub mod laws;
pub mod tree;
pub mod scanner;
