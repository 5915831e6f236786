//! Arithmetic expressions: scanning text into tokens, parsing tokens into a
//! tree by precedence climbing, and walking the tree with visitors that
//! evaluate it or render it as indented text.
use vstd::prelude::*;

pub mod ast;
pub mod evaluator;
pub mod laws;
pub mod lexer;
pub mod parser;
pub mod printer;

verus! {

} // verus!
