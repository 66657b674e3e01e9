//! A small lambda-calculus scripting language: a scanner that turns source
//! text into tokens, a precedence-climbing parser that builds an abstract
//! syntax tree, and a tree-walking evaluator with lexically scoped closures,
//! a recursion protocol, and five name-dispatched builtin capabilities.
pub mod ast;
pub mod capabilities;
pub mod interpreter;
pub mod laws;
pub mod lexer;
pub mod numerics;

use vstd::prelude::*;

verus! {

} // verus!
