//! Calculator core: rewrites calculator notation into canonical arithmetic
//! syntax, tokenizes and parses it into an expression tree, and keeps the
//! state of the calculator's input and result.
use vstd::prelude::*;

pub mod calculator;
pub mod color;
pub mod config;
pub mod error;
pub mod lexer;
pub mod normalize;
pub mod parser;

verus! {

} // verus!
