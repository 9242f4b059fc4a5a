//! A calculator over named matrices: the words of a command line, the rules that
//! pick a command and look up its variables, the shape checks, construction and
//! transpose of matrices, and the layout of results.

use vstd::prelude::*;

pub mod err;
pub mod eval;
pub mod env;
pub mod matrix;
pub mod text;

verus! {

} // verus!
