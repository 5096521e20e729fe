pub mod compiler;
pub mod parser;
pub mod strings;
pub mod tables;
pub mod token;
pub mod type_checker;

use vstd::prelude::*;

verus! {

} // verus!
