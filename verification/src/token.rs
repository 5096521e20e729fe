pub mod arith;
pub mod cmp;
pub mod control_flow;
pub mod helper;
pub mod mem;
pub mod sys;

use vstd::prelude::*;

verus! {

} // verus!
