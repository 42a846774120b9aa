use vstd::prelude::*;

pub mod arith;
pub mod bytes;
pub mod gpu;
pub mod replay;
pub mod ring;
pub mod sched;
pub mod text;
pub mod viewer;

verus! {

} // verus!
