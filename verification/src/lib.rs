use vstd::prelude::*;

pub mod agent;
pub mod text;
pub mod deixis;
pub mod embed;
pub mod engine;
pub mod eval;
pub mod expand;
pub mod memory;
pub mod resolve;
pub mod topic;

verus! {

} // verus!
