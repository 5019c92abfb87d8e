use vstd::prelude::*;

pub mod compaction;
pub mod provider;
pub mod runtime;
pub mod session;
pub mod task;
pub mod text;

verus! {

} // verus!
