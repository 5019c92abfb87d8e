//! The runtime's decisions: run limits and policy, execution contexts, and agent bookkeeping.
use vstd::prelude::*;

pub mod agent_tasks;
pub mod builtin;
pub mod cancel;
pub mod clock;
pub mod control;
pub mod execution_context;
pub mod intrinsic;
pub mod registry;
pub mod paths;
pub mod tools;
pub mod turn;
pub mod workdir;

verus! {

} // verus!
