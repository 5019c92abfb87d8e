//! Persisted project tasks and their dependency graph.
use vstd::prelude::*;

pub mod graph;
pub mod types;
pub mod reach;
pub mod sorted;
pub mod error;
pub mod store;
pub mod ops;
pub mod load;
pub mod laws;
pub mod tool;
pub mod disk;

verus! {

} // verus!
