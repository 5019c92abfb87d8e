//! Sessions: their identifiers, and the permission rules users remember for them.
use vstd::prelude::*;

pub mod permission;
pub mod types;

verus! {

} // verus!
