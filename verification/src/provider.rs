//! Provider descriptions: identities, wire protocols, credentials, request payloads and tool metadata.
use vstd::prelude::*;

pub mod anthropic;
pub mod auth;
pub mod definition;
pub mod embedding;
pub mod headers;
pub mod model;
pub mod ollama;
pub mod pairs;
pub mod responses;
pub mod stream;
pub mod tool;

verus! {

} // verus!
