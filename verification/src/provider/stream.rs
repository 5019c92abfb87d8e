//! Provider-neutral streaming events.
use vstd::prelude::*;

use super::model::{Role, TokenUsage};

verus! {

/// The kind of a content block that starts streaming.
#[derive(Debug, Clone, PartialEq, Eq)]
pub enum ContentBlockStart {
    Text,
    ToolUse { id: String, name: String },
}

/// A piece of a streaming content block.
#[derive(Debug, Clone, PartialEq, Eq)]
pub enum ContentBlockDelta {
    Text(String),
    ToolUseInputJson(String),
}

/// One event of a streamed model response.
#[derive(Debug, Clone, PartialEq, Eq)]
pub enum ProviderEvent {
    MessageStarted { id: String, model: String, role: Role },
    ContentBlockStarted { index: usize, kind: ContentBlockStart },
    ContentBlockDelta { index: usize, delta: ContentBlockDelta },
    ContentBlockStopped { index: usize },
    MessageDelta { stop_reason: Option<String>, usage: Option<TokenUsage> },
    MessageStopped,
}

} // verus!
