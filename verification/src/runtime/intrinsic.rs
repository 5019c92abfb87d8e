//! The runtime's own tools: their descriptions, which family a call belongs to, and the
//! tool result that each outcome of a call is answered with.
use vstd::prelude::*;

use crate::provider::tool::{ToolDurability, ToolLoadingPolicy, ToolSideEffectLevel, ToolSpec, EMPTY_OBJECT_SCHEMA};
use crate::runtime::execution_context::ExecutionContextItem;
use crate::runtime::tools::{
    spec_is_execution_context_tool, spec_is_task_tool, spec_is_team_tool, is_execution_context_tool,
    is_task_tool, is_team_tool, COMPACT_TOOL_NAME, IDLE_TOOL_NAME, TASK_TOOL_NAME, TASK_CREATE_TOOL_NAME,
    TASK_CLAIM_TOOL_NAME, TASK_UPDATE_TOOL_NAME, TASK_LIST_TOOL_NAME, TASK_GET_TOOL_NAME,
    CONTEXT_CREATE_TOOL_NAME, CONTEXT_GET_TOOL_NAME, CONTEXT_LIST_TOOL_NAME, CONTEXT_KEEP_TOOL_NAME,
    CONTEXT_REMOVE_TOOL_NAME,
};
use crate::text::str_eq;

verus! {

/// The answer to one tool call.
#[derive(Debug, Clone, PartialEq, Eq)]
pub struct ToolResultBlock {
    pub tool_use_id: String,
    pub content: String,
    pub is_error: bool,
}

/// The family of one of the runtime's own tools.
#[derive(Debug, Clone, Copy, PartialEq, Eq, Structural)]
pub enum IntrinsicKind {
    Compact,
    Idle,
    Task,
    Team,
    ExecutionContext,
    TaskTool,
}

/// Which of the runtime's own tools `name` calls, in the order the runtime tries them.
pub open spec fn spec_intrinsic_kind(name: Seq<char>) -> Option<IntrinsicKind> {
    if name == COMPACT_TOOL_NAME@ {
        Some(IntrinsicKind::Compact)
    } else if name == IDLE_TOOL_NAME@ {
        Some(IntrinsicKind::Idle)
    } else if name == TASK_TOOL_NAME@ {
        Some(IntrinsicKind::Task)
    } else if spec_is_team_tool(name) {
        Some(IntrinsicKind::Team)
    } else if spec_is_execution_context_tool(name) {
        Some(IntrinsicKind::ExecutionContext)
    } else if spec_is_task_tool(name) {
        Some(IntrinsicKind::TaskTool)
    } else {
        None
    }
}

/// Which of the runtime's own tools `name` calls; `None` for any other tool.
pub fn intrinsic_kind(name: &str) -> (r: Option<IntrinsicKind>)
    ensures
        r == spec_intrinsic_kind(name@),
{
    if str_eq(name, COMPACT_TOOL_NAME) {
        Some(IntrinsicKind::Compact)
    } else if str_eq(name, IDLE_TOOL_NAME) {
        Some(IntrinsicKind::Idle)
    } else if str_eq(name, TASK_TOOL_NAME) {
        Some(IntrinsicKind::Task)
    } else if is_team_tool(name) {
        Some(IntrinsicKind::Team)
    } else if is_execution_context_tool(name) {
        Some(IntrinsicKind::ExecutionContext)
    } else if is_task_tool(name) {
        Some(IntrinsicKind::TaskTool)
    } else {
        None
    }
}

/// What a call of one of the runtime's own tools leaves: its answer, whether it changed
/// the task list, and whether the turn ends with it.
#[derive(Debug, Clone, PartialEq, Eq)]
pub struct IntrinsicOutcome {
    pub result: ToolResultBlock,
    pub touched_task: bool,
    pub end_turn: bool,
}

/// The outcome of a call of kind `kind` answered with `result`: only `idle` ends the turn,
/// and only the task and execution-context tools report that they changed tasks.
pub fn intrinsic_outcome(kind: IntrinsicKind, result: ToolResultBlock, touched_task: bool) -> (r: IntrinsicOutcome)
    ensures
        r.result == result,
        r.end_turn == (kind == IntrinsicKind::Idle),
        r.touched_task == (touched_task && (kind == IntrinsicKind::ExecutionContext || kind
            == IntrinsicKind::TaskTool)),
{
    let end_turn = match kind {
        IntrinsicKind::Idle => true,
        _ => false,
    };
    let touches = match kind {
        IntrinsicKind::ExecutionContext | IntrinsicKind::TaskTool => touched_task,
        _ => false,
    };
    IntrinsicOutcome { result, touched_task: touches, end_turn }
}

/// The names of a list of tool specs, in order.
pub open spec fn spec_names(specs: Seq<ToolSpec>) -> Seq<Seq<char>> {
    specs.map_values(|t: ToolSpec| t.name@)
}

/// A spec with a name, a description and an input schema, and the builder's other defaults.
fn described(name: &str, description: &str, input_schema: &str) -> (r: ToolSpec)
    ensures
        tool_text(r) == (name@, Some(description@), input_schema@),
        r.name@ == name@,
        default_metadata(r),
{
    ToolSpec::builder(name).description(description).input_schema(input_schema).build()
}

fn push_spec(specs: &mut Vec<ToolSpec>, spec: ToolSpec)
    ensures
        final(specs)@ == old(specs)@.push(spec),
        spec_names(final(specs)@) == spec_names(old(specs)@).push(spec.name@),
        spec_texts(final(specs)@) == spec_texts(old(specs)@).push(tool_text(spec)),
{
    specs.push(spec);
    assert(spec_names(specs@) =~= spec_names(old(specs)@).push(spec.name@));
    assert(spec_texts(specs@) =~= spec_texts(old(specs)@).push(tool_text(spec)));
}

/// The names of the runtime's compaction, idle and delegation tools.
pub open spec fn own_tool_names() -> Seq<Seq<char>> {
    seq![COMPACT_TOOL_NAME@, IDLE_TOOL_NAME@, TASK_TOOL_NAME@]
}

/// The names of the execution-context tools, in the order they are offered.
pub open spec fn context_tool_names() -> Seq<Seq<char>> {
    seq![
        CONTEXT_CREATE_TOOL_NAME@,
        CONTEXT_GET_TOOL_NAME@,
        CONTEXT_LIST_TOOL_NAME@,
        CONTEXT_KEEP_TOOL_NAME@,
        CONTEXT_REMOVE_TOOL_NAME@,
    ]
}

/// The names of the task tools, in the order they are offered.
pub open spec fn task_tool_names() -> Seq<Seq<char>> {
    seq![
        TASK_CREATE_TOOL_NAME@,
        TASK_CLAIM_TOOL_NAME@,
        TASK_UPDATE_TOOL_NAME@,
        TASK_LIST_TOOL_NAME@,
        TASK_GET_TOOL_NAME@,
    ]
}

// ---------------------------------------------------------------- tool texts
pub const COMPACT_DESCRIPTION: &'static str = "Compress older conversation context into a summary.";
pub const COMPACT_SCHEMA: &'static str = EMPTY_OBJECT_SCHEMA;
pub const IDLE_DESCRIPTION: &'static str = "Yield the current turn and return to the teammate idle loop.";
pub const IDLE_SCHEMA: &'static str = EMPTY_OBJECT_SCHEMA;
pub const TASK_DESCRIPTION: &'static str = "Spawn a fresh subagent to work a subtask and return a concise summary.";
pub const TASK_SCHEMA: &'static str = r#"{"type":"object","properties":{"prompt":{"type":"string","description":"Delegated task prompt for the subagent"}},"required":["prompt"]}"#;
pub const CONTEXT_CREATE_DESCRIPTION: &'static str = "Create a persisted isolated execution context, optionally bound to a task.";
pub const CONTEXT_CREATE_SCHEMA: &'static str = r#"{"type":"object","properties":{"name":{"type":"string","description":"Stable execution context name"},"taskId":{"type":"integer","description":"Optional task identifier to bind"},"backend":{"type":"string","enum":["git_worktree"],"description":"Optional backend override"},"fromRef":{"type":"string","description":"Optional git ref to branch from"}},"required":["name"]}"#;
pub const CONTEXT_GET_DESCRIPTION: &'static str = "Get one persisted execution context by name.";
pub const CONTEXT_GET_SCHEMA: &'static str = r#"{"type":"object","properties":{"name":{"type":"string","description":"Execution context name"}},"required":["name"]}"#;
pub const CONTEXT_LIST_DESCRIPTION: &'static str = "List persisted execution contexts grouped by status.";
pub const CONTEXT_LIST_SCHEMA: &'static str = EMPTY_OBJECT_SCHEMA;
pub const CONTEXT_KEEP_DESCRIPTION: &'static str = "Mark an execution context as kept without removing its directory.";
pub const CONTEXT_KEEP_SCHEMA: &'static str = r#"{"type":"object","properties":{"name":{"type":"string","description":"Execution context name"}},"required":["name"]}"#;
pub const CONTEXT_REMOVE_DESCRIPTION: &'static str = "Remove an execution context directory and optionally complete the bound task.";
pub const CONTEXT_REMOVE_SCHEMA: &'static str = r#"{"type":"object","properties":{"name":{"type":"string","description":"Execution context name"},"force":{"type":"boolean","description":"Force git worktree removal"},"completeTask":{"type":"boolean","description":"Whether to complete the bound task while removing"}},"required":["name"]}"#;
pub const TASK_CREATE_DESCRIPTION: &'static str = "Lead-oriented project planning tool. Create a persisted task.";
pub const TASK_CREATE_SCHEMA: &'static str = r#"{"type":"object","properties":{"subject":{"type":"string","description":"Short title for the task"},"description":{"type":"string","description":"Optional extra detail for the task"},"owner":{"type":"string","description":"Optional owner label for the task"},"blockedBy":{"type":"array","items":{"type":"integer"},"description":"Task IDs that must finish before the task is ready"}},"required":["subject"]}"#;
pub const TASK_CLAIM_DESCRIPTION: &'static str = "Claim a ready unowned persisted task for the current teammate.";
pub const TASK_CLAIM_SCHEMA: &'static str = r#"{"type":"object","properties":{"taskId":{"type":"integer","description":"Optional explicit task identifier to claim"}}}"#;
pub const TASK_UPDATE_DESCRIPTION: &'static str = "Lead-oriented project planning tool. Update a persisted task and its dependency edges.";
pub const TASK_UPDATE_SCHEMA: &'static str = r#"{"type":"object","properties":{"taskId":{"type":"integer","description":"Stable identifier for the task"},"subject":{"type":"string","description":"Updated task subject"},"description":{"type":"string","description":"Updated task description"},"owner":{"type":"string","description":"Updated task owner"},"status":{"type":"string","enum":["pending","in_progress","completed"],"description":"Updated task status"},"addBlockedBy":{"type":"array","items":{"type":"integer"},"description":"Add dependency edges from blocker tasks into the task"},"removeBlockedBy":{"type":"array","items":{"type":"integer"},"description":"Remove dependency edges from blocker tasks into the task"},"addBlocks":{"type":"array","items":{"type":"integer"},"description":"Add dependency edges from the task into dependent tasks"},"removeBlocks":{"type":"array","items":{"type":"integer"},"description":"Remove dependency edges from the task into dependent tasks"}},"required":["taskId"]}"#;
pub const TASK_LIST_DESCRIPTION: &'static str = "List persisted tasks grouped by readiness.";
pub const TASK_LIST_SCHEMA: &'static str = EMPTY_OBJECT_SCHEMA;
pub const TASK_GET_DESCRIPTION: &'static str = "Get one persisted task by ID.";
pub const TASK_GET_SCHEMA: &'static str = r#"{"type":"object","properties":{"taskId":{"type":"integer","description":"Stable identifier for the task"}},"required":["taskId"]}"#;

/// A spec's name, description and input schema, as text.
pub open spec fn tool_text(t: ToolSpec) -> (Seq<char>, Option<Seq<char>>, Seq<char>) {
    (
        t.name@,
        match t.description {
            Some(d) => Some(d@),
            None => None,
        },
        t.input_schema@,
    )
}

pub open spec fn spec_texts(specs: Seq<ToolSpec>) -> Seq<(Seq<char>, Option<Seq<char>>, Seq<char>)> {
    specs.map_values(|t: ToolSpec| tool_text(t))
}

/// The builder's defaults for everything but name, description and schema: no capabilities,
/// no side effect, ephemeral, loaded immediately, no timeout.
pub open spec fn default_metadata(t: ToolSpec) -> bool {
    &&& t.capabilities@.len() == 0
    &&& t.side_effect_level == ToolSideEffectLevel::NoSideEffect
    &&& t.durability == ToolDurability::Ephemeral
    &&& t.loading_policy == ToolLoadingPolicy::Immediate
    &&& t.execution_timeout_ms is None
}

/// Name, description and input schema of the compaction, idle and delegation tools.
pub open spec fn own_tool_texts() -> Seq<(Seq<char>, Option<Seq<char>>, Seq<char>)> {
    seq![
        (COMPACT_TOOL_NAME@, Some(COMPACT_DESCRIPTION@), COMPACT_SCHEMA@),
        (IDLE_TOOL_NAME@, Some(IDLE_DESCRIPTION@), IDLE_SCHEMA@),
        (TASK_TOOL_NAME@, Some(TASK_DESCRIPTION@), TASK_SCHEMA@),
    ]
}

/// Name, description and input schema of each execution-context tool, in order.
pub open spec fn context_tool_texts() -> Seq<(Seq<char>, Option<Seq<char>>, Seq<char>)> {
    seq![
        (CONTEXT_CREATE_TOOL_NAME@, Some(CONTEXT_CREATE_DESCRIPTION@), CONTEXT_CREATE_SCHEMA@),
        (CONTEXT_GET_TOOL_NAME@, Some(CONTEXT_GET_DESCRIPTION@), CONTEXT_GET_SCHEMA@),
        (CONTEXT_LIST_TOOL_NAME@, Some(CONTEXT_LIST_DESCRIPTION@), CONTEXT_LIST_SCHEMA@),
        (CONTEXT_KEEP_TOOL_NAME@, Some(CONTEXT_KEEP_DESCRIPTION@), CONTEXT_KEEP_SCHEMA@),
        (CONTEXT_REMOVE_TOOL_NAME@, Some(CONTEXT_REMOVE_DESCRIPTION@), CONTEXT_REMOVE_SCHEMA@),
    ]
}

/// Name, description and input schema of each task tool, in order.
pub open spec fn task_tool_texts() -> Seq<(Seq<char>, Option<Seq<char>>, Seq<char>)> {
    seq![
        (TASK_CREATE_TOOL_NAME@, Some(TASK_CREATE_DESCRIPTION@), TASK_CREATE_SCHEMA@),
        (TASK_CLAIM_TOOL_NAME@, Some(TASK_CLAIM_DESCRIPTION@), TASK_CLAIM_SCHEMA@),
        (TASK_UPDATE_TOOL_NAME@, Some(TASK_UPDATE_DESCRIPTION@), TASK_UPDATE_SCHEMA@),
        (TASK_LIST_TOOL_NAME@, Some(TASK_LIST_DESCRIPTION@), TASK_LIST_SCHEMA@),
        (TASK_GET_TOOL_NAME@, Some(TASK_GET_DESCRIPTION@), TASK_GET_SCHEMA@),
    ]
}

/// The specs of the compaction, idle and delegation tools.
pub fn own_specs() -> (r: Vec<ToolSpec>)
    ensures
        spec_texts(r@) == own_tool_texts(),
        spec_names(r@) == own_tool_names(),
        forall|i: int| 0 <= i < r@.len() ==> default_metadata(#[trigger] r@[i]),
{
    let mut v: Vec<ToolSpec> = Vec::new();
    push_spec(&mut v, described(COMPACT_TOOL_NAME, COMPACT_DESCRIPTION, COMPACT_SCHEMA));
    push_spec(&mut v, described(IDLE_TOOL_NAME, IDLE_DESCRIPTION, IDLE_SCHEMA));
    push_spec(&mut v, described(TASK_TOOL_NAME, TASK_DESCRIPTION, TASK_SCHEMA));
    assert(spec_texts(v@) =~= own_tool_texts());
    assert(spec_names(v@) =~= own_tool_names());
    v
}

/// The specs of the execution-context tools.
pub fn context_intrinsic_specs() -> (r: Vec<ToolSpec>)
    ensures
        spec_texts(r@) == context_tool_texts(),
        spec_names(r@) == context_tool_names(),
        forall|i: int| 0 <= i < r@.len() ==> default_metadata(#[trigger] r@[i]),
{
    let mut v: Vec<ToolSpec> = Vec::new();
    push_spec(&mut v, described(CONTEXT_CREATE_TOOL_NAME, CONTEXT_CREATE_DESCRIPTION, CONTEXT_CREATE_SCHEMA));
    push_spec(&mut v, described(CONTEXT_GET_TOOL_NAME, CONTEXT_GET_DESCRIPTION, CONTEXT_GET_SCHEMA));
    push_spec(&mut v, described(CONTEXT_LIST_TOOL_NAME, CONTEXT_LIST_DESCRIPTION, CONTEXT_LIST_SCHEMA));
    push_spec(&mut v, described(CONTEXT_KEEP_TOOL_NAME, CONTEXT_KEEP_DESCRIPTION, CONTEXT_KEEP_SCHEMA));
    push_spec(&mut v, described(CONTEXT_REMOVE_TOOL_NAME, CONTEXT_REMOVE_DESCRIPTION, CONTEXT_REMOVE_SCHEMA));
    assert(spec_texts(v@) =~= context_tool_texts());
    assert(spec_names(v@) =~= context_tool_names());
    v
}

/// The specs of the task tools.
pub fn task_intrinsic_specs() -> (r: Vec<ToolSpec>)
    ensures
        spec_texts(r@) == task_tool_texts(),
        spec_names(r@) == task_tool_names(),
        forall|i: int| 0 <= i < r@.len() ==> default_metadata(#[trigger] r@[i]),
{
    let mut v: Vec<ToolSpec> = Vec::new();
    push_spec(&mut v, described(TASK_CREATE_TOOL_NAME, TASK_CREATE_DESCRIPTION, TASK_CREATE_SCHEMA));
    push_spec(&mut v, described(TASK_CLAIM_TOOL_NAME, TASK_CLAIM_DESCRIPTION, TASK_CLAIM_SCHEMA));
    push_spec(&mut v, described(TASK_UPDATE_TOOL_NAME, TASK_UPDATE_DESCRIPTION, TASK_UPDATE_SCHEMA));
    push_spec(&mut v, described(TASK_LIST_TOOL_NAME, TASK_LIST_DESCRIPTION, TASK_LIST_SCHEMA));
    push_spec(&mut v, described(TASK_GET_TOOL_NAME, TASK_GET_DESCRIPTION, TASK_GET_SCHEMA));
    assert(spec_texts(v@) =~= task_tool_texts());
    assert(spec_names(v@) =~= task_tool_names());
    v
}

/// The specs of the runtime's own tools: compaction, idle and delegation, then the
/// execution-context tools, then the task tools.
pub fn specs() -> (r: Vec<ToolSpec>)
    ensures
        spec_texts(r@) == own_tool_texts() + context_tool_texts() + task_tool_texts(),
        spec_names(r@) == own_tool_names() + context_tool_names() + task_tool_names(),
        forall|i: int| 0 <= i < r@.len() ==> default_metadata(#[trigger] r@[i]),
{
    let mut v = own_specs();
    let mut c = context_intrinsic_specs();
    let mut t = task_intrinsic_specs();
    let ghost (v0, c0, t0) = (v@, c@, t@);
    v.append(&mut c);
    v.append(&mut t);
    assert(v@ =~= v0 + c0 + t0);
    assert(spec_names(v@) =~= spec_names(v0) + spec_names(c0) + spec_names(t0));
    assert(spec_texts(v@) =~= spec_texts(v0) + spec_texts(c0) + spec_texts(t0));
    assert forall|i: int| 0 <= i < v@.len() implies default_metadata(#[trigger] v@[i]) by {
        if i < v0.len() {
            assert(v@[i] == v0[i]);
        } else if i < v0.len() + c0.len() {
            assert(v@[i] == c0[i - v0.len()]);
        } else {
            assert(v@[i] == t0[i - v0.len() - c0.len()]);
        }
    }
    v
}

/// Every tool that the runtime offers as its own is dispatched to one of its own handlers.
pub proof fn law_offered_intrinsics_dispatch(name: Seq<char>)
    requires
        (own_tool_names() + context_tool_names() + task_tool_names()).contains(name),
    ensures
        spec_intrinsic_kind(name) is Some,
{
    let all = own_tool_names() + context_tool_names() + task_tool_names();
    let i = choose|i: int| 0 <= i < all.len() && all[i] == name;
    assert(all[i] == name);
}

/// `prefix` followed by `rest`.
fn prefixed(prefix: &str, rest: &str) -> (r: String)
    ensures
        r@ == prefix@ + rest@,
{
    let mut m = prefix.to_owned();
    m.append(rest);
    m
}

fn answer(tool_use_id: String, content: String, is_error: bool) -> (r: ToolResultBlock)
    ensures
        r == (ToolResultBlock { tool_use_id, content, is_error }),
{
    ToolResultBlock { tool_use_id, content, is_error }
}

pub const IDLE_ANSWER: &'static str = "Yielding to the teammate idle loop.";

/// The answer to `idle`: the agent yields to the teammate idle loop.
pub fn execute_idle(tool_use_id: String) -> (r: ToolResultBlock)
    ensures
        r.tool_use_id == tool_use_id,
        r.content@ == IDLE_ANSWER@,
        !r.is_error,
{
    answer(tool_use_id, IDLE_ANSWER.to_owned(), false)
}

pub const COMPACTED_PREFIX: &'static str = "Context compacted. Transcript saved to ";
pub const COMPACTION_SKIPPED: &'static str = "Context compaction skipped because there was no older history to summarize.";
pub const COMPACTION_FAILED_PREFIX: &'static str = "Context compaction failed: ";

/// The answer to `compact`, from what the compaction gave: the path of the archived
/// transcript, nothing when there was no older history, or the failure's description.
pub fn compact_result(tool_use_id: String, outcome: Result<Option<String>, String>) -> (r: ToolResultBlock)
    ensures
        r.tool_use_id == tool_use_id,
        match outcome {
            Ok(Some(path)) => r.content@ == COMPACTED_PREFIX@ + path@ && !r.is_error,
            Ok(None) => r.content@ == COMPACTION_SKIPPED@ && !r.is_error,
            Err(e) => r.content@ == COMPACTION_FAILED_PREFIX@ + e@ && r.is_error,
        },
{
    match outcome {
        Ok(Some(path)) => answer(tool_use_id, prefixed(COMPACTED_PREFIX, path.as_str()), false),
        Ok(None) => answer(tool_use_id, COMPACTION_SKIPPED.to_owned(), false),
        Err(e) => answer(tool_use_id, prefixed(COMPACTION_FAILED_PREFIX, e.as_str()), true),
    }
}

/// How a delegated subagent run went.
#[derive(Debug)]
pub enum SubagentRun {
    /// The call's input was refused, with this message.
    InvalidInput(String),
    /// No subagent could be spawned; the failure's description.
    SpawnFailed(String),
    /// The subagent finished with this summary; then the task list was reloaded, or its
    /// reload failed with the description in `Err`.
    Finished { summary: String, refresh: Result<(), String> },
    /// The subagent failed; the failure's description.
    Failed(String),
}

pub const SPAWN_FAILED_PREFIX: &'static str = "Failed to spawn subagent: ";
pub const TASK_REFRESH_FAILED_PREFIX: &'static str = "Task refresh failed: ";
pub const SUBAGENT_FAILED_PREFIX: &'static str = "Subagent failed: ";

/// The answer to `task`: the subagent's summary when it finished and the task list was
/// reloaded, an error otherwise.
pub fn subagent_result(tool_use_id: String, run: SubagentRun) -> (r: ToolResultBlock)
    ensures
        r.tool_use_id == tool_use_id,
        match run {
            SubagentRun::InvalidInput(m) => r.content@ == m@ && r.is_error,
            SubagentRun::SpawnFailed(e) => r.content@ == SPAWN_FAILED_PREFIX@ + e@ && r.is_error,
            SubagentRun::Finished { summary, refresh: Ok(()) } => r.content@ == summary@ && !r.is_error,
            SubagentRun::Finished { summary, refresh: Err(e) } => r.content@ == TASK_REFRESH_FAILED_PREFIX@ + e@
                && r.is_error,
            SubagentRun::Failed(e) => r.content@ == SUBAGENT_FAILED_PREFIX@ + e@ && r.is_error,
        },
{
    match run {
        SubagentRun::InvalidInput(m) => answer(tool_use_id, m, true),
        SubagentRun::SpawnFailed(e) => answer(tool_use_id, prefixed(SPAWN_FAILED_PREFIX, e.as_str()), true),
        SubagentRun::Finished { summary, refresh } => match refresh {
            Ok(()) => answer(tool_use_id, summary, false),
            Err(e) => answer(tool_use_id, prefixed(TASK_REFRESH_FAILED_PREFIX, e.as_str()), true),
        },
        SubagentRun::Failed(e) => answer(tool_use_id, prefixed(SUBAGENT_FAILED_PREFIX, e.as_str()), true),
    }
}

/// The answer to a task or execution-context tool, and whether the task list changed.
#[derive(Debug, Clone, PartialEq, Eq)]
pub struct ToolIntrinsicResult {
    pub result: ToolResultBlock,
    pub touched_task: bool,
}

/// Whether `name` is a task tool that changes tasks (and so runs through the agent).
pub open spec fn spec_is_task_mutation(name: Seq<char>) -> bool {
    name == TASK_CREATE_TOOL_NAME@ || name == TASK_CLAIM_TOOL_NAME@ || name == TASK_UPDATE_TOOL_NAME@
}

pub fn is_task_mutation_tool(name: &str) -> (r: bool)
    ensures
        r == spec_is_task_mutation(name@),
{
    str_eq(name, TASK_CREATE_TOOL_NAME) || str_eq(name, TASK_CLAIM_TOOL_NAME) || str_eq(name, TASK_UPDATE_TOOL_NAME)
}

/// The answer to a task tool, from the tool's output and, after a success, the reload of the
/// task list: the output when both went well, an error otherwise. Only a success that was
/// reloaded reports a change of tasks.
pub fn task_intrinsic_result(tool_use_id: String, output: Result<String, String>, refresh: Result<(), String>) -> (r:
    ToolIntrinsicResult)
    ensures
        r.result.tool_use_id == tool_use_id,
        match output {
            Ok(content) => match refresh {
                Ok(()) => r.result.content@ == content@ && !r.result.is_error && r.touched_task,
                Err(e) => r.result.content@ == TASK_REFRESH_FAILED_PREFIX@ + e@ && r.result.is_error
                    && !r.touched_task,
            },
            Err(content) => r.result.content@ == content@ && r.result.is_error && !r.touched_task,
        },
{
    match output {
        Ok(content) => match refresh {
            Ok(()) => ToolIntrinsicResult { result: answer(tool_use_id, content, false), touched_task: true },
            Err(e) => ToolIntrinsicResult {
                result: answer(tool_use_id, prefixed(TASK_REFRESH_FAILED_PREFIX, e.as_str()), true),
                touched_task: false,
            },
        },
        Err(content) => ToolIntrinsicResult { result: answer(tool_use_id, content, true), touched_task: false },
    }
}

/// What an execution-context tool produced: its text, the context it concerns, and whether
/// it changed a task.
#[derive(Debug, Clone)]
pub struct ContextCommandOutput {
    pub content: String,
    pub context: Option<ExecutionContextItem>,
    pub touched_task: bool,
}

/// Whether `name` is an execution-context tool that changes contexts.
pub open spec fn spec_is_context_mutation(name: Seq<char>) -> bool {
    name == CONTEXT_CREATE_TOOL_NAME@ || name == CONTEXT_KEEP_TOOL_NAME@ || name == CONTEXT_REMOVE_TOOL_NAME@
}

pub fn is_context_mutation_tool(name: &str) -> (r: bool)
    ensures
        r == spec_is_context_mutation(name@),
{
    str_eq(name, CONTEXT_CREATE_TOOL_NAME) || str_eq(name, CONTEXT_KEEP_TOOL_NAME) || str_eq(
        name,
        CONTEXT_REMOVE_TOOL_NAME,
    )
}

/// The event reported for a context that a tool returned.
#[derive(Debug, Clone, Copy, PartialEq, Eq, Structural)]
pub enum ContextEvent {
    Created,
    Removed,
    Updated,
}

/// `context_create` reports a created context, `context_remove` a removed one, the others an
/// updated one.
pub fn context_event(tool_name: &str) -> (r: ContextEvent)
    ensures
        tool_name@ == CONTEXT_CREATE_TOOL_NAME@ ==> r == ContextEvent::Created,
        tool_name@ != CONTEXT_CREATE_TOOL_NAME@ && tool_name@ == CONTEXT_REMOVE_TOOL_NAME@ ==> r
            == ContextEvent::Removed,
        tool_name@ != CONTEXT_CREATE_TOOL_NAME@ && tool_name@ != CONTEXT_REMOVE_TOOL_NAME@ ==> r
            == ContextEvent::Updated,
{
    if str_eq(tool_name, CONTEXT_CREATE_TOOL_NAME) {
        ContextEvent::Created
    } else if str_eq(tool_name, CONTEXT_REMOVE_TOOL_NAME) {
        ContextEvent::Removed
    } else {
        ContextEvent::Updated
    }
}

pub const CONTEXT_REFRESH_FAILED_PREFIX: &'static str = "Execution context refresh failed: ";
pub const CONTEXT_TASK_REFRESH_FAILED: &'static str = "Execution context updated, but task refresh failed";

/// Whether the task list must be reloaded after an execution-context tool: when the tool
/// succeeded, changed a task, and the contexts were reloaded.
pub fn needs_task_refresh(output: &Result<ContextCommandOutput, String>, contexts_refresh: &Result<(), String>) -> (r:
    bool)
    ensures
        r == (output matches Ok(o) && o.touched_task && contexts_refresh is Ok),
{
    match output {
        Ok(o) => o.touched_task && contexts_refresh.is_ok(),
        Err(_) => false,
    }
}

/// The answer to an execution-context tool, from its output, the reload of the contexts
/// after a success, and whether the reload of the task list that followed failed.
pub fn context_intrinsic_result(
    tool_use_id: String,
    output: Result<ContextCommandOutput, String>,
    contexts_refresh: Result<(), String>,
    tasks_refresh_failed: bool,
) -> (r: ToolIntrinsicResult)
    ensures
        r.result.tool_use_id == tool_use_id,
        match output {
            Err(content) => r.result.content@ == content@ && r.result.is_error && !r.touched_task,
            Ok(o) => match contexts_refresh {
                Err(e) => r.result.content@ == CONTEXT_REFRESH_FAILED_PREFIX@ + e@ && r.result.is_error
                    && !r.touched_task,
                Ok(()) => if o.touched_task && tasks_refresh_failed {
                    r.result.content@ == CONTEXT_TASK_REFRESH_FAILED@ && r.result.is_error && !r.touched_task
                } else {
                    r.result.content@ == o.content@ && !r.result.is_error && r.touched_task == o.touched_task
                },
            },
        },
{
    match output {
        Err(content) => ToolIntrinsicResult { result: answer(tool_use_id, content, true), touched_task: false },
        Ok(o) => match contexts_refresh {
            Err(e) => ToolIntrinsicResult {
                result: answer(tool_use_id, prefixed(CONTEXT_REFRESH_FAILED_PREFIX, e.as_str()), true),
                touched_task: false,
            },
            Ok(()) => if o.touched_task && tasks_refresh_failed {
                ToolIntrinsicResult {
                    result: answer(tool_use_id, CONTEXT_TASK_REFRESH_FAILED.to_owned(), true),
                    touched_task: false,
                }
            } else {
                ToolIntrinsicResult { result: answer(tool_use_id, o.content, false), touched_task: o.touched_task }
            },
        },
    }
}

/// The tools after which the task list must be reloaded are the task tools that change tasks
/// (create, claim, update), not the ones that only read (list, get); likewise the context
/// tools that change contexts are create, keep and remove, not get or list.
pub proof fn law_mutation_tools(name: Seq<char>)
    ensures
        spec_is_task_mutation(name) ==> spec_is_task_tool(name),
        spec_is_task_mutation(TASK_CREATE_TOOL_NAME@),
        spec_is_task_mutation(TASK_CLAIM_TOOL_NAME@),
        spec_is_task_mutation(TASK_UPDATE_TOOL_NAME@),
        !spec_is_task_mutation(TASK_LIST_TOOL_NAME@),
        !spec_is_task_mutation(TASK_GET_TOOL_NAME@),
        spec_is_context_mutation(name) ==> spec_is_execution_context_tool(name),
        spec_is_context_mutation(CONTEXT_CREATE_TOOL_NAME@),
        spec_is_context_mutation(CONTEXT_KEEP_TOOL_NAME@),
        spec_is_context_mutation(CONTEXT_REMOVE_TOOL_NAME@),
        !spec_is_context_mutation(CONTEXT_GET_TOOL_NAME@),
        !spec_is_context_mutation(CONTEXT_LIST_TOOL_NAME@),
{
    reveal_strlit("task_create");
    reveal_strlit("task_claim");
    reveal_strlit("task_update");
    reveal_strlit("task_list");
    reveal_strlit("task_get");
    reveal_strlit("context_create");
    reveal_strlit("context_keep");
    reveal_strlit("context_remove");
    reveal_strlit("context_get");
    reveal_strlit("context_list");
    assert(CONTEXT_LIST_TOOL_NAME@[8] != CONTEXT_KEEP_TOOL_NAME@[8]);
    assert(TASK_LIST_TOOL_NAME@.len() != TASK_CREATE_TOOL_NAME@.len());
    assert(TASK_LIST_TOOL_NAME@.len() != TASK_CLAIM_TOOL_NAME@.len());
    assert(TASK_LIST_TOOL_NAME@.len() != TASK_UPDATE_TOOL_NAME@.len());
    assert(TASK_GET_TOOL_NAME@.len() != TASK_CREATE_TOOL_NAME@.len());
    assert(TASK_GET_TOOL_NAME@.len() != TASK_CLAIM_TOOL_NAME@.len());
    assert(TASK_GET_TOOL_NAME@.len() != TASK_UPDATE_TOOL_NAME@.len());
    assert(CONTEXT_GET_TOOL_NAME@.len() != CONTEXT_CREATE_TOOL_NAME@.len());
    assert(CONTEXT_GET_TOOL_NAME@.len() != CONTEXT_KEEP_TOOL_NAME@.len());
    assert(CONTEXT_GET_TOOL_NAME@.len() != CONTEXT_REMOVE_TOOL_NAME@.len());
    assert(CONTEXT_LIST_TOOL_NAME@.len() != CONTEXT_CREATE_TOOL_NAME@.len());
    assert(CONTEXT_LIST_TOOL_NAME@.len() != CONTEXT_REMOVE_TOOL_NAME@.len());
}

} // verus!
