//! The names of the runtime's own tools, and which family a tool name belongs to.
use vstd::prelude::*;

use crate::text::str_eq;

verus! {

pub const TASK_CREATE_TOOL_NAME: &'static str = "task_create";
pub const TASK_CLAIM_TOOL_NAME: &'static str = "task_claim";
pub const TASK_UPDATE_TOOL_NAME: &'static str = "task_update";
pub const TASK_LIST_TOOL_NAME: &'static str = "task_list";
pub const TASK_GET_TOOL_NAME: &'static str = "task_get";

pub const CONTEXT_CREATE_TOOL_NAME: &'static str = "context_create";
pub const CONTEXT_GET_TOOL_NAME: &'static str = "context_get";
pub const CONTEXT_LIST_TOOL_NAME: &'static str = "context_list";
pub const CONTEXT_KEEP_TOOL_NAME: &'static str = "context_keep";
pub const CONTEXT_REMOVE_TOOL_NAME: &'static str = "context_remove";

pub const TEAM_SPAWN_TOOL_NAME: &'static str = "team_spawn";
pub const TEAM_SEND_TOOL_NAME: &'static str = "team_send";
pub const TEAM_READ_INBOX_TOOL_NAME: &'static str = "team_read_inbox";
pub const TEAM_BROADCAST_TOOL_NAME: &'static str = "broadcast";
pub const TEAM_REQUEST_TOOL_NAME: &'static str = "team_request";
pub const TEAM_RESPOND_TOOL_NAME: &'static str = "team_respond";
pub const TEAM_LIST_REQUESTS_TOOL_NAME: &'static str = "team_list_requests";

pub const COMPACT_TOOL_NAME: &'static str = "compact";
pub const IDLE_TOOL_NAME: &'static str = "idle";
pub const TASK_TOOL_NAME: &'static str = "task";

/// Reminder shown to an agent that keeps working without touching its unfinished tasks.
pub const TASK_REMINDER_TEXT: &'static str = "Reminder: use task_create, task_claim, task_update, task_list, or task_get only for persisted project-task tracking. Do not use task tools to manage persistent teammates or team protocol flows.";

/// Reminder shown to a teammate that owns an unfinished task without an execution context.
pub const CONTEXT_REMINDER_TEXT: &'static str = "Reminder: if you own an unfinished task and need to run shell commands, create or reuse a bound execution context first with context_create or context_list.";

pub open spec fn spec_is_task_tool(name: Seq<char>) -> bool {
    name == TASK_CREATE_TOOL_NAME@ || name == TASK_CLAIM_TOOL_NAME@ || name == TASK_UPDATE_TOOL_NAME@ || name
        == TASK_LIST_TOOL_NAME@ || name == TASK_GET_TOOL_NAME@
}

pub open spec fn spec_is_execution_context_tool(name: Seq<char>) -> bool {
    name == CONTEXT_CREATE_TOOL_NAME@ || name == CONTEXT_GET_TOOL_NAME@ || name == CONTEXT_LIST_TOOL_NAME@ || name
        == CONTEXT_KEEP_TOOL_NAME@ || name == CONTEXT_REMOVE_TOOL_NAME@
}

pub open spec fn spec_is_team_tool(name: Seq<char>) -> bool {
    name == TEAM_SPAWN_TOOL_NAME@ || name == TEAM_SEND_TOOL_NAME@ || name == TEAM_READ_INBOX_TOOL_NAME@ || name
        == TEAM_BROADCAST_TOOL_NAME@ || name == TEAM_REQUEST_TOOL_NAME@ || name == TEAM_RESPOND_TOOL_NAME@ || name
        == TEAM_LIST_REQUESTS_TOOL_NAME@
}

/// Whether `name` is one of the task tools.
pub fn is_task_tool(name: &str) -> (r: bool)
    ensures
        r == spec_is_task_tool(name@),
{
    str_eq(name, TASK_CREATE_TOOL_NAME) || str_eq(name, TASK_CLAIM_TOOL_NAME) || str_eq(name, TASK_UPDATE_TOOL_NAME)
        || str_eq(name, TASK_LIST_TOOL_NAME) || str_eq(name, TASK_GET_TOOL_NAME)
}

/// Whether `name` is one of the execution-context tools.
pub fn is_execution_context_tool(name: &str) -> (r: bool)
    ensures
        r == spec_is_execution_context_tool(name@),
{
    str_eq(name, CONTEXT_CREATE_TOOL_NAME) || str_eq(name, CONTEXT_GET_TOOL_NAME) || str_eq(
        name,
        CONTEXT_LIST_TOOL_NAME,
    ) || str_eq(name, CONTEXT_KEEP_TOOL_NAME) || str_eq(name, CONTEXT_REMOVE_TOOL_NAME)
}

/// Whether `name` is one of the team tools.
pub fn is_team_tool(name: &str) -> (r: bool)
    ensures
        r == spec_is_team_tool(name@),
{
    str_eq(name, TEAM_SPAWN_TOOL_NAME) || str_eq(name, TEAM_SEND_TOOL_NAME) || str_eq(name, TEAM_READ_INBOX_TOOL_NAME)
        || str_eq(name, TEAM_BROADCAST_TOOL_NAME) || str_eq(name, TEAM_REQUEST_TOOL_NAME) || str_eq(
        name,
        TEAM_RESPOND_TOOL_NAME,
    ) || str_eq(name, TEAM_LIST_REQUESTS_TOOL_NAME)
}

/// The refusal of a tool call sent to the wrong dispatcher: `Tool '<name>' is not <what>`.
pub open spec fn not_a_tool(name: Seq<char>, what: Seq<char>) -> Seq<char> {
    "Tool '"@ + name + "' is not "@ + what
}

fn not_a_tool_message(name: &str, what: &str) -> (r: String)
    ensures
        r@ == not_a_tool(name@, what@),
{
    let mut m = "Tool '".to_owned();
    m.append(name);
    m.append("' is not ");
    m.append(what);
    m
}

/// Which execution-context tool a call names.
#[derive(Debug, Clone, Copy, PartialEq, Eq, Structural)]
pub enum ContextToolKind {
    Create,
    Get,
    List,
    Keep,
    Remove,
}

pub open spec fn spec_context_tool_kind(name: Seq<char>) -> Option<ContextToolKind> {
    if name == CONTEXT_CREATE_TOOL_NAME@ {
        Some(ContextToolKind::Create)
    } else if name == CONTEXT_GET_TOOL_NAME@ {
        Some(ContextToolKind::Get)
    } else if name == CONTEXT_LIST_TOOL_NAME@ {
        Some(ContextToolKind::List)
    } else if name == CONTEXT_KEEP_TOOL_NAME@ {
        Some(ContextToolKind::Keep)
    } else if name == CONTEXT_REMOVE_TOOL_NAME@ {
        Some(ContextToolKind::Remove)
    } else {
        None
    }
}

/// The execution-context tool `name` selects; any other name is refused.
pub fn context_tool_kind(name: &str) -> (r: Result<ContextToolKind, String>)
    ensures
        match spec_context_tool_kind(name@) {
            Some(k) => r matches Ok(x) && x == k,
            None => r matches Err(m) && m@ == not_a_tool(name@, "an execution context tool"@),
        },
{
    if str_eq(name, CONTEXT_CREATE_TOOL_NAME) {
        Ok(ContextToolKind::Create)
    } else if str_eq(name, CONTEXT_GET_TOOL_NAME) {
        Ok(ContextToolKind::Get)
    } else if str_eq(name, CONTEXT_LIST_TOOL_NAME) {
        Ok(ContextToolKind::List)
    } else if str_eq(name, CONTEXT_KEEP_TOOL_NAME) {
        Ok(ContextToolKind::Keep)
    } else if str_eq(name, CONTEXT_REMOVE_TOOL_NAME) {
        Ok(ContextToolKind::Remove)
    } else {
        Err(not_a_tool_message(name, "an execution context tool"))
    }
}

/// A call the task dispatcher takes: any name but a task tool's is refused.
pub fn check_task_tool(name: &str) -> (r: Result<(), String>)
    ensures
        r is Ok <==> spec_is_task_tool(name@),
        r matches Err(m) ==> m@ == not_a_tool(name@, "a task tool"@),
{
    if is_task_tool(name) {
        Ok(())
    } else {
        Err(not_a_tool_message(name, "a task tool"))
    }
}

} // verus!
