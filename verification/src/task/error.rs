//! Refusals of the task store, with the messages shown to the model.
use vstd::prelude::*;

use super::types::TaskStatus;
use crate::text::{decimal, ids_text, ids_to_text, push_decimal};

verus! {

/// Why a task operation was refused.
#[derive(Debug)]
pub enum TaskError {
    NotFound(u64),
    Cycle { blocker: u64, dependent: u64 },
    BlockedStatus { id: u64, status: TaskStatus, blocked_by: Vec<u64> },
    AlreadyOwned { id: u64, owner: String },
    BlockedClaim { id: u64, blocked_by: Vec<u64> },
    NotPendingClaim { id: u64, status: TaskStatus, claimant: String },
    NothingToClaim,
    UnnamedClaimant,
    DependencyEditDenied { teammate: String, id: u64 },
    ReassignDenied { teammate: String, id: u64, owner: String },
    UpdateDenied { teammate: String, id: u64, owner: String },
    ContextAccessDenied { teammate: String, id: u64, owner: String },
    AlreadyBound { id: u64, existing: String },
    BlockedBind { id: u64, blocked_by: Vec<u64> },
    NotBound { id: u64, expected: String },
    DuplicateId(u64),
    UnknownDependency { id: u64, dependent: u64 },
}

/// The same refusal, with texts and lists as sequences.
pub enum TaskErrorView {
    NotFound(u64),
    Cycle { blocker: u64, dependent: u64 },
    BlockedStatus { id: u64, status: TaskStatus, blocked_by: Seq<u64> },
    AlreadyOwned { id: u64, owner: Seq<char> },
    BlockedClaim { id: u64, blocked_by: Seq<u64> },
    NotPendingClaim { id: u64, status: TaskStatus, claimant: Seq<char> },
    NothingToClaim,
    UnnamedClaimant,
    DependencyEditDenied { teammate: Seq<char>, id: u64 },
    ReassignDenied { teammate: Seq<char>, id: u64, owner: Seq<char> },
    UpdateDenied { teammate: Seq<char>, id: u64, owner: Seq<char> },
    ContextAccessDenied { teammate: Seq<char>, id: u64, owner: Seq<char> },
    AlreadyBound { id: u64, existing: Seq<char> },
    BlockedBind { id: u64, blocked_by: Seq<u64> },
    NotBound { id: u64, expected: Seq<char> },
    DuplicateId(u64),
    UnknownDependency { id: u64, dependent: u64 },
}

impl View for TaskError {
    type V = TaskErrorView;

    open spec fn view(&self) -> TaskErrorView {
        match self {
            TaskError::NotFound(id) => TaskErrorView::NotFound(*id),
            TaskError::Cycle { blocker, dependent } => TaskErrorView::Cycle {
                blocker: *blocker,
                dependent: *dependent,
            },
            TaskError::BlockedStatus { id, status, blocked_by } => TaskErrorView::BlockedStatus {
                id: *id,
                status: *status,
                blocked_by: blocked_by@,
            },
            TaskError::AlreadyOwned { id, owner } => TaskErrorView::AlreadyOwned {
                id: *id,
                owner: owner@,
            },
            TaskError::BlockedClaim { id, blocked_by } => TaskErrorView::BlockedClaim {
                id: *id,
                blocked_by: blocked_by@,
            },
            TaskError::NotPendingClaim { id, status, claimant } => TaskErrorView::NotPendingClaim {
                id: *id,
                status: *status,
                claimant: claimant@,
            },
            TaskError::NothingToClaim => TaskErrorView::NothingToClaim,
            TaskError::UnnamedClaimant => TaskErrorView::UnnamedClaimant,
            TaskError::DependencyEditDenied { teammate, id } => TaskErrorView::DependencyEditDenied {
                teammate: teammate@,
                id: *id,
            },
            TaskError::ReassignDenied { teammate, id, owner } => TaskErrorView::ReassignDenied {
                teammate: teammate@,
                id: *id,
                owner: owner@,
            },
            TaskError::UpdateDenied { teammate, id, owner } => TaskErrorView::UpdateDenied {
                teammate: teammate@,
                id: *id,
                owner: owner@,
            },
            TaskError::ContextAccessDenied { teammate, id, owner } => TaskErrorView::ContextAccessDenied {
                teammate: teammate@,
                id: *id,
                owner: owner@,
            },
            TaskError::AlreadyBound { id, existing } => TaskErrorView::AlreadyBound {
                id: *id,
                existing: existing@,
            },
            TaskError::BlockedBind { id, blocked_by } => TaskErrorView::BlockedBind {
                id: *id,
                blocked_by: blocked_by@,
            },
            TaskError::NotBound { id, expected } => TaskErrorView::NotBound {
                id: *id,
                expected: expected@,
            },
            TaskError::DuplicateId(id) => TaskErrorView::DuplicateId(*id),
            TaskError::UnknownDependency { id, dependent } => TaskErrorView::UnknownDependency {
                id: *id,
                dependent: *dependent,
            },
        }
    }
}

/// `{:?}` of a status.
pub open spec fn status_text(s: TaskStatus) -> Seq<char> {
    match s {
        TaskStatus::Pending => "Pending"@,
        TaskStatus::InProgress => "InProgress"@,
        TaskStatus::Completed => "Completed"@,
    }
}

pub fn status_str(s: TaskStatus) -> (r: &'static str)
    ensures
        r@ == status_text(s),
{
    match s {
        TaskStatus::Pending => "Pending",
        TaskStatus::InProgress => "InProgress",
        TaskStatus::Completed => "Completed",
    }
}

pub open spec fn task_no(id: u64) -> Seq<char> {
    "Task "@ + decimal(id as nat)
}

pub open spec fn quoted(s: Seq<char>) -> Seq<char> {
    "'"@ + s + "'"@
}

/// The message of each refusal.
pub open spec fn error_text(e: TaskErrorView) -> Seq<char> {
    match e {
        TaskErrorView::NotFound(id) => task_no(id) + " does not exist"@,
        TaskErrorView::Cycle { blocker, dependent } => "Adding dependency "@ + decimal(blocker as nat)
            + " -> "@ + decimal(dependent as nat) + " would create a cycle"@,
        TaskErrorView::BlockedStatus { id, status, blocked_by } => task_no(id) + " cannot be "@
            + status_text(status) + " while blocked by "@ + ids_text(blocked_by),
        TaskErrorView::AlreadyOwned { id, owner } => task_no(id) + " is already owned by "@ + quoted(
            owner,
        ),
        TaskErrorView::BlockedClaim { id, blocked_by } => task_no(id) + " is blocked by "@ + ids_text(
            blocked_by,
        ) + " and cannot be claimed"@,
        TaskErrorView::NotPendingClaim { id, status, claimant } => task_no(id) + " is "@ + status_text(
            status,
        ) + " and cannot be claimed by "@ + quoted(claimant),
        TaskErrorView::NothingToClaim => "No ready unowned tasks are available to claim"@,
        TaskErrorView::UnnamedClaimant => "Only named teammates can claim tasks"@,
        TaskErrorView::DependencyEditDenied { teammate, id } => "Teammate "@ + quoted(teammate)
            + " cannot edit dependencies for task "@ + decimal(id as nat),
        TaskErrorView::ReassignDenied { teammate, id, owner } => "Teammate "@ + quoted(teammate)
            + " cannot reassign task "@ + decimal(id as nat) + " to "@ + quoted(owner),
        TaskErrorView::UpdateDenied { teammate, id, owner } => "Teammate "@ + quoted(teammate)
            + " cannot update task "@ + decimal(id as nat) + " owned by "@ + quoted(owner),
        TaskErrorView::ContextAccessDenied { teammate, id, owner } => "Teammate "@ + quoted(teammate)
            + " cannot manage execution context for task "@ + decimal(id as nat) + " owned by "@
            + quoted(owner),
        TaskErrorView::AlreadyBound { id, existing } => task_no(id)
            + " is already bound to execution context "@ + quoted(existing),
        TaskErrorView::BlockedBind { id, blocked_by } => task_no(id) + " is blocked by "@ + ids_text(
            blocked_by,
        ) + " and cannot bind an execution context"@,
        TaskErrorView::NotBound { id, expected } => task_no(id)
            + " is not bound to execution context "@ + quoted(expected),
        TaskErrorView::DuplicateId(id) => task_no(id) + " is stored more than once"@,
        TaskErrorView::UnknownDependency { id, dependent } => task_no(id) + " blocks unknown task "@
            + decimal(dependent as nat),
    }
}

pub(crate) fn push_quoted(out: &mut String, s: &str)
    ensures
        final(out)@ == old(out)@ + quoted(s@),
{
    out.append("'");
    out.append(s);
    out.append("'");
    assert(final(out)@ =~= old(out)@ + quoted(s@));
}

pub(crate) fn push_task_no(out: &mut String, id: u64)
    ensures
        final(out)@ == old(out)@ + task_no(id),
{
    out.append("Task ");
    push_decimal(out, id);
    assert(final(out)@ =~= old(out)@ + task_no(id));
}

impl TaskError {
    /// The message shown for this refusal.
    pub fn message(&self) -> (r: String)
        ensures
            r@ == error_text(self@),
    {
        let mut s = String::new();
        match self {
            TaskError::NotFound(id) => {
                push_task_no(&mut s, *id);
                s.append(" does not exist");
            },
            TaskError::Cycle { blocker, dependent } => {
                s.append("Adding dependency ");
                push_decimal(&mut s, *blocker);
                s.append(" -> ");
                push_decimal(&mut s, *dependent);
                s.append(" would create a cycle");
            },
            TaskError::BlockedStatus { id, status, blocked_by } => {
                push_task_no(&mut s, *id);
                s.append(" cannot be ");
                s.append(status_str(*status));
                s.append(" while blocked by ");
                s.append(ids_to_text(blocked_by).as_str());
            },
            TaskError::AlreadyOwned { id, owner } => {
                push_task_no(&mut s, *id);
                s.append(" is already owned by ");
                push_quoted(&mut s, owner.as_str());
            },
            TaskError::BlockedClaim { id, blocked_by } => {
                push_task_no(&mut s, *id);
                s.append(" is blocked by ");
                s.append(ids_to_text(blocked_by).as_str());
                s.append(" and cannot be claimed");
            },
            TaskError::NotPendingClaim { id, status, claimant } => {
                push_task_no(&mut s, *id);
                s.append(" is ");
                s.append(status_str(*status));
                s.append(" and cannot be claimed by ");
                push_quoted(&mut s, claimant.as_str());
            },
            TaskError::NothingToClaim => {
                s.append("No ready unowned tasks are available to claim");
            },
            TaskError::UnnamedClaimant => {
                s.append("Only named teammates can claim tasks");
            },
            TaskError::DependencyEditDenied { teammate, id } => {
                s.append("Teammate ");
                push_quoted(&mut s, teammate.as_str());
                s.append(" cannot edit dependencies for task ");
                push_decimal(&mut s, *id);
            },
            TaskError::ReassignDenied { teammate, id, owner } => {
                s.append("Teammate ");
                push_quoted(&mut s, teammate.as_str());
                s.append(" cannot reassign task ");
                push_decimal(&mut s, *id);
                s.append(" to ");
                push_quoted(&mut s, owner.as_str());
            },
            TaskError::UpdateDenied { teammate, id, owner } => {
                s.append("Teammate ");
                push_quoted(&mut s, teammate.as_str());
                s.append(" cannot update task ");
                push_decimal(&mut s, *id);
                s.append(" owned by ");
                push_quoted(&mut s, owner.as_str());
            },
            TaskError::ContextAccessDenied { teammate, id, owner } => {
                s.append("Teammate ");
                push_quoted(&mut s, teammate.as_str());
                s.append(" cannot manage execution context for task ");
                push_decimal(&mut s, *id);
                s.append(" owned by ");
                push_quoted(&mut s, owner.as_str());
            },
            TaskError::AlreadyBound { id, existing } => {
                push_task_no(&mut s, *id);
                s.append(" is already bound to execution context ");
                push_quoted(&mut s, existing.as_str());
            },
            TaskError::BlockedBind { id, blocked_by } => {
                push_task_no(&mut s, *id);
                s.append(" is blocked by ");
                s.append(ids_to_text(blocked_by).as_str());
                s.append(" and cannot bind an execution context");
            },
            TaskError::NotBound { id, expected } => {
                push_task_no(&mut s, *id);
                s.append(" is not bound to execution context ");
                push_quoted(&mut s, expected.as_str());
            },
            TaskError::DuplicateId(id) => {
                push_task_no(&mut s, *id);
                s.append(" is stored more than once");
            },
            TaskError::UnknownDependency { id, dependent } => {
                push_task_no(&mut s, *id);
                s.append(" blocks unknown task ");
                push_decimal(&mut s, *dependent);
            },
        }
        assert(s@ =~= error_text(self@));
        s
    }
}

} // verus!
