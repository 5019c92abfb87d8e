//! The task tools as one entry point: a parsed call is run against the task list.
use vstd::prelude::*;

use super::error::{TaskError, TaskErrorView};
use super::ops::{
    blocked_pred, claim_target, completed_pred, in_progress_pred, ready_pred, refused_as, spec_claim,
    spec_create, spec_update, update_output, next_id, TaskAccess, TaskCreateInput, TaskListOutput,
    TaskUpdateInput, TaskUpdateOutput,
};
use super::reach::has_id;
use super::store::{task_of, TaskStore};
use super::types::{item_wf, views, TaskItem};
use crate::text::{trim_text, trimmed};

verus! {

/// A task tool call with its parsed input.
#[derive(Debug)]
pub enum TaskToolInput {
    Create(TaskCreateInput),
    Claim { task_id: Option<u64> },
    Update(TaskUpdateInput),
    Get { task_id: u64 },
    List,
}

/// What a task tool call returns.
#[derive(Debug)]
pub enum TaskToolOutput {
    Created(TaskItem),
    Claimed(TaskItem),
    Updated(TaskUpdateOutput),
    Found(TaskItem),
    Listed(TaskListOutput),
}

/// The name a claim is made under: the acting teammate's; none for the lead.
pub open spec fn claim_owner<'a>(access: TaskAccess<'a>) -> Option<&'a str> {
    match access {
        TaskAccess::Lead => None,
        TaskAccess::Teammate(name) => Some(name),
    }
}

/// Whether a new task can be numbered: the highest id leaves room for one more.
pub open spec fn can_number(store: TaskStore) -> bool {
    store@.len() == 0 || store@.last().id < u64::MAX
}

impl TaskStore {
    /// Whether a created task can get the next id: the largest id is below `u64::MAX`.
    pub fn can_number_next(&self) -> (r: bool)
        ensures
            r == can_number(*self),
    {
        let n = self.tasks().len();
        n == 0 || self.tasks()[n - 1].id < u64::MAX
    }

    /// Runs one task tool call. A claim is made for the acting teammate; the lead has no
    /// name to claim under.
    pub fn execute(&mut self, input: TaskToolInput, access: TaskAccess) -> (r: Result<TaskToolOutput, TaskError>)
        requires
            old(self).wf(),
            input is Create ==> can_number(*old(self)),
        ensures
            final(self).wf(),
            match input {
                TaskToolInput::Create(i) => match spec_create(old(self)@, i) {
                    Ok(ts) => r matches Ok(TaskToolOutput::Created(item)) && final(self)@ == ts && item.id
                        == next_id(old(self)@) && item@ == task_of(ts, item.id) && item_wf(item),
                    Err(e) => r matches Err(err) && err@ == e && final(self)@ == old(self)@,
                },
                TaskToolInput::Claim { task_id } => match spec_claim(old(self)@, task_id, claim_owner(access)) {
                    Ok(ts) => r matches Ok(TaskToolOutput::Claimed(item)) && final(self)@ == ts && item.id
                        == claim_target(old(self)@, task_id) && item@ == task_of(ts, item.id) && item_wf(item),
                    Err(rf) => r matches Err(e) && refused_as(e@, rf) && final(self)@ == old(self)@,
                },
                TaskToolInput::Update(i) => match spec_update(old(self)@, i, access) {
                    Ok(ts) => r matches Ok(TaskToolOutput::Updated(out)) && final(self)@ == ts && update_output(
                        old(self)@,
                        i,
                        ts,
                        out,
                    ) && item_wf(out.task),
                    Err(rf) => r matches Err(e) && refused_as(e@, rf) && final(self)@ == old(self)@,
                },
                TaskToolInput::Get { task_id } => final(self)@ == old(self)@ && if has_id(old(self)@, task_id) {
                    (r matches Ok(TaskToolOutput::Found(item)) && item@ == task_of(old(self)@, task_id) && item_wf(item))
                } else {
                    (r matches Err(e) && e@ == TaskErrorView::NotFound(task_id))
                },
                TaskToolInput::List => final(self)@ == old(self)@ && (r matches Ok(TaskToolOutput::Listed(out)) && {
                    &&& views(out.tasks@) == old(self)@
                    &&& views(out.ready@) == old(self)@.filter(ready_pred())
                    &&& views(out.blocked@) == old(self)@.filter(blocked_pred())
                    &&& views(out.in_progress@) == old(self)@.filter(in_progress_pred())
                    &&& views(out.completed@) == old(self)@.filter(completed_pred())
                }),
            },
    {
        match input {
            TaskToolInput::Create(i) => match self.create(i) {
                Ok(item) => Ok(TaskToolOutput::Created(item)),
                Err(e) => Err(e),
            },
            TaskToolInput::Claim { task_id } => match self.claim(task_id, access.actor_name()) {
                Ok(item) => Ok(TaskToolOutput::Claimed(item)),
                Err(e) => Err(e),
            },
            TaskToolInput::Update(i) => match self.update(i, access) {
                Ok(out) => Ok(TaskToolOutput::Updated(out)),
                Err(e) => Err(e),
            },
            TaskToolInput::Get { task_id } => match self.get_task(task_id) {
                Ok(item) => Ok(TaskToolOutput::Found(item)),
                Err(e) => Err(e),
            },
            TaskToolInput::List => Ok(TaskToolOutput::Listed(self.list())),
        }
    }
}

pub const SUBJECT_REQUIRED: &'static str = "Task subject must not be empty";

/// The refusal of a `task_create` input whose subject is blank.
pub fn validate_create_input(input: &TaskCreateInput) -> (r: Result<(), String>)
    ensures
        trimmed(input.subject@).len() == 0 ==> (r matches Err(m) && m@ == SUBJECT_REQUIRED@),
        trimmed(input.subject@).len() > 0 ==> r is Ok,
{
    if trim_text(input.subject.as_str()).as_str().is_empty() {
        Err(SUBJECT_REQUIRED.to_owned())
    } else {
        Ok(())
    }
}

} // verus!
