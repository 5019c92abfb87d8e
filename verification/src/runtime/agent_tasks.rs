//! An agent's view of the task list: reminders, readiness to claim, and access rights.
use vstd::prelude::*;

use super::tools::{CONTEXT_REMINDER_TEXT, TASK_REMINDER_TEXT};
use crate::task::error::{TaskError, TaskErrorView};
use crate::task::ops::{claim_as, claim_target, claimant_name, TaskAccess};
use crate::task::store::{task_of, TaskStore};
use crate::task::types::{views, TaskItem, TaskStatus, TaskView};
use crate::text::{join_texts, joined_with, str_eq, string_views};

verus! {

/// Some task is not completed yet.
pub open spec fn spec_has_unfinished(ts: Seq<TaskView>) -> bool {
    exists|i: int| 0 <= i < ts.len() && ts[i].status != TaskStatus::Completed
}

/// Whether some task is not completed yet.
pub fn has_unfinished_tasks(tasks: &Vec<TaskItem>) -> (r: bool)
    ensures
        r == spec_has_unfinished(views(tasks@)),
{
    let mut i: usize = 0;
    while i < tasks.len()
        invariant
            i <= tasks@.len(),
            forall|k: int| 0 <= k < i ==> views(tasks@)[k].status == TaskStatus::Completed,
        decreases tasks.len() - i,
    {
        if tasks[i].status != TaskStatus::Completed {
            assert(views(tasks@)[i as int].status != TaskStatus::Completed);
            return true;
        }
        i += 1;
    }
    false
}

/// `name` owns a task that is not completed (and, with `unbound_only`, not bound to an
/// execution context).
pub open spec fn spec_owns_unfinished(ts: Seq<TaskView>, name: Seq<char>, unbound_only: bool) -> bool {
    exists|i: int|
        0 <= i < ts.len() && ts[i].owner == name && ts[i].status != TaskStatus::Completed && (!unbound_only
            || ts[i].execution_context_id is None)
}

fn owns_unfinished(tasks: &Vec<TaskItem>, name: &str, unbound_only: bool) -> (r: bool)
    ensures
        r == spec_owns_unfinished(views(tasks@), name@, unbound_only),
{
    let mut i: usize = 0;
    while i < tasks.len()
        invariant
            i <= tasks@.len(),
            forall|k: int|
                0 <= k < i ==> !(views(tasks@)[k].owner == name@ && views(tasks@)[k].status != TaskStatus::Completed
                    && (!unbound_only || views(tasks@)[k].execution_context_id is None)),
        decreases tasks.len() - i,
    {
        let t = &tasks[i];
        if str_eq(t.owner.as_str(), name) && t.status != TaskStatus::Completed && (!unbound_only
            || t.execution_context_id.is_none()) {
            assert(views(tasks@)[i as int].owner == name@);
            return true;
        }
        i += 1;
    }
    false
}

/// The task bookkeeping of one agent: its name, whether it is a teammate (rather than the
/// lead), the tasks it last saw, and how many rounds passed since it last touched a task.
#[derive(Debug)]
pub struct AgentTaskState {
    pub name: String,
    pub teammate: bool,
    pub tasks: Vec<TaskItem>,
    pub rounds_since_task: usize,
}

/// The sections of the system prompt, in order: the task reminder, the execution-context
/// reminder, the configured system prompt, the skill descriptions.
pub open spec fn prompt_sections(
    remind_tasks: bool,
    remind_context: bool,
    system: Option<Seq<char>>,
    skills: Option<Seq<char>>,
) -> Seq<Seq<char>> {
    let s1: Seq<Seq<char>> = if remind_tasks {
        seq![TASK_REMINDER_TEXT@]
    } else {
        Seq::empty()
    };
    let s2 = if remind_context {
        s1.push(CONTEXT_REMINDER_TEXT@)
    } else {
        s1
    };
    let s3 = match system {
        Some(s) => s2.push(s),
        None => s2,
    };
    match skills {
        Some(s) => s3.push(s),
        None => s3,
    }
}

impl AgentTaskState {
    /// Whether the agent owns a task that is not completed.
    pub fn owns_unfinished_tasks(&self) -> (r: bool)
        ensures
            r == spec_owns_unfinished(views(self.tasks@), self.name@, false),
    {
        owns_unfinished(&self.tasks, self.name.as_str(), false)
    }

    /// Whether a teammate that routes shell commands through execution contexts owns an
    /// unfinished task with no execution context.
    pub fn should_remind_missing_execution_context(&self, auto_route_shell: bool) -> (r: bool)
        ensures
            r == (auto_route_shell && self.teammate && spec_owns_unfinished(views(self.tasks@), self.name@, true)),
    {
        auto_route_shell && self.teammate && owns_unfinished(&self.tasks, self.name.as_str(), true)
    }

    /// The system prompt for the next model request: the reminders that apply, the
    /// configured prompt and the skill descriptions, separated by blank lines; `None` when
    /// there is nothing to say.
    pub fn effective_system_prompt(
        &self,
        reminder_threshold: usize,
        auto_route_shell: bool,
        system: Option<&str>,
        skills: Option<String>,
    ) -> (r: Option<String>)
        ensures
            ({
                let sections = prompt_sections(
                    self.rounds_since_task >= reminder_threshold && spec_has_unfinished(views(self.tasks@)),
                    auto_route_shell && self.teammate && spec_owns_unfinished(views(self.tasks@), self.name@, true),
                    match system {
                        Some(s) => Some(s@),
                        None => None,
                    },
                    match skills {
                        Some(s) => Some(s@),
                        None => None,
                    },
                );
                if sections.len() == 0 {
                    r is None
                } else {
                    r matches Some(p) && p@ == joined_with(sections, "\n\n"@)
                }
            }),
    {
        let ghost skills_view = match &skills {
            Some(s) => Some(s@),
            None => None,
        };
        let mut sections: Vec<String> = Vec::new();
        let remind_tasks = self.rounds_since_task >= reminder_threshold && has_unfinished_tasks(&self.tasks);
        if remind_tasks {
            sections.push(TASK_REMINDER_TEXT.to_owned());
        }
        let remind_context = self.should_remind_missing_execution_context(auto_route_shell);
        if remind_context {
            sections.push(CONTEXT_REMINDER_TEXT.to_owned());
        }
        match system {
            Some(s) => {
                sections.push(s.to_owned());
            },
            None => {},
        }
        match skills {
            Some(s) => {
                sections.push(s);
            },
            None => {},
        }
        proof {
            let expected = prompt_sections(
                remind_tasks,
                remind_context,
                match system {
                    Some(s) => Some(s@),
                    None => None,
                },
                skills_view,
            );
            assert(string_views(sections@) =~= expected);
        }
        if sections.len() == 0 {
            None
        } else {
            Some(join_texts(&sections, "\n\n"))
        }
    }

    /// Counts a round in which the agent did not touch the task list, while tasks remain.
    pub fn note_round_without_task(&mut self)
        requires
            old(self).rounds_since_task < usize::MAX,
        ensures
            final(self).rounds_since_task == if spec_has_unfinished(views(old(self).tasks@)) {
                old(self).rounds_since_task + 1
            } else {
                old(self).rounds_since_task as int
            },
            final(self).tasks@ == old(self).tasks@,
            final(self).name@ == old(self).name@,
            final(self).teammate == old(self).teammate,
    {
        if has_unfinished_tasks(&self.tasks) {
            self.rounds_since_task = self.rounds_since_task + 1;
        }
    }

    /// Restarts the count of rounds since the agent last touched the task list.
    pub fn record_task_activity(&mut self)
        ensures
            final(self).rounds_since_task == 0,
            final(self).tasks@ == old(self).tasks@,
            final(self).name@ == old(self).name@,
            final(self).teammate == old(self).teammate,
    {
        self.rounds_since_task = 0;
    }

    /// Takes the agent's copy of the task list from the store.
    pub fn refresh_tasks(&mut self, store: &TaskStore)
        ensures
            views(final(self).tasks@) == store@,
            final(self).rounds_since_task == old(self).rounds_since_task,
            final(self).name@ == old(self).name@,
            final(self).teammate == old(self).teammate,
    {
        self.tasks = store.duplicate_tasks();
    }

    /// Puts back the task list and round count that the agent had before a failed run.
    pub fn restore_task_state(&mut self, tasks: Vec<TaskItem>, rounds_since_task: usize)
        ensures
            final(self).tasks@ == tasks@,
            final(self).rounds_since_task == rounds_since_task,
            final(self).name@ == old(self).name@,
            final(self).teammate == old(self).teammate,
    {
        self.tasks = tasks;
        self.rounds_since_task = rounds_since_task;
    }

    /// How the agent acts on the task list: a teammate under its name, or the lead.
    pub fn task_access(&self) -> (r: TaskAccess<'_>)
        ensures
            self.teammate ==> (r matches TaskAccess::Teammate(n) && n@ == self.name@),
            !self.teammate ==> r == TaskAccess::Lead,
    {
        if self.teammate {
            TaskAccess::Teammate(self.name.as_str())
        } else {
            TaskAccess::Lead
        }
    }

    /// Takes the first ready, unowned task for the agent, unless it still owns an unfinished
    /// one; `None` when it owns one or nothing is ready. The agent's copy of the task list is
    /// refreshed from the store.
    pub fn try_claim_ready_task(&mut self, store: &mut TaskStore) -> (r: Result<Option<TaskItem>, TaskError>)
        requires
            old(store).wf(),
        ensures
            final(store).wf(),
            views(final(self).tasks@) == final(store)@,
            final(self).name@ == old(self).name@,
            spec_owns_unfinished(old(store)@, old(self).name@, false) ==> r == Ok::<Option<TaskItem>, TaskError>(None)
                && final(store)@ == old(store)@,
            !spec_owns_unfinished(old(store)@, old(self).name@, false) ==> match claimant_name(old(self).name@) {
                None => r matches Err(e) && e@ == TaskErrorView::UnnamedClaimant && final(store)@ == old(store)@,
                Some(n) => match claim_as(old(store)@, None, n) {
                    Ok(ts) => r matches Ok(Some(item)) && final(store)@ == ts && item.id == claim_target(old(store)@, None)
                        && item@ == task_of(ts, item.id),
                    Err(_) => r == Ok::<Option<TaskItem>, TaskError>(None) && final(store)@ == old(store)@,
                },
            },
    {
        self.tasks = store.duplicate_tasks();
        if self.owns_unfinished_tasks() {
            return Ok(None);
        }
        let result = store.claim(None, Some(self.name.as_str()));
        self.tasks = store.duplicate_tasks();
        match result {
            Ok(item) => Ok(Some(item)),
            Err(TaskError::NothingToClaim) => Ok(None),
            Err(e) => Err(e),
        }
    }
}

} // verus!
