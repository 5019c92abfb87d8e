//! Task records as persisted by the task tools.
use vstd::prelude::*;

verus! {

/// Lifecycle of a persisted task.
#[derive(Debug, Clone, Copy, PartialEq, Eq, Structural)]
pub enum TaskStatus {
    Pending,
    InProgress,
    Completed,
}

/// A persisted task. `blocks` names the tasks waiting on it;
/// `blocked_by` names its blockers that are still unfinished.
#[derive(Debug, Clone)]
pub struct TaskItem {
    pub id: u64,
    pub subject: String,
    pub description: String,
    pub status: TaskStatus,
    pub blocked_by: Vec<u64>,
    pub blocks: Vec<u64>,
    pub owner: String,
    pub execution_context_id: Option<String>,
}

/// Mathematical view of a task: dependency lists are taken as sets.
pub struct TaskView {
    pub id: u64,
    pub subject: Seq<char>,
    pub description: Seq<char>,
    pub status: TaskStatus,
    pub blocked_by: Set<u64>,
    pub blocks: Set<u64>,
    pub owner: Seq<char>,
    pub execution_context_id: Option<Seq<char>>,
}

pub open spec fn opt_str_view(s: Option<String>) -> Option<Seq<char>> {
    match s {
        Some(v) => Some(v@),
        None => None,
    }
}

impl View for TaskItem {
    type V = TaskView;

    open spec fn view(&self) -> TaskView {
        TaskView {
            id: self.id,
            subject: self.subject@,
            description: self.description@,
            status: self.status,
            blocked_by: self.blocked_by@.to_set(),
            blocks: self.blocks@.to_set(),
            owner: self.owner@,
            execution_context_id: opt_str_view(self.execution_context_id),
        }
    }
}

/// Strictly increasing, hence free of duplicates.
pub open spec fn strictly_sorted(s: Seq<u64>) -> bool {
    forall|i: int, j: int| 0 <= i < j < s.len() ==> s[i] < s[j]
}

/// A task whose id lists are kept sorted.
pub open spec fn item_wf(t: TaskItem) -> bool {
    strictly_sorted(t.blocked_by@) && strictly_sorted(t.blocks@)
}

pub open spec fn views(s: Seq<TaskItem>) -> Seq<TaskView> {
    s.map_values(|t: TaskItem| t@)
}

pub fn copy_ids(v: &Vec<u64>) -> (r: Vec<u64>)
    ensures
        r@ == v@,
{
    let mut r: Vec<u64> = Vec::new();
    let mut i: usize = 0;
    while i < v.len()
        invariant
            i <= v.len(),
            r@ == v@.take(i as int),
        decreases v.len() - i,
    {
        r.push(v[i]);
        i += 1;
        assert(r@ =~= v@.take(i as int));
    }
    assert(v@.take(v.len() as int) =~= v@);
    r
}

pub fn copy_opt_string(s: &Option<String>) -> (r: Option<String>)
    ensures
        r == *s,
{
    match s {
        Some(v) => Some(v.clone()),
        None => None,
    }
}

impl TaskItem {
    /// A duplicate that shares no storage with `self`.
    pub fn duplicate(&self) -> (r: TaskItem)
        ensures
            r@ == self@,
            r.blocks@ == self.blocks@,
            r.blocked_by@ == self.blocked_by@,
            r.id == self.id,
            r.status == self.status,
            r.owner@ == self.owner@,
    {
        TaskItem {
            id: self.id,
            subject: self.subject.clone(),
            description: self.description.clone(),
            status: self.status,
            blocked_by: copy_ids(&self.blocked_by),
            blocks: copy_ids(&self.blocks),
            owner: self.owner.clone(),
            execution_context_id: copy_opt_string(&self.execution_context_id),
        }
    }
}

} // verus!
