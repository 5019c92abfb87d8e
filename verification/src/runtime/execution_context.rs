//! Execution contexts: named git worktrees an agent runs commands in, optionally bound to a
//! task. The registry here holds the decisions; creating and removing worktrees is the caller's.
use vstd::prelude::*;

use super::paths::{join, path_joined};
use crate::task::error::{error_text, push_quoted, push_task_no, quoted, task_no, TaskErrorView};
use crate::task::ops::{refused_as, spec_bind, spec_clear, TaskAccess};
use crate::task::error::TaskError;
use crate::task::reach::{has_id, index_of};
use crate::task::types::views;
use crate::task::store::{task_of, TaskStore};
use crate::task::types::{strictly_sorted, TaskItem, TaskStatus};
use crate::text::{lemma_filter_step, contains_char, ids_text, ids_to_text, str_eq, trim_text, trimmed};

verus! {

#[derive(Debug, Clone, Copy, PartialEq, Eq, Structural)]
pub enum ExecutionContextBackendKind {
    GitWorktree,
}

#[derive(Debug, Clone, Copy, PartialEq, Eq, Structural)]
pub enum ExecutionContextStatus {
    Active,
    Kept,
    Removed,
}

#[derive(Debug, Clone, PartialEq, Eq)]
pub struct GitWorktreeMetadata {
    pub branch: String,
}

/// A named execution context: where it lives, what task it serves, and its state.
#[derive(Debug, Clone, PartialEq, Eq)]
pub struct ExecutionContextItem {
    pub name: String,
    pub backend: ExecutionContextBackendKind,
    pub path: String,
    pub task_id: Option<u64>,
    pub status: ExecutionContextStatus,
    pub git_worktree: Option<GitWorktreeMetadata>,
}

pub struct ContextView {
    pub name: Seq<char>,
    pub backend: ExecutionContextBackendKind,
    pub path: Seq<char>,
    pub task_id: Option<u64>,
    pub status: ExecutionContextStatus,
    pub branch: Option<Seq<char>>,
}

impl View for ExecutionContextItem {
    type V = ContextView;

    open spec fn view(&self) -> ContextView {
        ContextView {
            name: self.name@,
            backend: self.backend,
            path: self.path@,
            task_id: self.task_id,
            status: self.status,
            branch: match self.git_worktree {
                Some(g) => Some(g.branch@),
                None => None,
            },
        }
    }
}

impl ExecutionContextItem {
    pub fn duplicate(&self) -> (r: ExecutionContextItem)
        ensures
            r@ == self@,
    {
        ExecutionContextItem {
            name: self.name.clone(),
            backend: self.backend,
            path: self.path.clone(),
            task_id: self.task_id,
            status: self.status,
            git_worktree: match &self.git_worktree {
                Some(g) => Some(GitWorktreeMetadata { branch: g.branch.clone() }),
                None => None,
            },
        }
    }
}

pub open spec fn context_views(s: Seq<ExecutionContextItem>) -> Seq<ContextView> {
    s.map_values(|c: ExecutionContextItem| c@)
}

/// Input of `context_create`.
#[derive(Debug)]
pub struct ContextCreateInput {
    pub name: String,
    pub task_id: Option<u64>,
    pub backend: Option<ExecutionContextBackendKind>,
    pub from_ref: Option<String>,
}

// ---------------------------------------------------------------- names

pub const EMPTY_NAME: &'static str = "Execution context name must not be empty";
pub const DOT_NAME: &'static str = "Execution context name must not be '.' or '..'";
pub const SEPARATOR_IN_NAME: &'static str = "Execution context name must not contain path separators";

/// The refusal of a context name, if any: blank, `.` or `..`, or holding a path separator
/// (all judged on the trimmed name).
pub open spec fn name_refusal(name: Seq<char>) -> Option<Seq<char>> {
    let t = trimmed(name);
    if t.len() == 0 {
        Some(EMPTY_NAME@)
    } else if t == "."@ || t == ".."@ {
        Some(DOT_NAME@)
    } else if t.contains('/') || t.contains('\\') {
        Some(SEPARATOR_IN_NAME@)
    } else {
        None
    }
}

/// A context name is accepted exactly when, trimmed, it is not empty, not `.` or `..`, and holds
/// no `/` or `\\`.
pub proof fn law_context_names(name: Seq<char>)
    ensures
        name_refusal(name) is None <==> ({
            let t = trimmed(name);
            t.len() > 0 && t != "."@ && t != ".."@ && !t.contains('/') && !t.contains('\\')
        }),
        trimmed(name).len() == 0 ==> name_refusal(name) == Some(EMPTY_NAME@),
{
}

/// Checks a context name given to the context tools.
pub fn validate_name(name: &str) -> (r: Result<(), String>)
    ensures
        match name_refusal(name@) {
            None => r is Ok,
            Some(m) => r matches Err(e) && e@ == m,
        },
{
    let t = trim_text(name);
    let t = t.as_str();
    if t.is_empty() {
        return Err(EMPTY_NAME.to_owned());
    }
    if str_eq(t, ".") || str_eq(t, "..") {
        return Err(DOT_NAME.to_owned());
    }
    if contains_char(t, '/') || contains_char(t, '\\') {
        return Err(SEPARATOR_IN_NAME.to_owned());
    }
    Ok(())
}

// ---------------------------------------------------------------- messages

pub open spec fn named(name: Seq<char>, rest: Seq<char>) -> Seq<char> {
    "Execution context "@ + quoted(name) + rest
}

pub open spec fn not_found_message(name: Seq<char>) -> Seq<char> {
    named(name, " does not exist"@)
}

pub open spec fn exists_message(name: Seq<char>) -> Seq<char> {
    named(name, " already exists"@)
}

pub open spec fn already_removed_message(name: Seq<char>) -> Seq<char> {
    named(name, " is already removed"@)
}

pub open spec fn removed_message(name: Seq<char>) -> Seq<char> {
    named(name, " has been removed"@)
}

pub open spec fn missing_metadata_message(name: Seq<char>) -> Seq<char> {
    named(name, " is missing git worktree metadata"@)
}

fn context_message(name: &str, rest: &str) -> (r: String)
    ensures
        r@ == named(name@, rest@),
{
    let mut s = "Execution context ".to_owned();
    push_quoted(&mut s, name);
    s.append(rest);
    s
}

// ---------------------------------------------------------------- task binding

/// The refusal to bind a context to task `t`, if any: a teammate that does not own it, a
/// task already bound, completed, or blocked.
pub open spec fn binding_refusal(t: crate::task::types::TaskView, blocked_by: Seq<u64>, access: TaskAccess) -> Option<
    Seq<char>,
> {
    if access matches TaskAccess::Teammate(name) && t.owner != name@ {
        Some(
            "Teammate "@ + quoted(access->0@) + " cannot bind execution context for task "@ + crate::text::decimal(
                t.id as nat,
            ) + " owned by "@ + quoted(t.owner),
        )
    } else if t.execution_context_id is Some {
        Some(task_no(t.id) + " is already bound to execution context "@ + quoted(t.execution_context_id->0))
    } else if t.status == TaskStatus::Completed {
        Some(task_no(t.id) + " is already completed and cannot bind an execution context"@)
    } else if blocked_by.len() > 0 {
        Some(task_no(t.id) + " is blocked by "@ + ids_text(blocked_by) + " and cannot bind an execution context"@)
    } else {
        None
    }
}

/// A context may be bound to a task exactly when the caller is the lead or the task's owner,
/// and the task is not bound yet, not completed and not blocked.
pub proof fn law_binding_allowed(t: crate::task::types::TaskView, blocked_by: Seq<u64>, access: TaskAccess)
    ensures
        binding_refusal(t, blocked_by, access) is None <==> ((access is Lead || (access matches TaskAccess::Teammate(
            n,
        ) && t.owner == n@)) && t.execution_context_id is None && t.status != TaskStatus::Completed && blocked_by.len()
            == 0),
{
}

/// The task with id `id`, as `tasks` stores it.
pub open spec fn stored_task(tasks: TaskStore, id: u64) -> TaskItem {
    let items = tasks.items();
    items[choose|i: int| 0 <= i < items.len() && items[i].id == id]
}

/// Why the task with id `id` in `tasks` cannot be bound to a new context, if it cannot.
pub open spec fn stored_refusal(tasks: TaskStore, id: u64, access: TaskAccess) -> Option<Seq<char>> {
    binding_refusal(stored_task(tasks, id)@, stored_task(tasks, id).blocked_by@, access)
}

/// Checks that a new context may be bound to `task` on behalf of `access`.
pub fn validate_task_binding(task: &TaskItem, access: TaskAccess) -> (r: Result<(), String>)
    ensures
        match binding_refusal(task@, task.blocked_by@, access) {
            None => r is Ok,
            Some(m) => r matches Err(e) && e@ == m,
        },
{
    match access {
        TaskAccess::Lead => {},
        TaskAccess::Teammate(name) => {
            if !str_eq(task.owner.as_str(), name) {
                let mut s = "Teammate ".to_owned();
                push_quoted(&mut s, name);
                s.append(" cannot bind execution context for task ");
                crate::text::push_decimal(&mut s, task.id);
                s.append(" owned by ");
                push_quoted(&mut s, task.owner.as_str());
                return Err(s);
            }
        },
    }
    match &task.execution_context_id {
        Some(existing) => {
            let mut s = String::new();
            push_task_no(&mut s, task.id);
            s.append(" is already bound to execution context ");
            push_quoted(&mut s, existing.as_str());
            return Err(s);
        },
        None => {},
    }
    if task.status == TaskStatus::Completed {
        let mut s = String::new();
        push_task_no(&mut s, task.id);
        s.append(" is already completed and cannot bind an execution context");
        return Err(s);
    }
    if task.blocked_by.len() > 0 {
        let mut s = String::new();
        push_task_no(&mut s, task.id);
        s.append(" is blocked by ");
        let ids = ids_to_text(&task.blocked_by);
        s.append(ids.as_str());
        s.append(" and cannot bind an execution context");
        return Err(s);
    }
    Ok(())
}

// ---------------------------------------------------------------- name order

/// `a` sorts before `b`: character by character, a proper prefix first (the order of `str`).
pub open spec fn name_lt(a: Seq<char>, b: Seq<char>) -> bool
    decreases a.len(),
{
    if a.len() == 0 {
        b.len() > 0
    } else if b.len() == 0 {
        false
    } else if a[0] != b[0] {
        (a[0] as u32) < (b[0] as u32)
    } else {
        name_lt(a.drop_first(), b.drop_first())
    }
}

pub(crate) proof fn lemma_name_lt_trans(a: Seq<char>, b: Seq<char>, c: Seq<char>)
    requires
        name_lt(a, b),
        name_lt(b, c),
    ensures
        name_lt(a, c),
    decreases a.len(),
{
    if a.len() > 0 && b.len() > 0 && c.len() > 0 && a[0] == b[0] && b[0] == c[0] {
        lemma_name_lt_trans(a.drop_first(), b.drop_first(), c.drop_first());
    }
}

pub(crate) proof fn lemma_name_lt_asym(a: Seq<char>, b: Seq<char>)
    ensures
        !(name_lt(a, b) && name_lt(b, a)),
    decreases a.len(),
{
    if a.len() > 0 && b.len() > 0 && a[0] == b[0] {
        lemma_name_lt_asym(a.drop_first(), b.drop_first());
    }
}

/// Whether `a` sorts before `b`.
pub fn name_less(a: &str, b: &str) -> (r: bool)
    ensures
        r == name_lt(a@, b@),
{
    let n = a.unicode_len();
    let m = b.unicode_len();
    let mut i: usize = 0;
    assert(a@.subrange(0, n as int) =~= a@);
    assert(b@.subrange(0, m as int) =~= b@);
    while i < n && i < m
        invariant
            n == a@.len(),
            m == b@.len(),
            i <= n,
            i <= m,
            name_lt(a@, b@) == name_lt(a@.subrange(i as int, n as int), b@.subrange(i as int, m as int)),
        decreases n - i,
    {
        let x = a.get_char(i);
        let y = b.get_char(i);
        proof {
            let sa = a@.subrange(i as int, n as int);
            let sb = b@.subrange(i as int, m as int);
            assert(sa.drop_first() =~= a@.subrange(i as int + 1, n as int));
            assert(sb.drop_first() =~= b@.subrange(i as int + 1, m as int));
            assert(sa[0] == x && sb[0] == y);
        }
        if x != y {
            return (x as u32) < (y as u32);
        }
        i += 1;
    }
    i == n && i < m
}

/// Contexts in name order (equal names allowed).
pub open spec fn names_sorted(s: Seq<ContextView>) -> bool {
    forall|i: int, j: int| 0 <= i < j < s.len() ==> !name_lt(#[trigger] s[j].name, #[trigger] s[i].name)
}

/// Position of the first context named `name` (meaningful when there is one).
pub open spec fn first_named(s: Seq<ContextView>, name: Seq<char>) -> int {
    choose|i: int| 0 <= i < s.len() && s[i].name == name && forall|j: int| 0 <= j < i ==> (#[trigger] s[j]).name != name
}

pub open spec fn has_name(s: Seq<ContextView>, name: Seq<char>) -> bool {
    exists|i: int| 0 <= i < s.len() && (#[trigger] s[i]).name == name
}

fn find_named(contexts: &Vec<ExecutionContextItem>, name: &str) -> (r: Option<usize>)
    ensures
        match r {
            Some(i) => i < contexts@.len() && i == first_named(context_views(contexts@), name@)
                && context_views(contexts@)[i as int].name == name@,
            None => !has_name(context_views(contexts@), name@),
        },
{
    let ghost s = context_views(contexts@);
    let mut i: usize = 0;
    while i < contexts.len()
        invariant
            i <= contexts@.len(),
            s == context_views(contexts@),
            forall|j: int| 0 <= j < i ==> (#[trigger] s[j]).name != name@,
        decreases contexts.len() - i,
    {
        if str_eq(contexts[i].name.as_str(), name) {
            proof {
                let c = first_named(s, name@);
                assert(s[i as int].name == name@);
                if c < i {
                    assert(s[c].name != name@);
                } else if i < c {
                    assert(s[i as int].name == name@);
                }
            }
            return Some(i);
        }
        i += 1;
    }
    None
}

/// A git invocation: its arguments.
pub open spec fn arg_views(args: Seq<String>) -> Seq<Seq<char>> {
    args.map_values(|a: String| a@)
}

/// The work `context_create` hands to git, and the context it then records.
#[derive(Debug)]
pub struct ContextPlan {
    pub item: ExecutionContextItem,
    pub git_args: Vec<String>,
}

/// The branch of a context's worktree.
pub open spec fn branch_for(name: Seq<char>) -> Seq<char> {
    "wt/"@ + name
}

/// The listing of `context_list`: all contexts, and the same grouped by status.
#[derive(Debug)]
pub struct ContextListOutput {
    pub contexts: Vec<ExecutionContextItem>,
    pub active: Vec<ExecutionContextItem>,
    pub kept: Vec<ExecutionContextItem>,
    pub removed: Vec<ExecutionContextItem>,
}

pub open spec fn status_pred(s: ExecutionContextStatus) -> spec_fn(ContextView) -> bool {
    |c: ContextView| c.status == s
}

/// The known execution contexts, kept in name order.
#[derive(Debug)]
pub struct ContextRegistry {
    contexts: Vec<ExecutionContextItem>,
}

impl View for ContextRegistry {
    type V = Seq<ContextView>;

    closed spec fn view(&self) -> Seq<ContextView> {
        context_views(self.contexts@)
    }
}

impl ContextRegistry {
    pub closed spec fn wf(&self) -> bool {
        names_sorted(self@)
    }

    /// A well-formed registry is in name order.
    pub proof fn lemma_sorted(&self)
        requires
            self.wf(),
        ensures
            names_sorted(self@),
    {
    }

    pub fn new() -> (r: ContextRegistry)
        ensures
            r.wf(),
            r@.len() == 0,
    {
        let r = ContextRegistry { contexts: Vec::new() };
        assert(context_views(r.contexts@) =~= Seq::<ContextView>::empty());
        r
    }

    /// The contexts as loaded, put in name order (contexts with equal names keep their order).
    pub fn from_loaded(items: Vec<ExecutionContextItem>) -> (r: ContextRegistry)
        ensures
            r.wf(),
            r@.len() == items@.len(),
            r@.to_multiset() == context_views(items@).to_multiset(),
    {
        let mut reg = ContextRegistry::new();
        let mut i: usize = 0;
        let ghost src = context_views(items@);
        proof {
            assert(src.take(0) =~= reg@);
        }
        while i < items.len()
            invariant
                i <= items@.len(),
                src == context_views(items@),
                reg.wf(),
                reg@.len() == i,
                reg@.to_multiset() == src.take(i as int).to_multiset(),
            decreases items.len() - i,
        {
            let item = items[i].duplicate();
            reg.insert(item);
            proof {
                assert(src.take(i as int + 1) =~= src.take(i as int).push(src[i as int]));
                src.take(i as int).to_multiset_ensures();
                src.take(i as int + 1).to_multiset_ensures();
            }
            i += 1;
        }
        assert(src.take(items@.len() as int) =~= src);
        reg
    }

    /// Records `item` at its place in name order (after the contexts with the same name).
    pub fn insert(&mut self, item: ExecutionContextItem)
        requires
            old(self).wf(),
        ensures
            final(self).wf(),
            exists|p: int| 0 <= p <= old(self)@.len() && final(self)@ == old(self)@.insert(p, item@),
            final(self)@.to_multiset() == old(self)@.to_multiset().insert(item@),
    {
        let ghost s = self@;
        let mut p: usize = 0;
        while p < self.contexts.len() && !name_less(item.name.as_str(), self.contexts[p].name.as_str())
            invariant
                p <= self.contexts@.len(),
                s == self@,
                forall|k: int| 0 <= k < p ==> !name_lt(item@.name, #[trigger] s[k].name),
            decreases self.contexts.len() - p,
        {
            p += 1;
        }
        proof {
            assert forall|k: int| p <= k < s.len() implies !name_lt(#[trigger] s[k].name, item@.name) by {
                assert(name_lt(item@.name, s[p as int].name));
                if name_lt(s[k].name, item@.name) {
                    lemma_name_lt_trans(s[k].name, item@.name, s[p as int].name);
                    if k > p {
                        assert(!name_lt(s[k].name, s[p as int].name));
                    } else {
                        lemma_name_lt_asym(s[k].name, s[p as int].name);
                    }
                }
            }
        }
        let ghost iv = item@;
        self.contexts.insert(p, item);
        proof {
            let n = self@;
            assert(n =~= s.insert(p as int, iv));
            assert forall|i: int, j: int| 0 <= i < j < n.len() implies !name_lt(#[trigger] n[j].name, #[trigger] n[i].name) by {
                if i < p && j < p {
                } else if i < p && j == p {
                } else if i < p && j > p {
                    assert(n[j] == s[j - 1]);
                } else if i == p {
                    assert(n[j] == s[j - 1]);
                } else {
                    assert(n[i] == s[i - 1] && n[j] == s[j - 1]);
                }
            }
            s.to_multiset_ensures();
            vstd::seq_lib::to_multiset_insert(s, p as int, iv);
        }
    }

    /// The first context named `name`.
    pub fn get(&self, name: &str) -> (r: Result<ExecutionContextItem, String>)
        ensures
            has_name(self@, name@) ==> (r matches Ok(c) && c@ == self@[first_named(self@, name@)]),
            !has_name(self@, name@) ==> (r matches Err(m) && m@ == not_found_message(name@)),
    {
        match find_named(&self.contexts, name) {
            Some(i) => Ok(self.contexts[i].duplicate()),
            None => Err(context_message(name, " does not exist")),
        }
    }

    /// The context named `name`, unless it was removed.
    pub fn resolve_path(&self, name: &str) -> (r: Result<ExecutionContextItem, String>)
        ensures
            !has_name(self@, name@) ==> (r matches Err(m) && m@ == not_found_message(name@)),
            has_name(self@, name@) && self@[first_named(self@, name@)].status == ExecutionContextStatus::Removed ==> (
            r matches Err(m) && m@ == removed_message(name@)),
            has_name(self@, name@) && self@[first_named(self@, name@)].status != ExecutionContextStatus::Removed ==> (
            r matches Ok(c) && c@ == self@[first_named(self@, name@)]),
    {
        let context = self.get(name)?;
        if context.status == ExecutionContextStatus::Removed {
            return Err(context_message(name, " has been removed"));
        }
        Ok(context)
    }

    /// Gives the first context named `name` the status `status`, unless it is missing or was
    /// already removed.
    fn set_status(&mut self, name: &str, status: ExecutionContextStatus) -> (r: Result<ExecutionContextItem, String>)
        requires
            old(self).wf(),
        ensures
            final(self).wf(),
            !has_name(old(self)@, name@) ==> (r matches Err(m) && m@ == not_found_message(name@)
                && final(self)@ == old(self)@),
            has_name(old(self)@, name@) && old(self)@[first_named(old(self)@, name@)].status
                == ExecutionContextStatus::Removed ==> (r matches Err(m) && m@ == already_removed_message(name@)
                && final(self)@ == old(self)@),
            has_name(old(self)@, name@) && old(self)@[first_named(old(self)@, name@)].status
                != ExecutionContextStatus::Removed ==> ({
                let i = first_named(old(self)@, name@);
                let c = ContextView { status: status, ..old(self)@[i] };
                r matches Ok(item) && item@ == c && final(self)@ == old(self)@.update(i, c)
            }),
    {
        let i = match find_named(&self.contexts, name) {
            Some(i) => i,
            None => {
                return Err(context_message(name, " does not exist"));
            },
        };
        if self.contexts[i].status == ExecutionContextStatus::Removed {
            return Err(context_message(name, " is already removed"));
        }
        let mut item = self.contexts[i].duplicate();
        item.status = status;
        let ghost s = self@;
        let updated = item.duplicate();
        self.contexts.set(i, item);
        proof {
            assert(self@ =~= s.update(i as int, updated@));
            assert forall|a: int, b: int| 0 <= a < b < self@.len() implies !name_lt(#[trigger] self@[b].name, #[trigger] self@[a].name) by {
                assert(self@[a].name == s[a].name && self@[b].name == s[b].name);
            }
        }
        Ok(updated)
    }

    /// `context_keep`: marks the context named `name` as kept.
    pub fn keep(&mut self, name: &str) -> (r: Result<ExecutionContextItem, String>)
        requires
            old(self).wf(),
        ensures
            final(self).wf(),
            !has_name(old(self)@, name@) ==> (r matches Err(m) && m@ == not_found_message(name@)
                && final(self)@ == old(self)@),
            has_name(old(self)@, name@) && old(self)@[first_named(old(self)@, name@)].status
                == ExecutionContextStatus::Removed ==> (r matches Err(m) && m@ == already_removed_message(name@)
                && final(self)@ == old(self)@),
            has_name(old(self)@, name@) && old(self)@[first_named(old(self)@, name@)].status
                != ExecutionContextStatus::Removed ==> ({
                let i = first_named(old(self)@, name@);
                let c = ContextView { status: ExecutionContextStatus::Kept, ..old(self)@[i] };
                r matches Ok(item) && item@ == c && final(self)@ == old(self)@.update(i, c)
            }),
    {
        self.set_status(name, ExecutionContextStatus::Kept)
    }

    /// `context_remove`: marks the context named `name` as removed (its worktree is gone).
    pub fn remove(&mut self, name: &str) -> (r: Result<ExecutionContextItem, String>)
        requires
            old(self).wf(),
        ensures
            final(self).wf(),
            !has_name(old(self)@, name@) ==> (r matches Err(m) && m@ == not_found_message(name@)
                && final(self)@ == old(self)@),
            has_name(old(self)@, name@) && old(self)@[first_named(old(self)@, name@)].status
                == ExecutionContextStatus::Removed ==> (r matches Err(m) && m@ == already_removed_message(name@)
                && final(self)@ == old(self)@),
            has_name(old(self)@, name@) && old(self)@[first_named(old(self)@, name@)].status
                != ExecutionContextStatus::Removed ==> ({
                let i = first_named(old(self)@, name@);
                let c = ContextView { status: ExecutionContextStatus::Removed, ..old(self)@[i] };
                r matches Ok(item) && item@ == c && final(self)@ == old(self)@.update(i, c)
            }),
    {
        self.set_status(name, ExecutionContextStatus::Removed)
    }

    /// The context that `context_remove` would remove: the first named `name`, unless it is
    /// missing or already removed.
    pub fn removal_target(&self, name: &str) -> (r: Result<ExecutionContextItem, String>)
        ensures
            !has_name(self@, name@) ==> (r matches Err(m) && m@ == not_found_message(name@)),
            has_name(self@, name@) && self@[first_named(self@, name@)].status == ExecutionContextStatus::Removed ==> (
            r matches Err(m) && m@ == already_removed_message(name@)),
            has_name(self@, name@) && self@[first_named(self@, name@)].status != ExecutionContextStatus::Removed ==> (
            r matches Ok(c) && c@ == self@[first_named(self@, name@)]),
    {
        let context = self.get(name)?;
        if context.status == ExecutionContextStatus::Removed {
            return Err(context_message(name, " is already removed"));
        }
        Ok(context)
    }

    /// `context_create`'s decisions: the name must be new and the task, if any, bindable; the
    /// context is a git worktree on branch `wt/<name>` under `dir`, made from `from_ref`
    /// (`HEAD` by default).
    pub fn plan_create(&self, input: &ContextCreateInput, dir: &str, task: Option<&TaskItem>, access: TaskAccess) -> (r:
        Result<ContextPlan, String>)
        requires
            input.task_id matches Some(id) ==> (task matches Some(t) && t.id == id),
        ensures
            has_name(self@, input.name@) ==> (r matches Err(m) && m@ == exists_message(input.name@)),
            !has_name(self@, input.name@) && input.task_id is Some && task is Some && binding_refusal(
                task->0@,
                task->0.blocked_by@,
                access,
            ) is Some ==> (r matches Err(m) && m@ == binding_refusal(task->0@, task->0.blocked_by@, access)->0),
            !has_name(self@, input.name@) && (input.task_id is None || (task matches Some(t) && binding_refusal(
                t@,
                t.blocked_by@,
                access,
            ) is None)) ==> ({
                let path = path_joined(dir@, input.name@);
                let from = match input.from_ref {
                    Some(f) => f@,
                    None => "HEAD"@,
                };
                r matches Ok(plan) && plan.item@ == (ContextView {
                    name: input.name@,
                    backend: ExecutionContextBackendKind::GitWorktree,
                    path,
                    task_id: input.task_id,
                    status: ExecutionContextStatus::Active,
                    branch: Some(branch_for(input.name@)),
                }) && arg_views(plan.git_args@) == seq![
                    "worktree"@,
                    "add"@,
                    "-b"@,
                    branch_for(input.name@),
                    path,
                    from,
                ]
            }),
    {
        if find_named(&self.contexts, input.name.as_str()).is_some() {
            return Err(context_message(input.name.as_str(), " already exists"));
        }
        match input.task_id {
            Some(_) => match task {
                Some(t) => {
                    validate_task_binding(t, access)?;
                },
                None => {},
            },
            None => {},
        }
        let mut branch = "wt/".to_owned();
        branch.append(input.name.as_str());
        let path = join(dir, input.name.as_str());
        let from_ref = match &input.from_ref {
            Some(f) => f.clone(),
            None => "HEAD".to_owned(),
        };
        let mut git_args: Vec<String> = Vec::new();
        git_args.push("worktree".to_owned());
        git_args.push("add".to_owned());
        git_args.push("-b".to_owned());
        git_args.push(branch.clone());
        git_args.push(path.clone());
        git_args.push(from_ref);
        let item = ExecutionContextItem {
            name: input.name.clone(),
            backend: ExecutionContextBackendKind::GitWorktree,
            path,
            task_id: input.task_id,
            status: ExecutionContextStatus::Active,
            git_worktree: Some(GitWorktreeMetadata { branch }),
        };
        proof {
            assert(arg_views(git_args@) =~= seq![
                "worktree"@,
                "add"@,
                "-b"@,
                branch_for(input.name@),
                path_joined(dir@, input.name@),
                match input.from_ref {
                    Some(f) => f@,
                    None => "HEAD"@,
                },
            ]);
        }
        Ok(ContextPlan { item, git_args })
    }

    /// The refusal of `context_create` for a name already in use.
    pub fn ensure_new_name(&self, name: &str) -> (r: Result<(), String>)
        ensures
            has_name(self@, name@) ==> (r matches Err(m) && m@ == exists_message(name@)),
            !has_name(self@, name@) ==> r is Ok,
    {
        if find_named(&self.contexts, name).is_some() {
            return Err(context_message(name, " already exists"));
        }
        Ok(())
    }

    /// `plan_create`, with the task to bind looked up in `tasks`: a task id that names no
    /// task is refused with the task store's message.
    pub fn plan_create_for(&self, input: &ContextCreateInput, dir: &str, tasks: &TaskStore, access: TaskAccess) -> (r:
        Result<ContextPlan, String>)
        requires
            tasks.wf(),
        ensures
            has_name(self@, input.name@) ==> (r matches Err(m) && m@ == exists_message(input.name@)),
            !has_name(self@, input.name@) && (input.task_id matches Some(id) && !has_id(tasks@, id)) ==> (r matches Err(
                m,
            ) && m@ == error_text(TaskErrorView::NotFound(input.task_id->0))),
            !has_name(self@, input.name@) && (input.task_id matches Some(id) && has_id(tasks@, id)) && stored_refusal(
                *tasks,
                input.task_id->0,
                access,
            ) is Some ==> (r matches Err(m) && m@ == stored_refusal(*tasks, input.task_id->0, access)->0),
            !has_name(self@, input.name@) && (input.task_id is None || (input.task_id matches Some(id) && has_id(
                tasks@,
                id,
            ) && stored_refusal(*tasks, id, access) is None)) ==> ({
                let path = path_joined(dir@, input.name@);
                let from = match input.from_ref {
                    Some(f) => f@,
                    None => "HEAD"@,
                };
                r matches Ok(plan) && plan.item@ == (ContextView {
                    name: input.name@,
                    backend: ExecutionContextBackendKind::GitWorktree,
                    path,
                    task_id: input.task_id,
                    status: ExecutionContextStatus::Active,
                    branch: Some(branch_for(input.name@)),
                }) && arg_views(plan.git_args@) == seq![
                    "worktree"@,
                    "add"@,
                    "-b"@,
                    branch_for(input.name@),
                    path,
                    from,
                ]
            }),
    {
        self.ensure_new_name(input.name.as_str())?;
        match input.task_id {
            Some(id) => {
                proof {
                    tasks.lemma_ids();
                }
                let listed = tasks.tasks();
                match index_of(listed, id) {
                    Some(i) => {
                        proof {
                            let items = tasks.items();
                            assert(views(items)[i as int].id == id);
                            let k = choose|k: int| 0 <= k < items.len() && items[k].id == id;
                            assert(views(items)[k].id == id);
                            assert(k == i);
                        }
                        self.plan_create(input, dir, Some(&listed[i]), access)
                    },
                    None => {
                        proof {
                            assert forall|k: int| 0 <= k < tasks@.len() implies tasks@[k].id != id by {
                                assert(views(listed@)[k].id == listed@[k].id);
                            }
                        }
                        Err(TaskError::NotFound(id).message())
                    },
                }
            },
            None => self.plan_create(input, dir, None, access),
        }
    }

    /// `context_create` once the worktree exists: binds the task, if any, to the new context
    /// and records the context. A refused binding leaves both unchanged.
    pub fn record_created(&mut self, item: ExecutionContextItem, tasks: &mut TaskStore, access: TaskAccess) -> (r:
        Result<ExecutionContextItem, String>)
        requires
            old(self).wf(),
            old(tasks).wf(),
        ensures
            final(self).wf(),
            final(tasks).wf(),
            match item.task_id {
                None => final(tasks)@ == old(tasks)@ && (r matches Ok(c) && c@ == item@)
                    && final(self)@.to_multiset() == old(self)@.to_multiset().insert(item@),
                Some(id) => match spec_bind(old(tasks)@, id, item.name@, access) {
                    Ok(ts) => final(tasks)@ == ts && (r matches Ok(c) && c@ == item@)
                        && final(self)@.to_multiset() == old(self)@.to_multiset().insert(item@),
                    Err(rf) => final(tasks)@ == old(tasks)@ && final(self)@ == old(self)@ && (r matches Err(m)
                        && exists|e: TaskErrorView| refused_as(e, rf) && m@ == error_text(e)),
                },
            },
    {
        match item.task_id {
            Some(id) => match tasks.bind_execution_context(id, item.name.as_str(), access) {
                Ok(_) => {},
                Err(e) => {
                    return Err(e.message());
                },
            },
            None => {},
        }
        let recorded = item.duplicate();
        self.insert(item);
        Ok(recorded)
    }

    /// `context_remove` once the worktree is gone: unbinds the task, if any (completing it
    /// when `complete_task` is set), and marks the context removed. A context that is missing
    /// or already removed, or a refused unbinding, leaves both unchanged.
    pub fn record_removed(&mut self, name: &str, complete_task: bool, tasks: &mut TaskStore, access: TaskAccess) -> (r:
        Result<ExecutionContextItem, String>)
        requires
            old(self).wf(),
            old(tasks).wf(),
        ensures
            final(self).wf(),
            final(tasks).wf(),
            !has_name(old(self)@, name@) ==> (r matches Err(m) && m@ == not_found_message(name@)
                && final(self)@ == old(self)@ && final(tasks)@ == old(tasks)@),
            has_name(old(self)@, name@) && old(self)@[first_named(old(self)@, name@)].status
                == ExecutionContextStatus::Removed ==> (r matches Err(m) && m@ == already_removed_message(name@)
                && final(self)@ == old(self)@ && final(tasks)@ == old(tasks)@),
            has_name(old(self)@, name@) && old(self)@[first_named(old(self)@, name@)].status
                != ExecutionContextStatus::Removed ==> ({
                let i = first_named(old(self)@, name@);
                let c = ContextView { status: ExecutionContextStatus::Removed, ..old(self)@[i] };
                match old(self)@[i].task_id {
                    None => r matches Ok(item) && item@ == c && final(self)@ == old(self)@.update(i, c)
                        && final(tasks)@ == old(tasks)@,
                    Some(id) => match spec_clear(old(tasks)@, id, Some(name), complete_task, access) {
                        Ok(ts) => r matches Ok(item) && item@ == c && final(self)@ == old(self)@.update(i, c)
                            && final(tasks)@ == ts,
                        Err(rf) => final(self)@ == old(self)@ && final(tasks)@ == old(tasks)@ && (r matches Err(m)
                            && exists|e: TaskErrorView| refused_as(e, rf) && m@ == error_text(e)),
                    },
                }
            }),
    {
        let target = self.removal_target(name)?;
        match target.task_id {
            Some(id) => match tasks.clear_execution_context(id, Some(name), complete_task, access) {
                Ok(_) => {},
                Err(e) => {
                    return Err(e.message());
                },
            },
            None => {},
        }
        self.remove(name)
    }

    /// `context_list`: all contexts in name order, and the same grouped by status.
    pub fn list(&self) -> (r: ContextListOutput)
        ensures
            context_views(r.contexts@) == self@,
            context_views(r.active@) == self@.filter(status_pred(ExecutionContextStatus::Active)),
            context_views(r.kept@) == self@.filter(status_pred(ExecutionContextStatus::Kept)),
            context_views(r.removed@) == self@.filter(status_pred(ExecutionContextStatus::Removed)),
    {
        let ghost s = self@;
        let mut contexts: Vec<ExecutionContextItem> = Vec::new();
        let mut active: Vec<ExecutionContextItem> = Vec::new();
        let mut kept: Vec<ExecutionContextItem> = Vec::new();
        let mut removed: Vec<ExecutionContextItem> = Vec::new();
        let mut i: usize = 0;
        while i < self.contexts.len()
            invariant
                i <= self.contexts@.len(),
                s == context_views(self.contexts@),
                context_views(contexts@) == s.take(i as int),
                context_views(active@) == s.take(i as int).filter(status_pred(ExecutionContextStatus::Active)),
                context_views(kept@) == s.take(i as int).filter(status_pred(ExecutionContextStatus::Kept)),
                context_views(removed@) == s.take(i as int).filter(status_pred(ExecutionContextStatus::Removed)),
            decreases self.contexts.len() - i,
        {
            let c = &self.contexts[i];
            proof {
                reveal(Seq::filter);
                assert(s.take(i as int + 1).drop_last() =~= s.take(i as int));
                assert(s.take(i as int + 1).last() == c@);
            }
            contexts.push(c.duplicate());
            match c.status {
                ExecutionContextStatus::Active => {
                    active.push(c.duplicate());
                },
                ExecutionContextStatus::Kept => {
                    kept.push(c.duplicate());
                },
                ExecutionContextStatus::Removed => {
                    removed.push(c.duplicate());
                },
            }
            proof {
                assert(context_views(contexts@) =~= s.take(i as int + 1));
                assert(context_views(active@) =~= s.take(i as int + 1).filter(status_pred(ExecutionContextStatus::Active)));
                assert(context_views(kept@) =~= s.take(i as int + 1).filter(status_pred(ExecutionContextStatus::Kept)));
                assert(context_views(removed@) =~= s.take(i as int + 1).filter(status_pred(ExecutionContextStatus::Removed)));
            }
            i += 1;
        }
        assert(s.take(s.len() as int) =~= s);
        ContextListOutput { contexts, active, kept, removed }
    }

    /// An independent copy of the contexts, in name order.
    pub fn contexts(&self) -> (r: Vec<ExecutionContextItem>)
        ensures
            context_views(r@) == self@,
    {
        let mut out: Vec<ExecutionContextItem> = Vec::new();
        let mut i: usize = 0;
        while i < self.contexts.len()
            invariant
                i <= self.contexts@.len(),
                context_views(out@) == context_views(self.contexts@).take(i as int),
            decreases self.contexts.len() - i,
        {
            let ghost before = out@;
            let c = self.contexts[i].duplicate();
            out.push(c);
            assert(out@ =~= before.push(c));
            assert(context_views(out@) =~= context_views(before).push(c@));
            assert(context_views(out@) =~= context_views(self.contexts@).take(i as int + 1));
            i += 1;
        }
        assert(context_views(self.contexts@).take(self.contexts@.len() as int) =~= context_views(self.contexts@));
        out
    }
}

proof fn lemma_first_named_exists(s: Seq<ContextView>, name: Seq<char>)
    requires
        has_name(s, name),
    ensures
        0 <= first_named(s, name) < s.len(),
        s[first_named(s, name)].name == name,
        forall|j: int| 0 <= j < first_named(s, name) ==> (#[trigger] s[j]).name != name,
{
    let k = choose|k: int| 0 <= k < s.len() && (#[trigger] s[k]).name == name;
    lemma_min_named(s, name, k);
}

proof fn lemma_min_named(s: Seq<ContextView>, name: Seq<char>, k: int)
    requires
        0 <= k < s.len(),
        s[k].name == name,
    ensures
        exists|i: int| 0 <= i < s.len() && s[i].name == name && forall|j: int| 0 <= j < i ==> (#[trigger] s[j]).name != name,
    decreases k,
{
    if exists|j: int| 0 <= j < k && (#[trigger] s[j]).name == name {
        let j = choose|j: int| 0 <= j < k && (#[trigger] s[j]).name == name;
        lemma_min_named(s, name, j);
    } else {
        assert(forall|j: int| 0 <= j < k ==> (#[trigger] s[j]).name != name);
    }
}

/// Removal is final: once the first context named `name` is marked removed, it is still the
/// first of that name, so keeping or removing it again is refused.
pub proof fn law_removed_stays_removed(s: Seq<ContextView>, name: Seq<char>)
    requires
        has_name(s, name),
    ensures
        ({
            let i = first_named(s, name);
            let after = s.update(i, ContextView { status: ExecutionContextStatus::Removed, ..s[i] });
            has_name(after, name) && first_named(after, name) == i && after[first_named(after, name)].status
                == ExecutionContextStatus::Removed
        }),
{
    lemma_first_named_exists(s, name);
    let i = first_named(s, name);
    let after = s.update(i, ContextView { status: ExecutionContextStatus::Removed, ..s[i] });
    assert(after[i].name == name);
    assert(has_name(after, name));
    lemma_first_named_exists(after, name);
    let c = first_named(after, name);
    if c < i {
        assert(after[c] == s[c]);
    } else if i < c {
        assert(after[i].name == name);
    }
}

/// The git arguments that remove a context's worktree (forcibly when `force`).
pub fn removal_args(context: &ExecutionContextItem, force: bool) -> (r: Vec<String>)
    ensures
        arg_views(r@) == if force {
            seq!["worktree"@, "remove"@, "--force"@, context.path@]
        } else {
            seq!["worktree"@, "remove"@, context.path@]
        },
{
    let mut args: Vec<String> = Vec::new();
    args.push("worktree".to_owned());
    args.push("remove".to_owned());
    if force {
        args.push("--force".to_owned());
    }
    args.push(context.path.clone());
    proof {
        if force {
            assert(arg_views(args@) =~= seq!["worktree"@, "remove"@, "--force"@, context.path@]);
        } else {
            assert(arg_views(args@) =~= seq!["worktree"@, "remove"@, context.path@]);
        }
    }
    args
}

/// The git arguments that bring a missing worktree back on its branch; a context without
/// worktree metadata cannot be restored.
pub fn restore_args(context: &ExecutionContextItem) -> (r: Result<Vec<String>, String>)
    ensures
        match context@.branch {
            Some(b) => r matches Ok(args) && arg_views(args@) == seq!["worktree"@, "add"@, context.path@, b],
            None => r matches Err(m) && m@ == missing_metadata_message(context.name@),
        },
{
    match &context.git_worktree {
        Some(git) => {
            let mut args: Vec<String> = Vec::new();
            args.push("worktree".to_owned());
            args.push("add".to_owned());
            args.push(context.path.clone());
            args.push(git.branch.clone());
            assert(arg_views(args@) =~= seq!["worktree"@, "add"@, context.path@, git.branch@]);
            Ok(args)
        },
        None => Err(context_message(context.name.as_str(), " is missing git worktree metadata")),
    }
}

/// The last context in `target` named `name` (meaningful when there is one).
pub open spec fn last_named(s: Seq<ContextView>, name: Seq<char>) -> int {
    choose|i: int| 0 <= i < s.len() && s[i].name == name && forall|j: int| i < j < s.len() ==> (#[trigger] s[j]).name != name
}

/// A current context must lose its worktree on restore: the target state has no context of
/// that name, or its last one of that name is removed.
#[verifier::opaque]
pub open spec fn stale(c: ContextView, target: Seq<ContextView>) -> bool {
    !has_name(target, c.name) || target[last_named(target, c.name)].status == ExecutionContextStatus::Removed
}

pub open spec fn stale_pred(target: Seq<ContextView>) -> spec_fn(ContextView) -> bool {
    |c: ContextView| stale(c, target)
}

fn last_named_index(target: &Vec<ExecutionContextItem>, name: &str) -> (r: Option<usize>)
    ensures
        match r {
            Some(i) => i < target@.len() && i == last_named(context_views(target@), name@) && context_views(
                target@,
            )[i as int].name == name@,
            None => !has_name(context_views(target@), name@),
        },
{
    let ghost s = context_views(target@);
    let mut i: usize = target.len();
    while i > 0
        invariant
            i <= target@.len(),
            s == context_views(target@),
            forall|j: int| i <= j < target@.len() ==> (#[trigger] s[j]).name != name@,
        decreases i,
    {
        if str_eq(target[i - 1].name.as_str(), name) {
            proof {
                let k = (i - 1) as int;
                let c = last_named(s, name@);
                assert(s[k].name == name@);
                if c > k {
                    assert(s[c].name != name@);
                } else if c < k {
                    assert(s[k].name == name@);
                }
            }
            return Some(i - 1);
        }
        i -= 1;
    }
    None
}

/// The current contexts whose worktrees a restore to `target` removes.
pub fn stale_contexts(current: &Vec<ExecutionContextItem>, target: &Vec<ExecutionContextItem>) -> (r: Vec<
    ExecutionContextItem,
>)
    ensures
        context_views(r@) == context_views(current@).filter(stale_pred(context_views(target@))),
{
    let ghost s = context_views(current@);
    let ghost t = context_views(target@);
    let mut out: Vec<ExecutionContextItem> = Vec::new();
    let mut i: usize = 0;
    while i < current.len()
        invariant
            i <= current@.len(),
            s == context_views(current@),
            t == context_views(target@),
            context_views(out@) == s.take(i as int).filter(stale_pred(t)),
        decreases current.len() - i,
    {
        let c = &current[i];
        let is_stale = match last_named_index(target, c.name.as_str()) {
            Some(k) => target[k].status == ExecutionContextStatus::Removed,
            None => true,
        };
        proof {
            lemma_filter_step(s, i as int, stale_pred(t));
            assert(s[i as int] == c@);
            assert(is_stale == stale(c@, t)) by {
                reveal(stale);
            }
        }
        let ghost before = out@;
        if is_stale {
            let d = c.duplicate();
            out.push(d);
            assert(out@ =~= before.push(d));
            assert(context_views(out@) =~= context_views(before).push(c@));
        }
        assert(context_views(out@) =~= s.take(i as int + 1).filter(stale_pred(t)));
        i += 1;
    }
    assert(s.take(s.len() as int) =~= s);
    out
}

/// Whether a context tool changed a task: a created context bound to a task, or a removed
/// context that was bound or whose removal completes its task.
pub fn context_touched_task(created: bool, context: &ExecutionContextItem, complete_task: bool) -> (r: bool)
    ensures
        r == if created {
            context.task_id is Some
        } else {
            complete_task || context.task_id is Some
        },
{
    if created {
        context.task_id.is_some()
    } else {
        complete_task || context.task_id.is_some()
    }
}

/// The execution contexts' directory, as it was at one moment: whether it existed, the raw
/// index and event log when present, and the contexts in name order.
#[derive(Debug)]
pub struct ExecutionContextDiskState {
    pub existed: bool,
    pub index: Option<String>,
    pub events: Option<String>,
    pub contexts: Vec<ExecutionContextItem>,
}

impl ExecutionContextDiskState {
    /// The snapshot of the directory: nothing when it did not exist; otherwise what it held,
    /// with the loaded contexts put in name order.
    pub fn capture(existed: bool, index: Option<String>, events: Option<String>, loaded: Vec<ExecutionContextItem>) -> (r:
        ExecutionContextDiskState)
        ensures
            r.existed == existed,
            !existed ==> r.index is None && r.events is None && r.contexts@.len() == 0,
            existed ==> r.index == index && r.events == events && names_sorted(context_views(r.contexts@))
                && context_views(r.contexts@).to_multiset() == context_views(loaded@).to_multiset(),
    {
        if !existed {
            return ExecutionContextDiskState { existed, index: None, events: None, contexts: Vec::new() };
        }
        let registry = ContextRegistry::from_loaded(loaded);
        let contexts = registry.contexts();
        proof {
            registry.lemma_sorted();
        }
        ExecutionContextDiskState { existed, index, events, contexts }
    }

    /// Restoring this snapshot deletes the index and event log (and the directory, if empty):
    /// the directory did not exist.
    pub fn removes_files(&self) -> (r: bool)
        ensures
            r == !self.existed,
    {
        !self.existed
    }
}

/// A context whose worktree a restored snapshot keeps: an active or kept one.
pub fn keeps_backend(context: &ExecutionContextItem) -> (r: bool)
    ensures
        r == (context.status != ExecutionContextStatus::Removed),
{
    match context.status {
        ExecutionContextStatus::Removed => false,
        _ => true,
    }
}

} // verus!
