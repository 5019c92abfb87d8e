use mentra::task::error::TaskError;
use mentra::task::ops::{TaskAccess, TaskCreateInput, TaskUpdateInput};
use mentra::task::store::TaskStore;
use mentra::task::types::{TaskItem, TaskStatus};
use mentra::text::{trim_start_text, trim_text};

fn input(subject: &str, owner: &str, blocked_by: Vec<u64>) -> TaskCreateInput {
    TaskCreateInput {
        subject: subject.to_string(),
        description: String::new(),
        owner: owner.to_string(),
        blocked_by,
    }
}

fn update(task_id: u64) -> TaskUpdateInput {
    TaskUpdateInput {
        task_id,
        subject: None,
        description: None,
        owner: None,
        status: None,
        add_blocked_by: Vec::new(),
        remove_blocked_by: Vec::new(),
        add_blocks: Vec::new(),
        remove_blocks: Vec::new(),
    }
}

fn with_status(task_id: u64, status: TaskStatus) -> TaskUpdateInput {
    TaskUpdateInput { status: Some(status), ..update(task_id) }
}

fn two_tasks_second_blocked() -> TaskStore {
    let mut store = TaskStore::new();
    store.create(input("A", "", Vec::new())).expect("create task 1");
    store.create(input("B", "", vec![1])).expect("create task 2");
    store
}

#[test]
fn create_and_list_group_ready_blocked_and_completed_tasks() {
    let mut store = TaskStore::new();
    store.create(input("Plan", "", Vec::new())).expect("create task 1");
    store.create(input("Build", "", vec![1])).expect("create task 2");
    store.create(input("Review", "", Vec::new())).expect("create task 3");
    store
        .update(with_status(3, TaskStatus::InProgress), TaskAccess::Lead)
        .expect("update task 3");
    store
        .update(with_status(1, TaskStatus::Completed), TaskAccess::Lead)
        .expect("complete task 1");

    let listed = store.list();
    assert_eq!(listed.ready.len(), 1);
    assert_eq!(listed.blocked.len(), 0);
    assert_eq!(listed.in_progress.len(), 1);
    assert_eq!(listed.completed.len(), 1);
}

#[test]
fn completion_unblocks_and_reopen_reblocks_dependents() {
    let mut store = two_tasks_second_blocked();

    let completed = store
        .update(with_status(1, TaskStatus::Completed), TaskAccess::Lead)
        .expect("complete task 1");
    assert_eq!(completed.unblocked.len(), 1);

    let reopened = store
        .update(with_status(1, TaskStatus::Pending), TaskAccess::Lead)
        .expect("reopen task 1");
    assert_eq!(reopened.reblocked.len(), 1);
}

#[test]
fn adding_cycle_is_rejected() {
    let mut store = two_tasks_second_blocked();

    let error = store
        .update(
            TaskUpdateInput { add_blocked_by: vec![2], ..update(1) },
            TaskAccess::Lead,
        )
        .expect_err("cycle should fail");
    assert!(error.message().contains("would create a cycle"));
}

#[test]
fn blocked_task_cannot_start_or_complete() {
    let mut store = two_tasks_second_blocked();

    let error = store
        .update(with_status(2, TaskStatus::InProgress), TaskAccess::Lead)
        .expect_err("blocked task should fail");
    assert!(error.message().contains("cannot be InProgress while blocked"));
}

#[test]
fn completed_blocker_stays_out_of_unresolved_blocked_by() {
    let mut store = TaskStore::new();
    store.create(input("A", "", Vec::new())).expect("create task 1");
    store
        .update(with_status(1, TaskStatus::Completed), TaskAccess::Lead)
        .expect("complete task 1");
    store.create(input("B", "", vec![1])).expect("create task 2");

    let tasks = store.tasks();
    assert_eq!(tasks[1].status, TaskStatus::Pending);
    assert!(tasks[1].blocked_by.is_empty());
    assert_eq!(tasks[0].blocks, vec![2]);
}

#[test]
fn claim_first_ready_unowned_task() {
    let mut store = two_tasks_second_blocked();

    let claimed = store.claim(None, Some("alice")).expect("claim task");
    assert_eq!(claimed.id, 1);
    assert_eq!(claimed.owner, "alice");
}

#[test]
fn claim_explicit_task_id() {
    let mut store = TaskStore::new();
    store.create(input("A", "", Vec::new())).expect("create task 1");
    store.create(input("B", "", Vec::new())).expect("create task 2");

    let claimed = store.claim(Some(2), Some("bob")).expect("claim task");
    assert_eq!(claimed.id, 2);
    assert_eq!(claimed.owner, "bob");
}

#[test]
fn claim_rejects_unclaimable_tasks() {
    let mut store = two_tasks_second_blocked();

    let blocked = store.claim(Some(2), Some("alice")).expect_err("blocked task");
    assert!(blocked.message().contains("cannot be claimed"));

    store.claim(Some(1), Some("alice")).expect("claim task 1");
    let owned = store.claim(Some(1), Some("bob")).expect_err("owned task");
    assert!(owned.message().contains("already owned"));

    let missing = store.claim(Some(99), Some("alice")).expect_err("missing task");
    assert!(missing.message().contains("does not exist"));

    let mut store = TaskStore::new();
    store.create(input("C", "", Vec::new())).expect("create task 1");
    store
        .update(with_status(1, TaskStatus::InProgress), TaskAccess::Lead)
        .expect("start task");
    let in_progress = store.claim(Some(1), Some("alice")).expect_err("in progress task");
    assert!(in_progress.message().contains("cannot be claimed"));

    let mut store = TaskStore::new();
    store.create(input("D", "", Vec::new())).expect("create task 1");
    store
        .update(with_status(1, TaskStatus::Completed), TaskAccess::Lead)
        .expect("complete task");
    let completed = store.claim(Some(1), Some("alice")).expect_err("completed task");
    assert!(completed.message().contains("cannot be claimed"));
}

#[test]
fn teammate_cannot_edit_task_dependencies() {
    let mut store = TaskStore::new();
    store.create(input("Owned", "alice", Vec::new())).expect("create task 1");
    store.create(input("Other", "", Vec::new())).expect("create task 2");

    let error = store
        .update(TaskUpdateInput { add_blocks: vec![2], ..update(1) }, TaskAccess::Teammate("alice"))
        .expect_err("dependency edit should fail");
    assert!(error.message().contains("cannot edit dependencies"));
}

// ---- further cases ----

#[test]
fn create_assigns_next_id_and_trims_subject() {
    let mut store = TaskStore::new();
    let first = store.create(input("  Plan  ", "", Vec::new())).expect("create");
    assert_eq!(first.id, 1);
    assert_eq!(first.subject, "Plan");
    let second = store.create(input("Build", "", vec![1])).expect("create");
    assert_eq!(second.id, 2);
    assert_eq!(second.blocked_by, vec![1]);
    assert_eq!(store.tasks()[0].blocks, vec![2]);
}

#[test]
fn create_with_unknown_blocker_is_refused_and_changes_nothing() {
    let mut store = TaskStore::new();
    store.create(input("A", "", Vec::new())).expect("create");
    let error = store.create(input("B", "", vec![7])).expect_err("unknown blocker");
    assert!(matches!(error, TaskError::NotFound(7)));
    assert_eq!(error.message(), "Task 7 does not exist");
    assert_eq!(store.tasks().len(), 1);
    assert!(store.tasks()[0].blocks.is_empty());
}

#[test]
fn cycle_message_names_the_edge() {
    let mut store = two_tasks_second_blocked();
    let error = store.add_dependency(2, 1).expect_err("cycle");
    assert_eq!(error.message(), "Adding dependency 2 -> 1 would create a cycle");
    assert!(store.add_dependency(1, 1).is_err());
}

#[test]
fn blocked_status_message_lists_blockers() {
    let mut store = two_tasks_second_blocked();
    let error = store
        .update(with_status(2, TaskStatus::Completed), TaskAccess::Lead)
        .expect_err("blocked");
    assert_eq!(error.message(), "Task 2 cannot be Completed while blocked by [1]");
}

#[test]
fn claim_without_name_is_refused() {
    let mut store = two_tasks_second_blocked();
    let error = store.claim(None, Some("   ")).expect_err("blank name");
    assert_eq!(error.message(), "Only named teammates can claim tasks");
    let error = store.claim(None, None).expect_err("no name");
    assert!(matches!(error, TaskError::UnnamedClaimant));
}

#[test]
fn claim_trims_the_claimant_name() {
    let mut store = two_tasks_second_blocked();
    let claimed = store.claim(Some(1), Some("  carol ")).expect("claim");
    assert_eq!(claimed.owner, "carol");
}

#[test]
fn claim_with_nothing_ready_is_refused() {
    let mut store = two_tasks_second_blocked();
    store.claim(None, Some("alice")).expect("claim task 1");
    let error = store.claim(None, Some("bob")).expect_err("nothing left");
    assert_eq!(error.message(), "No ready unowned tasks are available to claim");
}

#[test]
fn claim_takes_lowest_ready_id() {
    let mut store = TaskStore::new();
    store.create(input("A", "", Vec::new())).expect("create 1");
    store.create(input("B", "", Vec::new())).expect("create 2");
    store.create(input("C", "", Vec::new())).expect("create 3");
    store.claim(Some(1), Some("x")).expect("claim 1");
    let claimed = store.claim(None, Some("y")).expect("claim next");
    assert_eq!(claimed.id, 2);
}

#[test]
fn teammate_cannot_update_others_task_or_reassign() {
    let mut store = TaskStore::new();
    store.create(input("Owned", "alice", Vec::new())).expect("create 1");
    store.create(input("Bob's", "bob", Vec::new())).expect("create 2");

    let error = store
        .update(update(2), TaskAccess::Teammate("alice"))
        .expect_err("other owner");
    assert_eq!(error.message(), "Teammate 'alice' cannot update task 2 owned by 'bob'");

    let error = store
        .update(TaskUpdateInput { owner: Some("bob".to_string()), ..update(1) }, TaskAccess::Teammate("alice"))
        .expect_err("reassign");
    assert_eq!(error.message(), "Teammate 'alice' cannot reassign task 1 to 'bob'");

    let done = store
        .update(
            TaskUpdateInput { description: Some("notes".to_string()), ..update(1) },
            TaskAccess::Teammate("alice"),
        )
        .expect("own task");
    assert_eq!(done.task.description, "notes");
}

#[test]
fn update_edits_fields_and_edges() {
    let mut store = TaskStore::new();
    store.create(input("A", "", Vec::new())).expect("create 1");
    store.create(input("B", "", Vec::new())).expect("create 2");
    let out = store
        .update(
            TaskUpdateInput { subject: Some("  Renamed ".to_string()), add_blocks: vec![2], ..update(1) },
            TaskAccess::Lead,
        )
        .expect("update");
    assert_eq!(out.task.subject, "Renamed");
    assert_eq!(out.task.blocks, vec![2]);
    assert_eq!(store.get_task(2).expect("task 2").blocked_by, vec![1]);

    store
        .update(TaskUpdateInput { remove_blocks: vec![2], ..update(1) }, TaskAccess::Lead)
        .expect("remove edge");
    assert!(store.get_task(2).expect("task 2").blocked_by.is_empty());
}

#[test]
fn refused_update_changes_nothing() {
    let mut store = two_tasks_second_blocked();
    let error = store
        .update(
            TaskUpdateInput {
                subject: Some("new".to_string()),
                add_blocks: vec![99],
                ..update(1)
            },
            TaskAccess::Lead,
        )
        .expect_err("unknown dependent");
    assert!(matches!(error, TaskError::NotFound(99)));
    assert_eq!(store.get_task(1).expect("task 1").subject, "A");
}

#[test]
fn status_change_then_back_restores_dependents() {
    let mut store = two_tasks_second_blocked();
    store
        .update(with_status(1, TaskStatus::Completed), TaskAccess::Lead)
        .expect("complete");
    assert!(store.get_task(2).expect("task 2").blocked_by.is_empty());
    store
        .update(with_status(1, TaskStatus::Pending), TaskAccess::Lead)
        .expect("reopen");
    assert_eq!(store.get_task(2).expect("task 2").blocked_by, vec![1]);
}

#[test]
fn get_missing_task_is_refused() {
    let store = TaskStore::new();
    assert!(matches!(store.get_task(3), Err(TaskError::NotFound(3))));
}

#[test]
fn bind_and_clear_execution_context() {
    let mut store = TaskStore::new();
    store.create(input("A", "alice", Vec::new())).expect("create");

    let denied = store
        .bind_execution_context(1, "ctx", TaskAccess::Teammate("bob"))
        .expect_err("not owner");
    assert_eq!(
        denied.message(),
        "Teammate 'bob' cannot manage execution context for task 1 owned by 'alice'"
    );

    let bound = store
        .bind_execution_context(1, "ctx", TaskAccess::Teammate("alice"))
        .expect("bind");
    assert_eq!(bound.execution_context_id.as_deref(), Some("ctx"));
    assert_eq!(bound.status, TaskStatus::InProgress);

    let again = store
        .bind_execution_context(1, "other", TaskAccess::Lead)
        .expect_err("already bound");
    assert_eq!(again.message(), "Task 1 is already bound to execution context 'ctx'");

    let wrong = store
        .clear_execution_context(1, Some("other"), false, TaskAccess::Lead)
        .expect_err("not bound to other");
    assert_eq!(wrong.message(), "Task 1 is not bound to execution context 'other'");

    let cleared = store
        .clear_execution_context(1, Some("ctx"), true, TaskAccess::Lead)
        .expect("clear");
    assert_eq!(cleared.execution_context_id, None);
    assert_eq!(cleared.status, TaskStatus::Completed);
}

#[test]
fn blocked_task_cannot_bind_a_context() {
    let mut store = two_tasks_second_blocked();
    let error = store
        .bind_execution_context(2, "ctx", TaskAccess::Lead)
        .expect_err("blocked");
    assert_eq!(error.message(), "Task 2 is blocked by [1] and cannot bind an execution context");
}

fn stored(id: u64, blocks: Vec<u64>, status: TaskStatus) -> TaskItem {
    TaskItem {
        id,
        subject: format!("t{id}"),
        description: String::new(),
        status,
        blocked_by: Vec::new(),
        blocks,
        owner: String::new(),
        execution_context_id: None,
    }
}

#[test]
fn loading_sorts_and_recomputes_blocked_by() {
    let store = TaskStore::from_loaded(vec![
        stored(3, Vec::new(), TaskStatus::Pending),
        stored(1, vec![3, 3], TaskStatus::Pending),
        stored(2, vec![3], TaskStatus::Completed),
    ])
    .expect("load");
    let ids: Vec<u64> = store.tasks().iter().map(|t| t.id).collect();
    assert_eq!(ids, vec![1, 2, 3]);
    assert_eq!(store.tasks()[0].blocks, vec![3]);
    assert_eq!(store.tasks()[2].blocked_by, vec![1]);
}

#[test]
fn loading_refuses_duplicates_unknown_tasks_and_cycles() {
    let dup = TaskStore::from_loaded(vec![
        stored(1, Vec::new(), TaskStatus::Pending),
        stored(1, Vec::new(), TaskStatus::Pending),
    ]);
    assert!(matches!(dup, Err(TaskError::DuplicateId(1))));

    let unknown = TaskStore::from_loaded(vec![stored(1, vec![5], TaskStatus::Pending)]);
    assert!(matches!(
        unknown,
        Err(TaskError::UnknownDependency { id: 1, dependent: 5 })
    ));

    let cycle = TaskStore::from_loaded(vec![
        stored(1, vec![2], TaskStatus::Pending),
        stored(2, vec![1], TaskStatus::Pending),
    ]);
    assert!(matches!(cycle, Err(TaskError::Cycle { .. })));
}

#[test]
fn list_groups_cover_every_task() {
    let mut store = two_tasks_second_blocked();
    store.create(input("C", "", Vec::new())).expect("create 3");
    store
        .update(with_status(3, TaskStatus::InProgress), TaskAccess::Lead)
        .expect("start 3");
    let listed = store.list();
    assert_eq!(listed.tasks.len(), 3);
    assert_eq!(
        listed.ready.len() + listed.blocked.len() + listed.in_progress.len() + listed.completed.len(),
        3
    );
    assert_eq!(listed.blocked[0].id, 2);
}

#[test]
fn trimming_strips_unicode_white_space() {
    assert_eq!(trim_text("\u{3000} a b \t\n"), "a b");
    assert_eq!(trim_text(" \u{2028}\u{85}"), "");
    assert_eq!(trim_text("x\u{200b}"), "x\u{200b}");
    assert_eq!(trim_start_text("\u{a0} data "), "data ");
}

#[test]
fn claim_trims_the_owner_and_rejects_a_blank_one() {
    let mut store = TaskStore::new();
    store.create(input("  Padded subject\t", "", Vec::new())).expect("create task 1");
    assert_eq!(store.tasks()[0].subject, "Padded subject");
    store.claim(Some(1), Some("\u{3000}")).expect_err("blank owner");
    let claimed = store.claim(Some(1), Some("  alice \n")).expect("claim task 1");
    assert_eq!(claimed.owner, "alice");
}
