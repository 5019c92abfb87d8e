use mentra::compaction::{after_remote, CompactionFailure, CompactionRoute, CompactionStep, RemoteOutcome};
use mentra::runtime::agent_tasks::AgentTaskState;
use mentra::provider::anthropic::{find_frame_boundary, take_frame};
use mentra::provider::tool::{
    ToolCapability, ToolDurability, ToolExecutionMode, ToolLoadingPolicy, ToolSideEffectLevel, ToolSpec,
    EMPTY_OBJECT_SCHEMA,
};
use mentra::runtime::builtin::{
    background_started_message, parse_command_input, shell_authorization_preview, shell_tool_result, skill_name,
    BackgroundRunTool, CheckBackgroundTool, LoadSkillTool, ShellCommandFields, ShellTool,
};
use mentra::runtime::control::CommandOutput;
use mentra::runtime::execution_context::{
    context_touched_task, keeps_backend, ContextCreateInput, ContextRegistry, ExecutionContextBackendKind,
    ExecutionContextDiskState, ExecutionContextItem, ExecutionContextStatus, GitWorktreeMetadata,
};
use mentra::runtime::intrinsic::{
    compact_result, context_event, context_intrinsic_result, execute_idle, intrinsic_kind, intrinsic_outcome,
    is_context_mutation_tool, is_task_mutation_tool, needs_task_refresh, specs, subagent_result,
    task_intrinsic_result, task_intrinsic_specs, ContextCommandOutput, ContextEvent, IntrinsicKind, SubagentRun, ToolResultBlock,
};
use mentra::runtime::workdir::{
    background_capacity, default_working_directory, needs_tasks, resolve_working_directory, AgentExecutionConfig,
    RoutedTask,
};
use mentra::task::disk::{is_task_file, task_file_name, task_files_among, TaskDiskState};
use mentra::task::ops::{TaskAccess, TaskCreateInput};
use mentra::task::store::TaskStore;
use mentra::task::tool::{TaskToolInput, TaskToolOutput};
use mentra::task::types::TaskStatus;

fn block(id: &str, content: &str, is_error: bool) -> ToolResultBlock {
    ToolResultBlock { tool_use_id: id.to_string(), content: content.to_string(), is_error }
}

// ---- tool specs ----

#[test]
fn builder_defaults_and_overrides() {
    let spec = ToolSpec::builder("echo").build();
    assert_eq!(spec.name, "echo");
    assert_eq!(spec.description, None);
    assert_eq!(spec.input_schema, EMPTY_OBJECT_SCHEMA);
    assert!(spec.capabilities.is_empty());
    assert_eq!(spec.side_effect_level, ToolSideEffectLevel::NoSideEffect);
    assert_eq!(spec.durability, ToolDurability::Ephemeral);
    assert_eq!(spec.loading_policy, ToolLoadingPolicy::Immediate);
    assert_eq!(spec.execution_timeout_ms, None);

    let spec = ToolSpec::builder("echo")
        .description("Echo input")
        .capability(ToolCapability::ReadOnly)
        .capability(ToolCapability::Custom("x".to_string()))
        .defer_loading(true)
        .execution_timeout(1500)
        .durability(ToolDurability::ReplaySafe)
        .build();
    assert_eq!(spec.description.as_deref(), Some("Echo input"));
    assert_eq!(spec.capabilities, vec![ToolCapability::ReadOnly, ToolCapability::Custom("x".to_string())]);
    assert_eq!(spec.loading_policy, ToolLoadingPolicy::Deferred);
    assert_eq!(spec.execution_timeout_ms, Some(1500));
    assert_eq!(spec.durability, ToolDurability::ReplaySafe);
    let spec = ToolSpec::builder("echo").defer_loading(false).build();
    assert_eq!(spec.loading_policy, ToolLoadingPolicy::Immediate);
}

#[test]
fn intrinsic_specs_are_listed_in_order_with_json_schemas() {
    let all = specs();
    let names: Vec<&str> = all.iter().map(|s| s.name.as_str()).collect();
    assert_eq!(
        names,
        vec![
            "compact",
            "idle",
            "task",
            "context_create",
            "context_get",
            "context_list",
            "context_keep",
            "context_remove",
            "task_create",
            "task_claim",
            "task_update",
            "task_list",
            "task_get",
        ]
    );
    for spec in &all {
        let schema: serde_json::Value = serde_json::from_str(&spec.input_schema).expect("schema is JSON");
        assert_eq!(schema["type"], "object");
        assert!(spec.description.is_some());
        assert!(intrinsic_kind(&spec.name).is_some());
    }
    let update: serde_json::Value = serde_json::from_str(&all[10].input_schema).unwrap();
    assert_eq!(update["required"][0], "taskId");
    assert_eq!(update["properties"]["status"]["enum"][1], "in_progress");
}

#[test]
fn task_tool_schemas_use_camel_case_and_require_task_id() {
    let tools = task_intrinsic_specs();
    let names: Vec<&str> = tools.iter().map(|s| s.name.as_str()).collect();
    assert_eq!(names, vec!["task_create", "task_claim", "task_update", "task_list", "task_get"]);
    let update: serde_json::Value = serde_json::from_str(&tools[2].input_schema).unwrap();
    assert_eq!(update["required"], serde_json::Value::Array(vec![serde_json::Value::from("taskId")]));
    let mut keys: Vec<&str> = update["properties"].as_object().unwrap().keys().map(|k| k.as_str()).collect();
    keys.sort();
    let mut expected = vec![
        "taskId",
        "subject",
        "description",
        "owner",
        "status",
        "addBlockedBy",
        "removeBlockedBy",
        "addBlocks",
        "removeBlocks",
    ];
    expected.sort();
    assert_eq!(keys, expected);
    let get: serde_json::Value = serde_json::from_str(&tools[4].input_schema).unwrap();
    assert_eq!(get["required"], serde_json::Value::Array(vec![serde_json::Value::from("taskId")]));
    let create: serde_json::Value = serde_json::from_str(&tools[0].input_schema).unwrap();
    assert_eq!(create["required"][0], "subject");
}

#[test]
fn builtin_tool_specs() {
    let shell = ShellTool.spec();
    assert_eq!(shell.name, "shell");
    assert_eq!(shell.capabilities, vec![ToolCapability::ProcessExec, ToolCapability::FilesystemWrite]);
    assert_eq!(shell.side_effect_level, ToolSideEffectLevel::Process);
    assert_eq!(shell.durability, ToolDurability::Ephemeral);
    assert_eq!(ShellTool.execution_mode(), ToolExecutionMode::Parallel);
    let background = BackgroundRunTool.spec();
    assert_eq!(background.durability, ToolDurability::Persistent);
    assert_eq!(background.capabilities, vec![ToolCapability::BackgroundExec, ToolCapability::FilesystemWrite]);
    let check = CheckBackgroundTool.spec();
    assert_eq!(check.capabilities, vec![ToolCapability::ReadOnly]);
    assert_eq!(check.side_effect_level, ToolSideEffectLevel::NoSideEffect);
    let skill = LoadSkillTool.spec();
    assert_eq!(skill.capabilities, vec![ToolCapability::SkillLoad, ToolCapability::ReadOnly]);
    assert_eq!(skill.durability, ToolDurability::ReplaySafe);
    for spec in [shell, background, check, skill] {
        let schema: serde_json::Value = serde_json::from_str(&spec.input_schema).expect("schema is JSON");
        assert_eq!(schema["type"], "object");
    }
}

// ---- intrinsic dispatch and answers ----

#[test]
fn intrinsic_kinds_by_name() {
    assert_eq!(intrinsic_kind("compact"), Some(IntrinsicKind::Compact));
    assert_eq!(intrinsic_kind("idle"), Some(IntrinsicKind::Idle));
    assert_eq!(intrinsic_kind("task"), Some(IntrinsicKind::Task));
    assert_eq!(intrinsic_kind("team_send"), Some(IntrinsicKind::Team));
    assert_eq!(intrinsic_kind("context_keep"), Some(IntrinsicKind::ExecutionContext));
    assert_eq!(intrinsic_kind("task_get"), Some(IntrinsicKind::TaskTool));
    assert_eq!(intrinsic_kind("shell"), None);
    assert!(is_task_mutation_tool("task_claim"));
    assert!(!is_task_mutation_tool("task_list"));
    assert!(is_context_mutation_tool("context_remove"));
    assert!(!is_context_mutation_tool("context_get"));
}

#[test]
fn only_idle_ends_the_turn_and_only_task_tools_touch_tasks() {
    let idle = intrinsic_outcome(IntrinsicKind::Idle, execute_idle("c1".to_string()), true);
    assert!(idle.end_turn);
    assert!(!idle.touched_task);
    assert_eq!(idle.result, block("c1", "Yielding to the teammate idle loop.", false));
    let task = intrinsic_outcome(IntrinsicKind::TaskTool, block("c2", "ok", false), true);
    assert!(!task.end_turn);
    assert!(task.touched_task);
    let team = intrinsic_outcome(IntrinsicKind::Team, block("c3", "ok", false), true);
    assert!(!team.touched_task);
}

#[test]
fn compaction_answers() {
    assert_eq!(
        compact_result("c".to_string(), Ok(Some("/tmp/t/1.jsonl".to_string()))),
        block("c", "Context compacted. Transcript saved to /tmp/t/1.jsonl", false)
    );
    assert_eq!(
        compact_result("c".to_string(), Ok(None)),
        block("c", "Context compaction skipped because there was no older history to summarize.", false)
    );
    assert_eq!(
        compact_result("c".to_string(), Err("Boom".to_string())),
        block("c", "Context compaction failed: Boom", true)
    );
}

#[test]
fn subagent_answers() {
    assert_eq!(subagent_result("c".into(), SubagentRun::InvalidInput("Prompt is required".into())), block("c", "Prompt is required", true));
    assert_eq!(subagent_result("c".into(), SubagentRun::SpawnFailed("X".into())), block("c", "Failed to spawn subagent: X", true));
    assert_eq!(
        subagent_result("c".into(), SubagentRun::Finished { summary: "done".into(), refresh: Ok(()) }),
        block("c", "done", false)
    );
    assert_eq!(
        subagent_result("c".into(), SubagentRun::Finished { summary: "done".into(), refresh: Err("Io".into()) }),
        block("c", "Task refresh failed: Io", true)
    );
    assert_eq!(subagent_result("c".into(), SubagentRun::Failed("Y".into())), block("c", "Subagent failed: Y", true));
}

#[test]
fn task_tool_answers() {
    let ok = task_intrinsic_result("c".into(), Ok("{}".into()), Ok(()));
    assert_eq!(ok.result, block("c", "{}", false));
    assert!(ok.touched_task);
    let refresh = task_intrinsic_result("c".into(), Ok("{}".into()), Err("Io".into()));
    assert_eq!(refresh.result, block("c", "Task refresh failed: Io", true));
    assert!(!refresh.touched_task);
    let refused = task_intrinsic_result("c".into(), Err("Task 9 does not exist".into()), Ok(()));
    assert_eq!(refused.result, block("c", "Task 9 does not exist", true));
    assert!(!refused.touched_task);
}

#[test]
fn context_tool_answers() {
    let output = |touched: bool| ContextCommandOutput { content: "{}".to_string(), context: None, touched_task: touched };
    assert!(needs_task_refresh(&Ok(output(true)), &Ok(())));
    assert!(!needs_task_refresh(&Ok(output(true)), &Err("e".into())));
    assert!(!needs_task_refresh(&Ok(output(false)), &Ok(())));
    let r = context_intrinsic_result("c".into(), Ok(output(true)), Ok(()), false);
    assert_eq!(r.result, block("c", "{}", false));
    assert!(r.touched_task);
    let r = context_intrinsic_result("c".into(), Ok(output(true)), Ok(()), true);
    assert_eq!(r.result, block("c", "Execution context updated, but task refresh failed", true));
    let r = context_intrinsic_result("c".into(), Ok(output(false)), Err("Io".into()), true);
    assert_eq!(r.result, block("c", "Execution context refresh failed: Io", true));
    let r = context_intrinsic_result("c".into(), Err("bad".into()), Ok(()), false);
    assert_eq!(r.result, block("c", "bad", true));
    assert_eq!(context_event("context_create"), ContextEvent::Created);
    assert_eq!(context_event("context_remove"), ContextEvent::Removed);
    assert_eq!(context_event("context_keep"), ContextEvent::Updated);
}

// ---- shell tools ----

fn fields(command: Option<&str>) -> ShellCommandFields {
    ShellCommandFields {
        command: command.map(str::to_string),
        working_directory: Some("sub".to_string()),
        justification: None,
        timeout_ms: Some(500),
    }
}

fn output(success: bool, stdout: &str, stderr: &str, status_code: Option<i32>) -> CommandOutput {
    CommandOutput { stdout: stdout.to_string(), stderr: stderr.to_string(), success, status_code }
}

#[test]
fn shell_input_requires_a_command() {
    assert_eq!(parse_command_input(fields(None)).unwrap_err(), "Command is required");
    let input = parse_command_input(fields(Some("ls"))).unwrap();
    assert_eq!(input.command, "ls");
    assert_eq!(input.working_directory.as_deref(), Some("sub"));
    assert_eq!(input.timeout_ms, Some(500));
}

#[test]
fn shell_results_pick_output_then_reason() {
    assert_eq!(shell_tool_result(output(true, "out", "err", Some(0)), false), Ok("out".to_string()));
    assert_eq!(shell_tool_result(output(true, "", "err", Some(0)), false), Ok("err".to_string()));
    assert_eq!(shell_tool_result(output(false, "out", " err ", Some(1)), false), Err(" err ".to_string()));
    assert_eq!(shell_tool_result(output(false, "out", "  ", Some(1)), false), Err("out".to_string()));
    assert_eq!(
        shell_tool_result(output(false, " ", "", None), true),
        Err("Command timed out after the configured limit".to_string())
    );
    assert_eq!(shell_tool_result(output(false, "", "", Some(-2)), false), Err("Command exited with status -2".to_string()));
    assert_eq!(shell_tool_result(output(false, "", "", None), false), Err("Command exited with status unknown".to_string()));
}

#[test]
fn background_messages_and_previews() {
    assert_eq!(background_started_message("bg-1", "/work", "sleep 1"), "Started background task bg-1 in /work for `sleep 1`");
    let input = parse_command_input(fields(Some("ls"))).unwrap();
    let preview = shell_authorization_preview(input, "/work/sub".to_string(), true, BackgroundRunTool.spec());
    assert_eq!(preview.kind, "background_run");
    assert!(preview.background);
    assert_eq!(preview.working_directory, "/work/sub");
    assert_eq!(preview.durability, ToolDurability::Persistent);
    assert_eq!(preview.timeout_ms, Some(500));
    assert_eq!(skill_name(None), Err("Skill name is required".to_string()));
    assert_eq!(skill_name(Some("rust".to_string())), Ok("rust".to_string()));
}

// ---- working directories ----

fn config(auto_route_shell: bool, is_teammate: bool) -> AgentExecutionConfig {
    AgentExecutionConfig {
        name: "alice".to_string(),
        team_dir: "/work/.team".to_string(),
        tasks_dir: "/work/.tasks".to_string(),
        base_dir: "/work".to_string(),
        auto_route_shell,
        is_teammate,
    }
}

fn routed(owner: &str, status: TaskStatus, dir: Option<&str>) -> RoutedTask {
    RoutedTask { owner: owner.to_string(), status, working_directory: dir.map(str::to_string) }
}

#[test]
fn explicit_and_base_directories() {
    let none: Vec<RoutedTask> = Vec::new();
    assert_eq!(resolve_working_directory(&config(true, true), Some("sub"), &none), Ok("/work/sub".to_string()));
    assert_eq!(resolve_working_directory(&config(true, true), Some("/abs"), &none), Ok("/abs".to_string()));
    assert_eq!(resolve_working_directory(&config(false, true), None, &none), Ok("/work".to_string()));
    assert!(needs_tasks(&config(true, true), None));
    assert!(!needs_tasks(&config(true, true), Some("x")));
    assert_eq!(default_working_directory(None), ".");
    assert_eq!(default_working_directory(Some(&config(true, true))), "/work");
}

#[test]
fn owned_task_directories_route_commands() {
    let tasks = vec![
        routed("alice", TaskStatus::InProgress, Some("wt/a")),
        routed("bob", TaskStatus::InProgress, Some("wt/b")),
        routed("alice", TaskStatus::Completed, Some("wt/c")),
        routed("alice", TaskStatus::Pending, Some("/work/wt/a/")),
    ];
    assert_eq!(resolve_working_directory(&config(true, true), None, &tasks), Ok("/work/wt/a".to_string()));
    assert_eq!(resolve_working_directory(&config(true, false), None, &tasks), Ok("/work".to_string()));
    let split = vec![routed("alice", TaskStatus::InProgress, Some("a")), routed("alice", TaskStatus::Pending, Some("b"))];
    assert_eq!(
        resolve_working_directory(&config(true, true), None, &split),
        Err("Multiple owned task directories are active. Pass workingDirectory explicitly.".to_string())
    );
}

#[test]
fn background_limits() {
    assert_eq!(background_capacity(None, 100), Ok(()));
    assert_eq!(background_capacity(Some(2), 1), Ok(()));
    assert_eq!(background_capacity(Some(2), 2), Err("Background task limit of 2 reached".to_string()));
}

// ---- task tools and task files ----

fn create(subject: &str, blocked_by: Vec<u64>) -> TaskToolInput {
    TaskToolInput::Create(TaskCreateInput {
        subject: subject.to_string(),
        description: String::new(),
        owner: String::new(),
        blocked_by,
    })
}

#[test]
fn task_tool_calls_run_against_the_store() {
    let mut store = TaskStore::new();
    match store.execute(create(" A ", Vec::new()), TaskAccess::Lead) {
        Ok(TaskToolOutput::Created(item)) => {
            assert_eq!(item.id, 1);
            assert_eq!(item.subject, "A");
        }
        other => panic!("unexpected {other:?}"),
    }
    assert!(store.execute(create("B", vec![1]), TaskAccess::Lead).is_ok());
    match store.execute(TaskToolInput::Claim { task_id: None }, TaskAccess::Lead) {
        Err(e) => assert_eq!(e.message(), "Only named teammates can claim tasks"),
        other => panic!("unexpected {other:?}"),
    }
    match store.execute(TaskToolInput::Claim { task_id: None }, TaskAccess::Teammate("alice")) {
        Ok(TaskToolOutput::Claimed(item)) => {
            assert_eq!(item.id, 1);
            assert_eq!(item.owner, "alice");
            assert_eq!(item.status, TaskStatus::Pending);
        }
        other => panic!("unexpected {other:?}"),
    }
    match store.execute(TaskToolInput::List, TaskAccess::Lead) {
        Ok(TaskToolOutput::Listed(out)) => {
            assert_eq!(out.tasks.len(), 2);
            assert_eq!(out.blocked.len(), 1);
            assert_eq!(out.ready.len(), 1);
        }
        other => panic!("unexpected {other:?}"),
    }
    match store.execute(TaskToolInput::Get { task_id: 7 }, TaskAccess::Lead) {
        Err(e) => assert_eq!(e.message(), "Task 7 does not exist"),
        other => panic!("unexpected {other:?}"),
    }
}

#[test]
fn task_file_names() {
    assert_eq!(task_file_name(12), "task_12.json");
    assert!(is_task_file(&task_file_name(0)));
    assert!(is_task_file("task_x.json"));
    assert!(!is_task_file("task_1.json.tmp-5"));
    assert!(!is_task_file("notes_1.json"));
    assert!(!is_task_file("task_"));
}

#[test]
fn task_disk_snapshots_keep_task_files_in_name_order() {
    let entries = vec![
        ("task_2.json".to_string(), "two".to_string()),
        ("README".to_string(), "x".to_string()),
        ("task_10.json".to_string(), "ten".to_string()),
        ("task_1.json".to_string(), "one".to_string()),
    ];
    let state = TaskDiskState::capture(true, entries.clone());
    let names: Vec<&str> = state.files.iter().map(|f| f.0.as_str()).collect();
    assert_eq!(names, vec!["task_1.json", "task_10.json", "task_2.json"]);
    assert!(!state.removes_directory());
    let missing = TaskDiskState::capture(false, entries);
    assert!(missing.files.is_empty());
    assert!(missing.removes_directory());
}

// ---- execution contexts with tasks ----

fn create_input(name: &str, task_id: Option<u64>) -> ContextCreateInput {
    ContextCreateInput { name: name.to_string(), task_id, backend: None, from_ref: None }
}

#[test]
fn context_creation_binds_and_records() {
    let mut tasks = TaskStore::new();
    assert!(tasks.execute(create("A", Vec::new()), TaskAccess::Lead).is_ok());
    let mut registry = ContextRegistry::new();
    assert_eq!(
        registry.plan_create_for(&create_input("one", Some(5)), "/w/.ctx", &tasks, TaskAccess::Lead).unwrap_err(),
        "Task 5 does not exist"
    );
    let plan = registry.plan_create_for(&create_input("one", Some(1)), "/w/.ctx", &tasks, TaskAccess::Lead).unwrap();
    assert_eq!(plan.git_args, vec!["worktree", "add", "-b", "wt/one", "/w/.ctx/one", "HEAD"]);
    let item = registry.record_created(plan.item, &mut tasks, TaskAccess::Lead).unwrap();
    assert!(context_touched_task(true, &item, false));
    assert_eq!(tasks.get_task(1).unwrap().execution_context_id.as_deref(), Some("one"));
    assert_eq!(tasks.get_task(1).unwrap().status, TaskStatus::InProgress);
    assert_eq!(registry.ensure_new_name("one").unwrap_err(), "Execution context 'one' already exists");
    assert_eq!(
        registry.plan_create_for(&create_input("two", Some(1)), "/w/.ctx", &tasks, TaskAccess::Lead).unwrap_err(),
        "Task 1 is already bound to execution context 'one'"
    );

    let removed = registry.record_removed("one", true, &mut tasks, TaskAccess::Lead).unwrap();
    assert_eq!(removed.status, ExecutionContextStatus::Removed);
    assert!(context_touched_task(false, &removed, false));
    assert_eq!(tasks.get_task(1).unwrap().execution_context_id, None);
    assert_eq!(tasks.get_task(1).unwrap().status, TaskStatus::Completed);
    assert_eq!(
        registry.record_removed("one", false, &mut tasks, TaskAccess::Lead).unwrap_err(),
        "Execution context 'one' is already removed"
    );
}

fn ctx(name: &str, status: ExecutionContextStatus) -> ExecutionContextItem {
    ExecutionContextItem {
        name: name.to_string(),
        backend: ExecutionContextBackendKind::GitWorktree,
        path: format!("/w/{name}"),
        task_id: None,
        status,
        git_worktree: Some(GitWorktreeMetadata { branch: format!("wt/{name}") }),
    }
}

#[test]
fn context_disk_snapshots() {
    let state = ExecutionContextDiskState::capture(
        true,
        Some("{}".to_string()),
        None,
        vec![ctx("b", ExecutionContextStatus::Active), ctx("a", ExecutionContextStatus::Removed)],
    );
    let names: Vec<&str> = state.contexts.iter().map(|c| c.name.as_str()).collect();
    assert_eq!(names, vec!["a", "b"]);
    assert!(!state.removes_files());
    assert!(!keeps_backend(&state.contexts[0]));
    assert!(keeps_backend(&state.contexts[1]));
    let missing = ExecutionContextDiskState::capture(false, Some("{}".to_string()), None, vec![ctx("a", ExecutionContextStatus::Kept)]);
    assert!(missing.index.is_none() && missing.contexts.is_empty() && missing.removes_files());
}

// ---- stream frames ----

#[test]
fn frames_are_taken_off_the_buffer() {
    let mut buffer = b"data: a\n\ndata: b\r\n\r\nrest".to_vec();
    assert_eq!(find_frame_boundary(&buffer), Some((7, 2)));
    assert_eq!(take_frame(&mut buffer), Some(b"data: a".to_vec()));
    assert_eq!(take_frame(&mut buffer), Some(b"data: b".to_vec()));
    assert_eq!(buffer, b"rest".to_vec());
    assert_eq!(take_frame(&mut buffer), None);
    assert_eq!(buffer, b"rest".to_vec());
}

// ---- compaction steps and agent task state ----

#[test]
fn remote_compaction_outcomes() {
    let prefer = CompactionRoute::RemoteWithLocalFallback;
    let remote = CompactionRoute::Remote;
    assert_eq!(after_remote(prefer, RemoteOutcome::Summary("s".into())), CompactionStep::UseRemote("s".into()));
    assert_eq!(after_remote(prefer, RemoteOutcome::NoSummary), CompactionStep::SummarizeLocally);
    assert_eq!(after_remote(prefer, RemoteOutcome::Unsupported("x".into())), CompactionStep::SummarizeLocally);
    assert_eq!(
        after_remote(prefer, RemoteOutcome::Failed("boom".into())),
        CompactionStep::Fail(CompactionFailure::Failed("boom".into()))
    );
    assert_eq!(
        after_remote(remote, RemoteOutcome::NoSummary),
        CompactionStep::Fail(CompactionFailure::Unsupported("history_compaction".into()))
    );
    assert_eq!(
        after_remote(remote, RemoteOutcome::Unsupported("x".into())),
        CompactionStep::Fail(CompactionFailure::Unsupported("x".into()))
    );
}

#[test]
fn agent_task_state_refresh_and_restore() {
    let mut store = TaskStore::new();
    assert!(store.execute(create("A", Vec::new()), TaskAccess::Lead).is_ok());
    let mut state = AgentTaskState { name: "alice".into(), teammate: true, tasks: Vec::new(), rounds_since_task: 3 };
    state.refresh_tasks(&store);
    assert_eq!(state.tasks.len(), 1);
    assert_eq!(state.rounds_since_task, 3);
    state.restore_task_state(Vec::new(), 1);
    assert!(state.tasks.is_empty());
    assert_eq!(state.rounds_since_task, 1);
}

#[test]
fn summary_text_joins_and_trims() {
    let blocks = vec!["  {\"goal\":".to_string(), "\"x\"}  ".to_string()];
    assert_eq!(mentra::compaction::summary_text(&blocks), "{\"goal\":\n\"x\"}");
    assert_eq!(mentra::compaction::summary_text(&Vec::new()), "");
}

#[test]
fn registering_a_tool_replaces_one_with_its_name() {
    let mut registry = mentra::runtime::registry::ToolRegistry::new_empty();
    registry.register_tool(ShellTool.spec());
    registry.register_tool(LoadSkillTool.spec());
    registry.register_tool(ToolSpec::builder("shell").description("replacement").build());
    let names: Vec<&str> = registry.tools().iter().map(|s| s.name.as_str()).collect();
    assert_eq!(names, vec!["shell", "load_skill"]);
    assert_eq!(registry.get_tool("shell").unwrap().description.as_deref(), Some("replacement"));
    assert!(registry.get_tool("missing").is_none());
}

#[test]
fn blank_subjects_are_refused() {
    let blank = TaskCreateInput { subject: "  ".to_string(), description: String::new(), owner: String::new(), blocked_by: Vec::new() };
    assert_eq!(mentra::task::tool::validate_create_input(&blank), Err("Task subject must not be empty".to_string()));
    let named = TaskCreateInput { subject: "Plan".to_string(), ..blank };
    assert_eq!(mentra::task::tool::validate_create_input(&named), Ok(()));
}

#[test]
fn restore_plan_deletes_task_files_and_writes_the_snapshot_back() {
    let names: Vec<String> = vec!["notes.txt".into(), "task_2.json".into(), "task_9.json".into(), "task_x.tmp".into()];
    assert_eq!(task_files_among(&names), vec!["task_2.json".to_string(), "task_9.json".to_string()]);

    let state = TaskDiskState::capture(
        true,
        vec![("task_2.json".into(), "two".into()), ("readme".into(), "r".into()), ("task_1.json".into(), "one".into())],
    );
    let plan = state.restore_plan(&names);
    assert_eq!(plan.remove, vec!["task_2.json".to_string(), "task_9.json".to_string()]);
    assert!(!plan.remove_directory);
    assert_eq!(
        plan.write,
        vec![("task_1.json".to_string(), "one".to_string()), ("task_2.json".to_string(), "two".to_string())]
    );

    let empty = TaskDiskState::capture(false, Vec::new());
    let plan = empty.restore_plan(&names);
    assert!(plan.remove_directory);
    assert!(plan.write.is_empty());
    assert_eq!(plan.remove.len(), 2);
}
