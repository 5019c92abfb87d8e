use mentra::provider::model::{ContentBlock, Message, Role};
use mentra::runtime::turn::{RunPhase, TurnAction, TurnEvent, TurnRunner};
use mentra::compaction::{
    approx_token_count, required_tail_start_for_continuation, select_recent_delegation_results,
    select_recent_user_turns, truncate_to_char_boundary, CompactionExecutionMode, CompactionMode,
    CompactionRequest, CompactionRoute, StandardCompactionEngine, TranscriptItem, TranscriptKind,
};
use mentra::runtime::agent_tasks::{has_unfinished_tasks, AgentTaskState};
use mentra::runtime::cancel::CancellationToken;
use mentra::runtime::control::{
    is_transient_provider_error, join_limited_lines, limits_verdict, CommandOutput, CommandSpec,
    LimitExceeded, ProviderFailure, RunOptions, RuntimeHookEvent, RuntimePolicy,
};
use mentra::runtime::execution_context::{
    removal_args, restore_args, stale_contexts, validate_name, validate_task_binding, ContextCreateInput,
    ContextRegistry, ExecutionContextBackendKind, ExecutionContextItem, ExecutionContextStatus,
    GitWorktreeMetadata,
};
use mentra::runtime::tools::{
    check_task_tool, context_tool_kind, is_execution_context_tool, is_task_tool, is_team_tool, ContextToolKind,
};
use mentra::session::permission::{
    PermissionDecision, PermissionRuleScope, RememberedRule, RuleKey, RuleSet, RuleStore,
};
use mentra::task::ops::{TaskAccess, TaskCreateInput};
use mentra::task::store::TaskStore;
use mentra::task::types::{TaskItem, TaskStatus};

// ---- run limits and policy ----

#[test]
fn limits_check_cancellation_then_deadline() {
    assert_eq!(limits_verdict(true, Some(0), 10), Err(LimitExceeded::Cancelled));
    assert_eq!(limits_verdict(false, Some(10), 10), Err(LimitExceeded::DeadlineExceeded));
    assert_eq!(limits_verdict(false, Some(11), 10), Ok(()));
    assert_eq!(limits_verdict(false, None, 10), Ok(()));
}

#[test]
fn run_options_check_against_clock_and_token() {
    let token = CancellationToken::new();
    let options = RunOptions {
        cancellation: Some(token.clone()),
        deadline_ms: None,
        retry_budget: 0,
        tool_budget: None,
        model_budget: Some(3),
    };
    assert_eq!(options.check_limits(), Ok(()));
    token.cancel();
    assert!(token.is_cancelled());
    assert_eq!(options.check_limits(), Err(LimitExceeded::Cancelled));
    assert_eq!(options.tool_budget(), usize::MAX);
    assert_eq!(options.model_budget(), 3);

    let past = RunOptions { cancellation: None, deadline_ms: Some(1), ..RunOptions::default() };
    assert_eq!(past.check_limits(), Err(LimitExceeded::DeadlineExceeded));
}

#[test]
fn default_policy_refuses_commands() {
    let policy = RuntimePolicy::default();
    assert_eq!(policy.background_task_limit(), Some(8));
    assert_eq!(policy.command_timeout_ms(), Some(30_000));
    let error = policy.authorize_command("/work", "/work", false).unwrap_err();
    assert!(error.starts_with("Shell command execution is disabled"));
}

#[test]
fn permissive_policy_checks_background_and_roots() {
    let policy = RuntimePolicy::permissive();
    assert_eq!(policy.authorize_command("/work", "/work/sub", true), Ok(()));
    let error = policy.authorize_command("/work", "/elsewhere", false).unwrap_err();
    assert_eq!(error, "Working directory '/elsewhere' is outside the runtime policy roots");

    let policy = policy.with_allowed_working_root("/elsewhere");
    assert_eq!(policy.authorize_command("/work", "/elsewhere/x", false), Ok(()));

    let no_background = RuntimePolicy::permissive().allow_background_commands(false);
    assert_eq!(
        no_background.authorize_command("/work", "/work", true).unwrap_err(),
        "Background command execution is disabled by the runtime policy."
    );
}

#[test]
fn file_reads_resolve_and_check_roots() {
    let policy = RuntimePolicy::default().with_allowed_read_root("/shared");
    assert_eq!(policy.authorize_file_read("/work", "notes.txt"), Ok("/work/notes.txt".to_string()));
    assert_eq!(policy.authorize_file_read("/work", "/shared/a"), Ok("/shared/a".to_string()));
    assert_eq!(
        policy.authorize_file_read("/work", "/etc/passwd").unwrap_err(),
        "Path '/etc/passwd' is outside the runtime policy read roots"
    );
    // Components, not characters: "/workshop" is not under "/work".
    assert!(policy.authorize_file_read("/work", "/workshop/x").is_err());
}

#[test]
fn policy_builders_set_limits() {
    let policy = RuntimePolicy::default()
        .with_max_background_tasks(2)
        .with_command_timeout(500)
        .with_allowed_env_var("PATH")
        .allow_shell_commands(true);
    assert_eq!(policy.background_task_limit(), Some(2));
    assert_eq!(policy.command_timeout_ms(), Some(500));
    assert_eq!(policy.authorize_command("/w", "/w", false), Ok(()));
}

#[test]
fn foreground_results_report_failures() {
    let ok = CommandOutput { stdout: "out".into(), stderr: String::new(), success: true, status_code: Some(0) };
    assert!(ok.success());
    assert_eq!(ok.foreground_result(), Ok("out".to_string()));

    let err = CommandOutput { stdout: String::new(), stderr: "boom\n".into(), success: false, status_code: Some(2) };
    assert_eq!(err.foreground_result(), Err("boom\n".to_string()));

    let blank = CommandOutput { stdout: String::new(), stderr: "  \n".into(), success: false, status_code: Some(-3) };
    assert_eq!(blank.foreground_result(), Err("Command exited with status -3".to_string()));

    let killed = CommandOutput { stdout: String::new(), stderr: String::new(), success: false, status_code: None };
    assert_eq!(killed.foreground_result(), Err("Command exited unsuccessfully".to_string()));

    let spec = CommandSpec::Shell { command: "ls -la".into() };
    assert_eq!(spec.display(), "ls -la");
}

#[test]
fn hook_events_have_scope_and_type() {
    let event = RuntimeHookEvent::RecoveryPrepared { runtime_instance_id: "rt-1".into() };
    assert_eq!(event.scope(), "rt-1");
    assert_eq!(event.event_type(), "recovery_prepared");
    let event = RuntimeHookEvent::PolicyDenied { agent_id: "a1".into(), tool_name: "bash".into(), reason: "no".into() };
    assert_eq!(event.scope(), "a1");
    assert_eq!(event.event_type(), "policy_denied");
}

#[test]
fn limited_file_lines_are_joined() {
    let lines = vec!["a".to_string(), "b".to_string(), "c".to_string()];
    assert_eq!(join_limited_lines(&lines, Some(2)), "a\nb");
    assert_eq!(join_limited_lines(&lines, None), "a\nb\nc");
    assert_eq!(join_limited_lines(&lines, Some(0)), "");
}

#[test]
fn transient_provider_errors() {
    assert!(is_transient_provider_error(ProviderFailure::Transport));
    assert!(is_transient_provider_error(ProviderFailure::Http { status: 503 }));
    assert!(is_transient_provider_error(ProviderFailure::Http { status: 429 }));
    assert!(is_transient_provider_error(ProviderFailure::Http { status: 408 }));
    assert!(!is_transient_provider_error(ProviderFailure::Http { status: 404 }));
    assert!(!is_transient_provider_error(ProviderFailure::InvalidRequest));
}

// ---- tool names ----

#[test]
fn tool_families_by_name() {
    assert!(is_task_tool("task_claim"));
    assert!(!is_task_tool("task"));
    assert!(is_execution_context_tool("context_keep"));
    assert!(!is_execution_context_tool("context"));
    assert!(is_team_tool("broadcast"));
    assert!(!is_team_tool("team"));
}

// ---- execution contexts ----

fn context(name: &str, status: ExecutionContextStatus) -> ExecutionContextItem {
    ExecutionContextItem {
        name: name.to_string(),
        backend: ExecutionContextBackendKind::GitWorktree,
        path: format!("/ctx/{name}"),
        task_id: None,
        status,
        git_worktree: Some(GitWorktreeMetadata { branch: format!("wt/{name}") }),
    }
}

#[test]
fn context_names_are_checked() {
    assert_eq!(validate_name("  "), Err("Execution context name must not be empty".to_string()));
    assert_eq!(validate_name(" .. "), Err("Execution context name must not be '.' or '..'".to_string()));
    assert_eq!(
        validate_name("a/b"),
        Err("Execution context name must not contain path separators".to_string())
    );
    assert_eq!(
        validate_name("a\\b"),
        Err("Execution context name must not contain path separators".to_string())
    );
    assert_eq!(validate_name("feature-1"), Ok(()));
}

#[test]
fn registry_keeps_name_order_and_statuses() {
    let mut registry = ContextRegistry::from_loaded(vec![
        context("zeta", ExecutionContextStatus::Active),
        context("alpha", ExecutionContextStatus::Active),
    ]);
    let names: Vec<String> = registry.contexts().into_iter().map(|c| c.name).collect();
    assert_eq!(names, vec!["alpha".to_string(), "zeta".to_string()]);

    assert_eq!(registry.get("nope").unwrap_err(), "Execution context 'nope' does not exist");
    let kept = registry.keep("alpha").expect("keep");
    assert_eq!(kept.status, ExecutionContextStatus::Kept);
    let removed = registry.remove("alpha").expect("remove");
    assert_eq!(removed.status, ExecutionContextStatus::Removed);
    assert_eq!(registry.remove("alpha").unwrap_err(), "Execution context 'alpha' is already removed");
    assert_eq!(registry.keep("alpha").unwrap_err(), "Execution context 'alpha' is already removed");
    assert_eq!(registry.resolve_path("alpha").unwrap_err(), "Execution context 'alpha' has been removed");
    assert_eq!(registry.resolve_path("zeta").expect("zeta").name, "zeta");

    let listed = registry.list();
    assert_eq!(listed.contexts.len(), 2);
    assert_eq!(listed.active.len(), 1);
    assert_eq!(listed.removed.len(), 1);
    assert_eq!(listed.kept.len(), 0);
}

#[test]
fn create_plan_names_branch_and_git_arguments() {
    let mut registry = ContextRegistry::new();
    let input = ContextCreateInput { name: "feat".into(), task_id: None, backend: None, from_ref: None };
    let plan = registry.plan_create(&input, "/ctx", None, TaskAccess::Lead).expect("plan");
    assert_eq!(plan.item.path, "/ctx/feat");
    assert_eq!(plan.item.git_worktree.as_ref().map(|g| g.branch.as_str()), Some("wt/feat"));
    assert_eq!(plan.git_args, vec!["worktree", "add", "-b", "wt/feat", "/ctx/feat", "HEAD"]);
    registry.insert(plan.item);
    let again = registry.plan_create(&input, "/ctx", None, TaskAccess::Lead).unwrap_err();
    assert_eq!(again, "Execution context 'feat' already exists");
}

#[test]
fn task_binding_rules() {
    let mut store = TaskStore::new();
    store
        .create(TaskCreateInput { subject: "A".into(), description: String::new(), owner: "alice".into(), blocked_by: Vec::new() })
        .expect("create");
    let task = store.get_task(1).expect("task");
    assert_eq!(validate_task_binding(&task, TaskAccess::Teammate("alice")), Ok(()));
    assert_eq!(
        validate_task_binding(&task, TaskAccess::Teammate("bob")).unwrap_err(),
        "Teammate 'bob' cannot bind execution context for task 1 owned by 'alice'"
    );
    let mut done = task.clone();
    done.status = TaskStatus::Completed;
    assert_eq!(
        validate_task_binding(&done, TaskAccess::Lead).unwrap_err(),
        "Task 1 is already completed and cannot bind an execution context"
    );
    let mut bound = task.clone();
    bound.execution_context_id = Some("c1".into());
    assert_eq!(
        validate_task_binding(&bound, TaskAccess::Lead).unwrap_err(),
        "Task 1 is already bound to execution context 'c1'"
    );
}

#[test]
fn git_arguments_for_removal_and_restore() {
    let c = context("x", ExecutionContextStatus::Active);
    assert_eq!(removal_args(&c, true), vec!["worktree", "remove", "--force", "/ctx/x"]);
    assert_eq!(removal_args(&c, false), vec!["worktree", "remove", "/ctx/x"]);
    assert_eq!(restore_args(&c), Ok(vec!["worktree".to_string(), "add".into(), "/ctx/x".into(), "wt/x".into()]));
    let mut bare = c.clone();
    bare.git_worktree = None;
    assert_eq!(restore_args(&bare).unwrap_err(), "Execution context 'x' is missing git worktree metadata");
}

#[test]
fn restore_removes_contexts_absent_or_removed_in_target() {
    let current = vec![
        context("a", ExecutionContextStatus::Active),
        context("b", ExecutionContextStatus::Active),
        context("c", ExecutionContextStatus::Active),
    ];
    let target = vec![
        context("a", ExecutionContextStatus::Active),
        context("b", ExecutionContextStatus::Removed),
    ];
    let stale: Vec<String> = stale_contexts(&current, &target).into_iter().map(|c| c.name).collect();
    assert_eq!(stale, vec!["b".to_string(), "c".to_string()]);
}

// ---- agent bookkeeping ----

fn task(id: u64, owner: &str, status: TaskStatus, ctx: Option<&str>) -> TaskItem {
    TaskItem {
        id,
        subject: String::new(),
        description: String::new(),
        status,
        blocked_by: Vec::new(),
        blocks: Vec::new(),
        owner: owner.into(),
        execution_context_id: ctx.map(|c| c.to_string()),
    }
}

#[test]
fn system_prompt_sections() {
    let state = AgentTaskState {
        name: "alice".into(),
        teammate: true,
        tasks: vec![task(1, "alice", TaskStatus::Pending, None)],
        rounds_since_task: 3,
    };
    assert!(has_unfinished_tasks(&state.tasks));
    assert!(state.owns_unfinished_tasks());
    assert!(state.should_remind_missing_execution_context(true));
    assert!(!state.should_remind_missing_execution_context(false));
    let prompt = state.effective_system_prompt(3, true, Some("Base"), None).expect("prompt");
    let sections: Vec<&str> = prompt.split("\n\n").collect();
    assert_eq!(sections.len(), 3);
    assert!(sections[0].starts_with("Reminder: use task_create"));
    assert!(sections[1].starts_with("Reminder: if you own an unfinished task"));
    assert_eq!(sections[2], "Base");

    let quiet = AgentTaskState { rounds_since_task: 0, teammate: false, ..state };
    assert_eq!(quiet.effective_system_prompt(3, true, None, None), None);
    assert_eq!(quiet.effective_system_prompt(3, true, None, Some("skills".into())), Some("skills".to_string()));
}

#[test]
fn rounds_count_only_while_tasks_remain() {
    let mut state = AgentTaskState {
        name: "lead".into(),
        teammate: false,
        tasks: vec![task(1, "", TaskStatus::Completed, None)],
        rounds_since_task: 0,
    };
    state.note_round_without_task();
    assert_eq!(state.rounds_since_task, 0);
    state.tasks.push(task(2, "", TaskStatus::Pending, None));
    state.note_round_without_task();
    assert_eq!(state.rounds_since_task, 1);
    state.record_task_activity();
    assert_eq!(state.rounds_since_task, 0);
    assert_eq!(state.task_access(), TaskAccess::Lead);
}

#[test]
fn agent_claims_only_without_unfinished_work() {
    let mut store = TaskStore::new();
    store
        .create(TaskCreateInput { subject: "A".into(), description: String::new(), owner: String::new(), blocked_by: Vec::new() })
        .expect("create");
    store
        .create(TaskCreateInput { subject: "B".into(), description: String::new(), owner: String::new(), blocked_by: Vec::new() })
        .expect("create");
    let mut agent = AgentTaskState { name: "alice".into(), teammate: true, tasks: Vec::new(), rounds_since_task: 0 };
    let first = agent.try_claim_ready_task(&mut store).expect("claim").expect("a task");
    assert_eq!(first.id, 1);
    assert_eq!(agent.tasks.len(), 2);
    assert_eq!(agent.task_access(), TaskAccess::Teammate("alice"));
    let second = agent.try_claim_ready_task(&mut store).expect("no error");
    assert!(second.is_none());
}

// ---- permissions ----

fn rule(tool: &str, allow: bool) -> RememberedRule {
    RememberedRule {
        key: RuleKey { tool_name: tool.into(), pattern: None },
        allow,
        scope: PermissionRuleScope::Session,
    }
}

#[test]
fn remembered_rules_are_found_and_replaced() {
    let store = RuleStore::new();
    assert_eq!(store.check("bash"), None);
    store.add_rule(rule("bash", true));
    assert_eq!(store.check("bash"), Some(true));
    store.add_rule(rule("bash", false));
    assert_eq!(store.check("bash"), Some(false));
    assert_eq!(store.rules().len(), 1);
    store.add_rule(RememberedRule {
        key: RuleKey { tool_name: "bash".into(), pattern: Some("ls *".into()) },
        allow: true,
        scope: PermissionRuleScope::Session,
    });
    assert_eq!(store.check("bash"), Some(false));
    assert_eq!(store.rules().len(), 2);
    store.clear_scope(PermissionRuleScope::Session);
    assert!(store.rules().is_empty());
    assert_eq!(store.check("bash"), None);
}

#[test]
fn permission_decisions() {
    assert_eq!(PermissionDecision::allow(), PermissionDecision { allow: true, remember_as: None });
    assert_eq!(PermissionDecision::deny(), PermissionDecision { allow: false, remember_as: None });
    assert_eq!(
        PermissionDecision::allow_and_remember(PermissionRuleScope::Session).remember_as,
        Some(PermissionRuleScope::Session)
    );
    assert!(!PermissionDecision::deny_and_remember(PermissionRuleScope::Session).allow);
}

// ---- compaction ----

fn item(kind: TranscriptKind, text: &str) -> TranscriptItem {
    TranscriptItem { kind, text: text.into() }
}

#[test]
fn token_estimates_and_truncation() {
    assert_eq!(approx_token_count(""), 0);
    assert_eq!(approx_token_count("abcd"), 1);
    assert_eq!(approx_token_count("abcde"), 2);
    assert_eq!(truncate_to_char_boundary("héllo", 2), "hé");
    assert_eq!(truncate_to_char_boundary("hi", 5), "hi");
}

#[test]
fn tail_keeps_tool_exchange_with_its_assistant_turn() {
    let items = vec![
        item(TranscriptKind::UserTurn, "q"),
        item(TranscriptKind::AssistantTurn, "calling"),
        item(TranscriptKind::ToolExchange { is_error: false }, "result"),
    ];
    assert_eq!(required_tail_start_for_continuation(&items), 1);
    assert_eq!(required_tail_start_for_continuation(&items[..1].to_vec()), 0);
    assert_eq!(required_tail_start_for_continuation(&Vec::new()), 0);
}

#[test]
fn recent_user_turns_fit_the_budget() {
    let items = vec![
        item(TranscriptKind::UserTurn, "aaaaaaaa"),
        item(TranscriptKind::AssistantTurn, "x"),
        item(TranscriptKind::UserTurn, "bbbb"),
        item(TranscriptKind::UserTurn, "cccc"),
    ];
    let kept = select_recent_user_turns(&items, 2);
    assert_eq!(kept.iter().map(|i| i.text.as_str()).collect::<Vec<_>>(), vec!["bbbb", "cccc"]);
    let newest_only = select_recent_user_turns(&items, 0);
    assert_eq!(newest_only.len(), 1);
    assert_eq!(newest_only[0].text, "cccc");
}

#[test]
fn recent_delegation_results_are_limited() {
    let items = vec![
        item(TranscriptKind::DelegationResult, "r1"),
        item(TranscriptKind::UserTurn, "u"),
        item(TranscriptKind::DelegationResult, "r2"),
        item(TranscriptKind::DelegationResult, "r3"),
    ];
    let kept = select_recent_delegation_results(&items, 2);
    assert_eq!(kept.iter().map(|i| i.text.as_str()).collect::<Vec<_>>(), vec!["r2", "r3"]);
}

#[test]
fn compaction_assembles_replacement_transcript() {
    let engine = StandardCompactionEngine;
    let request = CompactionRequest {
        model: "m".into(),
        transcript: vec![
            item(TranscriptKind::UserTurn, "first"),
            item(TranscriptKind::DelegationResult, "done"),
            item(TranscriptKind::AssistantTurn, "working"),
            item(TranscriptKind::UserTurn, "latest"),
        ],
        transcript_dir: "/tmp".into(),
        summary_max_input_chars: 100,
        summary_max_output_tokens: 100,
        preserve_recent_user_tokens: 10,
        preserve_recent_delegation_results: 1,
        mode: CompactionMode::default(),
    };
    let from = engine.window(&request).expect("something to compact");
    assert_eq!(from, 3);
    let outcome = engine.assemble(&request, from, CompactionExecutionMode::Local, "summary".into(), "/tmp/1.jsonl".into());
    let kinds: Vec<TranscriptKind> = outcome.transcript.iter().map(|i| i.kind).collect();
    assert_eq!(
        kinds,
        vec![
            TranscriptKind::UserTurn,
            TranscriptKind::DelegationResult,
            TranscriptKind::CompactionSummary,
            TranscriptKind::UserTurn
        ]
    );
    assert_eq!(outcome.replaced_items, 3);
    assert_eq!(outcome.preserved_items, 1);
    assert_eq!(outcome.preserved_user_turns, 1);
    assert_eq!(outcome.preserved_delegation_results, 1);
    assert_eq!(engine.route(CompactionMode::PreferRemote, false), CompactionRoute::Local);
    assert_eq!(engine.route(CompactionMode::RemoteOnly, false), CompactionRoute::Unsupported);
    assert_eq!(engine.route(CompactionMode::PreferRemote, true), CompactionRoute::RemoteWithLocalFallback);
}

#[test]
fn agent_run_asks_the_model_runs_each_tool_and_finishes() {
    let mut runner = TurnRunner::new(vec![Message::user(ContentBlock::text("earlier"))]);
    assert_eq!(runner.step(TurnEvent::ToolFinished(ContentBlock::text("stray"))), TurnAction::Ignore);
    assert_eq!(runner.step(TurnEvent::Send(vec![ContentBlock::text("hi")])), TurnAction::RequestModel);
    assert_eq!(runner.phase, RunPhase::AwaitingModel);
    assert_eq!(runner.history.len(), 2);
    assert_eq!(runner.step(TurnEvent::Send(vec![ContentBlock::text("again")])), TurnAction::Ignore);

    let call = Message::assistant(ContentBlock::text("calling tools"));
    assert_eq!(runner.step(TurnEvent::ModelTurn { message: call, tool_calls: 2 }), TurnAction::ExecuteTool(0));
    let result = |id: &str| ContentBlock::ToolResult { tool_use_id: id.to_string(), content: "ok".into(), is_error: false };
    assert_eq!(runner.step(TurnEvent::ToolFinished(result("a"))), TurnAction::ExecuteTool(1));
    assert_eq!(runner.step(TurnEvent::ToolFinished(result("b"))), TurnAction::RequestModel);
    assert_eq!(runner.history.len(), 4);
    assert_eq!(runner.history[3].role, Role::User);
    assert_eq!(runner.history[3].content, vec![result("a"), result("b")]);

    let done = Message::assistant(ContentBlock::text("done"));
    assert_eq!(runner.step(TurnEvent::ModelTurn { message: done, tool_calls: 0 }), TurnAction::Finish);
    assert_eq!(runner.phase, RunPhase::Finished);
    assert_eq!(runner.history.len(), 5);
}

#[test]
fn failed_agent_run_restores_the_history() {
    let before = vec![Message::user(ContentBlock::text("earlier")), Message::assistant(ContentBlock::text("reply"))];
    let mut runner = TurnRunner::new(before.clone());
    runner.step(TurnEvent::Send(vec![ContentBlock::text("hi")]));
    runner.step(TurnEvent::ModelTurn { message: Message::assistant(ContentBlock::text("tool")), tool_calls: 1 });
    assert_eq!(
        runner.step(TurnEvent::Failed("stream broke".to_string())),
        TurnAction::Fail("stream broke".to_string())
    );
    assert_eq!(runner.phase, RunPhase::Failed);
    assert_eq!(runner.history, before);
    assert_eq!(runner.step(TurnEvent::Failed("again".to_string())), TurnAction::Ignore);
}

#[test]
fn rule_store_clones_share_one_set() {
    let store = RuleStore::default();
    let copy = store.clone();
    copy.add_rule(rule("bash", true));
    assert_eq!(store.check("bash"), Some(true));
    assert_eq!(store.rules(), vec![rule("bash", true)]);
    store.add_rule(rule("bash", false));
    assert_eq!(copy.check("bash"), Some(false));
    let third = copy.clone();
    third.add_rule(rule("edit", true));
    assert_eq!(store.check("edit"), Some(true));
    copy.clear_scope(PermissionRuleScope::Session);
    assert!(store.rules().is_empty());
}

#[test]
fn rule_set_keeps_one_rule_per_key() {
    let mut set = RuleSet::new();
    set.add_rule(rule("bash", true));
    set.add_rule(rule("read", false));
    set.add_rule(rule("bash", false));
    assert_eq!(set.rules(), vec![rule("bash", false), rule("read", false)]);
    assert_eq!(set.check("bash"), Some(false));
    assert_eq!(set.check("write"), None);
    set.clear_scope(PermissionRuleScope::Session);
    assert!(set.rules().is_empty());
}

#[test]
fn idle_requests_are_reset_by_a_new_run_and_by_failure() {
    let mut runner = TurnRunner::new(Vec::new());
    runner.request_idle();
    assert!(runner.take_idle_requested());
    assert!(!runner.take_idle_requested());
    runner.request_idle();
    runner.step(TurnEvent::Send(vec![ContentBlock::text("hi")]));
    assert!(!runner.idle_requested);
    runner.request_idle();
    runner.step(TurnEvent::Failed("boom".to_string()));
    assert!(!runner.idle_requested);
    assert_eq!(runner.phase, RunPhase::Failed);
}

#[test]
fn tool_names_are_routed_or_refused() {
    assert_eq!(context_tool_kind("context_keep"), Ok(ContextToolKind::Keep));
    assert_eq!(context_tool_kind("context_create"), Ok(ContextToolKind::Create));
    assert_eq!(
        context_tool_kind("task_get"),
        Err("Tool 'task_get' is not an execution context tool".to_string())
    );
    assert_eq!(check_task_tool("task_list"), Ok(()));
    assert_eq!(check_task_tool("shell"), Err("Tool 'shell' is not a task tool".to_string()));
}
