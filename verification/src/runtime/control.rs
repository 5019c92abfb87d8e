//! Run limits, the runtime's command and file-read policy, command results and hook events.
use vstd::prelude::*;

use super::cancel::CancellationToken;
use super::clock::now_unix_millis;
use super::paths::{is_absolute, join, path_is_absolute, path_joined, path_starts_with, starts_with};
use crate::text::{decimal, push_char, push_decimal, trim_text, trimmed};

verus! {

/// Why a run stops before its next step.
#[derive(Debug, Clone, Copy, PartialEq, Eq, Structural)]
pub enum LimitExceeded {
    Cancelled,
    DeadlineExceeded,
}

/// Limits of one agent run; the deadline is in milliseconds since the UNIX epoch.
#[derive(Clone)]
pub struct RunOptions {
    pub cancellation: Option<CancellationToken>,
    pub deadline_ms: Option<u64>,
    pub retry_budget: usize,
    pub tool_budget: Option<usize>,
    pub model_budget: Option<usize>,
}

impl Default for RunOptions {
    fn default() -> (r: RunOptions)
        ensures
            r.cancellation is None,
            r.deadline_ms is None,
            r.retry_budget == 0,
            r.tool_budget is None,
            r.model_budget is None,
    {
        RunOptions { cancellation: None, deadline_ms: None, retry_budget: 0, tool_budget: None, model_budget: None }
    }
}

/// The verdict on a run's limits: cancellation first, then a deadline reached at `now_ms`.
pub open spec fn spec_limits(cancelled: bool, deadline_ms: Option<u64>, now_ms: u64) -> Result<(), LimitExceeded> {
    if cancelled {
        Err(LimitExceeded::Cancelled)
    } else if deadline_ms matches Some(d) && now_ms >= d {
        Err(LimitExceeded::DeadlineExceeded)
    } else {
        Ok(())
    }
}

/// Decides whether a run may go on, given whether it was cancelled and the time `now_ms`.
pub fn limits_verdict(cancelled: bool, deadline_ms: Option<u64>, now_ms: u64) -> (r: Result<(), LimitExceeded>)
    ensures
        r == spec_limits(cancelled, deadline_ms, now_ms),
{
    if cancelled {
        return Err(LimitExceeded::Cancelled);
    }
    match deadline_ms {
        Some(d) => if now_ms >= d {
            Err(LimitExceeded::DeadlineExceeded)
        } else {
            Ok(())
        },
        None => Ok(()),
    }
}

impl RunOptions {
    /// Checks cancellation and the deadline against the clock: the verdict of `spec_limits`
    /// on whether the token (if any) was found cancelled and on the time read from the clock.
    pub fn check_limits(&self) -> (r: Result<(), LimitExceeded>)
        ensures
            exists|cancelled: bool, now_ms: u64|
                (cancelled ==> self.cancellation is Some) && r == #[trigger] spec_limits(
                    cancelled,
                    self.deadline_ms,
                    now_ms,
                ),
    {
        let cancelled = match &self.cancellation {
            Some(token) => token.is_cancelled(),
            None => false,
        };
        let now_ms = match self.deadline_ms {
            Some(_) => now_unix_millis(),
            None => 0,
        };
        let r = limits_verdict(cancelled, self.deadline_ms, now_ms);
        assert(r == spec_limits(cancelled, self.deadline_ms, now_ms));
        r
    }

    /// Tool calls allowed in the run; unlimited without a budget.
    pub fn tool_budget(&self) -> (r: usize)
        ensures
            r == match self.tool_budget {
                Some(b) => b,
                None => usize::MAX,
            },
    {
        match self.tool_budget {
            Some(b) => b,
            None => usize::MAX,
        }
    }

    /// Model requests allowed in the run; unlimited without a budget.
    pub fn model_budget(&self) -> (r: usize)
        ensures
            r == match self.model_budget {
                Some(b) => b,
                None => usize::MAX,
            },
    {
        match self.model_budget {
            Some(b) => b,
            None => usize::MAX,
        }
    }
}

/// What the runtime lets agents do: run shell and background commands, in which working
/// directories, and which files they may read. The command timeout is in milliseconds.
#[derive(Debug, Clone)]
pub struct RuntimePolicy {
    allow_shell_commands: bool,
    allow_background_commands: bool,
    allowed_working_roots: Vec<String>,
    allowed_read_roots: Vec<String>,
    allowed_env_vars: Vec<String>,
    background_task_limit: Option<usize>,
    command_timeout_ms: Option<u64>,
}

pub struct RuntimePolicyView {
    pub allow_shell_commands: bool,
    pub allow_background_commands: bool,
    pub allowed_working_roots: Seq<Seq<char>>,
    pub allowed_read_roots: Seq<Seq<char>>,
    pub allowed_env_vars: Seq<Seq<char>>,
    pub background_task_limit: Option<usize>,
    pub command_timeout_ms: Option<u64>,
}

pub open spec fn texts(v: Seq<String>) -> Seq<Seq<char>> {
    v.map_values(|s: String| s@)
}

impl View for RuntimePolicy {
    type V = RuntimePolicyView;

    closed spec fn view(&self) -> RuntimePolicyView {
        RuntimePolicyView {
            allow_shell_commands: self.allow_shell_commands,
            allow_background_commands: self.allow_background_commands,
            allowed_working_roots: texts(self.allowed_working_roots@),
            allowed_read_roots: texts(self.allowed_read_roots@),
            allowed_env_vars: texts(self.allowed_env_vars@),
            background_task_limit: self.background_task_limit,
            command_timeout_ms: self.command_timeout_ms,
        }
    }
}

/// The default command timeout: thirty seconds.
pub const DEFAULT_COMMAND_TIMEOUT_MS: u64 = 30_000;

/// The default limit of concurrent background tasks.
pub const DEFAULT_BACKGROUND_TASK_LIMIT: usize = 8;

impl Default for RuntimePolicy {
    /// Nothing allowed, no extra roots, eight background tasks, a thirty-second timeout.
    fn default() -> (r: RuntimePolicy)
        ensures
            r@ == (RuntimePolicyView {
                allow_shell_commands: false,
                allow_background_commands: false,
                allowed_working_roots: Seq::empty(),
                allowed_read_roots: Seq::empty(),
                allowed_env_vars: Seq::empty(),
                background_task_limit: Some(DEFAULT_BACKGROUND_TASK_LIMIT),
                command_timeout_ms: Some(DEFAULT_COMMAND_TIMEOUT_MS),
            }),
    {
        let r = RuntimePolicy {
            allow_shell_commands: false,
            allow_background_commands: false,
            allowed_working_roots: Vec::new(),
            allowed_read_roots: Vec::new(),
            allowed_env_vars: Vec::new(),
            background_task_limit: Some(DEFAULT_BACKGROUND_TASK_LIMIT),
            command_timeout_ms: Some(DEFAULT_COMMAND_TIMEOUT_MS),
        };
        assert(texts(r.allowed_working_roots@) =~= Seq::empty());
        assert(texts(r.allowed_read_roots@) =~= Seq::empty());
        assert(texts(r.allowed_env_vars@) =~= Seq::empty());
        r
    }
}

/// The message refusing shell commands.
pub const SHELL_DISABLED: &'static str = "Shell command execution is disabled by the runtime policy. Use RuntimeBuilder::with_policy(...) to opt in.";

/// The message refusing background commands.
pub const BACKGROUND_DISABLED: &'static str = "Background command execution is disabled by the runtime policy.";

/// `path` lies under `default_root` or under one of `extra_roots`.
pub open spec fn spec_path_allowed(path: Seq<char>, default_root: Seq<char>, extra_roots: Seq<Seq<char>>) -> bool {
    path_starts_with(path, default_root) || exists|i: int|
        0 <= i < extra_roots.len() && path_starts_with(path, #[trigger] extra_roots[i])
}

/// Whether `path` lies under `default_root` or under one of `extra_roots`.
pub fn path_is_allowed(path: &str, default_root: &str, extra_roots: &Vec<String>) -> (r: bool)
    ensures
        r == spec_path_allowed(path@, default_root@, texts(extra_roots@)),
{
    if starts_with(path, default_root) {
        return true;
    }
    let mut i: usize = 0;
    while i < extra_roots.len()
        invariant
            i <= extra_roots@.len(),
            forall|k: int| 0 <= k < i ==> !path_starts_with(path@, #[trigger] texts(extra_roots@)[k]),
        decreases extra_roots.len() - i,
    {
        if starts_with(path, extra_roots[i].as_str()) {
            assert(path_starts_with(path@, texts(extra_roots@)[i as int]));
            return true;
        }
        i += 1;
    }
    false
}

pub open spec fn outside_roots_message(cwd: Seq<char>) -> Seq<char> {
    "Working directory '"@ + cwd + "' is outside the runtime policy roots"@
}

pub open spec fn outside_read_roots_message(path: Seq<char>) -> Seq<char> {
    "Path '"@ + path + "' is outside the runtime policy read roots"@
}

/// The path a read of `path` resolves to: itself when absolute, else under `base_dir`.
pub open spec fn resolved_read_path(base_dir: Seq<char>, path: Seq<char>) -> Seq<char> {
    if path_is_absolute(path) {
        path
    } else {
        path_joined(base_dir, path)
    }
}

/// `prefix`, the text of `middle`, then `suffix`.
fn framed(prefix: &str, middle: &str, suffix: &str) -> (r: String)
    ensures
        r@ == prefix@ + middle@ + suffix@,
{
    let mut s = prefix.to_owned();
    s.append(middle);
    s.append(suffix);
    s
}

impl RuntimePolicy {
    /// The default policy with shell and background commands allowed.
    pub fn permissive() -> (r: RuntimePolicy)
        ensures
            r@ == (RuntimePolicyView {
                allow_shell_commands: true,
                allow_background_commands: true,
                allowed_working_roots: Seq::empty(),
                allowed_read_roots: Seq::empty(),
                allowed_env_vars: Seq::empty(),
                background_task_limit: Some(DEFAULT_BACKGROUND_TASK_LIMIT),
                command_timeout_ms: Some(DEFAULT_COMMAND_TIMEOUT_MS),
            }),
    {
        let mut r = RuntimePolicy::default();
        r.allow_shell_commands = true;
        r.allow_background_commands = true;
        r
    }

    pub fn allow_shell_commands(self, allow: bool) -> (r: RuntimePolicy)
        ensures
            r@ == (RuntimePolicyView { allow_shell_commands: allow, ..self@ }),
    {
        let mut r = self;
        r.allow_shell_commands = allow;
        r
    }

    pub fn allow_background_commands(self, allow: bool) -> (r: RuntimePolicy)
        ensures
            r@ == (RuntimePolicyView { allow_background_commands: allow, ..self@ }),
    {
        let mut r = self;
        r.allow_background_commands = allow;
        r
    }

    /// Adds a root under which commands may run.
    pub fn with_allowed_working_root(self, path: &str) -> (r: RuntimePolicy)
        ensures
            r@ == (RuntimePolicyView { allowed_working_roots: self@.allowed_working_roots.push(path@), ..self@ }),
    {
        let mut r = self;
        r.allowed_working_roots.push(path.to_owned());
        assert(texts(r.allowed_working_roots@) =~= texts(self.allowed_working_roots@).push(path@));
        r
    }

    /// Adds a root under which files may be read.
    pub fn with_allowed_read_root(self, path: &str) -> (r: RuntimePolicy)
        ensures
            r@ == (RuntimePolicyView { allowed_read_roots: self@.allowed_read_roots.push(path@), ..self@ }),
    {
        let mut r = self;
        r.allowed_read_roots.push(path.to_owned());
        assert(texts(r.allowed_read_roots@) =~= texts(self.allowed_read_roots@).push(path@));
        r
    }

    /// Adds an environment variable that commands may see.
    pub fn with_allowed_env_var(self, name: &str) -> (r: RuntimePolicy)
        ensures
            r@ == (RuntimePolicyView { allowed_env_vars: self@.allowed_env_vars.push(name@), ..self@ }),
    {
        let mut r = self;
        r.allowed_env_vars.push(name.to_owned());
        assert(texts(r.allowed_env_vars@) =~= texts(self.allowed_env_vars@).push(name@));
        r
    }

    pub fn with_max_background_tasks(self, limit: usize) -> (r: RuntimePolicy)
        ensures
            r@ == (RuntimePolicyView { background_task_limit: Some(limit), ..self@ }),
    {
        let mut r = self;
        r.background_task_limit = Some(limit);
        r
    }

    /// Sets the command timeout, in milliseconds.
    pub fn with_command_timeout(self, timeout_ms: u64) -> (r: RuntimePolicy)
        ensures
            r@ == (RuntimePolicyView { command_timeout_ms: Some(timeout_ms), ..self@ }),
    {
        let mut r = self;
        r.command_timeout_ms = Some(timeout_ms);
        r
    }

    pub fn background_task_limit(&self) -> (r: Option<usize>)
        ensures
            r == self@.background_task_limit,
    {
        self.background_task_limit
    }

    pub fn command_timeout_ms(&self) -> (r: Option<u64>)
        ensures
            r == self@.command_timeout_ms,
    {
        self.command_timeout_ms
    }

    /// May a command run in `cwd` (in the background when `background`), given the agent's
    /// base directory `base_dir`?
    pub fn authorize_command(&self, base_dir: &str, cwd: &str, background: bool) -> (r: Result<(), String>)
        ensures
            !self@.allow_shell_commands ==> (r matches Err(m) && m@ == SHELL_DISABLED@),
            self@.allow_shell_commands && background && !self@.allow_background_commands ==> (r matches Err(m)
                && m@ == BACKGROUND_DISABLED@),
            self@.allow_shell_commands && (!background || self@.allow_background_commands) ==> match r {
                Ok(()) => spec_path_allowed(cwd@, base_dir@, self@.allowed_working_roots),
                Err(m) => !spec_path_allowed(cwd@, base_dir@, self@.allowed_working_roots) && m@
                    == outside_roots_message(cwd@),
            },
    {
        if !self.allow_shell_commands {
            return Err(SHELL_DISABLED.to_owned());
        }
        if background && !self.allow_background_commands {
            return Err(BACKGROUND_DISABLED.to_owned());
        }
        if !path_is_allowed(cwd, base_dir, &self.allowed_working_roots) {
            return Err(framed("Working directory '", cwd, "' is outside the runtime policy roots"));
        }
        Ok(())
    }

    /// The path that reading `path` from `base_dir` resolves to, if it lies under the base
    /// directory or an allowed read root.
    pub fn authorize_file_read(&self, base_dir: &str, path: &str) -> (r: Result<String, String>)
        ensures
            ({
                let resolved = resolved_read_path(base_dir@, path@);
                if spec_path_allowed(resolved, base_dir@, self@.allowed_read_roots) {
                    r matches Ok(p) && p@ == resolved
                } else {
                    r matches Err(m) && m@ == outside_read_roots_message(resolved)
                }
            }),
    {
        let resolved = if is_absolute(path) {
            path.to_owned()
        } else {
            join(base_dir, path)
        };
        if path_is_allowed(resolved.as_str(), base_dir, &self.allowed_read_roots) {
            Ok(resolved)
        } else {
            Err(framed("Path '", resolved.as_str(), "' is outside the runtime policy read roots"))
        }
    }
}

/// The outcome of a finished command.
#[derive(Debug, Clone, PartialEq, Eq)]
pub struct CommandOutput {
    pub stdout: String,
    pub stderr: String,
    pub success: bool,
    pub status_code: Option<i32>,
}

/// Decimal notation of a signed number.
pub open spec fn signed_decimal(i: int) -> Seq<char> {
    if i < 0 {
        "-"@ + decimal((-i) as nat)
    } else {
        decimal(i as nat)
    }
}

/// What a failed foreground command reports: its standard error, or, when that is blank, its
/// exit status.
pub open spec fn failure_message(stderr: Seq<char>, status_code: Option<i32>) -> Seq<char> {
    if trimmed(stderr).len() == 0 {
        match status_code {
            Some(code) => "Command exited with status "@ + signed_decimal(code as int),
            None => "Command exited unsuccessfully"@,
        }
    } else {
        stderr
    }
}

/// Appends the decimal notation of `code`, with a leading `-` when it is negative.
pub(crate) fn push_signed_decimal(out: &mut String, code: i32)
    ensures
        final(out)@ == old(out)@ + signed_decimal(code as int),
{
    let ghost start = out@;
    if code < 0 {
        push_char(out, '-');
        let magnitude: u64 = (0i64 - (code as i64)) as u64;
        push_decimal(out, magnitude);
        proof {
            reveal_strlit("-");
            assert(out@ =~= start + ("-"@ + decimal((-(code as int)) as nat)));
        }
    } else {
        push_decimal(out, code as u64);
    }
}

impl CommandOutput {
    pub fn success(&self) -> (r: bool)
        ensures
            r == self.success,
    {
        self.success
    }

    /// The command's standard output on success; otherwise its failure message.
    pub fn foreground_result(self) -> (r: Result<String, String>)
        ensures
            self.success ==> (r matches Ok(out) && out@ == self.stdout@),
            !self.success ==> (r matches Err(m) && m@ == failure_message(self.stderr@, self.status_code)),
    {
        if self.success {
            return Ok(self.stdout);
        }
        let trimmed_err = trim_text(self.stderr.as_str());
        if !trimmed_err.as_str().is_empty() {
            return Err(self.stderr);
        }
        match self.status_code {
            Some(code) => {
                let mut m = "Command exited with status ".to_owned();
                push_signed_decimal(&mut m, code);
                Err(m)
            },
            None => Err("Command exited unsuccessfully".to_owned()),
        }
    }
}

/// The command a request runs.
#[derive(Debug, Clone, PartialEq, Eq)]
pub enum CommandSpec {
    Shell { command: String },
}

impl CommandSpec {
    /// The command line, as shown to users.
    pub fn display(&self) -> (r: &str)
        ensures
            match self {
                CommandSpec::Shell { command } => r@ == command@,
            },
    {
        match self {
            CommandSpec::Shell { command } => command.as_str(),
        }
    }
}

/// A command to run in `cwd`, with an optional timeout in milliseconds.
#[derive(Debug, Clone, PartialEq, Eq)]
pub struct CommandRequest {
    pub spec: CommandSpec,
    pub cwd: String,
    pub timeout_ms: Option<u64>,
}

/// The request for running `command` in `cwd`.
pub fn shell_request(command: &str, cwd: &str, timeout_ms: Option<u64>) -> (r: CommandRequest)
    ensures
        r.spec matches CommandSpec::Shell { command: c } && c@ == command@,
        r.cwd@ == cwd@,
        r.timeout_ms == timeout_ms,
{
    CommandRequest { spec: CommandSpec::Shell { command: command.to_owned() }, cwd: cwd.to_owned(), timeout_ms }
}

/// Lifecycle events reported to runtime hooks.
#[derive(Debug, Clone)]
pub enum RuntimeHookEvent {
    AuthorizationDenied { agent_id: String, action: String, detail: String },
    RecoveryPrepared { runtime_instance_id: String },
    ModelRequestStarted { agent_id: String, model: String, attempt: usize },
    ModelRequestFinished { agent_id: String, model: String, attempt: usize, success: bool, error: Option<String> },
    ToolExecutionStarted { agent_id: String, tool_name: String, tool_call_id: String },
    ToolExecutionFinished {
        agent_id: String,
        tool_name: String,
        tool_call_id: String,
        is_error: bool,
        error: Option<String>,
        output_preview: String,
    },
    PolicyDenied { agent_id: String, tool_name: String, reason: String },
    BackgroundTaskStarted { agent_id: String, task_id: String, command: String, cwd: String },
    BackgroundTaskFinished { agent_id: String, task_id: String, status: String },
    RunAborted { agent_id: String, reason: String },
}

/// The scope an event is recorded under: the runtime instance for recovery, else the agent.
pub open spec fn event_scope(e: RuntimeHookEvent) -> Seq<char> {
    match e {
        RuntimeHookEvent::AuthorizationDenied { agent_id, .. } => agent_id@,
        RuntimeHookEvent::RecoveryPrepared { runtime_instance_id } => runtime_instance_id@,
        RuntimeHookEvent::ModelRequestStarted { agent_id, .. } => agent_id@,
        RuntimeHookEvent::ModelRequestFinished { agent_id, .. } => agent_id@,
        RuntimeHookEvent::ToolExecutionStarted { agent_id, .. } => agent_id@,
        RuntimeHookEvent::ToolExecutionFinished { agent_id, .. } => agent_id@,
        RuntimeHookEvent::PolicyDenied { agent_id, .. } => agent_id@,
        RuntimeHookEvent::BackgroundTaskStarted { agent_id, .. } => agent_id@,
        RuntimeHookEvent::BackgroundTaskFinished { agent_id, .. } => agent_id@,
        RuntimeHookEvent::RunAborted { agent_id, .. } => agent_id@,
    }
}

/// The snake-case name of an event kind.
pub open spec fn event_type_name(e: RuntimeHookEvent) -> Seq<char> {
    match e {
        RuntimeHookEvent::AuthorizationDenied { .. } => "authorization_denied"@,
        RuntimeHookEvent::RecoveryPrepared { .. } => "recovery_prepared"@,
        RuntimeHookEvent::ModelRequestStarted { .. } => "model_request_started"@,
        RuntimeHookEvent::ModelRequestFinished { .. } => "model_request_finished"@,
        RuntimeHookEvent::ToolExecutionStarted { .. } => "tool_execution_started"@,
        RuntimeHookEvent::ToolExecutionFinished { .. } => "tool_execution_finished"@,
        RuntimeHookEvent::PolicyDenied { .. } => "policy_denied"@,
        RuntimeHookEvent::BackgroundTaskStarted { .. } => "background_task_started"@,
        RuntimeHookEvent::BackgroundTaskFinished { .. } => "background_task_finished"@,
        RuntimeHookEvent::RunAborted { .. } => "run_aborted"@,
    }
}

impl RuntimeHookEvent {
    /// The scope the event is recorded under.
    pub fn scope(&self) -> (r: String)
        ensures
            r@ == event_scope(*self),
    {
        match self {
            RuntimeHookEvent::AuthorizationDenied { agent_id, .. } => agent_id.clone(),
            RuntimeHookEvent::RecoveryPrepared { runtime_instance_id } => runtime_instance_id.clone(),
            RuntimeHookEvent::ModelRequestStarted { agent_id, .. } => agent_id.clone(),
            RuntimeHookEvent::ModelRequestFinished { agent_id, .. } => agent_id.clone(),
            RuntimeHookEvent::ToolExecutionStarted { agent_id, .. } => agent_id.clone(),
            RuntimeHookEvent::ToolExecutionFinished { agent_id, .. } => agent_id.clone(),
            RuntimeHookEvent::PolicyDenied { agent_id, .. } => agent_id.clone(),
            RuntimeHookEvent::BackgroundTaskStarted { agent_id, .. } => agent_id.clone(),
            RuntimeHookEvent::BackgroundTaskFinished { agent_id, .. } => agent_id.clone(),
            RuntimeHookEvent::RunAborted { agent_id, .. } => agent_id.clone(),
        }
    }

    /// The event kind's name.
    pub fn event_type(&self) -> (r: &'static str)
        ensures
            r@ == event_type_name(*self),
    {
        match self {
            RuntimeHookEvent::AuthorizationDenied { .. } => "authorization_denied",
            RuntimeHookEvent::RecoveryPrepared { .. } => "recovery_prepared",
            RuntimeHookEvent::ModelRequestStarted { .. } => "model_request_started",
            RuntimeHookEvent::ModelRequestFinished { .. } => "model_request_finished",
            RuntimeHookEvent::ToolExecutionStarted { .. } => "tool_execution_started",
            RuntimeHookEvent::ToolExecutionFinished { .. } => "tool_execution_finished",
            RuntimeHookEvent::PolicyDenied { .. } => "policy_denied",
            RuntimeHookEvent::BackgroundTaskStarted { .. } => "background_task_started",
            RuntimeHookEvent::BackgroundTaskFinished { .. } => "background_task_finished",
            RuntimeHookEvent::RunAborted { .. } => "run_aborted",
        }
    }
}

/// The hook that records every runtime event in the audit log.
#[derive(Debug, Clone, Copy, Default)]
pub struct AuditHook;

impl AuditHook {
    /// The scope and the type an event is recorded under.
    pub fn audit_entry(&self, event: &RuntimeHookEvent) -> (r: (String, &'static str))
        ensures
            r.0@ == event_scope(*event),
            r.1@ == event_type_name(*event),
    {
        (event.scope(), event.event_type())
    }
}

/// Lines joined with `\n`.
pub open spec fn joined_lines(lines: Seq<Seq<char>>) -> Seq<char>
    decreases lines.len(),
{
    if lines.len() == 0 {
        Seq::empty()
    } else if lines.len() == 1 {
        lines[0]
    } else {
        joined_lines(lines.drop_last()) + "\n"@ + lines.last()
    }
}

/// The first `max_lines` lines (all, without a limit), joined with `\n`: what a limited file
/// read returns.
pub fn join_limited_lines(lines: &Vec<String>, max_lines: Option<usize>) -> (r: String)
    ensures
        r@ == joined_lines(
            texts(lines@).take(
                match max_lines {
                    Some(m) => if m < lines@.len() {
                        m as int
                    } else {
                        lines@.len() as int
                    },
                    None => lines@.len() as int,
                },
            ),
        ),
{
    let n: usize = match max_lines {
        Some(m) => if m < lines.len() {
            m
        } else {
            lines.len()
        },
        None => lines.len(),
    };
    let mut out = String::new();
    let mut i: usize = 0;
    while i < n
        invariant
            i <= n <= lines@.len(),
            out@ == joined_lines(texts(lines@).take(i as int)),
        decreases n - i,
    {
        let ghost prev = out@;
        if i > 0 {
            push_char(&mut out, '\n');
        }
        out.append(lines[i].as_str());
        proof {
            reveal_strlit("\n");
            let t = texts(lines@).take(i as int + 1);
            assert(t.drop_last() =~= texts(lines@).take(i as int));
            if i > 0 {
                assert(out@ =~= prev + "\n"@ + t.last());
            } else {
                assert(out@ =~= t[0]);
            }
        }
        i += 1;
    }
    out
}

/// How a provider call failed, as far as deciding on a retry is concerned.
#[derive(Debug, Clone, Copy, PartialEq, Eq, Structural)]
pub enum ProviderFailure {
    Transport,
    Http { status: u16 },
    Decode,
    Serialize,
    Deserialize,
    InvalidRequest,
    InvalidResponse,
    MalformedStream,
}

/// Transport and decoding failures, server errors, 429 and 408 are worth retrying.
pub open spec fn spec_transient(f: ProviderFailure) -> bool {
    match f {
        ProviderFailure::Transport => true,
        ProviderFailure::Decode => true,
        ProviderFailure::Http { status } => (500 <= status && status < 600) || status == 429 || status == 408,
        _ => false,
    }
}

/// Whether a failed provider call is worth retrying.
pub fn is_transient_provider_error(failure: ProviderFailure) -> (r: bool)
    ensures
        r == spec_transient(failure),
        failure is Transport ==> r,
        failure is Decode ==> r,
        failure is Http ==> (r <==> (500 <= failure->status < 600 || failure->status == 429 || failure->status
            == 408)),
        !(failure is Transport || failure is Decode || failure is Http) ==> !r,
{
    match failure {
        ProviderFailure::Transport | ProviderFailure::Decode => true,
        ProviderFailure::Http { status } => (500 <= status && status < 600) || status == 429 || status == 408,
        _ => false,
    }
}

/// Which provider failures are retried: transport and decode failures always; an HTTP
/// failure exactly when its status is a server error (5xx), 429 or 408; a serialization,
/// deserialization, invalid request, invalid response or malformed stream failure never.
pub proof fn law_transient_failures(failure: ProviderFailure)
    ensures
        spec_transient(ProviderFailure::Transport),
        spec_transient(ProviderFailure::Decode),
        failure is Http ==> (spec_transient(failure) <==> (500 <= failure->status < 600 || failure->status == 429
            || failure->status == 408)),
        !(failure is Transport || failure is Decode || failure is Http) ==> !spec_transient(failure),
{
}

/// Run limits: cancellation stops a run before any deadline is looked at; with neither
/// cancellation nor deadline a run goes on; with a deadline it stops exactly once the clock
/// reaches it, and a run stopped at some time is stopped the same way at any later time.
pub proof fn law_limits(cancelled: bool, deadline_ms: Option<u64>, now_ms: u64, later_ms: u64)
    ensures
        cancelled ==> spec_limits(cancelled, deadline_ms, now_ms) == Err::<(), LimitExceeded>(LimitExceeded::Cancelled),
        !cancelled && deadline_ms is None ==> spec_limits(cancelled, deadline_ms, now_ms) is Ok,
        !cancelled && deadline_ms is Some ==> (spec_limits(cancelled, deadline_ms, now_ms) == Err::<(), LimitExceeded>(
            LimitExceeded::DeadlineExceeded) <==> now_ms >= deadline_ms->0),
        !cancelled && deadline_ms is Some ==> (spec_limits(cancelled, deadline_ms, now_ms) is Ok <==> now_ms
            < deadline_ms->0),
        spec_limits(cancelled, deadline_ms, now_ms) is Err && now_ms <= later_ms ==> spec_limits(
            cancelled,
            deadline_ms,
            later_ms,
        ) == spec_limits(cancelled, deadline_ms, now_ms),
{
}

/// A failed command reports its standard error as it is whenever that holds anything but
/// white space; only a blank standard error is replaced, by the exit status when there is one.
pub proof fn law_failure_message(stderr: Seq<char>, status_code: Option<i32>)
    ensures
        trimmed(stderr).len() > 0 ==> failure_message(stderr, status_code) == stderr,
        trimmed(stderr).len() == 0 && status_code is Some ==> failure_message(stderr, status_code)
            == "Command exited with status "@ + signed_decimal(status_code->0 as int),
        trimmed(stderr).len() == 0 && status_code is None ==> failure_message(stderr, status_code)
            == "Command exited unsuccessfully"@,
{
}

} // verus!
