//! The built-in local tools: running shell commands in the foreground or the background,
//! checking background commands, and loading skills.
use vstd::prelude::*;

use crate::provider::tool::{
    ToolCapability, ToolDurability, ToolExecutionMode, ToolSideEffectLevel, ToolSpec,
};
use crate::runtime::control::{push_signed_decimal, signed_decimal, CommandOutput};
use crate::text::{trim_text, trimmed};

verus! {

/// Runs one shell command and waits for it.
pub struct ShellTool;

/// Starts a shell command in the background.
pub struct BackgroundRunTool;

/// Reports on background commands.
pub struct CheckBackgroundTool;

/// Loads the body of a named skill.
pub struct LoadSkillTool;

/// The fields of a shell tool call, as read from its JSON input (absent, or not of the
/// expected type: `None`).
#[derive(Debug, Clone)]
pub struct ShellCommandFields {
    pub command: Option<String>,
    pub working_directory: Option<String>,
    pub justification: Option<String>,
    pub timeout_ms: Option<u64>,
}

/// A shell tool call's input, once its command is known.
#[derive(Debug, Clone)]
pub struct ShellCommandInput {
    pub command: String,
    pub working_directory: Option<String>,
    pub justification: Option<String>,
    pub timeout_ms: Option<u64>,
}

pub const COMMAND_REQUIRED: &'static str = "Command is required";

/// The input of a shell call: refused without a command; the other fields are optional.
pub fn parse_command_input(fields: ShellCommandFields) -> (r: Result<ShellCommandInput, String>)
    ensures
        match fields.command {
            None => r matches Err(m) && m@ == COMMAND_REQUIRED@,
            Some(c) => r matches Ok(i) && i.command == c && i.working_directory == fields.working_directory
                && i.justification == fields.justification && i.timeout_ms == fields.timeout_ms,
        },
{
    match fields.command {
        None => Err(COMMAND_REQUIRED.to_owned()),
        Some(command) => Ok(
            ShellCommandInput {
                command,
                working_directory: fields.working_directory,
                justification: fields.justification,
                timeout_ms: fields.timeout_ms,
            },
        ),
    }
}

pub const TIMED_OUT_MESSAGE: &'static str = "Command timed out after the configured limit";

/// What the shell tool answers for a finished command.
pub open spec fn shell_answer(output: CommandOutput, timed_out: bool) -> Result<Seq<char>, Seq<char>> {
    if output.success {
        if output.stdout@.len() > 0 {
            Ok(output.stdout@)
        } else {
            Ok(output.stderr@)
        }
    } else if trimmed(output.stderr@).len() > 0 {
        Err(output.stderr@)
    } else if trimmed(output.stdout@).len() > 0 {
        Err(output.stdout@)
    } else if timed_out {
        Err(TIMED_OUT_MESSAGE@)
    } else {
        Err(
            "Command exited with status "@ + match output.status_code {
                Some(code) => signed_decimal(code as int),
                None => "unknown"@,
            },
        )
    }
}

/// The shell tool's answer: on success the standard output, or the standard error when the
/// output is empty; on failure the first non-blank of standard error and standard output,
/// else the timeout, else the exit status.
pub fn shell_tool_result(output: CommandOutput, timed_out: bool) -> (r: Result<String, String>)
    ensures
        match shell_answer(output, timed_out) {
            Ok(t) => r matches Ok(s) && s@ == t,
            Err(t) => r matches Err(s) && s@ == t,
        },
{
    if output.success {
        if !output.stdout.as_str().is_empty() {
            return Ok(output.stdout);
        }
        return Ok(output.stderr);
    }
    if !trim_text(output.stderr.as_str()).as_str().is_empty() {
        return Err(output.stderr);
    }
    if !trim_text(output.stdout.as_str()).as_str().is_empty() {
        return Err(output.stdout);
    }
    if timed_out {
        return Err(TIMED_OUT_MESSAGE.to_owned());
    }
    let mut m = "Command exited with status ".to_owned();
    match output.status_code {
        Some(code) => push_signed_decimal(&mut m, code),
        None => m.append("unknown"),
    }
    Err(m)
}

/// What the background tool answers once the command started.
pub open spec fn started_text(id: Seq<char>, cwd: Seq<char>, command: Seq<char>) -> Seq<char> {
    "Started background task "@ + id + " in "@ + cwd + " for `"@ + command + "`"@
}

/// "Started background task <id> in <cwd> for `<command>`".
pub fn background_started_message(id: &str, cwd: &str, command: &str) -> (r: String)
    ensures
        r@ == started_text(id@, cwd@, command@),
{
    let mut m = "Started background task ".to_owned();
    m.append(id);
    m.append(" in ");
    m.append(cwd);
    m.append(" for `");
    m.append(command);
    m.append("`");
    m
}

/// What a shell or background call asks permission for.
#[derive(Debug, Clone)]
pub struct ShellPreview {
    pub working_directory: String,
    pub capabilities: Vec<ToolCapability>,
    pub side_effect_level: ToolSideEffectLevel,
    pub durability: ToolDurability,
    pub kind: &'static str,
    pub command: String,
    pub timeout_ms: Option<u64>,
    pub justification: Option<String>,
    pub background: bool,
}

/// The permission request for running `input` in `working_directory` under the tool `spec`.
pub fn shell_authorization_preview(input: ShellCommandInput, working_directory: String, background: bool, spec: ToolSpec) -> (r:
    ShellPreview)
    ensures
        r.working_directory == working_directory,
        r.capabilities == spec.capabilities,
        r.side_effect_level == spec.side_effect_level,
        r.durability == spec.durability,
        r.kind@ == (if background {
            "background_run"@
        } else {
            "shell"@
        }),
        r.command == input.command,
        r.timeout_ms == input.timeout_ms,
        r.justification == input.justification,
        r.background == background,
{
    ShellPreview {
        working_directory,
        capabilities: spec.capabilities,
        side_effect_level: spec.side_effect_level,
        durability: spec.durability,
        kind: if background {
            "background_run"
        } else {
            "shell"
        },
        command: input.command,
        timeout_ms: input.timeout_ms,
        justification: input.justification,
        background,
    }
}

pub const SKILL_NAME_REQUIRED: &'static str = "Skill name is required";

/// The skill a `load_skill` call names; refused without a name.
pub fn skill_name(name: Option<String>) -> (r: Result<String, String>)
    ensures
        match name {
            Some(n) => r == Ok::<String, String>(n),
            None => r matches Err(m) && m@ == SKILL_NAME_REQUIRED@,
        },
{
    match name {
        Some(n) => Ok(n),
        None => Err(SKILL_NAME_REQUIRED.to_owned()),
    }
}

pub const SHELL_SCHEMA: &'static str = r#"{"type":"object","properties":{"command":{"type":"string","description":"Shell command to execute"},"workingDirectory":{"type":"string","description":"Optional directory to run inside"},"timeoutMs":{"type":"integer","description":"Optional timeout override in milliseconds"},"justification":{"type":"string","description":"Optional explanation surfaced when approval is required"}},"required":["command"]}"#;
pub const BACKGROUND_RUN_SCHEMA: &'static str = r#"{"type":"object","properties":{"command":{"type":"string","description":"Shell command to execute in the background"},"workingDirectory":{"type":"string","description":"Optional directory to run inside"},"justification":{"type":"string","description":"Optional explanation surfaced when approval is required"}},"required":["command"]}"#;
pub const CHECK_BACKGROUND_SCHEMA: &'static str = r#"{"type":"object","properties":{"task_id":{"type":"string","description":"Optional background task ID to inspect"}}}"#;
pub const LOAD_SKILL_SCHEMA: &'static str = r#"{"type":"object","properties":{"name":{"type":"string","description":"Name of the skill to load"}},"required":["name"]}"#;

impl ShellTool {
    /// `shell`: runs processes and may write files; ephemeral.
    pub fn spec(&self) -> (r: ToolSpec)
        ensures
            r.name@ == "shell"@,
            r.input_schema@ == SHELL_SCHEMA@,
            r.capabilities@ == seq![ToolCapability::ProcessExec, ToolCapability::FilesystemWrite],
            r.side_effect_level == ToolSideEffectLevel::Process,
            r.durability == ToolDurability::Ephemeral,
    {
        let mut caps: Vec<ToolCapability> = Vec::new();
        caps.push(ToolCapability::ProcessExec);
        caps.push(ToolCapability::FilesystemWrite);
        ToolSpec::builder("shell").description("Execute a single local shell command.").input_schema(SHELL_SCHEMA).capabilities(
            caps,
        ).side_effect_level(ToolSideEffectLevel::Process).durability(ToolDurability::Ephemeral).build()
    }

    pub fn execution_mode(&self) -> (r: ToolExecutionMode)
        ensures
            r == ToolExecutionMode::Parallel,
    {
        ToolExecutionMode::Parallel
    }
}

impl BackgroundRunTool {
    /// `background_run`: runs processes in the background and may write files; persistent.
    pub fn spec(&self) -> (r: ToolSpec)
        ensures
            r.name@ == "background_run"@,
            r.input_schema@ == BACKGROUND_RUN_SCHEMA@,
            r.capabilities@ == seq![ToolCapability::BackgroundExec, ToolCapability::FilesystemWrite],
            r.side_effect_level == ToolSideEffectLevel::Process,
            r.durability == ToolDurability::Persistent,
    {
        let mut caps: Vec<ToolCapability> = Vec::new();
        caps.push(ToolCapability::BackgroundExec);
        caps.push(ToolCapability::FilesystemWrite);
        ToolSpec::builder("background_run").description(
            "Start a shell command in the background and return a task ID immediately.",
        ).input_schema(BACKGROUND_RUN_SCHEMA).capabilities(caps).side_effect_level(ToolSideEffectLevel::Process).durability(
            ToolDurability::Persistent,
        ).build()
    }

    pub fn execution_mode(&self) -> (r: ToolExecutionMode)
        ensures
            r == ToolExecutionMode::Parallel,
    {
        ToolExecutionMode::Parallel
    }
}

impl CheckBackgroundTool {
    /// `check_background`: read only, without side effect; safe to replay.
    pub fn spec(&self) -> (r: ToolSpec)
        ensures
            r.name@ == "check_background"@,
            r.input_schema@ == CHECK_BACKGROUND_SCHEMA@,
            r.capabilities@ == seq![ToolCapability::ReadOnly],
            r.side_effect_level == ToolSideEffectLevel::NoSideEffect,
            r.durability == ToolDurability::ReplaySafe,
    {
        ToolSpec::builder("check_background").description(
            "Check one background task by ID, or list all background tasks when omitted.",
        ).input_schema(CHECK_BACKGROUND_SCHEMA).capability(ToolCapability::ReadOnly).side_effect_level(
            ToolSideEffectLevel::NoSideEffect,
        ).durability(ToolDurability::ReplaySafe).build()
    }

    pub fn execution_mode(&self) -> (r: ToolExecutionMode)
        ensures
            r == ToolExecutionMode::Parallel,
    {
        ToolExecutionMode::Parallel
    }
}

impl LoadSkillTool {
    /// `load_skill`: loads skills, read only, without side effect; safe to replay.
    pub fn spec(&self) -> (r: ToolSpec)
        ensures
            r.name@ == "load_skill"@,
            r.input_schema@ == LOAD_SKILL_SCHEMA@,
            r.capabilities@ == seq![ToolCapability::SkillLoad, ToolCapability::ReadOnly],
            r.side_effect_level == ToolSideEffectLevel::NoSideEffect,
            r.durability == ToolDurability::ReplaySafe,
    {
        let mut caps: Vec<ToolCapability> = Vec::new();
        caps.push(ToolCapability::SkillLoad);
        caps.push(ToolCapability::ReadOnly);
        ToolSpec::builder("load_skill").description("Load the full body of a named skill when it is relevant.").input_schema(
            LOAD_SKILL_SCHEMA,
        ).capabilities(caps).side_effect_level(ToolSideEffectLevel::NoSideEffect).durability(
            ToolDurability::ReplaySafe,
        ).build()
    }

    pub fn execution_mode(&self) -> (r: ToolExecutionMode)
        ensures
            r == ToolExecutionMode::Parallel,
    {
        ToolExecutionMode::Parallel
    }
}

} // verus!
