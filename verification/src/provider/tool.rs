//! Tool metadata: capabilities, side effects, durability, concurrency and loading policy.
use vstd::prelude::*;

verus! {

/// High-level capability labels used for tool metadata and policy decisions.
#[derive(Debug, Clone, PartialEq, Eq)]
pub enum ToolCapability {
    ReadOnly,
    FilesystemRead,
    FilesystemWrite,
    ProcessExec,
    BackgroundExec,
    TaskMutation,
    TeamCoordination,
    Delegation,
    ContextCompaction,
    SkillLoad,
    Custom(String),
}

/// How much side effect a tool may have when executed (`NoSideEffect`: none).
#[derive(Debug, Clone, Copy, PartialEq, Eq, Structural)]
pub enum ToolSideEffectLevel {
    NoSideEffect,
    LocalState,
    Process,
    External,
}

impl Default for ToolSideEffectLevel {
    fn default() -> (r: ToolSideEffectLevel)
        ensures
            r == ToolSideEffectLevel::NoSideEffect,
    {
        ToolSideEffectLevel::NoSideEffect
    }
}

/// Whether a tool call is safe to replay or persist.
#[derive(Debug, Clone, Copy, PartialEq, Eq, Structural)]
pub enum ToolDurability {
    Ephemeral,
    Persistent,
    ReplaySafe,
}

impl Default for ToolDurability {
    fn default() -> (r: ToolDurability)
        ensures
            r == ToolDurability::Ephemeral,
    {
        ToolDurability::Ephemeral
    }
}

/// Whether a tool call may execute concurrently with other calls.
#[derive(Debug, Clone, Copy, PartialEq, Eq, Structural)]
pub enum ToolExecutionMode {
    Exclusive,
    Parallel,
}

impl Default for ToolExecutionMode {
    fn default() -> (r: ToolExecutionMode)
        ensures
            r == ToolExecutionMode::Exclusive,
    {
        ToolExecutionMode::Exclusive
    }
}

/// Whether a tool is loaded eagerly or deferred for provider-native tool search.
#[derive(Debug, Clone, Copy, PartialEq, Eq, Structural)]
pub enum ToolLoadingPolicy {
    Immediate,
    Deferred,
}

impl Default for ToolLoadingPolicy {
    fn default() -> (r: ToolLoadingPolicy)
        ensures
            r == ToolLoadingPolicy::Immediate,
    {
        ToolLoadingPolicy::Immediate
    }
}

/// The input schema of a tool that takes no arguments: an object without properties (JSON text).
pub const EMPTY_OBJECT_SCHEMA: &'static str = "{\"type\":\"object\",\"properties\":{}}";

/// Provider-facing description of a tool. The input schema is JSON text.
#[derive(Debug, Clone)]
pub struct ToolSpec {
    pub name: String,
    pub description: Option<String>,
    pub input_schema: String,
    pub capabilities: Vec<ToolCapability>,
    pub side_effect_level: ToolSideEffectLevel,
    pub durability: ToolDurability,
    pub loading_policy: ToolLoadingPolicy,
    pub execution_timeout_ms: Option<u64>,
}

/// Builds a `ToolSpec` one attribute at a time.
#[derive(Debug, Clone)]
pub struct ToolSpecBuilder {
    spec: ToolSpec,
}

impl ToolSpec {
    /// A builder for a tool called `name`: no description, the empty object schema, no
    /// capabilities, no side effect, ephemeral, loaded immediately, no timeout.
    pub fn builder(name: &str) -> (r: ToolSpecBuilder)
        ensures
            r.pending().name@ == name@,
            r.pending().description is None,
            r.pending().input_schema@ == EMPTY_OBJECT_SCHEMA@,
            r.pending().capabilities@ == Seq::<ToolCapability>::empty(),
            r.pending().side_effect_level == ToolSideEffectLevel::NoSideEffect,
            r.pending().durability == ToolDurability::Ephemeral,
            r.pending().loading_policy == ToolLoadingPolicy::Immediate,
            r.pending().execution_timeout_ms is None,
    {
        ToolSpecBuilder {
            spec: ToolSpec {
                name: name.to_owned(),
                description: None,
                input_schema: EMPTY_OBJECT_SCHEMA.to_owned(),
                capabilities: Vec::new(),
                side_effect_level: ToolSideEffectLevel::NoSideEffect,
                durability: ToolDurability::Ephemeral,
                loading_policy: ToolLoadingPolicy::Immediate,
                execution_timeout_ms: None,
            },
        }
    }
}

impl ToolSpecBuilder {
    /// The spec that `build` would return now.
    pub closed spec fn pending(&self) -> ToolSpec {
        self.spec
    }

    pub fn description(self, description: &str) -> (r: ToolSpecBuilder)
        ensures
            r.pending() == (ToolSpec { description: r.pending().description, ..self.pending() }),
            r.pending().description matches Some(d) && d@ == description@,
    {
        let mut b = self;
        b.spec.description = Some(description.to_owned());
        b
    }

    pub fn input_schema(self, input_schema: &str) -> (r: ToolSpecBuilder)
        ensures
            r.pending() == (ToolSpec { input_schema: r.pending().input_schema, ..self.pending() }),
            r.pending().input_schema@ == input_schema@,
    {
        let mut b = self;
        b.spec.input_schema = input_schema.to_owned();
        b
    }

    /// Adds one capability after those already given.
    pub fn capability(self, capability: ToolCapability) -> (r: ToolSpecBuilder)
        ensures
            r.pending() == (ToolSpec { capabilities: r.pending().capabilities, ..self.pending() }),
            r.pending().capabilities@ == self.pending().capabilities@.push(capability),
    {
        let mut b = self;
        b.spec.capabilities.push(capability);
        b
    }

    /// Replaces the capabilities.
    pub fn capabilities(self, capabilities: Vec<ToolCapability>) -> (r: ToolSpecBuilder)
        ensures
            r.pending() == (ToolSpec { capabilities: r.pending().capabilities, ..self.pending() }),
            r.pending().capabilities@ == capabilities@,
    {
        let mut b = self;
        b.spec.capabilities = capabilities;
        b
    }

    pub fn side_effect_level(self, side_effect_level: ToolSideEffectLevel) -> (r: ToolSpecBuilder)
        ensures
            r.pending() == (ToolSpec { side_effect_level, ..self.pending() }),
    {
        let mut b = self;
        b.spec.side_effect_level = side_effect_level;
        b
    }

    pub fn durability(self, durability: ToolDurability) -> (r: ToolSpecBuilder)
        ensures
            r.pending() == (ToolSpec { durability, ..self.pending() }),
    {
        let mut b = self;
        b.spec.durability = durability;
        b
    }

    pub fn loading_policy(self, loading_policy: ToolLoadingPolicy) -> (r: ToolSpecBuilder)
        ensures
            r.pending() == (ToolSpec { loading_policy, ..self.pending() }),
    {
        let mut b = self;
        b.spec.loading_policy = loading_policy;
        b
    }

    /// Deferred loading when `defer_loading` holds, immediate loading otherwise.
    pub fn defer_loading(self, defer_loading: bool) -> (r: ToolSpecBuilder)
        ensures
            r.pending() == (ToolSpec {
                loading_policy: if defer_loading {
                    ToolLoadingPolicy::Deferred
                } else {
                    ToolLoadingPolicy::Immediate
                },
                ..self.pending()
            }),
    {
        self.loading_policy(
            if defer_loading {
                ToolLoadingPolicy::Deferred
            } else {
                ToolLoadingPolicy::Immediate
            },
        )
    }

    pub fn execution_timeout(self, execution_timeout_ms: u64) -> (r: ToolSpecBuilder)
        ensures
            r.pending() == (ToolSpec { execution_timeout_ms: Some(execution_timeout_ms), ..self.pending() }),
    {
        let mut b = self;
        b.spec.execution_timeout_ms = Some(execution_timeout_ms);
        b
    }

    pub fn build(self) -> (r: ToolSpec)
        ensures
            r == self.pending(),
    {
        self.spec
    }
}

} // verus!
