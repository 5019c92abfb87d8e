//! The decisions of an agent run: when the model is asked, which tool call runs next, when the
//! run ends, and what a failed run leaves in the history. The caller streams the model's turn,
//! runs the tools and reports back; each report is one step here.
use vstd::prelude::*;

use crate::provider::model::{ContentBlock, Message, Role};

verus! {

/// Where an agent run stands.
#[derive(Debug, Clone, Copy, PartialEq, Eq, Structural)]
pub enum RunPhase {
    /// No run has started yet.
    Ready,
    /// The model is being asked for its turn.
    AwaitingModel,
    /// The tool calls of the model's last turn are being run, one after the other.
    ExecutingTools,
    Finished,
    Failed,
}

/// What the caller reports.
#[derive(Debug)]
pub enum TurnEvent {
    /// The user sends a message: a run starts with it.
    Send(Vec<ContentBlock>),
    /// The model's turn was streamed to its end: the assistant message, and how many tool
    /// calls it holds ready.
    ModelTurn { message: Message, tool_calls: usize },
    /// The current tool call finished with this result block.
    ToolFinished(ContentBlock),
    /// Streaming, committing the turn or a tool step failed with this message.
    Failed(String),
}

/// What the caller does next.
#[derive(Debug, PartialEq, Eq)]
pub enum TurnAction {
    /// Ask the model for its turn, with the history as it now stands.
    RequestModel,
    /// Run the tool call at this position of the model's last turn.
    ExecuteTool(usize),
    /// The run finished.
    Finish,
    /// The run failed with this message; the history is back to what it was before the run.
    Fail(String),
    /// The report does not fit where the run stands; nothing changed.
    Ignore,
}

/// An agent's history and the run under way on it.
pub struct TurnRunner {
    pub history: Vec<Message>,
    pub phase: RunPhase,
    /// The history's length when the current run started.
    pub saved_len: usize,
    /// The number of tool calls of the model's last turn.
    pub tool_calls: usize,
    /// The results of the tool calls run so far in this turn.
    pub results: Vec<ContentBlock>,
    /// The history when the current run started.
    pub run_start: Ghost<Seq<Message>>,
    /// The agent asked to go idle (the `idle` tool); a new run and a failed run reset it.
    pub idle_requested: bool,
}

/// `s` with one message pushed keeps its first `n` messages.
proof fn lemma_push_keeps_prefix(s: Seq<Message>, m: Message, n: int)
    requires
        0 <= n <= s.len(),
    ensures
        s.push(m).take(n) == s.take(n),
{
    assert(s.push(m).take(n) =~= s.take(n));
}

impl TurnRunner {
    /// A run is under way.
    pub open spec fn active(&self) -> bool {
        self.phase == RunPhase::AwaitingModel || self.phase == RunPhase::ExecutingTools
    }

    /// The history starts with what it held when the run started; while tools run, fewer
    /// results than calls are in.
    pub open spec fn wf(&self) -> bool {
        &&& self.saved_len <= self.history@.len()
        &&& self.history@.take(self.saved_len as int) == self.run_start@
        &&& (self.phase == RunPhase::ExecutingTools ==> self.results@.len() < self.tool_calls)
    }

    /// A runner over `history`, with no run started.
    pub fn new(history: Vec<Message>) -> (r: TurnRunner)
        ensures
            r.wf(),
            r.history@ == history@,
            r.phase == RunPhase::Ready,
            r.run_start@ == history@,
            r.results@.len() == 0,
            !r.idle_requested,
    {
        let n = history.len();
        let r = TurnRunner {
            history,
            phase: RunPhase::Ready,
            saved_len: n,
            tool_calls: 0,
            results: Vec::new(),
            run_start: Ghost(history@),
            idle_requested: false,
        };
        assert(r.history@.take(n as int) =~= r.history@);
        r
    }

    /// Records that the agent asked to go idle.
    pub fn request_idle(&mut self)
        requires
            old(self).wf(),
        ensures
            final(self).wf(),
            *final(self) == (TurnRunner { idle_requested: true, ..*old(self) }),
    {
        self.idle_requested = true;
    }

    /// Whether the agent asked to go idle; the request is consumed.
    pub fn take_idle_requested(&mut self) -> (r: bool)
        requires
            old(self).wf(),
        ensures
            final(self).wf(),
            r == old(self).idle_requested,
            *final(self) == (TurnRunner { idle_requested: false, ..*old(self) }),
    {
        let r = self.idle_requested;
        self.idle_requested = false;
        r
    }

    /// Takes the report `event` and says what to do next. `Finish` and `Fail` are also the
    /// run's final status and the event the caller announces (run finished, run failed with
    /// the message).
    pub fn step(&mut self, event: TurnEvent) -> (action: TurnAction)
        requires
            old(self).wf(),
        ensures
            final(self).wf(),
            (event matches TurnEvent::Send(content) ==> if old(self).active() {
                action == TurnAction::Ignore && *final(self) == *old(self)
            } else {
                &&& action == TurnAction::RequestModel
                &&& final(self).phase == RunPhase::AwaitingModel
                &&& final(self).run_start@ == old(self).history@
                &&& final(self).history@ == old(self).history@.push(Message { role: Role::User, content })
                &&& final(self).results@.len() == 0
                &&& !final(self).idle_requested
            }),
            (event matches TurnEvent::ModelTurn { message, tool_calls } ==> if old(self).phase
                == RunPhase::AwaitingModel {
                &&& final(self).history@ == old(self).history@.push(message)
                &&& final(self).run_start == old(self).run_start
                &&& final(self).results@.len() == 0
                &&& final(self).idle_requested == old(self).idle_requested
                &&& if tool_calls == 0 {
                    action == TurnAction::Finish && final(self).phase == RunPhase::Finished
                } else {
                    &&& action == TurnAction::ExecuteTool(0)
                    &&& final(self).phase == RunPhase::ExecutingTools
                    &&& final(self).tool_calls == tool_calls
                }
            } else {
                action == TurnAction::Ignore && *final(self) == *old(self)
            }),
            (event matches TurnEvent::ToolFinished(block) ==> if old(self).phase == RunPhase::ExecutingTools {
                let results = old(self).results@.push(block);
                &&& final(self).run_start == old(self).run_start
                &&& final(self).tool_calls == old(self).tool_calls
                &&& final(self).idle_requested == old(self).idle_requested
                &&& if results.len() < old(self).tool_calls {
                    &&& action == TurnAction::ExecuteTool(results.len() as usize)
                    &&& final(self).phase == RunPhase::ExecutingTools
                    &&& final(self).history@ == old(self).history@
                    &&& final(self).results@ == results
                } else {
                    &&& action == TurnAction::RequestModel
                    &&& final(self).phase == RunPhase::AwaitingModel
                    &&& final(self).history@.len() == old(self).history@.len() + 1
                    &&& final(self).history@.take(old(self).history@.len() as int) == old(self).history@
                    &&& final(self).history@.last().role == Role::User
                    &&& final(self).history@.last().content@ == results
                    &&& final(self).results@.len() == 0
                }
            } else {
                action == TurnAction::Ignore && *final(self) == *old(self)
            }),
            (event matches TurnEvent::Failed(message) ==> if old(self).active() {
                &&& action == TurnAction::Fail(message)
                &&& final(self).phase == RunPhase::Failed
                &&& final(self).history@ == old(self).run_start@
                &&& final(self).run_start == old(self).run_start
                &&& final(self).results@.len() == 0
                &&& !final(self).idle_requested
            } else {
                action == TurnAction::Ignore && *final(self) == *old(self)
            }),
    {
        match event {
            TurnEvent::Send(content) => {
                if self.phase == RunPhase::AwaitingModel || self.phase == RunPhase::ExecutingTools {
                    return TurnAction::Ignore;
                }
                let ghost before = self.history@;
                self.saved_len = self.history.len();
                self.run_start = Ghost(self.history@);
                self.history.push(Message { role: Role::User, content });
                self.results = Vec::new();
                self.phase = RunPhase::AwaitingModel;
                self.idle_requested = false;
                proof {
                    lemma_push_keeps_prefix(before, self.history@.last(), before.len() as int);
                    assert(before.take(before.len() as int) =~= before);
                }
                TurnAction::RequestModel
            },
            TurnEvent::ModelTurn { message, tool_calls } => {
                if self.phase != RunPhase::AwaitingModel {
                    return TurnAction::Ignore;
                }
                let ghost before = self.history@;
                self.history.push(message);
                self.results = Vec::new();
                proof {
                    lemma_push_keeps_prefix(before, self.history@.last(), self.saved_len as int);
                }
                if tool_calls == 0 {
                    self.phase = RunPhase::Finished;
                    TurnAction::Finish
                } else {
                    self.tool_calls = tool_calls;
                    self.phase = RunPhase::ExecutingTools;
                    TurnAction::ExecuteTool(0)
                }
            },
            TurnEvent::ToolFinished(block) => {
                if self.phase != RunPhase::ExecutingTools {
                    return TurnAction::Ignore;
                }
                self.results.push(block);
                let done = self.results.len();
                if done < self.tool_calls {
                    return TurnAction::ExecuteTool(done);
                }
                let ghost before = self.history@;
                let mut results: Vec<ContentBlock> = Vec::new();
                std::mem::swap(&mut results, &mut self.results);
                self.history.push(Message { role: Role::User, content: results });
                self.phase = RunPhase::AwaitingModel;
                proof {
                    lemma_push_keeps_prefix(before, self.history@.last(), self.saved_len as int);
                    assert(self.history@.take(before.len() as int) =~= before);
                }
                TurnAction::RequestModel
            },
            TurnEvent::Failed(message) => {
                if self.phase != RunPhase::AwaitingModel && self.phase != RunPhase::ExecutingTools {
                    return TurnAction::Ignore;
                }
                self.history.truncate(self.saved_len);
                self.results = Vec::new();
                self.phase = RunPhase::Failed;
                self.idle_requested = false;
                assert(self.history@.take(self.saved_len as int) =~= self.history@);
                TurnAction::Fail(message)
            },
        }
    }
}

} // verus!
