//! What a grind run tells its subscribers.

use vstd::prelude::*;

use super::budget::BudgetReason;
use super::hooks;
use super::hooks::{HookKind, HookOutcome};
use super::run_dir::{RecordModel, SessionRecord};
use crate::agent::AgentEvent;
use crate::money::Usd;
use crate::text;

verus! {

/// Capacity of the grind runner's event broadcast channel. Sized so a slow
/// subscriber falls behind by a few hundred events before lagging; sends are
/// best-effort so a missing or lagging subscriber never blocks the runner.
pub const GRIND_EVENT_CHANNEL_CAPACITY: usize = 256;

/// Why a grind run ended.
#[derive(Debug, Clone, Copy, PartialEq, Eq, Structural)]
pub enum GrindStopReason {
    /// The scheduler had no further prompts to dispatch.
    Completed,
    /// The drain signal fired between sessions; the in-flight session (if any)
    /// finished cleanly.
    Drained,
    /// The abort signal fired during a session; the session was recorded as
    /// `Aborted`.
    Aborted,
    /// A run-level budget tripped. Carries the exhausted reason for log /
    /// CLI output.
    BudgetExhausted(BudgetReason),
    /// The consecutive-failure escape valve fired.
    ConsecutiveFailureLimit {
        /// The configured limit that was just reached.
        limit: u32,
    },
}

/// Which run-level budget tipped past the 80% warn threshold. Carries the
/// observed counter and the configured cap so the TUI can render the percent
/// without re-deriving it.
#[derive(Debug, Clone, Copy, PartialEq, Eq, Structural)]
pub enum BudgetWarningKind {
    /// `max_iterations` is at >=80% of cap.
    Iterations {
        /// Sessions dispatched so far.
        used: u32,
        /// Configured cap.
        cap: u32,
    },
    /// `max_tokens` is at >=80% of cap.
    Tokens {
        /// Cumulative tokens (input + output) so far.
        used: u64,
        /// Configured cap.
        cap: u64,
    },
    /// `max_cost_usd` is at >=80% of cap.
    Cost {
        /// Cumulative cost so far.
        used: Usd,
        /// Configured cap.
        cap: Usd,
    },
    /// Wall clock has consumed >=80% of the (`started_at`, `until`) window.
    Until {
        /// Seconds elapsed since the run started.
        elapsed_secs: u64,
        /// Total seconds in the budget window.
        window_secs: u64,
    },
}

/// Streaming events the grind runner broadcasts to subscribers. Sends are
/// best-effort: a lagging or absent subscriber never blocks the runner.
#[derive(Debug, PartialEq, Eq)]
pub enum GrindEvent {
    /// A session is about to dispatch its agent. Carries the seq, the prompt
    /// name, and whether the prompt is `parallel_safe` so the dashboard can
    /// distinguish fanned-out worktree sessions from sequential ones.
    SessionStarted {
        /// 1-based session sequence within the run.
        seq: u32,
        /// Name of the prompt being dispatched.
        prompt: String,
        /// Whether the dispatch took the parallel-worktree path.
        parallel_safe: bool,
    },
    /// One line of agent stdout from the dispatched session.
    AgentStdout {
        /// Owning session sequence.
        seq: u32,
        /// Raw line emitted by the agent.
        line: String,
    },
    /// One line of agent stderr from the dispatched session.
    AgentStderr {
        /// Owning session sequence.
        seq: u32,
        /// Raw line emitted by the agent.
        line: String,
    },
    /// Agent invoked a tool inside the dispatched session.
    AgentToolUse {
        /// Owning session sequence.
        seq: u32,
        /// Tool name reported by the agent backend.
        name: String,
    },
    /// A plan-level shell hook just resolved.
    HookFired {
        /// Owning session sequence.
        seq: u32,
        /// Which hook fired.
        kind: HookKind,
        /// Whether the hook resolved as [`HookOutcome::Success`].
        success: bool,
        /// One-line description of the hook outcome (passes through
        /// [`HookOutcome::description`]).
        description: String,
    },
    /// The agent's `$PITBOSS_SUMMARY_FILE` was read for this session.
    SummaryCaptured {
        /// Owning session sequence.
        seq: u32,
        /// Captured summary text.
        summary: String,
    },
    /// A session resolved with a final record. Fired exactly once per
    /// dispatched session.
    SessionFinished {
        /// The final session record about to be persisted.
        record: SessionRecord,
    },
    /// A run-level budget reached at least 80% of its configured cap. Fired at
    /// most once per [`BudgetWarningKind`] per run.
    BudgetWarning {
        /// Which budget tripped the threshold and how far it has consumed.
        kind: BudgetWarningKind,
    },
    /// The scheduler's `next()` call resolved. `pick = None` means the
    /// scheduler is exhausted (or this rotation is gated out and the runner
    /// will exit on the next iteration).
    SchedulerPicked {
        /// The scheduler's rotation counter after the pick.
        rotation: u64,
        /// Picked prompt name, or `None` if the scheduler returned no pick.
        pick: Option<String>,
    },
    /// The run loop exited. Carries the resolved [`GrindStopReason`] so the
    /// TUI can render the final state and the same payload the CLI gets back.
    RunFinished {
        /// Why the loop exited.
        stop_reason: GrindStopReason,
    },
}

/// A [`GrindEvent`] as a mathematical value.
pub enum GrindEventModel {
    SessionStarted { seq: u32, prompt: Seq<char>, parallel_safe: bool },
    AgentStdout { seq: u32, line: Seq<char> },
    AgentStderr { seq: u32, line: Seq<char> },
    AgentToolUse { seq: u32, name: Seq<char> },
    HookFired { seq: u32, kind: HookKind, success: bool, description: Seq<char> },
    SummaryCaptured { seq: u32, summary: Seq<char> },
    SessionFinished { record: RecordModel },
    BudgetWarning { kind: BudgetWarningKind },
    SchedulerPicked { rotation: u64, pick: Option<Seq<char>> },
    RunFinished { stop_reason: GrindStopReason },
}

impl View for GrindEvent {
    type V = GrindEventModel;

    open spec fn view(&self) -> GrindEventModel {
        match self {
            GrindEvent::SessionStarted { seq, prompt, parallel_safe } =>
                GrindEventModel::SessionStarted {
                seq: *seq,
                prompt: prompt@,
                parallel_safe: *parallel_safe,
            },
            GrindEvent::AgentStdout { seq, line } => GrindEventModel::AgentStdout {
                seq: *seq,
                line: line@,
            },
            GrindEvent::AgentStderr { seq, line } => GrindEventModel::AgentStderr {
                seq: *seq,
                line: line@,
            },
            GrindEvent::AgentToolUse { seq, name } => GrindEventModel::AgentToolUse {
                seq: *seq,
                name: name@,
            },
            GrindEvent::HookFired { seq, kind, success, description } =>
                GrindEventModel::HookFired {
                seq: *seq,
                kind: *kind,
                success: *success,
                description: description@,
            },
            GrindEvent::SummaryCaptured { seq, summary } => GrindEventModel::SummaryCaptured {
                seq: *seq,
                summary: summary@,
            },
            GrindEvent::SessionFinished { record } => GrindEventModel::SessionFinished {
                record: record@,
            },
            GrindEvent::BudgetWarning { kind } => GrindEventModel::BudgetWarning { kind: *kind },
            GrindEvent::SchedulerPicked { rotation, pick } => GrindEventModel::SchedulerPicked {
                rotation: *rotation,
                pick: text::view_of(*pick),
            },
            GrindEvent::RunFinished { stop_reason } => GrindEventModel::RunFinished {
                stop_reason: *stop_reason,
            },
        }
    }
}

/// The events as mathematical values.
pub open spec fn event_views(events: Seq<GrindEvent>) -> Seq<GrindEventModel> {
    events.map_values(|e: GrindEvent| e@)
}

/// The event that a hook outcome calls for.
pub open spec fn hook_event(seq: u32, kind: HookKind, success: bool, description: Seq<char>) ->
    GrindEventModel {
    GrindEventModel::HookFired { seq, kind, success, description }
}

/// The event that a hook outcome calls for.
pub fn emit_hook_event(seq: u32, kind: HookKind, outcome: &HookOutcome) -> (r: GrindEvent)
    ensures
        r@ == hook_event(seq, kind, *outcome is Success, hooks::outcome_text(*outcome)),
{
    GrindEvent::HookFired {
        seq,
        kind,
        success: outcome.is_success(),
        description: outcome.description(),
    }
}

/// The event that a report of the agent of the session `seq` calls for. Token
/// deltas call for none: tokens are folded from the end of the dispatch.
pub fn forward_agent_event(seq: u32, event: AgentEvent) -> (r: Option<GrindEvent>)
    ensures
        match event {
            AgentEvent::Stdout(line) => r matches Some(e) && e@ == (GrindEventModel::AgentStdout {
                seq,
                line: line@,
            }),
            AgentEvent::Stderr(line) => r matches Some(e) && e@ == (GrindEventModel::AgentStderr {
                seq,
                line: line@,
            }),
            AgentEvent::ToolUse(name) => r matches Some(e) && e@ == (GrindEventModel::AgentToolUse {
                seq,
                name: name@,
            }),
            AgentEvent::TokenDelta => r is None,
        },
{
    match event {
        AgentEvent::Stdout(line) => Some(GrindEvent::AgentStdout { seq, line }),
        AgentEvent::Stderr(line) => Some(GrindEvent::AgentStderr { seq, line }),
        AgentEvent::ToolUse(name) => Some(GrindEvent::AgentToolUse { seq, name }),
        AgentEvent::TokenDelta => None,
    }
}

} // verus!
