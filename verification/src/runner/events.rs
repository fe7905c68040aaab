//! What a run tells its subscribers, and the lines a plain logger prints of it.

use vstd::prelude::*;
use vstd::string::StringExecFns;

use super::pipeline;
use super::pipeline::{HaltModel, HaltReason};
use crate::agent::AgentEvent;
use crate::plan::PhaseId;
use crate::state::{TokenUsage, UsageModel};
use crate::style;
use crate::style::Style;
use crate::text;

verus! {

/// Capacity of the broadcast channel events fan out on. Enough that a slow
/// subscriber falls behind by hundreds of events before lagging; sends are
/// best-effort so a slow subscriber never blocks the runner.
pub const EVENT_CHANNEL_CAPACITY: usize = 256;

/// Discriminator on [`AuditContext`]. Tells subscribers whether the audit
/// firing belongs to a regular plan phase or a deferred sweep so the TUI and
/// loggers can render the right header text without inspecting state.
#[derive(Debug, Clone, Copy, PartialEq, Eq, Structural)]
pub enum AuditContextKind {
    /// Audit pass for a regular plan-phase implementer dispatch.
    Phase,
    /// Audit pass for a deferred-sweep dispatch.
    Sweep,
}

/// Payload threaded through the auditor events. Carries the phase id under
/// which the audit's attempts are accounted plus the kind discriminator. Sweep
/// audits set `phase_id` to the most recently completed real phase (the same
/// id [`Event::SweepStarted`] uses) so the running attempts counter still keys
/// on a real phase id.
#[derive(Debug, PartialEq, Eq)]
pub struct AuditContext {
    /// Phase id under which the audit's attempts are tallied.
    pub phase_id: PhaseId,
    /// Whether this is a phase audit or a sweep audit.
    pub kind: AuditContextKind,
}

/// An [`AuditContext`] as a mathematical value.
pub struct AuditModel {
    pub phase_id: Seq<char>,
    pub kind: AuditContextKind,
}

impl View for AuditContext {
    type V = AuditModel;

    open spec fn view(&self) -> AuditModel {
        AuditModel { phase_id: self.phase_id@, kind: self.kind }
    }
}

/// Streaming events the runner broadcasts to subscribers. Sends are
/// best-effort: a lagging or absent subscriber never blocks the runner.
#[derive(Debug, PartialEq, Eq)]
pub enum Event {
    /// A phase began. Emitted once per implementer dispatch — fixer
    /// re-dispatches inside the same phase emit [`Event::FixerStarted`] instead
    /// so subscribers can distinguish them.
    PhaseStarted {
        /// Phase being entered.
        phase_id: PhaseId,
        /// Phase title from the heading.
        title: String,
        /// 1-based total agent dispatch counter at this phase.
        attempt: u32,
    },
    /// The runner dispatched the fixer agent after a test failure.
    FixerStarted {
        /// Phase the fixer is operating on.
        phase_id: PhaseId,
        /// 1-based fixer attempt within this phase.
        fixer_attempt: u32,
        /// Total agent-dispatch counter at this phase.
        attempt: u32,
    },
    /// The runner dispatched the auditor agent after the test suite passed.
    /// Fires at most once per phase or sweep, and only when the relevant
    /// audit toggle is on and the dispatch produced staged code changes.
    AuditorStarted {
        /// Audit-pass context: phase id + whether this is a phase or sweep
        /// audit.
        context: AuditContext,
        /// Total agent-dispatch counter at this phase.
        attempt: u32,
    },
    /// The auditor was not dispatched: there were no code changes worth
    /// auditing (the index was empty after staging excluded paths).
    AuditorSkippedNoChanges {
        /// Audit-pass context: phase id + whether this is a phase or sweep
        /// audit.
        context: AuditContext,
    },
    /// One line of agent stdout.
    AgentStdout(String),
    /// One line of agent stderr.
    AgentStderr(String),
    /// Agent invoked a tool. Carries the tool name.
    AgentToolUse(String),
    /// The runner began running the project test suite.
    TestStarted,
    /// The test suite finished with the carried summary.
    TestFinished {
        /// Whether the run exited zero.
        passed: bool,
        /// Short summary suitable for inline display.
        summary: String,
    },
    /// The runner skipped tests because no runner was detected and no
    /// `[tests] command = "..."` override was configured.
    TestsSkipped,
    /// A phase's code changes were committed (or skipped because the only
    /// changes were to excluded planning artifacts).
    PhaseCommitted {
        /// Phase that completed.
        phase_id: PhaseId,
        /// Resulting commit, or `None` when only excluded paths changed.
        commit: Option<String>,
    },
    /// The runner stopped without advancing.
    PhaseHalted {
        /// Phase that halted.
        phase_id: PhaseId,
        /// Why the runner halted.
        reason: HaltReason,
    },
    /// The runner advanced past the final phase. No further phases remain.
    RunFinished,
    /// Aggregated token usage was updated after an agent dispatch finished.
    /// Carries a snapshot so subscribers can show running cost / token totals
    /// without needing a reference to the runner state.
    UsageUpdated(TokenUsage),
    /// A deferred-sweep dispatch began. Fires once per sweep step, between
    /// the [`Event::PhaseCommitted`] of the preceding phase and the
    /// [`Event::PhaseStarted`] of the next regular phase. The sweep does not
    /// introduce a synthetic phase id — `after` is the most recently completed
    /// phase under which the sweep's attempts are accounted.
    SweepStarted {
        /// Phase the sweep is firing after.
        after: PhaseId,
        /// Unchecked-item count observed before the sweep dispatched.
        items_pending: usize,
        /// Total agent-dispatch counter under `after` after the sweep's
        /// implementer dispatch is recorded.
        attempt: u32,
    },
    /// A deferred-sweep dispatch finished and its commit (or empty diff) has
    /// landed. `commit` is `None` when the sweep produced no code changes.
    SweepCompleted {
        /// Phase the sweep fired after.
        after: PhaseId,
        /// Number of `## Deferred items` entries the sweep flipped from
        /// `- [ ]` to `- [x]`. New items the agent appended don't pollute this
        /// count.
        resolved: usize,
        /// Resulting commit, or `None` for the no-code-changes case.
        commit: Option<String>,
    },
    /// A deferred-sweep dispatch halted before it could land a commit. Mirrors
    /// [`Event::PhaseHalted`] for the sweep entry point so subscribers can
    /// distinguish "phase failed" from "sweep failed."
    SweepHalted {
        /// Phase the sweep fired after.
        after: PhaseId,
        /// Why the sweep halted.
        reason: HaltReason,
    },
    /// A `## Deferred items` entry's per-sweep attempt counter just crossed the
    /// threshold. Transition-only — the next sweep that increments the same
    /// item's counter further does *not* re-emit, so subscribers can treat each
    /// occurrence as a fresh "needs human attention" signal.
    DeferredItemStale {
        /// The item text from `deferred.md` (the bytes after `- [ ]`).
        text: String,
        /// The new attempt count, equal to or greater than the threshold.
        attempts: u32,
    },
}

/// An [`Event`] as a mathematical value.
pub enum EventModel {
    PhaseStarted { phase_id: Seq<char>, title: Seq<char>, attempt: u32 },
    FixerStarted { phase_id: Seq<char>, fixer_attempt: u32, attempt: u32 },
    AuditorStarted { context: AuditModel, attempt: u32 },
    AuditorSkippedNoChanges { context: AuditModel },
    AgentStdout(Seq<char>),
    AgentStderr(Seq<char>),
    AgentToolUse(Seq<char>),
    TestStarted,
    TestFinished { passed: bool, summary: Seq<char> },
    TestsSkipped,
    PhaseCommitted { phase_id: Seq<char>, commit: Option<Seq<char>> },
    PhaseHalted { phase_id: Seq<char>, reason: HaltModel },
    RunFinished,
    UsageUpdated(UsageModel),
    SweepStarted { after: Seq<char>, items_pending: nat, attempt: u32 },
    SweepCompleted { after: Seq<char>, resolved: nat, commit: Option<Seq<char>> },
    SweepHalted { after: Seq<char>, reason: HaltModel },
    DeferredItemStale { text: Seq<char>, attempts: u32 },
}

impl View for Event {
    type V = EventModel;

    open spec fn view(&self) -> EventModel {
        match self {
            Event::PhaseStarted { phase_id, title, attempt } => EventModel::PhaseStarted {
                phase_id: phase_id@,
                title: title@,
                attempt: *attempt,
            },
            Event::FixerStarted { phase_id, fixer_attempt, attempt } => EventModel::FixerStarted {
                phase_id: phase_id@,
                fixer_attempt: *fixer_attempt,
                attempt: *attempt,
            },
            Event::AuditorStarted { context, attempt } => EventModel::AuditorStarted {
                context: context@,
                attempt: *attempt,
            },
            Event::AuditorSkippedNoChanges { context } => EventModel::AuditorSkippedNoChanges {
                context: context@,
            },
            Event::AgentStdout(line) => EventModel::AgentStdout(line@),
            Event::AgentStderr(line) => EventModel::AgentStderr(line@),
            Event::AgentToolUse(name) => EventModel::AgentToolUse(name@),
            Event::TestStarted => EventModel::TestStarted,
            Event::TestFinished { passed, summary } => EventModel::TestFinished {
                passed: *passed,
                summary: summary@,
            },
            Event::TestsSkipped => EventModel::TestsSkipped,
            Event::PhaseCommitted { phase_id, commit } => EventModel::PhaseCommitted {
                phase_id: phase_id@,
                commit: text::view_of(*commit),
            },
            Event::PhaseHalted { phase_id, reason } => EventModel::PhaseHalted {
                phase_id: phase_id@,
                reason: reason@,
            },
            Event::RunFinished => EventModel::RunFinished,
            Event::UsageUpdated(usage) => EventModel::UsageUpdated(usage@),
            Event::SweepStarted { after, items_pending, attempt } => EventModel::SweepStarted {
                after: after@,
                items_pending: *items_pending as nat,
                attempt: *attempt,
            },
            Event::SweepCompleted { after, resolved, commit } => EventModel::SweepCompleted {
                after: after@,
                resolved: *resolved as nat,
                commit: text::view_of(*commit),
            },
            Event::SweepHalted { after, reason } => EventModel::SweepHalted {
                after: after@,
                reason: reason@,
            },
            Event::DeferredItemStale { text, attempts } => EventModel::DeferredItemStale {
                text: text@,
                attempts: *attempts,
            },
        }
    }
}

/// The events as mathematical values.
pub open spec fn event_views(events: Seq<Event>) -> Seq<EventModel> {
    events.map_values(|e: Event| e@)
}

/// The event that a report of the agent calls for. Token deltas call for none:
/// they are folded from the final outcome, not the stream — folding here would
/// double-count any agent that emits both intermediate deltas and a totals
/// report.
pub fn forward_agent_event(event: AgentEvent) -> (r: Option<Event>)
    ensures
        match event {
            AgentEvent::Stdout(line) => r matches Some(e) && e@ == EventModel::AgentStdout(line@),
            AgentEvent::Stderr(line) => r matches Some(e) && e@ == EventModel::AgentStderr(line@),
            AgentEvent::ToolUse(name) => r matches Some(e) && e@ == EventModel::AgentToolUse(name@),
            AgentEvent::TokenDelta => r is None,
        },
{
    match event {
        AgentEvent::Stdout(line) => Some(Event::AgentStdout(line)),
        AgentEvent::Stderr(line) => Some(Event::AgentStderr(line)),
        AgentEvent::ToolUse(name) => Some(Event::AgentToolUse(name)),
        AgentEvent::TokenDelta => None,
    }
}

/// No further events follow this one.
pub open spec fn ends_stream(e: EventModel) -> bool {
    e is RunFinished || e is PhaseHalted
}

/// Whether no further events follow this one: a run that finished or halted
/// emits exactly one such event, and a logger returns after it. Otherwise it
/// would wait forever, because the runner keeps the channel open for post-run
/// lookups.
pub fn is_terminal(event: &Event) -> (r: bool)
    ensures
        r == ends_stream(event@),
{
    match event {
        Event::RunFinished => true,
        Event::PhaseHalted { .. } => true,
        _ => false,
    }
}

// ---------------------------------------------------------------------------
// Log lines
// ---------------------------------------------------------------------------

/// What an audit is an audit of.
pub open spec fn audit_label(context: AuditModel) -> Seq<char> {
    (match context.kind {
        AuditContextKind::Phase => "phase "@,
        AuditContextKind::Sweep => "sweep after phase "@,
    }) + context.phase_id
}

fn label_of(context: &AuditContext) -> (r: String)
    ensures
        r@ == audit_label(context@),
{
    let mut out = text::owned(
        match context.kind {
            AuditContextKind::Phase => "phase ",
            AuditContextKind::Sweep => "sweep after phase ",
        },
    );
    out.append(context.phase_id.as_str());
    out
}

/// The plain text of an event.
pub open spec fn event_text(e: EventModel) -> Seq<char> {
    match e {
        EventModel::PhaseStarted { phase_id, title, attempt } => "phase "@ + phase_id + " ("@
            + title + "), attempt "@ + text::decimal(attempt as nat),
        EventModel::FixerStarted { phase_id, fixer_attempt, attempt } => "phase "@ + phase_id
            + " fixer attempt "@ + text::decimal(fixer_attempt as nat) + " (total dispatch "@
            + text::decimal(attempt as nat) + ")"@,
        EventModel::AuditorStarted { context, attempt } => audit_label(context)
            + " auditor (total dispatch "@ + text::decimal(attempt as nat) + ")"@,
        EventModel::AuditorSkippedNoChanges { context } => audit_label(context)
            + " auditor skipped: no code changes to audit"@,
        EventModel::AgentStdout(line) => line,
        EventModel::AgentStderr(line) => line,
        EventModel::AgentToolUse(name) => "[agent:tool] "@ + name,
        EventModel::TestStarted => "running tests"@,
        EventModel::TestFinished { passed, summary } => (if passed {
            "tests passed: "@
        } else {
            "tests failed: "@
        }) + summary,
        EventModel::TestsSkipped => "no test runner detected; skipping"@,
        EventModel::PhaseCommitted { phase_id, commit: Some(id) } => "phase "@ + phase_id
            + " committed: "@ + id,
        EventModel::PhaseCommitted { phase_id, commit: None } => "phase "@ + phase_id
            + " produced no code changes; no commit"@,
        EventModel::PhaseHalted { phase_id, reason } => "phase "@ + phase_id + " halted: "@
            + pipeline::halt_message(reason),
        EventModel::RunFinished => "[pitboss] run finished"@,
        EventModel::UsageUpdated(_) => Seq::empty(),
        EventModel::SweepStarted { after, items_pending, attempt } => "sweep after phase "@ + after
            + " ("@ + text::decimal(items_pending) + " pending, total dispatch "@
            + text::decimal(attempt as nat) + ")"@,
        EventModel::SweepCompleted { after, resolved, commit: Some(id) } => "sweep after phase "@
            + after + " committed: "@ + text::decimal(resolved) + " resolved ("@ + id + ")"@,
        EventModel::SweepCompleted { after, resolved, commit: None } => "sweep after phase "@
            + after + ": "@ + text::decimal(resolved) + " resolved; no code changes to commit"@,
        EventModel::SweepHalted { after, reason } => "sweep after phase "@ + after + " halted: "@
            + pipeline::halt_message(reason),
        EventModel::DeferredItemStale { text: item, attempts } => "deferred item stale ("@
            + text::decimal(attempts as nat) + " sweep attempts; needs human attention): "@ + item,
    }
}

fn text_of(event: &Event) -> (r: String)
    ensures
        r@ == event_text(event@),
{
    match event {
        Event::PhaseStarted { phase_id, title, attempt } => {
            let mut out = text::owned("phase ");
            out.append(phase_id.as_str());
            out.append(" (");
            out.append(title.as_str());
            out.append("), attempt ");
            out.append(text::decimal_u32(*attempt).as_str());
            out
        },
        Event::FixerStarted { phase_id, fixer_attempt, attempt } => {
            let mut out = text::owned("phase ");
            out.append(phase_id.as_str());
            out.append(" fixer attempt ");
            out.append(text::decimal_u32(*fixer_attempt).as_str());
            out.append(" (total dispatch ");
            out.append(text::decimal_u32(*attempt).as_str());
            out.append(")");
            out
        },
        Event::AuditorStarted { context, attempt } => {
            let mut out = text::owned(label_of(context).as_str());
            out.append(" auditor (total dispatch ");
            out.append(text::decimal_u32(*attempt).as_str());
            out.append(")");
            out
        },
        Event::AuditorSkippedNoChanges { context } => {
            let mut out = text::owned(label_of(context).as_str());
            out.append(" auditor skipped: no code changes to audit");
            out
        },
        Event::AgentStdout(line) => text::owned(line.as_str()),
        Event::AgentStderr(line) => text::owned(line.as_str()),
        Event::AgentToolUse(name) => {
            let mut out = text::owned("[agent:tool] ");
            out.append(name.as_str());
            out
        },
        Event::TestStarted => text::owned("running tests"),
        Event::TestFinished { passed, summary } => {
            let mut out = text::owned(if *passed {
                "tests passed: "
            } else {
                "tests failed: "
            });
            out.append(summary.as_str());
            out
        },
        Event::TestsSkipped => text::owned("no test runner detected; skipping"),
        Event::PhaseCommitted { phase_id, commit: Some(id) } => {
            let mut out = text::owned("phase ");
            out.append(phase_id.as_str());
            out.append(" committed: ");
            out.append(id.as_str());
            out
        },
        Event::PhaseCommitted { phase_id, commit: None } => {
            let mut out = text::owned("phase ");
            out.append(phase_id.as_str());
            out.append(" produced no code changes; no commit");
            out
        },
        Event::PhaseHalted { phase_id, reason } => {
            let mut out = text::owned("phase ");
            out.append(phase_id.as_str());
            out.append(" halted: ");
            out.append(reason.message().as_str());
            out
        },
        Event::RunFinished => text::owned("[pitboss] run finished"),
        Event::UsageUpdated(_) => String::new(),
        Event::SweepStarted { after, items_pending, attempt } => {
            let mut out = text::owned("sweep after phase ");
            out.append(after.as_str());
            out.append(" (");
            out.append(text::decimal_usize(*items_pending).as_str());
            out.append(" pending, total dispatch ");
            out.append(text::decimal_u32(*attempt).as_str());
            out.append(")");
            out
        },
        Event::SweepCompleted { after, resolved, commit: Some(id) } => {
            let mut out = text::owned("sweep after phase ");
            out.append(after.as_str());
            out.append(" committed: ");
            out.append(text::decimal_usize(*resolved).as_str());
            out.append(" resolved (");
            out.append(id.as_str());
            out.append(")");
            out
        },
        Event::SweepCompleted { after, resolved, commit: None } => {
            let mut out = text::owned("sweep after phase ");
            out.append(after.as_str());
            out.append(": ");
            out.append(text::decimal_usize(*resolved).as_str());
            out.append(" resolved; no code changes to commit");
            out
        },
        Event::SweepHalted { after, reason } => {
            let mut out = text::owned("sweep after phase ");
            out.append(after.as_str());
            out.append(" halted: ");
            out.append(reason.message().as_str());
            out
        },
        Event::DeferredItemStale { text: item, attempts } => {
            let mut out = text::owned("deferred item stale (");
            out.append(text::decimal_u32(*attempts).as_str());
            out.append(" sweep attempts; needs human attention): ");
            out.append(item.as_str());
            out
        },
    }
}

/// The style of an event's text.
pub open spec fn event_style(e: EventModel) -> Style {
    match e {
        EventModel::PhaseStarted { .. } => Style::BoldWhite,
        EventModel::FixerStarted { .. } => Style::Yellow,
        EventModel::AuditorStarted { .. } => Style::Blue,
        EventModel::AuditorSkippedNoChanges { .. } => Style::Dim,
        EventModel::AgentStdout(_) => Style::Dim,
        EventModel::AgentStderr(_) => Style::Red,
        EventModel::AgentToolUse(_) => Style::DarkGray,
        EventModel::TestStarted => Style::Magenta,
        EventModel::TestFinished { passed, .. } => if passed {
            Style::BoldGreen
        } else {
            Style::BoldRed
        },
        EventModel::TestsSkipped => Style::Dim,
        EventModel::PhaseCommitted { commit, .. } => if commit is Some {
            Style::Green
        } else {
            Style::Dim
        },
        EventModel::PhaseHalted { .. } => Style::BoldRed,
        EventModel::RunFinished => Style::BoldGreen,
        EventModel::UsageUpdated(_) => Style::Dim,
        EventModel::SweepStarted { .. } => Style::BoldCyan,
        EventModel::SweepCompleted { commit, .. } => if commit is Some {
            Style::Green
        } else {
            Style::Dim
        },
        EventModel::SweepHalted { .. } => Style::BoldRed,
        EventModel::DeferredItemStale { .. } => Style::BoldYellow,
    }
}

fn style_of(event: &Event) -> (r: Style)
    ensures
        r == event_style(event@),
{
    match event {
        Event::PhaseStarted { .. } => Style::BoldWhite,
        Event::FixerStarted { .. } => Style::Yellow,
        Event::AuditorStarted { .. } => Style::Blue,
        Event::AuditorSkippedNoChanges { .. } => Style::Dim,
        Event::AgentStdout(_) => Style::Dim,
        Event::AgentStderr(_) => Style::Red,
        Event::AgentToolUse(_) => Style::DarkGray,
        Event::TestStarted => Style::Magenta,
        Event::TestFinished { passed, .. } => {
            if *passed {
                Style::BoldGreen
            } else {
                Style::BoldRed
            }
        },
        Event::TestsSkipped => Style::Dim,
        Event::PhaseCommitted { commit, .. } => {
            if commit.is_some() {
                Style::Green
            } else {
                Style::Dim
            }
        },
        Event::PhaseHalted { .. } => Style::BoldRed,
        Event::RunFinished => Style::BoldGreen,
        Event::UsageUpdated(_) => Style::Dim,
        Event::SweepStarted { .. } => Style::BoldCyan,
        Event::SweepCompleted { commit, .. } => {
            if commit.is_some() {
                Style::Green
            } else {
                Style::Dim
            }
        },
        Event::SweepHalted { .. } => Style::BoldRed,
        Event::DeferredItemStale { .. } => Style::BoldYellow,
    }
}

/// A line carries what it reports: the phase that it is about, every count, the
/// commit, the reason of a halt and the text of an item, each where its words say
/// so. What an agent prints is carried as it is. A test run that passed is told
/// from one that failed, and its summary follows.
pub proof fn lines_carry_what_they_report(e: EventModel)
    ensures
        e matches EventModel::PhaseStarted { phase_id, title, attempt } ==> {
            &&& text::contains(event_text(e), "phase "@ + phase_id)
            &&& text::contains(event_text(e), title)
            &&& text::contains(event_text(e), "), attempt "@ + text::decimal(attempt as nat))
        },
        e matches EventModel::FixerStarted { phase_id, fixer_attempt, attempt } ==> {
            &&& text::contains(event_text(e), "phase "@ + phase_id)
            &&& text::contains(
                event_text(e),
                " fixer attempt "@ + text::decimal(fixer_attempt as nat),
            )
            &&& text::contains(event_text(e), " (total dispatch "@ + text::decimal(attempt as nat))
        },
        e matches EventModel::AuditorStarted { context, attempt } ==> {
            &&& text::contains(event_text(e), audit_label(context))
            &&& text::contains(
                event_text(e),
                " auditor (total dispatch "@ + text::decimal(attempt as nat),
            )
        },
        e matches EventModel::AuditorSkippedNoChanges { context } ==> text::contains(
            event_text(e),
            audit_label(context),
        ),
        e matches EventModel::AgentToolUse(name) ==> text::contains(event_text(e), name),
        e matches EventModel::PhaseCommitted { phase_id, commit: Some(id) } ==> {
            &&& text::contains(event_text(e), "phase "@ + phase_id)
            &&& text::contains(event_text(e), " committed: "@ + id)
        },
        e matches EventModel::PhaseCommitted { phase_id, commit: None } ==> text::contains(
            event_text(e),
            "phase "@ + phase_id,
        ),
        e matches EventModel::PhaseHalted { phase_id, reason } ==> {
            &&& text::contains(event_text(e), "phase "@ + phase_id)
            &&& text::contains(event_text(e), " halted: "@ + pipeline::halt_message(reason))
        },
        e matches EventModel::SweepStarted { after, items_pending, attempt } ==> {
            &&& text::contains(event_text(e), "sweep after phase "@ + after)
            &&& text::contains(event_text(e), " ("@ + text::decimal(items_pending))
            &&& text::contains(
                event_text(e),
                " pending, total dispatch "@ + text::decimal(attempt as nat),
            )
        },
        e matches EventModel::SweepCompleted { after, resolved, commit: Some(id) } ==> {
            &&& text::contains(event_text(e), "sweep after phase "@ + after)
            &&& text::contains(event_text(e), " committed: "@ + text::decimal(resolved))
            &&& text::contains(event_text(e), id)
        },
        e matches EventModel::SweepCompleted { after, resolved, commit: None } ==> {
            &&& text::contains(event_text(e), "sweep after phase "@ + after)
            &&& text::contains(event_text(e), ": "@ + text::decimal(resolved))
        },
        e matches EventModel::SweepHalted { after, reason } ==> {
            &&& text::contains(event_text(e), "sweep after phase "@ + after)
            &&& text::contains(event_text(e), " halted: "@ + pipeline::halt_message(reason))
        },
        e matches EventModel::DeferredItemStale { text: item, attempts } ==> {
            &&& text::contains(event_text(e), text::decimal(attempts as nat))
            &&& text::contains(event_text(e), item)
        },
        e matches EventModel::TestFinished { passed, summary } ==> event_text(e) == (if passed {
            "tests passed: "@
        } else {
            "tests failed: "@
        }) + summary,
        e matches EventModel::AgentStdout(line) ==> event_text(e) == line,
        e matches EventModel::AgentStderr(line) ==> event_text(e) == line,
{
    match e {
        EventModel::PhaseStarted { phase_id, title, attempt } => {
            text::parts_are_held(
                Seq::<char>::empty(),
                "phase "@ + phase_id,
                " ("@ + title + "), attempt "@ + text::decimal(attempt as nat),
                event_text(e),
            );
            text::parts_are_held(
                "phase "@ + phase_id + " ("@,
                title,
                "), attempt "@ + text::decimal(attempt as nat),
                event_text(e),
            );
            text::parts_are_held(
                "phase "@ + phase_id + " ("@ + title,
                "), attempt "@ + text::decimal(attempt as nat),
                Seq::<char>::empty(),
                event_text(e),
            );
        },
        EventModel::FixerStarted { phase_id, fixer_attempt, attempt } => {
            text::parts_are_held(
                Seq::<char>::empty(),
                "phase "@ + phase_id,
                " fixer attempt "@ + text::decimal(fixer_attempt as nat) + " (total dispatch "@
                    + text::decimal(attempt as nat) + ")"@,
                event_text(e),
            );
            text::parts_are_held(
                "phase "@ + phase_id,
                " fixer attempt "@ + text::decimal(fixer_attempt as nat),
                " (total dispatch "@ + text::decimal(attempt as nat) + ")"@,
                event_text(e),
            );
            text::parts_are_held(
                "phase "@ + phase_id + " fixer attempt "@ + text::decimal(fixer_attempt as nat),
                " (total dispatch "@ + text::decimal(attempt as nat),
                ")"@,
                event_text(e),
            );
        },
        EventModel::AuditorStarted { context, attempt } => {
            text::parts_are_held(
                Seq::<char>::empty(),
                audit_label(context),
                " auditor (total dispatch "@ + text::decimal(attempt as nat) + ")"@,
                event_text(e),
            );
            text::parts_are_held(
                audit_label(context),
                " auditor (total dispatch "@ + text::decimal(attempt as nat),
                ")"@,
                event_text(e),
            );
        },
        EventModel::AuditorSkippedNoChanges { context } => {
            text::parts_are_held(
                Seq::<char>::empty(),
                audit_label(context),
                " auditor skipped: no code changes to audit"@,
                event_text(e),
            );
        },
        EventModel::AgentToolUse(name) => {
            text::parts_are_held("[agent:tool] "@, name, Seq::<char>::empty(), event_text(e));
        },
        EventModel::PhaseCommitted { phase_id, commit: Some(id) } => {
            text::parts_are_held(
                Seq::<char>::empty(),
                "phase "@ + phase_id,
                " committed: "@ + id,
                event_text(e),
            );
            text::parts_are_held(
                "phase "@ + phase_id,
                " committed: "@ + id,
                Seq::<char>::empty(),
                event_text(e),
            );
        },
        EventModel::PhaseCommitted { phase_id, commit: None } => {
            text::parts_are_held(
                Seq::<char>::empty(),
                "phase "@ + phase_id,
                " produced no code changes; no commit"@,
                event_text(e),
            );
        },
        EventModel::PhaseHalted { phase_id, reason } => {
            text::parts_are_held(
                Seq::<char>::empty(),
                "phase "@ + phase_id,
                " halted: "@ + pipeline::halt_message(reason),
                event_text(e),
            );
            text::parts_are_held(
                "phase "@ + phase_id,
                " halted: "@ + pipeline::halt_message(reason),
                Seq::<char>::empty(),
                event_text(e),
            );
        },
        EventModel::SweepStarted { after, items_pending, attempt } => {
            text::parts_are_held(
                Seq::<char>::empty(),
                "sweep after phase "@ + after,
                " ("@ + text::decimal(items_pending) + " pending, total dispatch "@
                    + text::decimal(attempt as nat) + ")"@,
                event_text(e),
            );
            text::parts_are_held(
                "sweep after phase "@ + after,
                " ("@ + text::decimal(items_pending),
                " pending, total dispatch "@ + text::decimal(attempt as nat) + ")"@,
                event_text(e),
            );
            text::parts_are_held(
                "sweep after phase "@ + after + " ("@ + text::decimal(items_pending),
                " pending, total dispatch "@ + text::decimal(attempt as nat),
                ")"@,
                event_text(e),
            );
        },
        EventModel::SweepCompleted { after, resolved, commit: Some(id) } => {
            text::parts_are_held(
                Seq::<char>::empty(),
                "sweep after phase "@ + after,
                " committed: "@ + text::decimal(resolved) + " resolved ("@ + id + ")"@,
                event_text(e),
            );
            text::parts_are_held(
                "sweep after phase "@ + after,
                " committed: "@ + text::decimal(resolved),
                " resolved ("@ + id + ")"@,
                event_text(e),
            );
            text::parts_are_held(
                "sweep after phase "@ + after + " committed: "@ + text::decimal(resolved)
                    + " resolved ("@,
                id,
                ")"@,
                event_text(e),
            );
        },
        EventModel::SweepCompleted { after, resolved, commit: None } => {
            text::parts_are_held(
                Seq::<char>::empty(),
                "sweep after phase "@ + after,
                ": "@ + text::decimal(resolved) + " resolved; no code changes to commit"@,
                event_text(e),
            );
            text::parts_are_held(
                "sweep after phase "@ + after,
                ": "@ + text::decimal(resolved),
                " resolved; no code changes to commit"@,
                event_text(e),
            );
        },
        EventModel::SweepHalted { after, reason } => {
            text::parts_are_held(
                Seq::<char>::empty(),
                "sweep after phase "@ + after,
                " halted: "@ + pipeline::halt_message(reason),
                event_text(e),
            );
            text::parts_are_held(
                "sweep after phase "@ + after,
                " halted: "@ + pipeline::halt_message(reason),
                Seq::<char>::empty(),
                event_text(e),
            );
        },
        EventModel::DeferredItemStale { text: item, attempts } => {
            text::parts_are_held(
                "deferred item stale ("@,
                text::decimal(attempts as nat),
                " sweep attempts; needs human attention): "@ + item,
                event_text(e),
            );
            text::parts_are_held(
                "deferred item stale ("@ + text::decimal(attempts as nat)
                    + " sweep attempts; needs human attention): "@,
                item,
                Seq::<char>::empty(),
                event_text(e),
            );
        },
        _ => {},
    }
}

/// An audit is labelled by its phase, and that of a sweep as one after its phase.
pub proof fn audits_are_labelled_by_their_phase(context: AuditModel)
    ensures
        context.kind == AuditContextKind::Phase ==> audit_label(context) == "phase "@
            + context.phase_id,
        context.kind == AuditContextKind::Sweep ==> audit_label(context) == "sweep after phase "@
            + context.phase_id,
{
}

/// What went wrong is shown in red: what an agent prints as an error, a test run
/// that failed, and a phase or a sweep that halted; nothing else is. What went
/// well is shown in green: a test run that passed, a commit, and a run that
/// finished; nothing else is.
pub proof fn colors_tell_good_from_bad(e: EventModel)
    ensures
        event_style(e) == Style::Red || event_style(e) == Style::BoldRed <==> e is AgentStderr
            || e is PhaseHalted || e is SweepHalted || (e matches EventModel::TestFinished {
            passed,
            ..
        } && !passed),
        event_style(e) == Style::Green || event_style(e) == Style::BoldGreen <==> e is RunFinished
            || (e matches EventModel::TestFinished { passed, .. } && passed) || (e matches
            EventModel::PhaseCommitted { commit, .. } && commit is Some) || (e matches
            EventModel::SweepCompleted { commit, .. } && commit is Some),
{
}

/// Without colors an event is one plain line: its text, behind the mark of who
/// speaks. Usage is not shown at all. Colors add rules around the start of a phase
/// and the end of a run, and nowhere else.
pub proof fn plain_logs_show_one_line(e: EventModel)
    ensures
        e is UsageUpdated ==> event_lines(e, true).len() == 0 && event_lines(e, false).len() == 0,
        !(e is UsageUpdated) ==> event_lines(e, false).len() == 1,
        e is PhaseStarted || e is RunFinished ==> event_lines(e, true).len() == 3,
        !(e is UsageUpdated) && !(e is PhaseStarted) && !(e is RunFinished) ==> event_lines(
            e,
            true,
        ).len() == 1,
        e is AgentStdout ==> event_lines(e, false)[0] == "[agent]"@ + " "@ + event_text(e),
        e is AgentStderr ==> event_lines(e, false)[0] == "[agent:err]"@ + " "@ + event_text(e),
        e is RunFinished || e is AgentToolUse ==> event_lines(e, false)[0] == event_text(e),
        !(e is UsageUpdated) && !(e is AgentStdout) && !(e is AgentStderr) && !(e is RunFinished)
            && !(e is AgentToolUse) ==> event_lines(e, false)[0] == "[pitboss]"@ + " "@
            + event_text(e),
{
}

/// A stream ends with the end of its run or with the halt of its phase, and with
/// nothing else: a sweep that halts is followed by the halt that it leads to.
pub proof fn streams_end_with_their_run(e: EventModel)
    ensures
        ends_stream(e) <==> e is RunFinished || e is PhaseHalted,
        e is SweepHalted ==> !ends_stream(e),
{
}

/// `tag` and `body`, each in its own style.
pub open spec fn tagged(
    color: bool,
    tag_style: Style,
    tag: Seq<char>,
    body: Seq<char>,
) -> Seq<char> {
    style::styled(color, tag_style, tag) + " "@ + body
}

fn with_tag(color: bool, tag_style: Style, tag: &str, body: &str) -> (r: String)
    ensures
        r@ == tagged(color, tag_style, tag@, body@),
{
    let mut out = style::col(color, tag_style, tag);
    out.append(" ");
    out.append(body);
    out
}

/// The line of an event.
pub open spec fn event_line(e: EventModel, color: bool) -> Seq<char> {
    let body = style::styled(color, event_style(e), event_text(e));
    match e {
        EventModel::AgentStdout(line) => tagged(color, Style::Dim, "[agent]"@, line),
        EventModel::AgentStderr(_) => tagged(color, Style::Red, "[agent:err]"@, body),
        EventModel::AgentToolUse(_) => body,
        EventModel::RunFinished => body,
        EventModel::PhaseHalted { .. } => tagged(color, Style::BoldRed, "[pitboss]"@, body),
        EventModel::SweepHalted { .. } => tagged(color, Style::BoldRed, "[pitboss]"@, body),
        _ => tagged(color, Style::BoldCyan, "[pitboss]"@, body),
    }
}

/// The style of the rules around an event's line, if it has any.
pub open spec fn event_frame(e: EventModel) -> Option<Style> {
    match e {
        EventModel::PhaseStarted { .. } => Some(Style::DarkGray),
        EventModel::RunFinished => Some(Style::BoldGreen),
        _ => None,
    }
}

/// A horizontal rule.
pub open spec fn rule_text() -> Seq<char> {
    Seq::new(60, |i: int| '─')
}

fn rule() -> (r: String)
    ensures
        r@ == rule_text(),
{
    let mut out = String::new();
    for i in 0..60usize
        invariant
            out@ == Seq::new(i as nat, |j: int| '─'),
    {
        out.push('─');
        assert(out@ =~= Seq::new((i + 1) as nat, |j: int| '─'));
    }
    out
}

/// The lines that a plain logger prints of an event. Usage snapshots are
/// consumed by the TUI; the plain logger doesn't surface running token totals
/// to keep stderr clean. Rules are drawn only where colors are on.
pub open spec fn event_lines(e: EventModel, color: bool) -> Seq<Seq<char>> {
    if e is UsageUpdated {
        Seq::empty()
    } else {
        match event_frame(e) {
            Some(style) if color => seq![
                style::styled(color, style, rule_text()),
                event_line(e, color),
                style::styled(color, style, rule_text()),
            ],
            _ => seq![event_line(e, color)],
        }
    }
}

/// The lines that a plain logger prints of an event.
pub fn log_event_line(event: &Event, color: bool) -> (r: Vec<String>)
    ensures
        text::views(r@) == event_lines(event@, color),
{
    let mut out: Vec<String> = Vec::new();
    let body = style::col(color, style_of(event), text_of(event).as_str());
    let line = match event {
        Event::UsageUpdated(_) => {
            assert(text::views(out@) =~= event_lines(event@, color));
            return out;
        },
        Event::AgentStdout(line) => with_tag(color, Style::Dim, "[agent]", line.as_str()),
        Event::AgentStderr(_) => with_tag(color, Style::Red, "[agent:err]", body.as_str()),
        Event::AgentToolUse(_) => body,
        Event::RunFinished => body,
        Event::PhaseHalted { .. } => with_tag(color, Style::BoldRed, "[pitboss]", body.as_str()),
        Event::SweepHalted { .. } => with_tag(color, Style::BoldRed, "[pitboss]", body.as_str()),
        _ => with_tag(color, Style::BoldCyan, "[pitboss]", body.as_str()),
    };
    let frame = match event {
        Event::PhaseStarted { .. } => Some(Style::DarkGray),
        Event::RunFinished => Some(Style::BoldGreen),
        _ => None,
    };
    match frame {
        Some(s) => {
            if color {
                out.push(style::col(color, s, rule().as_str()));
                out.push(line);
                out.push(style::col(color, s, rule().as_str()));
            } else {
                out.push(line);
            }
        },
        None => {
            out.push(line);
        },
    }
    assert(text::views(out@) =~= event_lines(event@, color));
    out
}

} // verus!
