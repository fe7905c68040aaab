//! The dispatch pipeline that a phase and a deferred sweep share.
//!
//! Dispatch → validate → tests → bounded fixer loop → optional auditor pass →
//! stage. Dispatching agents, running tests and staging are the caller's:
//! [`Pipeline`] says what is due, takes in what came of it, counts the fixer and
//! auditor dispatches, and gives what to tell subscribers. It never commits; it
//! hands back whether the staged index is non-empty.

use vstd::prelude::*;
use vstd::string::StringExecFns;

use super::events;
use super::events::{AuditContext, AuditContextKind, AuditModel, Event, EventModel};
use super::sweep;
use super::{Runner, RunnerModel, RunnerWork, SweepTicket};
use crate::agent::{AgentRequest, Role};
use crate::config::Config;
use crate::deferred::DeferredModel;
use crate::plan::{Phase, PhaseId};
use crate::state::UsageModel;
use crate::text;

verus! {

/// Why the runner stopped advancing the plan.
///
/// Each variant carries enough context for the CLI logger (and the TUI) to
/// render a useful single-line message without needing to re-read log files.
#[derive(Debug, PartialEq, Eq)]
pub enum HaltReason {
    /// The agent modified `plan.md`. The runner restored from the pre-agent
    /// snapshot before halting.
    PlanTampered,
    /// The agent left `deferred.md` in an unparsable state. The runner
    /// restored from the pre-agent snapshot before halting. The string is
    /// the parser's diagnostic.
    DeferredInvalid(String),
    /// The project's test suite failed. Holds its short summary.
    TestsFailed(String),
    /// The agent exited via timeout, cancellation, or an internal error.
    AgentFailure(String),
    /// A configured budget was exhausted before the next agent dispatch
    /// could fire. Carries a human-readable summary (`token budget exceeded:
    /// 105000 >= cap 100000`, `USD budget exceeded: $5.0234 >= cap $5.0000`).
    BudgetExceeded(String),
}

/// A [`HaltReason`] as a mathematical value.
pub enum HaltModel {
    PlanTampered,
    DeferredInvalid(Seq<char>),
    TestsFailed(Seq<char>),
    AgentFailure(Seq<char>),
    BudgetExceeded(Seq<char>),
}

impl View for HaltReason {
    type V = HaltModel;

    open spec fn view(&self) -> HaltModel {
        match self {
            HaltReason::PlanTampered => HaltModel::PlanTampered,
            HaltReason::DeferredInvalid(s) => HaltModel::DeferredInvalid(s@),
            HaltReason::TestsFailed(s) => HaltModel::TestsFailed(s@),
            HaltReason::AgentFailure(s) => HaltModel::AgentFailure(s@),
            HaltReason::BudgetExceeded(s) => HaltModel::BudgetExceeded(s@),
        }
    }
}

/// The message of a halt.
pub open spec fn halt_message(h: HaltModel) -> Seq<char> {
    match h {
        HaltModel::PlanTampered => "plan.md was modified by the agent"@,
        HaltModel::DeferredInvalid(msg) => "deferred.md is invalid: "@ + msg,
        HaltModel::TestsFailed(summary) => "tests failed: "@ + summary,
        HaltModel::AgentFailure(msg) => "agent failure: "@ + msg,
        HaltModel::BudgetExceeded(msg) => "budget exceeded: "@ + msg,
    }
}

/// The message of a halt carries what it was halted with, and halts of different
/// kinds read differently.
pub proof fn halts_carry_their_message(h: HaltModel, other: HaltModel)
    ensures
        h matches HaltModel::DeferredInvalid(msg) ==> text::contains(halt_message(h), msg),
        h matches HaltModel::TestsFailed(summary) ==> text::contains(halt_message(h), summary),
        h matches HaltModel::AgentFailure(msg) ==> text::contains(halt_message(h), msg),
        h matches HaltModel::BudgetExceeded(msg) ==> text::contains(halt_message(h), msg),
        halt_message(h) == halt_message(other) ==> {
            &&& h is PlanTampered <==> other is PlanTampered
            &&& h is DeferredInvalid <==> other is DeferredInvalid
            &&& h is TestsFailed <==> other is TestsFailed
            &&& h is AgentFailure <==> other is AgentFailure
            &&& h is BudgetExceeded <==> other is BudgetExceeded
        },
{
    match h {
        HaltModel::DeferredInvalid(msg) => {
            text::parts_are_held(
                "deferred.md is invalid: "@,
                msg,
                Seq::<char>::empty(),
                halt_message(h),
            );
        },
        HaltModel::TestsFailed(summary) => {
            text::parts_are_held("tests failed: "@, summary, Seq::<char>::empty(), halt_message(h));
        },
        HaltModel::AgentFailure(msg) => {
            text::parts_are_held("agent failure: "@, msg, Seq::<char>::empty(), halt_message(h));
        },
        HaltModel::BudgetExceeded(msg) => {
            text::parts_are_held("budget exceeded: "@, msg, Seq::<char>::empty(), halt_message(h));
        },
        _ => {},
    }
    reveal_strlit("plan.md was modified by the agent");
    reveal_strlit("deferred.md is invalid: ");
    reveal_strlit("tests failed: ");
    reveal_strlit("agent failure: ");
    reveal_strlit("budget exceeded: ");
    if halt_message(h) == halt_message(other) {
        assert(halt_message(h)[0] == halt_message(other)[0]);
    }
}

fn headed(head: &str, tail: &str) -> (r: String)
    ensures
        r@ == head@ + tail@,
{
    let mut out = text::owned(head);
    out.append(tail);
    out
}

impl HaltReason {
    /// The message of the halt.
    pub fn message(&self) -> (r: String)
        ensures
            r@ == halt_message(self@),
    {
        match self {
            HaltReason::PlanTampered => text::owned("plan.md was modified by the agent"),
            HaltReason::DeferredInvalid(msg) => headed("deferred.md is invalid: ", msg.as_str()),
            HaltReason::TestsFailed(summary) => headed("tests failed: ", summary.as_str()),
            HaltReason::AgentFailure(msg) => headed("agent failure: ", msg.as_str()),
            HaltReason::BudgetExceeded(msg) => headed("budget exceeded: ", msg.as_str()),
        }
    }

    /// A copy of the reason.
    pub fn copy(&self) -> (r: Self)
        ensures
            r@ == self@,
    {
        match self {
            HaltReason::PlanTampered => HaltReason::PlanTampered,
            HaltReason::DeferredInvalid(s) => HaltReason::DeferredInvalid(s.clone()),
            HaltReason::TestsFailed(s) => HaltReason::TestsFailed(s.clone()),
            HaltReason::AgentFailure(s) => HaltReason::AgentFailure(s.clone()),
            HaltReason::BudgetExceeded(s) => HaltReason::BudgetExceeded(s.clone()),
        }
    }
}

/// The model of an optional halt.
pub open spec fn halt_view(h: Option<HaltReason>) -> Option<HaltModel> {
    match h {
        Some(r) => Some(r@),
        None => None,
    }
}

/// What the pipeline waits for.
#[derive(Debug, Clone, Copy, PartialEq, Eq, Structural)]
pub enum PipelineStep {
    /// The implementer dispatch, validated.
    Dispatch,
    /// A look for the project's test runner.
    Detect,
    /// The test run after the implementer.
    Test,
    /// A fixer dispatch, validated.
    Fix,
    /// The test run after it.
    Retest,
    /// Staging, and the staged diff that is to be audited.
    Diff,
    /// The auditor dispatch, validated.
    Audit,
    /// The test run after it.
    AuditTest,
    /// The final staging.
    Stage,
    /// Nothing is left to do: the changes are staged.
    Staged,
    /// Nothing is left to do: the pipeline halted.
    Halted,
}

/// What came of a step of the pipeline.
#[derive(Debug, PartialEq, Eq)]
pub enum PipelineEvent {
    /// A dispatch was validated; it halts for the carried reason, if any.
    Validated(Option<HaltReason>),
    /// The test runner was looked for; whether there is one.
    Detected(bool),
    /// The test suite ran.
    Tested {
        /// Whether it passed.
        passed: bool,
        /// Its short summary.
        summary: String,
    },
    /// The changes were staged, and this is their diff.
    Diffed(String),
    /// The changes were staged; whether anything is in the index.
    Staged {
        /// Code outside `.pitboss/` is in the index.
        has_changes: bool,
    },
}

/// A [`PipelineEvent`] as a mathematical value.
pub enum PipelineEventModel {
    Validated(Option<HaltModel>),
    Detected(bool),
    Tested { passed: bool, summary: Seq<char> },
    Diffed(Seq<char>),
    Staged { has_changes: bool },
}

impl View for PipelineEvent {
    type V = PipelineEventModel;

    open spec fn view(&self) -> PipelineEventModel {
        match self {
            PipelineEvent::Validated(h) => PipelineEventModel::Validated(halt_view(*h)),
            PipelineEvent::Detected(found) => PipelineEventModel::Detected(*found),
            PipelineEvent::Tested { passed, summary } => PipelineEventModel::Tested {
                passed: *passed,
                summary: summary@,
            },
            PipelineEvent::Diffed(diff) => PipelineEventModel::Diffed(diff@),
            PipelineEvent::Staged { has_changes } => PipelineEventModel::Staged {
                has_changes: *has_changes,
            },
        }
    }
}

/// Where the pipeline stands.
#[verifier::ext_equal]
pub struct PipelineModel {
    /// What it waits for.
    pub at: PipelineStep,
    /// The current fixer attempt, counted from one; zero before the first.
    pub fixer_attempt: u32,
    /// The summary of the latest failed test run that a fixer was sent after.
    pub failure: Seq<char>,
    /// There is a test runner.
    pub has_tests: bool,
    /// The diff that is audited.
    pub diff: Seq<char>,
    /// Why it halted.
    pub halt: Option<HaltModel>,
    /// Something is staged.
    pub has_changes: bool,
}

/// The start of the pipeline.
pub open spec fn pipeline_start() -> PipelineModel {
    PipelineModel {
        at: PipelineStep::Dispatch,
        fixer_attempt: 0,
        failure: Seq::empty(),
        has_tests: false,
        diff: Seq::empty(),
        halt: None,
        has_changes: false,
    }
}

/// A pipeline starts with the dispatch of its agent, with nothing done, found or staged.
pub proof fn a_pipeline_starts_with_nothing_done()
    ensures
        pipeline_start().at == PipelineStep::Dispatch,
        pipeline_start().fixer_attempt == 0,
        pipeline_start().failure.len() == 0 && pipeline_start().diff.len() == 0,
        !pipeline_start().has_tests && !pipeline_start().has_changes,
        pipeline_start().halt is None,
{
}

/// The pipeline that halts for `reason`.
pub open spec fn pipeline_halted(m: PipelineModel, reason: HaltModel) -> PipelineModel {
    PipelineModel { at: PipelineStep::Halted, halt: Some(reason), ..m }
}

/// The changes of a phase or of a sweep are audited.
pub open spec fn audited(config: Config, kind: AuditContextKind) -> bool {
    match kind {
        AuditContextKind::Phase => config.audit.enabled,
        AuditContextKind::Sweep => config.sweep.audit_enabled,
    }
}

/// The step after the tests passed, or were skipped.
pub open spec fn after_tests(config: Config, kind: AuditContextKind) -> PipelineStep {
    if audited(config, kind) {
        PipelineStep::Diff
    } else {
        PipelineStep::Stage
    }
}

/// A diff with nothing in it to audit.
pub open spec fn blank(diff: Seq<char>) -> bool {
    text::trim(diff).len() == 0
}

/// One more dispatch is counted for the phase `id`.
pub open spec fn one_dispatch(run: RunnerModel, id: Seq<char>) -> RunnerModel {
    super::worked(run, RunnerWork::Dispatched(id))
}

/// The pipeline and its runner after a test run before the auditor pass: on a
/// failure the next fixer is dispatched, if one is left and the run is within
/// its budget.
pub open spec fn pipeline_tested(
    config: Config,
    c: AuditModel,
    m: PipelineModel,
    run: RunnerModel,
    passed: bool,
    summary: Seq<char>,
) -> (PipelineModel, RunnerModel) {
    if passed {
        (PipelineModel { at: after_tests(config, c.kind), ..m }, run)
    } else if m.fixer_attempt >= config.retries.fixer_max_attempts {
        (pipeline_halted(m, HaltModel::TestsFailed(summary)), run)
    } else {
        match super::budget_halt(config, run.state.token_usage) {
            Some(reason) => (pipeline_halted(m, reason), run),
            None => (
                PipelineModel {
                    at: PipelineStep::Fix,
                    fixer_attempt: (m.fixer_attempt + 1) as u32,
                    failure: summary,
                    ..m
                },
                one_dispatch(run, c.phase_id),
            ),
        }
    }
}

/// The pipeline and its runner once `diff` is staged: a blank diff is not
/// audited, and any other is, if the run is within its budget.
pub open spec fn pipeline_diffed(
    config: Config,
    c: AuditModel,
    m: PipelineModel,
    run: RunnerModel,
    diff: Seq<char>,
) -> (PipelineModel, RunnerModel) {
    if blank(diff) {
        (PipelineModel { at: PipelineStep::Stage, ..m }, run)
    } else {
        match super::budget_halt(config, run.state.token_usage) {
            Some(reason) => (pipeline_halted(m, reason), run),
            None => (
                PipelineModel { at: PipelineStep::Audit, diff, ..m },
                one_dispatch(run, c.phase_id),
            ),
        }
    }
}

/// The step after a dispatch that can be built on. Without a test runner nothing
/// is left to test.
pub open spec fn after_dispatch(config: Config, c: AuditModel, m: PipelineModel, run: RunnerModel) ->
    PipelineStep {
    match m.at {
        PipelineStep::Dispatch => if run.skip_tests {
            after_tests(config, c.kind)
        } else {
            PipelineStep::Detect
        },
        PipelineStep::Fix => PipelineStep::Retest,
        _ => if m.has_tests {
            PipelineStep::AuditTest
        } else {
            PipelineStep::Stage
        },
    }
}

/// The pipeline of the phase or sweep `c` and its runner after the event `e`. An
/// event that is not due changes nothing.
pub open spec fn pipeline_next(
    config: Config,
    c: AuditModel,
    m: PipelineModel,
    run: RunnerModel,
    e: PipelineEventModel,
) -> (PipelineModel, RunnerModel) {
    match (m.at, e) {
        (
            PipelineStep::Dispatch | PipelineStep::Fix | PipelineStep::Audit,
            PipelineEventModel::Validated(halt),
        ) => match halt {
            Some(reason) => (pipeline_halted(m, reason), run),
            None => (PipelineModel { at: after_dispatch(config, c, m, run), ..m }, run),
        },
        (PipelineStep::Detect, PipelineEventModel::Detected(found)) => if found {
            (PipelineModel { at: PipelineStep::Test, has_tests: true, ..m }, run)
        } else {
            (PipelineModel { at: after_tests(config, c.kind), ..m }, run)
        },
        (
            PipelineStep::Test | PipelineStep::Retest,
            PipelineEventModel::Tested { passed, summary },
        ) => pipeline_tested(config, c, m, run, passed, summary),
        (PipelineStep::Diff, PipelineEventModel::Diffed(diff)) => pipeline_diffed(
            config,
            c,
            m,
            run,
            diff,
        ),
        (PipelineStep::AuditTest, PipelineEventModel::Tested { passed, summary }) => if passed {
            (PipelineModel { at: PipelineStep::Stage, ..m }, run)
        } else {
            (pipeline_halted(m, HaltModel::TestsFailed(summary)), run)
        },
        (PipelineStep::Stage, PipelineEventModel::Staged { has_changes }) => (
            PipelineModel { at: PipelineStep::Staged, has_changes, ..m },
            run,
        ),
        _ => (m, run),
    }
}

/// What subscribers are told of a step that begins.
pub open spec fn step_tells(c: AuditModel, n: PipelineModel, run: RunnerModel) -> Seq<EventModel> {
    let attempt = sweep::attempts_of(run.state.attempts, c.phase_id);
    match n.at {
        PipelineStep::Test => seq![EventModel::TestStarted],
        PipelineStep::Retest => seq![EventModel::TestStarted],
        PipelineStep::AuditTest => seq![EventModel::TestStarted],
        PipelineStep::Fix => seq![
            EventModel::FixerStarted {
                phase_id: c.phase_id,
                fixer_attempt: n.fixer_attempt,
                attempt,
            },
        ],
        PipelineStep::Audit => seq![EventModel::AuditorStarted { context: c, attempt }],
        _ => Seq::empty(),
    }
}

/// What subscribers are told of what came of the step that was due.
pub open spec fn event_tells(
    c: AuditModel,
    m: PipelineModel,
    run: RunnerModel,
    e: PipelineEventModel,
) -> Seq<EventModel> {
    match (m.at, e) {
        (PipelineStep::Dispatch, PipelineEventModel::Validated(None)) => if run.skip_tests {
            seq![EventModel::TestsSkipped]
        } else {
            Seq::empty()
        },
        (PipelineStep::Detect, PipelineEventModel::Detected(false)) => seq![
            EventModel::TestsSkipped,
        ],
        (
            PipelineStep::Test | PipelineStep::Retest | PipelineStep::AuditTest,
            PipelineEventModel::Tested { passed, summary },
        ) => seq![EventModel::TestFinished { passed, summary }],
        (PipelineStep::Diff, PipelineEventModel::Diffed(diff)) => if blank(diff) {
            seq![EventModel::AuditorSkippedNoChanges { context: c }]
        } else {
            Seq::empty()
        },
        _ => Seq::empty(),
    }
}

/// What subscribers are told of the event `e`, in this order.
pub open spec fn pipeline_tells(
    config: Config,
    c: AuditModel,
    m: PipelineModel,
    run: RunnerModel,
    e: PipelineEventModel,
) -> Seq<EventModel> {
    let (n, now) = pipeline_next(config, c, m, run, e);
    event_tells(c, m, run, e) + if n.at != m.at {
        step_tells(c, n, now)
    } else {
        Seq::empty()
    }
}

// ---------------------------------------------------------------------------
// Whole runs of the pipeline
// ---------------------------------------------------------------------------

/// What happens while the pipeline runs.
pub enum PipelineInput {
    /// A dispatch in a role consumed tokens.
    Spent(Role, UsageModel),
    /// A dispatch left a backlog behind.
    Left(DeferredModel),
    /// A step of the pipeline came to something.
    Event(PipelineEventModel),
}

/// The pipeline and its runner after `input`.
pub open spec fn pipeline_input(
    config: Config,
    c: AuditModel,
    m: PipelineModel,
    run: RunnerModel,
    input: PipelineInput,
) -> (PipelineModel, RunnerModel) {
    match input {
        PipelineInput::Spent(role, tokens) => (
            m,
            super::worked(run, RunnerWork::Spent(role, tokens)),
        ),
        PipelineInput::Left(doc) => (m, super::worked(run, RunnerWork::Left(doc))),
        PipelineInput::Event(e) => pipeline_next(config, c, m, run, e),
    }
}

/// The pipeline from its start, and its runner, which is `run` there, after
/// `inputs`.
pub open spec fn pipeline_after(
    config: Config,
    c: AuditModel,
    run: RunnerModel,
    inputs: Seq<PipelineInput>,
) -> (PipelineModel, RunnerModel)
    decreases inputs.len(),
{
    if inputs.len() == 0 {
        (pipeline_start(), run)
    } else {
        let (m, now) = pipeline_after(config, c, run, inputs.drop_last());
        pipeline_input(config, c, m, now, inputs.last())
    }
}

/// All that subscribers are told of `inputs`.
pub open spec fn pipeline_told(
    config: Config,
    c: AuditModel,
    run: RunnerModel,
    inputs: Seq<PipelineInput>,
) -> Seq<EventModel>
    decreases inputs.len(),
{
    if inputs.len() == 0 {
        Seq::empty()
    } else {
        let front = inputs.drop_last();
        let (m, now) = pipeline_after(config, c, run, front);
        pipeline_told(config, c, run, front) + match inputs.last() {
            PipelineInput::Event(e) => pipeline_tells(config, c, m, now, e),
            _ => Seq::empty(),
        }
    }
}

/// How many times the step `at` was begun.
pub open spec fn times_begun(
    config: Config,
    c: AuditModel,
    run: RunnerModel,
    inputs: Seq<PipelineInput>,
    at: PipelineStep,
) -> nat
    decreases inputs.len(),
{
    if inputs.len() == 0 {
        0
    } else {
        let front = inputs.drop_last();
        times_begun(config, c, run, front, at) + if pipeline_after(config, c, run, front).0.at
            != at && pipeline_after(config, c, run, inputs).0.at == at {
            1nat
        } else {
            0nat
        }
    }
}

/// `n` more attempts; the counter stops at the largest value.
pub open spec fn more_attempts(attempts: u32, n: nat) -> u32 {
    if attempts + n < u32::MAX {
        (attempts + n) as u32
    } else {
        u32::MAX
    }
}

/// The attempt counter of a phase mirrors every dispatch: over a whole run of
/// the pipeline it grows by one for each fixer and each auditor that is
/// dispatched, on top of what it was when the implementer was, and no other
/// counter changes.
pub proof fn attempts_mirror_dispatches(
    config: Config,
    c: AuditModel,
    run: RunnerModel,
    inputs: Seq<PipelineInput>,
)
    ensures
        ({
            let now = pipeline_after(config, c, run, inputs).1;
            let fixers = times_begun(config, c, run, inputs, PipelineStep::Fix);
            let auditors = times_begun(config, c, run, inputs, PipelineStep::Audit);
            &&& sweep::attempts_of(now.state.attempts, c.phase_id) == more_attempts(
                sweep::attempts_of(run.state.attempts, c.phase_id),
                fixers + auditors,
            )
            &&& forall|other: Seq<char>|
                other != c.phase_id ==> #[trigger] sweep::attempts_of(now.state.attempts, other)
                    == sweep::attempts_of(run.state.attempts, other)
        }),
    decreases inputs.len(),
{
    if inputs.len() > 0 {
        let front = inputs.drop_last();
        attempts_mirror_dispatches(config, c, run, front);
        let before = pipeline_after(config, c, run, front).1;
        let now = pipeline_after(config, c, run, inputs).1;
        assert forall|other: Seq<char>| other != c.phase_id implies #[trigger] sweep::attempts_of(
            now.state.attempts,
            other,
        ) == sweep::attempts_of(run.state.attempts, other) by {
            assert(sweep::attempts_of(before.state.attempts, other) == sweep::attempts_of(
                run.state.attempts,
                other,
            ));
        }
    }
}

/// A phase or sweep counts every dispatch that it makes: its implementer, which
/// is counted before the pipeline starts, each fixer and each auditor.
pub proof fn every_dispatch_counts(
    config: Config,
    c: AuditModel,
    before: RunnerModel,
    inputs: Seq<PipelineInput>,
)
    ensures
        ({
            let run = one_dispatch(before, c.phase_id);
            let now = pipeline_after(config, c, run, inputs).1;
            let fixers = times_begun(config, c, run, inputs, PipelineStep::Fix);
            let auditors = times_begun(config, c, run, inputs, PipelineStep::Audit);
            sweep::attempts_of(now.state.attempts, c.phase_id) == more_attempts(
                sweep::attempts_of(before.state.attempts, c.phase_id),
                1 + fixers + auditors,
            )
        }),
{
    attempts_mirror_dispatches(config, c, one_dispatch(before, c.phase_id), inputs);
}

/// The fixer is dispatched at most as often as the settings allow, whatever comes
/// of its dispatches and of the test runs, and the pipeline numbers its attempts
/// from one.
pub proof fn fixer_stays_in_budget(
    config: Config,
    c: AuditModel,
    run: RunnerModel,
    inputs: Seq<PipelineInput>,
)
    ensures
        times_begun(config, c, run, inputs, PipelineStep::Fix)
            <= config.retries.fixer_max_attempts,
        pipeline_after(config, c, run, inputs).0.fixer_attempt == times_begun(
            config,
            c,
            run,
            inputs,
            PipelineStep::Fix,
        ),
    decreases inputs.len(),
{
    if inputs.len() > 0 {
        fixer_stays_in_budget(config, c, run, inputs.drop_last());
    }
}

/// The auditor is dispatched at most once, and only where changes are audited.
/// No fixer is dispatched behind it: a test run that fails then halts.
pub proof fn auditor_runs_at_most_once(
    config: Config,
    c: AuditModel,
    run: RunnerModel,
    inputs: Seq<PipelineInput>,
)
    ensures
        times_begun(config, c, run, inputs, PipelineStep::Audit) <= 1,
        times_begun(config, c, run, inputs, PipelineStep::Audit) > 0 ==> {
            let at = pipeline_after(config, c, run, inputs).0.at;
            &&& audited(config, c.kind)
            &&& at == PipelineStep::Audit || at == PipelineStep::AuditTest || at
                == PipelineStep::Stage || at == PipelineStep::Staged || at == PipelineStep::Halted
        },
{
    audit_invariant(config, c, run, inputs);
}

proof fn audit_invariant(
    config: Config,
    c: AuditModel,
    run: RunnerModel,
    inputs: Seq<PipelineInput>,
)
    ensures
        ({
            let at = pipeline_after(config, c, run, inputs).0.at;
            let n = times_begun(config, c, run, inputs, PipelineStep::Audit);
            &&& n <= 1
            &&& n > 0 ==> audited(config, c.kind)
            &&& at == PipelineStep::Dispatch || at == PipelineStep::Detect || at
                == PipelineStep::Test || at == PipelineStep::Fix || at == PipelineStep::Retest || at
                == PipelineStep::Diff ==> n == 0
            &&& at == PipelineStep::Diff ==> audited(config, c.kind)
        }),
    decreases inputs.len(),
{
    if inputs.len() > 0 {
        audit_invariant(config, c, run, inputs.drop_last());
    }
}

/// The auditor pass begins with the staged diff. A blank one is not audited:
/// subscribers are told so, nobody is dispatched, and nothing is counted. Any
/// other is audited within the budget: one dispatch is counted, and subscribers
/// are told of it under the counter's new value.
pub proof fn only_changes_are_audited(
    config: Config,
    c: AuditModel,
    m: PipelineModel,
    run: RunnerModel,
    diff: Seq<char>,
)
    requires
        m.at == PipelineStep::Diff,
    ensures
        ({
            let e = PipelineEventModel::Diffed(diff);
            let (n, now) = pipeline_next(config, c, m, run, e);
            let told = pipeline_tells(config, c, m, run, e);
            if blank(diff) {
                &&& n.at == PipelineStep::Stage && n.halt == m.halt
                &&& now == run
                &&& told == seq![EventModel::AuditorSkippedNoChanges { context: c }]
            } else if super::budget_halt(config, run.state.token_usage) is Some {
                &&& n.at == PipelineStep::Halted
                &&& n.halt == super::budget_halt(config, run.state.token_usage)
                &&& now == run
                &&& told.len() == 0
            } else {
                &&& n.at == PipelineStep::Audit && n.diff == diff
                &&& now == one_dispatch(run, c.phase_id)
                &&& told == seq![
                    EventModel::AuditorStarted {
                        context: c,
                        attempt: sweep::one_more(
                            sweep::attempts_of(run.state.attempts, c.phase_id),
                        ),
                    },
                ]
            }
        }),
{
    let e = PipelineEventModel::Diffed(diff);
    let told = pipeline_tells(config, c, m, run, e);
    if blank(diff) {
        assert(told =~= seq![EventModel::AuditorSkippedNoChanges { context: c }]);
    } else if super::budget_halt(config, run.state.token_usage) is None {
        let attempt = sweep::one_more(sweep::attempts_of(run.state.attempts, c.phase_id));
        assert(told =~= seq![EventModel::AuditorStarted { context: c, attempt }]);
    }
}

/// The attempts of which `told` says that a fixer started, in that order.
pub open spec fn fixers_told(told: Seq<EventModel>) -> Seq<u32>
    decreases told.len(),
{
    if told.len() == 0 {
        Seq::empty()
    } else {
        let front = fixers_told(told.drop_last());
        match told.last() {
            EventModel::FixerStarted { fixer_attempt, .. } => front.push(fixer_attempt),
            _ => front,
        }
    }
}

/// How many times `told` says that an auditor started.
pub open spec fn auditors_told(told: Seq<EventModel>) -> nat
    decreases told.len(),
{
    if told.len() == 0 {
        0
    } else {
        auditors_told(told.drop_last()) + if told.last() is AuditorStarted {
            1nat
        } else {
            0nat
        }
    }
}

proof fn starts_told_add(a: Seq<EventModel>, b: Seq<EventModel>)
    ensures
        fixers_told(a + b) == fixers_told(a) + fixers_told(b),
        auditors_told(a + b) == auditors_told(a) + auditors_told(b),
    decreases b.len(),
{
    if b.len() > 0 {
        starts_told_add(a, b.drop_last());
        assert((a + b).drop_last() =~= a + b.drop_last());
        assert(fixers_told(a + b) =~= fixers_told(a) + fixers_told(b));
    } else {
        assert(a + b =~= a);
        assert(fixers_told(a) + fixers_told(b) =~= fixers_told(a));
    }
}

/// Every dispatch is told once: of the fixers subscribers hear the attempts one,
/// two, and so on up to as many as were dispatched, and of each auditor that it
/// started.
pub proof fn every_dispatch_is_told(
    config: Config,
    c: AuditModel,
    run: RunnerModel,
    inputs: Seq<PipelineInput>,
)
    ensures
        ({
            let told = pipeline_told(config, c, run, inputs);
            let fixers = times_begun(config, c, run, inputs, PipelineStep::Fix);
            &&& fixers_told(told) == Seq::new(fixers, |i: int| (i + 1) as u32)
            &&& auditors_told(told) == times_begun(config, c, run, inputs, PipelineStep::Audit)
        }),
    decreases inputs.len(),
{
    let told = pipeline_told(config, c, run, inputs);
    let fixers = times_begun(config, c, run, inputs, PipelineStep::Fix);
    if inputs.len() > 0 {
        let front = inputs.drop_last();
        let (m, now) = pipeline_after(config, c, run, front);
        every_dispatch_is_told(config, c, run, front);
        fixer_stays_in_budget(config, c, run, front);
        let before = pipeline_told(config, c, run, front);
        match inputs.last() {
            PipelineInput::Event(e) => {
                let (n, after) = pipeline_next(config, c, m, now, e);
                let first = event_tells(c, m, now, e);
                let second = if n.at != m.at {
                    step_tells(c, n, after)
                } else {
                    Seq::empty()
                };
                starts_told_add(before, first + second);
                starts_told_add(first, second);
                reveal_with_fuel(fixers_told, 2);
                reveal_with_fuel(auditors_told, 2);
                assert(first.len() <= 1 && second.len() <= 1);
                assert(fixers_told(first) =~= Seq::<u32>::empty());
                assert(auditors_told(first) == 0);
                if n.at == PipelineStep::Fix && m.at != PipelineStep::Fix {
                    assert(fixers_told(second) =~= seq![n.fixer_attempt]);
                } else {
                    assert(fixers_told(second) =~= Seq::<u32>::empty());
                }
            },
            _ => {
                assert(told =~= before);
            },
        }
    }
    assert(fixers_told(told) =~= Seq::new(fixers, |i: int| (i + 1) as u32));
}

/// No fixer and no auditor is dispatched without headroom: each of their
/// dispatches begins only where no cap of the budget is reached.
pub proof fn dispatches_stay_in_budget(
    config: Config,
    c: AuditModel,
    m: PipelineModel,
    run: RunnerModel,
    e: PipelineEventModel,
)
    ensures
        ({
            let at = pipeline_next(config, c, m, run, e).0.at;
            at != m.at && (at == PipelineStep::Fix || at == PipelineStep::Audit)
                ==> super::budget_halt(config, run.state.token_usage) is None
        }),
{
}

/// The pipeline changes its runner only by counting dispatches of its own phase.
pub proof fn pipeline_only_counts(
    config: Config,
    c: AuditModel,
    m: PipelineModel,
    run: RunnerModel,
    e: PipelineEventModel,
)
    ensures
        ({
            let now = pipeline_next(config, c, m, run, e).1;
            now == run || now == super::worked(run, RunnerWork::Dispatched(c.phase_id))
        }),
{
}

/// How many events the pipeline can still take in at most.
pub open spec fn pipeline_rank(max_fixes: u32, m: PipelineModel) -> int {
    let left = 2 * (max_fixes - m.fixer_attempt);
    match m.at {
        PipelineStep::Dispatch => left + 7,
        PipelineStep::Detect => left + 6,
        PipelineStep::Test => left + 5,
        PipelineStep::Fix => left + 6,
        PipelineStep::Retest => left + 5,
        PipelineStep::Diff => 4,
        PipelineStep::Audit => 3,
        PipelineStep::AuditTest => 2,
        PipelineStep::Stage => 1,
        PipelineStep::Staged => 0,
        PipelineStep::Halted => 0,
    }
}

/// Every retry is bounded: each event either is ignored or brings the pipeline
/// closer to its end, so with `n` fixers allowed it takes in at most `2 * n + 7`
/// events.
pub proof fn pipeline_is_bounded(
    config: Config,
    c: AuditModel,
    m: PipelineModel,
    run: RunnerModel,
    e: PipelineEventModel,
)
    requires
        m.fixer_attempt <= config.retries.fixer_max_attempts,
    ensures
        ({
            let max_fixes = config.retries.fixer_max_attempts;
            let (n, now) = pipeline_next(config, c, m, run, e);
            &&& n == m && now == run || pipeline_rank(max_fixes, n) < pipeline_rank(max_fixes, m)
            &&& n.fixer_attempt <= max_fixes
            &&& 0 <= pipeline_rank(max_fixes, n)
            &&& pipeline_rank(max_fixes, pipeline_start()) == 2 * max_fixes + 7
        }),
{
}

/// No agent edit slips in behind a test run: a fixer dispatch, and an auditor
/// dispatch where there is a test runner, is followed by a test run of its own
/// before anything else happens, unless it halts the pipeline.
pub proof fn edits_are_tested(
    config: Config,
    c: AuditModel,
    m: PipelineModel,
    run: RunnerModel,
    h: Option<HaltModel>,
)
    requires
        m.at == PipelineStep::Fix || m.at == PipelineStep::Audit && m.has_tests,
    ensures
        ({
            let at = pipeline_next(config, c, m, run, PipelineEventModel::Validated(h)).0.at;
            if h is Some {
                at == PipelineStep::Halted
            } else {
                at == PipelineStep::Retest || at == PipelineStep::AuditTest
            }
        }),
{
}

/// What the latest test run that the pipeline took in said; `true` before the
/// first.
pub open spec fn latest_run_passed(
    config: Config,
    c: AuditModel,
    run: RunnerModel,
    inputs: Seq<PipelineInput>,
) -> bool
    decreases inputs.len(),
{
    if inputs.len() == 0 {
        true
    } else {
        let front = inputs.drop_last();
        let at = pipeline_after(config, c, run, front).0.at;
        match inputs.last() {
            PipelineInput::Event(PipelineEventModel::Tested { passed, .. }) if at
                == PipelineStep::Test || at == PipelineStep::Retest || at
                == PipelineStep::AuditTest => passed,
            _ => latest_run_passed(config, c, run, front),
        }
    }
}

/// Nothing is staged for a commit, and nothing is audited, unless the latest
/// test run passed (or there was none). The pipeline halts exactly where it has
/// a reason to.
pub proof fn staged_only_when_green(
    config: Config,
    c: AuditModel,
    run: RunnerModel,
    inputs: Seq<PipelineInput>,
)
    ensures
        ({
            let m = pipeline_after(config, c, run, inputs).0;
            &&& m.at == PipelineStep::Stage || m.at == PipelineStep::Staged || m.at
                == PipelineStep::Diff || m.at == PipelineStep::Audit ==> latest_run_passed(
                config,
                c,
                run,
                inputs,
            )
            &&& m.at != PipelineStep::Halted ==> m.halt is None
            &&& m.at == PipelineStep::Halted ==> m.halt is Some
        }),
    decreases inputs.len(),
{
    if inputs.len() > 0 {
        staged_only_when_green(config, c, run, inputs.drop_last());
        waiting_is_green(config, c, run, inputs.drop_last());
    }
}

proof fn waiting_is_green(
    config: Config,
    c: AuditModel,
    run: RunnerModel,
    inputs: Seq<PipelineInput>,
)
    ensures
        ({
            let m = pipeline_after(config, c, run, inputs).0;
            m.at != PipelineStep::Fix && m.at != PipelineStep::Retest && m.at
                != PipelineStep::Halted ==> latest_run_passed(config, c, run, inputs)
        }),
    decreases inputs.len(),
{
    if inputs.len() > 0 {
        waiting_is_green(config, c, run, inputs.drop_last());
    }
}

// ---------------------------------------------------------------------------
// What each step comes to
// ---------------------------------------------------------------------------

/// Work that is done with its tests goes on to the audit exactly where the
/// settings for its kind switch audits on: `[audit] enabled` for a phase,
/// `[sweep] audit_enabled` for a sweep. Else it goes on to the final staging. So
/// it is after a test run that passed, be it the first or the one behind a fixer,
/// after a look for a test runner that found none, and after an implementer
/// whose tests are skipped. Nothing else changes on the way.
pub proof fn tested_work_goes_to_its_audit(
    config: Config,
    c: AuditModel,
    m: PipelineModel,
    run: RunnerModel,
    e: PipelineEventModel,
)
    requires
        (m.at == PipelineStep::Test || m.at == PipelineStep::Retest) && (e matches
            PipelineEventModel::Tested { passed, summary } && passed) || m.at
            == PipelineStep::Detect && e == PipelineEventModel::Detected(false) || m.at
            == PipelineStep::Dispatch && run.skip_tests && e == PipelineEventModel::Validated(None),
    ensures
        ({
            let (n, now) = pipeline_next(config, c, m, run, e);
            &&& c.kind == AuditContextKind::Phase && config.audit.enabled ==> n.at
                == PipelineStep::Diff
            &&& c.kind == AuditContextKind::Phase && !config.audit.enabled ==> n.at
                == PipelineStep::Stage
            &&& c.kind == AuditContextKind::Sweep && config.sweep.audit_enabled ==> n.at
                == PipelineStep::Diff
            &&& c.kind == AuditContextKind::Sweep && !config.sweep.audit_enabled ==> n.at
                == PipelineStep::Stage
            &&& n.halt == m.halt && n.fixer_attempt == m.fixer_attempt && n.has_tests
                == m.has_tests && n.has_changes == m.has_changes
            &&& now == run
        }),
{
}

/// The input at `i` is the staged diff that the pipeline waited for, and it was
/// blank or an auditor was dispatched with it.
pub open spec fn audit_settled_by(
    config: Config,
    c: AuditModel,
    run: RunnerModel,
    inputs: Seq<PipelineInput>,
    i: int,
) -> bool {
    &&& 0 <= i < inputs.len()
    &&& pipeline_after(config, c, run, inputs.take(i)).0.at == PipelineStep::Diff
    &&& inputs[i] matches PipelineInput::Event(PipelineEventModel::Diffed(diff)) && {
        ||| text::trim(diff).len() == 0
        ||| {
            let n = pipeline_after(config, c, run, inputs.take(i + 1)).0;
            n.at == PipelineStep::Audit && n.diff == diff
        }
    }
}

/// Where changes are audited, no way leads past the audit: whatever the
/// dispatches, the test runs and the fixers came to, work that is ready to be
/// staged, or is staged, had its staged diff looked at, and that diff was blank
/// or an auditor was dispatched with it. Where changes are not audited, no diff
/// is asked for and no auditor is dispatched.
pub proof fn no_way_leads_past_the_audit(
    config: Config,
    c: AuditModel,
    run: RunnerModel,
    inputs: Seq<PipelineInput>,
)
    ensures
        ({
            let at = pipeline_after(config, c, run, inputs).0.at;
            let on = match c.kind {
                AuditContextKind::Phase => config.audit.enabled,
                AuditContextKind::Sweep => config.sweep.audit_enabled,
            };
            &&& on && (at == PipelineStep::Stage || at == PipelineStep::Staged || at
                == PipelineStep::Audit || at == PipelineStep::AuditTest) ==> exists|i: int|
                #[trigger] audit_settled_by(config, c, run, inputs, i)
            &&& !on ==> at != PipelineStep::Diff && at != PipelineStep::Audit && at
                != PipelineStep::AuditTest
        }),
    decreases inputs.len(),
{
    if inputs.len() > 0 {
        let front = inputs.drop_last();
        no_way_leads_past_the_audit(config, c, run, front);
        let m = pipeline_after(config, c, run, front).0;
        let on = match c.kind {
            AuditContextKind::Phase => config.audit.enabled,
            AuditContextKind::Sweep => config.sweep.audit_enabled,
        };
        if on {
            if m.at == PipelineStep::Stage || m.at == PipelineStep::Staged || m.at
                == PipelineStep::Audit || m.at == PipelineStep::AuditTest {
                let i = choose|i: int| #[trigger] audit_settled_by(config, c, run, front, i);
                assert(front.take(i) =~= inputs.take(i));
                assert(front.take(i + 1) =~= inputs.take(i + 1));
                assert(audit_settled_by(config, c, run, inputs, i));
            } else if m.at == PipelineStep::Diff {
                let i = inputs.len() - 1;
                assert(inputs.take(i) =~= front);
                assert(inputs.take(i + 1) =~= inputs);
                let at = pipeline_after(config, c, run, inputs).0.at;
                if at == PipelineStep::Stage || at == PipelineStep::Audit {
                    assert(audit_settled_by(config, c, run, inputs, i));
                }
            }
        }
    }
}

/// A test run that fails before the audit is answered by a fixer as long as one
/// is left and the budget has headroom: the fixer gets the summary of this very
/// run, and the next attempt number. With headroom and no fixer left the pipeline
/// halts with that summary; without headroom it halts for the budget, and counts
/// nothing.
pub proof fn a_failed_run_is_answered_by_a_fixer(
    config: Config,
    c: AuditModel,
    m: PipelineModel,
    run: RunnerModel,
    summary: Seq<char>,
)
    requires
        m.at == PipelineStep::Test || m.at == PipelineStep::Retest,
    ensures
        ({
            let e = PipelineEventModel::Tested { passed: false, summary };
            let (n, now) = pipeline_next(config, c, m, run, e);
            let left = m.fixer_attempt < config.retries.fixer_max_attempts;
            let headroom = super::budget_halt(config, run.state.token_usage) is None;
            &&& left && headroom ==> n.at == PipelineStep::Fix && n.failure == summary
                && n.fixer_attempt == m.fixer_attempt + 1 && n.halt == m.halt && n.has_tests
                == m.has_tests && sweep::attempts_of(now.state.attempts, c.phase_id)
                == more_attempts(sweep::attempts_of(run.state.attempts, c.phase_id), 1)
            &&& !left ==> n.at == PipelineStep::Halted && n.halt == Some(
                HaltModel::TestsFailed(summary),
            ) && now == run
            &&& left && !headroom ==> n.at == PipelineStep::Halted && n.halt
                == super::budget_halt(config, run.state.token_usage) && now == run
            &&& n.at == PipelineStep::Fix ==> left && headroom
        }),
{
}

/// A test run fails the work for good only once every fixer that the settings
/// allow was sent after it, or once the auditor had its turn.
pub proof fn every_fixer_gets_its_turn(
    config: Config,
    c: AuditModel,
    run: RunnerModel,
    inputs: Seq<PipelineInput>,
    summary: Seq<char>,
)
    requires
        ({
            let m = pipeline_after(config, c, run, inputs).0;
            let e = PipelineEventModel::Tested { passed: false, summary };
            let n = pipeline_next(config, c, m, pipeline_after(config, c, run, inputs).1, e).0;
            &&& m.at != PipelineStep::Halted && n.at == PipelineStep::Halted
            &&& n.halt matches Some(HaltModel::TestsFailed(told))
        }),
    ensures
        times_begun(config, c, run, inputs, PipelineStep::Fix)
            == config.retries.fixer_max_attempts || times_begun(
            config,
            c,
            run,
            inputs,
            PipelineStep::Audit,
        ) == 1,
{
    fixer_stays_in_budget(config, c, run, inputs);
    retests_follow_audits(config, c, run, inputs);
    budget_halts_are_no_test_failures(config, pipeline_after(config, c, run, inputs).1);
}

proof fn budget_halts_are_no_test_failures(config: Config, run: RunnerModel)
    ensures
        !(super::budget_halt(config, run.state.token_usage) matches Some(
            HaltModel::TestsFailed(told),
        )),
{
}

proof fn retests_follow_audits(
    config: Config,
    c: AuditModel,
    run: RunnerModel,
    inputs: Seq<PipelineInput>,
)
    ensures
        ({
            let at = pipeline_after(config, c, run, inputs).0.at;
            at == PipelineStep::Audit || at == PipelineStep::AuditTest ==> times_begun(
                config,
                c,
                run,
                inputs,
                PipelineStep::Audit,
            ) == 1
        }),
    decreases inputs.len(),
{
    if inputs.len() > 0 {
        retests_follow_audits(config, c, run, inputs.drop_last());
        audit_invariant(config, c, run, inputs.drop_last());
    }
}

/// A dispatch that must not be built on ends the pipeline there and then, for the
/// reason that its validation gave: nobody else is dispatched, nothing is counted
/// and nothing is told.
pub proof fn a_bad_dispatch_ends_the_pipeline(
    config: Config,
    c: AuditModel,
    m: PipelineModel,
    run: RunnerModel,
    reason: HaltModel,
)
    requires
        m.at == PipelineStep::Dispatch || m.at == PipelineStep::Fix || m.at == PipelineStep::Audit,
    ensures
        ({
            let e = PipelineEventModel::Validated(Some(reason));
            let (n, now) = pipeline_next(config, c, m, run, e);
            &&& n.at == PipelineStep::Halted && n.halt == Some(reason)
            &&& now == run
            &&& pipeline_tells(config, c, m, run, e).len() == 0
        }),
{
}

/// The tests are run unless they cannot be: an implementer is followed by a look
/// for the test runner unless the run skips its tests, and a test runner that is
/// found is run. Subscribers are told that the tests were skipped exactly where
/// they are.
pub proof fn tests_are_run_or_told_skipped(
    config: Config,
    c: AuditModel,
    m: PipelineModel,
    run: RunnerModel,
)
    ensures
        m.at == PipelineStep::Dispatch && !run.skip_tests ==> {
            let e = PipelineEventModel::Validated(None);
            &&& pipeline_next(config, c, m, run, e).0.at == PipelineStep::Detect
            &&& pipeline_next(config, c, m, run, e).1 == run
            &&& pipeline_tells(config, c, m, run, e).len() == 0
        },
        m.at == PipelineStep::Dispatch && run.skip_tests ==> pipeline_tells(
            config,
            c,
            m,
            run,
            PipelineEventModel::Validated(None),
        ) == seq![EventModel::TestsSkipped],
        m.at == PipelineStep::Detect ==> {
            let e = PipelineEventModel::Detected(true);
            let n = pipeline_next(config, c, m, run, e).0;
            &&& n.at == PipelineStep::Test && n.has_tests
            &&& pipeline_next(config, c, m, run, e).1 == run
            &&& pipeline_tells(config, c, m, run, e) == seq![EventModel::TestStarted]
        },
        m.at == PipelineStep::Detect ==> pipeline_tells(
            config,
            c,
            m,
            run,
            PipelineEventModel::Detected(false),
        ) == seq![EventModel::TestsSkipped],
{
    let skipped = seq![EventModel::TestsSkipped];
    let validated = PipelineEventModel::Validated(None);
    if m.at == PipelineStep::Dispatch && run.skip_tests {
        assert(pipeline_tells(config, c, m, run, validated) =~= skipped);
    } else if m.at == PipelineStep::Detect {
        let found = PipelineEventModel::Detected(true);
        let missing = PipelineEventModel::Detected(false);
        assert(pipeline_tells(config, c, m, run, found) =~= seq![EventModel::TestStarted]);
        assert(pipeline_tells(config, c, m, run, missing) =~= skipped);
    }
}

/// Subscribers hear of every test run: first how it ended, with its own verdict
/// and summary, and then of the dispatch that it led to, if any, numbered like the
/// attempts of the fixers and under the new value of the attempt counter.
pub proof fn every_test_run_is_told(
    config: Config,
    c: AuditModel,
    m: PipelineModel,
    run: RunnerModel,
    passed: bool,
    summary: Seq<char>,
)
    requires
        m.at == PipelineStep::Test || m.at == PipelineStep::Retest || m.at
            == PipelineStep::AuditTest,
    ensures
        ({
            let e = PipelineEventModel::Tested { passed, summary };
            let n = pipeline_next(config, c, m, run, e).0;
            let told = pipeline_tells(config, c, m, run, e);
            let finished = EventModel::TestFinished { passed, summary };
            &&& n.at != PipelineStep::Fix ==> told == seq![finished]
            &&& n.at == PipelineStep::Fix ==> told == seq![
                finished,
                EventModel::FixerStarted {
                    phase_id: c.phase_id,
                    fixer_attempt: (m.fixer_attempt + 1) as u32,
                    attempt: more_attempts(sweep::attempts_of(run.state.attempts, c.phase_id), 1),
                },
            ]
        }),
{
    let e = PipelineEventModel::Tested { passed, summary };
    let n = pipeline_next(config, c, m, run, e).0;
    let told = pipeline_tells(config, c, m, run, e);
    let finished = EventModel::TestFinished { passed, summary };
    if n.at == PipelineStep::Fix {
        let started = EventModel::FixerStarted {
            phase_id: c.phase_id,
            fixer_attempt: (m.fixer_attempt + 1) as u32,
            attempt: more_attempts(sweep::attempts_of(run.state.attempts, c.phase_id), 1),
        };
        assert(told =~= seq![finished, started]);
    } else {
        assert(told =~= seq![finished]);
    }
}

/// What an agent changed after the implementer is tested again, and subscribers
/// are told that a test run starts: a fixer is followed by a test run, an auditor
/// by one where there is a test runner, and else by the final staging. A run
/// behind the auditor that passes leads to the final staging; one that fails ends
/// the pipeline with its summary, for no fixer comes behind an auditor. What the
/// final staging found is what the pipeline hands back.
pub proof fn work_is_retested_and_staged(
    config: Config,
    c: AuditModel,
    m: PipelineModel,
    run: RunnerModel,
    summary: Seq<char>,
    has_changes: bool,
)
    ensures
        m.at == PipelineStep::Fix ==> {
            let e = PipelineEventModel::Validated(None);
            &&& pipeline_next(config, c, m, run, e).0.at == PipelineStep::Retest
            &&& pipeline_tells(config, c, m, run, e) == seq![EventModel::TestStarted]
        },
        m.at == PipelineStep::Audit && m.has_tests ==> {
            let e = PipelineEventModel::Validated(None);
            &&& pipeline_next(config, c, m, run, e).0.at == PipelineStep::AuditTest
            &&& pipeline_tells(config, c, m, run, e) == seq![EventModel::TestStarted]
        },
        m.at == PipelineStep::Audit && !m.has_tests ==> {
            let e = PipelineEventModel::Validated(None);
            &&& pipeline_next(config, c, m, run, e).0.at == PipelineStep::Stage
            &&& pipeline_tells(config, c, m, run, e).len() == 0
        },
        m.at == PipelineStep::AuditTest ==> {
            let good = PipelineEventModel::Tested { passed: true, summary };
            let bad = PipelineEventModel::Tested { passed: false, summary };
            &&& pipeline_next(config, c, m, run, good).0.at == PipelineStep::Stage
            &&& pipeline_next(config, c, m, run, bad).0.at == PipelineStep::Halted
            &&& pipeline_next(config, c, m, run, bad).0.halt == Some(
                HaltModel::TestsFailed(summary),
            )
            &&& pipeline_next(config, c, m, run, bad).1 == run
        },
        m.at == PipelineStep::Stage ==> {
            let e = PipelineEventModel::Staged { has_changes };
            let (n, now) = pipeline_next(config, c, m, run, e);
            &&& n.at == PipelineStep::Staged && n.has_changes == has_changes && n.halt == m.halt
            &&& now == run
            &&& pipeline_tells(config, c, m, run, e).len() == 0
        },
{
    let e = PipelineEventModel::Validated(None);
    if m.at == PipelineStep::Fix || m.at == PipelineStep::Audit && m.has_tests {
        assert(pipeline_tells(config, c, m, run, e) =~= seq![EventModel::TestStarted]);
    }
}

/// The pipeline takes in nothing that it does not wait for: a validation is due
/// at a dispatch alone, a test result at a test run alone, and so on. Anything
/// else, and anything at all once it has come to its end, changes nothing and
/// tells nothing.
pub proof fn only_what_is_due_counts(
    config: Config,
    c: AuditModel,
    m: PipelineModel,
    run: RunnerModel,
    e: PipelineEventModel,
)
    requires
        e is Validated ==> m.at != PipelineStep::Dispatch && m.at != PipelineStep::Fix && m.at
            != PipelineStep::Audit,
        e is Detected ==> m.at != PipelineStep::Detect,
        e is Tested ==> m.at != PipelineStep::Test && m.at != PipelineStep::Retest && m.at
            != PipelineStep::AuditTest,
        e is Diffed ==> m.at != PipelineStep::Diff,
        e is Staged ==> m.at != PipelineStep::Stage,
    ensures
        pipeline_next(config, c, m, run, e) == (m, run),
        pipeline_tells(config, c, m, run, e).len() == 0,
{
}

// ---------------------------------------------------------------------------
// The pipeline
// ---------------------------------------------------------------------------

/// Outcome of the pipeline.
#[derive(Debug, PartialEq, Eq)]
pub enum PipelineOutcome {
    /// It halted.
    Halted(HaltReason),
    /// The changes are staged.
    Staged {
        /// The dispatch (and any auditor edits) produced code outside
        /// `.pitboss/`.
        has_changes: bool,
    },
}

/// A [`PipelineOutcome`] as a mathematical value.
pub enum OutcomeModel {
    Halted(HaltModel),
    Staged { has_changes: bool },
}

impl View for PipelineOutcome {
    type V = OutcomeModel;

    open spec fn view(&self) -> OutcomeModel {
        match self {
            PipelineOutcome::Halted(reason) => OutcomeModel::Halted(reason@),
            PipelineOutcome::Staged { has_changes } => OutcomeModel::Staged {
                has_changes: *has_changes,
            },
        }
    }
}

/// What the pipeline works on.
#[derive(Debug, Clone, Copy)]
pub enum Work<'a> {
    /// A phase.
    Phase(&'a Phase),
    /// A sweep that started as the carried ticket.
    Sweep(&'a SweepTicket),
}

impl<'a> Work<'a> {
    /// Whether the work is a phase or a sweep.
    pub fn kind(self) -> (r: AuditContextKind)
        ensures
            r == match self {
                Work::Phase(_) => AuditContextKind::Phase,
                Work::Sweep(_) => AuditContextKind::Sweep,
            },
    {
        match self {
            Work::Phase(_) => AuditContextKind::Phase,
            Work::Sweep(_) => AuditContextKind::Sweep,
        }
    }
}

/// The dispatch pipeline of one phase or sweep.
#[derive(Debug, PartialEq, Eq)]
pub struct Pipeline {
    id: PhaseId,
    kind: AuditContextKind,
    at: PipelineStep,
    fixer_attempt: u32,
    failure: String,
    has_tests: bool,
    diff: String,
    halt: Option<HaltReason>,
    has_changes: bool,
}

impl View for Pipeline {
    type V = PipelineModel;

    closed spec fn view(&self) -> PipelineModel {
        PipelineModel {
            at: self.at,
            fixer_attempt: self.fixer_attempt,
            failure: self.failure@,
            has_tests: self.has_tests,
            diff: self.diff@,
            halt: halt_view(self.halt),
            has_changes: self.has_changes,
        }
    }
}

impl Pipeline {
    /// The phase under which the dispatches are counted, and whether the
    /// pipeline is that of a phase or of a sweep.
    pub closed spec fn context(self) -> AuditModel {
        AuditModel { phase_id: self.id@, kind: self.kind }
    }

    /// The pipeline of a phase or of a sweep, whose dispatches are counted under
    /// the phase `id`.
    pub fn new(id: PhaseId, kind: AuditContextKind) -> (r: Self)
        ensures
            r.context() == (AuditModel { phase_id: id@, kind }),
            r@ == pipeline_start(),
    {
        let r = Pipeline {
            id,
            kind,
            at: PipelineStep::Dispatch,
            fixer_attempt: 0,
            failure: String::new(),
            has_tests: false,
            diff: String::new(),
            halt: None,
            has_changes: false,
        };
        assert(r@ =~= pipeline_start());
        r
    }

    /// What is due.
    pub fn step(&self) -> (r: PipelineStep)
        ensures
            r == self@.at,
    {
        self.at
    }

    /// The fixer or auditor dispatch that is due, if one is.
    pub fn request(&self, runner: &Runner, work: Work<'_>) -> (r: Option<AgentRequest>)
        ensures
            match (self@.at, work) {
                (PipelineStep::Fix, Work::Phase(phase)) => r matches Some(q) && runner.fixer_asked(
                    q,
                    Some(phase@),
                    self.context().phase_id,
                    self@.fixer_attempt,
                    self@.failure,
                ),
                (PipelineStep::Fix, Work::Sweep(_)) => r matches Some(q) && runner.fixer_asked(
                    q,
                    None,
                    self.context().phase_id,
                    self@.fixer_attempt,
                    self@.failure,
                ),
                (PipelineStep::Audit, Work::Phase(phase)) => r matches Some(q)
                    && runner.auditor_asked(q, phase@, self@.diff),
                (PipelineStep::Audit, Work::Sweep(ticket)) => r matches Some(q)
                    && runner.sweep_auditor_asked(
                    q,
                    self.context().phase_id,
                    text::views(ticket.pre_texts@),
                    self@.diff,
                ),
                _ => r is None,
            },
    {
        match (self.at, work) {
            (PipelineStep::Fix, Work::Phase(phase)) => Some(
                runner.fixer_request(
                    Some(phase),
                    &self.id,
                    self.fixer_attempt,
                    self.failure.as_str(),
                ),
            ),
            (PipelineStep::Fix, Work::Sweep(_)) => Some(
                runner.fixer_request(None, &self.id, self.fixer_attempt, self.failure.as_str()),
            ),
            (PipelineStep::Audit, Work::Phase(phase)) => Some(
                runner.auditor_request(phase, self.diff.as_str()),
            ),
            (PipelineStep::Audit, Work::Sweep(ticket)) => Some(
                runner.sweep_auditor_request(&self.id, ticket, self.diff.as_str()),
            ),
            _ => None,
        }
    }

    fn audits(&self, runner: &Runner) -> (r: PipelineStep)
        ensures
            r == after_tests(runner.the_config(), self.context().kind),
    {
        let audit = match self.kind {
            AuditContextKind::Phase => runner.config().audit.enabled,
            AuditContextKind::Sweep => runner.config().sweep.audit_enabled,
        };
        if audit {
            PipelineStep::Diff
        } else {
            PipelineStep::Stage
        }
    }

    fn audit_context(&self) -> (r: AuditContext)
        ensures
            r@ == self.context(),
    {
        AuditContext { phase_id: self.id.clone(), kind: self.kind }
    }

    fn halted(self, reason: HaltReason) -> (r: Self)
        ensures
            r.context() == self.context(),
            r@ == pipeline_halted(self@, reason@),
    {
        let mut m = self;
        m.at = PipelineStep::Halted;
        m.halt = Some(reason);
        m
    }

    fn tested(self, runner: &mut Runner, passed: bool, summary: String) -> (r: Self)
        ensures
            r.context() == self.context(),
            final(runner).same_setup(*old(runner)),
            (r@, final(runner)@) == pipeline_tested(
                old(runner).the_config(),
                self.context(),
                self@,
                old(runner)@,
                passed,
                summary@,
            ),
    {
        let mut m = self;
        if passed {
            m.at = m.audits(runner);
            m
        } else if m.fixer_attempt >= runner.config().retries.fixer_max_attempts {
            m.halted(HaltReason::TestsFailed(summary))
        } else {
            match runner.check_budget() {
                Some(reason) => m.halted(reason),
                None => {
                    runner.bump_attempts(&m.id);
                    m.at = PipelineStep::Fix;
                    m.fixer_attempt = m.fixer_attempt + 1;
                    m.failure = summary;
                    m
                },
            }
        }
    }

    fn diffed(self, runner: &mut Runner, diff: String) -> (r: Self)
        ensures
            r.context() == self.context(),
            final(runner).same_setup(*old(runner)),
            (r@, final(runner)@) == pipeline_diffed(
                old(runner).the_config(),
                self.context(),
                self@,
                old(runner)@,
                diff@,
            ),
    {
        let mut m = self;
        if text::trimmed(diff.as_str()).as_str().is_empty() {
            m.at = PipelineStep::Stage;
            m
        } else {
            match runner.check_budget() {
                Some(reason) => m.halted(reason),
                None => {
                    runner.bump_attempts(&m.id);
                    m.at = PipelineStep::Audit;
                    m.diff = diff;
                    m
                },
            }
        }
    }

    fn begun(&self, runner: &Runner) -> (r: Vec<Event>)
        ensures
            events::event_views(r@) == step_tells(self.context(), self@, runner@),
    {
        let mut told: Vec<Event> = Vec::new();
        match self.at {
            PipelineStep::Test => {
                told.push(Event::TestStarted);
            },
            PipelineStep::Retest => {
                told.push(Event::TestStarted);
            },
            PipelineStep::AuditTest => {
                told.push(Event::TestStarted);
            },
            PipelineStep::Fix => {
                told.push(
                    Event::FixerStarted {
                        phase_id: self.id.clone(),
                        fixer_attempt: self.fixer_attempt,
                        attempt: runner.attempts(&self.id),
                    },
                );
            },
            PipelineStep::Audit => {
                told.push(
                    Event::AuditorStarted {
                        context: self.audit_context(),
                        attempt: runner.attempts(&self.id),
                    },
                );
            },
            _ => {},
        }
        assert(events::event_views(told@) =~= step_tells(self.context(), self@, runner@));
        told
    }

    fn ended(&self, runner: &Runner, event: &PipelineEvent) -> (r: Vec<Event>)
        ensures
            events::event_views(r@) == event_tells(self.context(), self@, runner@, event@),
    {
        let mut told: Vec<Event> = Vec::new();
        match (self.at, event) {
            (PipelineStep::Dispatch, PipelineEvent::Validated(None)) => {
                if runner.skips_tests() {
                    told.push(Event::TestsSkipped);
                }
            },
            (PipelineStep::Detect, PipelineEvent::Detected(found)) => {
                if !*found {
                    told.push(Event::TestsSkipped);
                }
            },
            (
                PipelineStep::Test | PipelineStep::Retest | PipelineStep::AuditTest,
                PipelineEvent::Tested { passed, summary },
            ) => {
                told.push(Event::TestFinished { passed: *passed, summary: summary.clone() });
            },
            (PipelineStep::Diff, PipelineEvent::Diffed(diff)) => {
                if text::trimmed(diff.as_str()).as_str().is_empty() {
                    told.push(Event::AuditorSkippedNoChanges { context: self.audit_context() });
                }
            },
            _ => {},
        }
        assert(events::event_views(told@) =~= event_tells(
            self.context(),
            self@,
            runner@,
            event@,
        ));
        told
    }

    fn moved(self, runner: &mut Runner, event: PipelineEvent) -> (r: Self)
        ensures
            r.context() == self.context(),
            final(runner).same_setup(*old(runner)),
            (r@, final(runner)@) == pipeline_next(
                old(runner).the_config(),
                self.context(),
                self@,
                old(runner)@,
                event@,
            ),
    {
        let mut m = self;
        match (m.at, event) {
            (
                PipelineStep::Dispatch | PipelineStep::Fix | PipelineStep::Audit,
                PipelineEvent::Validated(halt),
            ) => match halt {
                Some(reason) => m.halted(reason),
                None => {
                    m.at = match m.at {
                        PipelineStep::Dispatch => {
                            if runner.skips_tests() {
                                m.audits(runner)
                            } else {
                                PipelineStep::Detect
                            }
                        },
                        PipelineStep::Fix => PipelineStep::Retest,
                        _ => {
                            if m.has_tests {
                                PipelineStep::AuditTest
                            } else {
                                PipelineStep::Stage
                            }
                        },
                    };
                    m
                },
            },
            (PipelineStep::Detect, PipelineEvent::Detected(found)) => {
                if found {
                    m.at = PipelineStep::Test;
                    m.has_tests = true;
                } else {
                    m.at = m.audits(runner);
                }
                m
            },
            (
                PipelineStep::Test | PipelineStep::Retest,
                PipelineEvent::Tested { passed, summary },
            ) => m.tested(runner, passed, summary),
            (PipelineStep::Diff, PipelineEvent::Diffed(diff)) => m.diffed(runner, diff),
            (PipelineStep::AuditTest, PipelineEvent::Tested { passed, summary }) => {
                if passed {
                    m.at = PipelineStep::Stage;
                    m
                } else {
                    m.halted(HaltReason::TestsFailed(summary))
                }
            },
            (PipelineStep::Stage, PipelineEvent::Staged { has_changes }) => {
                m.at = PipelineStep::Staged;
                m.has_changes = has_changes;
                m
            },
            _ => m,
        }
    }

    /// Takes in what came of the step that was due: the dispatch that is due next
    /// is counted, and what to tell subscribers is given.
    pub fn advance(self, runner: &mut Runner, event: PipelineEvent) -> (r: (Self, Vec<Event>))
        ensures
            r.0.context() == self.context(),
            final(runner).same_setup(*old(runner)),
            (r.0@, final(runner)@) == pipeline_next(
                old(runner).the_config(),
                self.context(),
                self@,
                old(runner)@,
                event@,
            ),
            events::event_views(r.1@) == pipeline_tells(
                old(runner).the_config(),
                self.context(),
                self@,
                old(runner)@,
                event@,
            ),
    {
        let before = self.at;
        let mut told = self.ended(runner, &event);
        let ghost first = told@;
        let next = self.moved(runner, event);
        if next.at != before {
            let mut more = next.begun(runner);
            let ghost second = more@;
            told.append(&mut more);
            assert(events::event_views(told@) =~= events::event_views(first)
                + events::event_views(second));
        } else {
            assert(events::event_views(told@) =~= events::event_views(first)
                + Seq::<EventModel>::empty());
        }
        (next, told)
    }

    /// What the pipeline came to, once nothing is left to do.
    pub fn finish(self) -> (r: PipelineOutcome)
        ensures
            match self@.halt {
                Some(reason) => r matches PipelineOutcome::Halted(h) && h@ == reason,
                None => r == (PipelineOutcome::Staged { has_changes: self@.has_changes }),
            },
    {
        match self.halt {
            Some(reason) => PipelineOutcome::Halted(reason),
            None => PipelineOutcome::Staged { has_changes: self.has_changes },
        }
    }
}

} // verus!
