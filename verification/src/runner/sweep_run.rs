//! The run of one deferred sweep.
//!
//! The dispatch pipeline, then the guard on `## Deferred phases`, then the
//! commit of what was staged, then the backlog and the run state. Running the
//! pipeline, committing and files are the caller's: [`SweepRun`] says what is
//! due and takes in what came of it.

use vstd::prelude::*;

use super::events;
use super::events::{Event, EventModel};
use super::phase_run;
use super::pipeline::{HaltModel, HaltReason, OutcomeModel, PipelineOutcome};
use super::sweep;
use super::{
    PhaseResult, PhaseResultModel, Runner, RunnerModel, RunnerWork, SweepSettle, SweepTicket,
};
use crate::config::Config;
use crate::deferred;
use crate::git;
use crate::plan::PhaseId;
use crate::text;

verus! {

/// What the run of a sweep waits for.
#[derive(Debug, Clone, Copy, PartialEq, Eq, Structural)]
pub enum SweepStep {
    /// The dispatch pipeline.
    Pipeline,
    /// Putting back what `deferred.md` was before the sweep, and reading it.
    Restore,
    /// The commit of what is staged.
    Commit,
    /// Writing the backlog to `deferred.md`.
    WriteDeferred,
    /// Saving the run state.
    SaveState,
    /// Nothing is left to do: the sweep landed.
    Advanced,
    /// Nothing is left to do: the sweep halted.
    Halted,
}

/// What came of a step of a sweep.
#[derive(Debug, PartialEq, Eq)]
pub enum SweepEvent {
    /// The pipeline ended.
    PipelineEnded(PipelineOutcome),
    /// `deferred.md` was put back and holds the carried text.
    Restored(String),
    /// A commit with the carried id was made.
    Committed(String),
    /// `deferred.md` was written.
    DeferredWritten,
    /// The run state was saved.
    StateSaved,
}

/// A [`SweepEvent`] as a mathematical value.
pub enum SweepEventModel {
    PipelineEnded(OutcomeModel),
    Restored(Seq<char>),
    Committed(Seq<char>),
    DeferredWritten,
    StateSaved,
}

impl View for SweepEvent {
    type V = SweepEventModel;

    open spec fn view(&self) -> SweepEventModel {
        match self {
            SweepEvent::PipelineEnded(outcome) => SweepEventModel::PipelineEnded(outcome@),
            SweepEvent::Restored(text) => SweepEventModel::Restored(text@),
            SweepEvent::Committed(id) => SweepEventModel::Committed(id@),
            SweepEvent::DeferredWritten => SweepEventModel::DeferredWritten,
            SweepEvent::StateSaved => SweepEventModel::StateSaved,
        }
    }
}

/// What the run of a sweep knows from its start.
pub struct SweepFacts {
    /// The phase that the sweep is accounted under.
    pub accounting: Seq<char>,
    /// The unchecked items before the sweep.
    pub pre_unchecked: nat,
    /// Their texts.
    pub pre_texts: Seq<Seq<char>>,
    /// The `## Deferred phases` block before the sweep.
    pub pre_phases: Seq<char>,
    /// The run state is saved once the sweep landed.
    pub persist: bool,
}

/// Where the run of a sweep stands.
pub struct SweepRunModel {
    /// What it waits for.
    pub at: SweepStep,
    /// Whether the pipeline staged anything, once it did not halt.
    pub staged: Option<bool>,
    /// The items that the sweep ticked off, once its changes are staged.
    pub resolved: nat,
    /// What the sweep came to, once that is known.
    pub result: Option<PhaseResultModel>,
}

/// The start of a sweep's run.
pub open spec fn sweep_begun() -> SweepRunModel {
    SweepRunModel { at: SweepStep::Pipeline, staged: None, resolved: 0, result: None }
}

/// The sweep left `## Deferred phases` alone.
pub open spec fn phases_kept(f: SweepFacts, run: RunnerModel) -> bool {
    sweep::phases_block(run.deferred) == f.pre_phases
}

/// The sweep halts for `reason`; the staleness counters take it in.
pub open spec fn sweep_halted(
    f: SweepFacts,
    m: SweepRunModel,
    run: RunnerModel,
    reason: HaltModel,
) -> (SweepRunModel, RunnerModel) {
    (
        SweepRunModel {
            at: SweepStep::Halted,
            result: Some(PhaseResultModel::Halted { phase_id: f.accounting, reason }),
            ..m
        },
        super::staleness_counted(run, f.pre_texts),
    )
}

/// The sweep lands with the commit `commit`.
pub open spec fn sweep_landed(
    f: SweepFacts,
    has_changes: bool,
    resolved: nat,
    run: RunnerModel,
    commit: Option<Seq<char>>,
) -> (SweepRunModel, RunnerModel) {
    (
        SweepRunModel {
            at: SweepStep::WriteDeferred,
            staged: Some(has_changes),
            resolved,
            result: Some(
                PhaseResultModel::Advanced {
                    phase_id: f.accounting,
                    next_phase: Some(run.plan.current_phase),
                    commit,
                },
            ),
        },
        super::sweep_finished(run, f.pre_texts),
    )
}

/// The runner once `deferred.md` was put back and holds `text`. Where that does
/// not parse the cached backlog stays.
pub open spec fn backlog_restored(run: RunnerModel, text: Seq<char>) -> RunnerModel {
    match deferred::parsed_deferred(text) {
        Ok(doc) => RunnerModel { deferred: doc, ..run },
        Err(_) => run,
    }
}

/// The run of a sweep and its runner after the event `e`. An event that is not
/// due changes nothing.
pub open spec fn sweep_next(
    f: SweepFacts,
    m: SweepRunModel,
    run: RunnerModel,
    e: SweepEventModel,
) -> (SweepRunModel, RunnerModel) {
    match (m.at, e) {
        (SweepStep::Pipeline, SweepEventModel::PipelineEnded(OutcomeModel::Halted(reason))) =>
            sweep_halted(f, m, run, reason),
        (
            SweepStep::Pipeline,
            SweepEventModel::PipelineEnded(OutcomeModel::Staged { has_changes }),
        ) => {
            let resolved = super::resolved_count(f.pre_unchecked, run.deferred);
            if !phases_kept(f, run) {
                (SweepRunModel { at: SweepStep::Restore, staged: Some(has_changes), ..m }, run)
            } else if has_changes {
                (
                    SweepRunModel { at: SweepStep::Commit, staged: Some(true), resolved, ..m },
                    run,
                )
            } else {
                sweep_landed(f, false, resolved, run, None)
            }
        },
        (SweepStep::Restore, SweepEventModel::Restored(text)) => sweep_halted(
            f,
            m,
            backlog_restored(run, text),
            super::edited_phases(),
        ),
        (SweepStep::Commit, SweepEventModel::Committed(id)) => sweep_landed(
            f,
            true,
            m.resolved,
            run,
            Some(id),
        ),
        (SweepStep::WriteDeferred, SweepEventModel::DeferredWritten) => (
            SweepRunModel {
                at: if f.persist {
                    SweepStep::SaveState
                } else {
                    SweepStep::Advanced
                },
                ..m
            },
            run,
        ),
        (SweepStep::SaveState, SweepEventModel::StateSaved) => (
            SweepRunModel { at: SweepStep::Advanced, ..m },
            run,
        ),
        _ => (m, run),
    }
}

/// What the pipeline staged is remembered: changes lead to the commit and stay so once
/// it is made, and a sweep without changes commits nothing.
pub proof fn what_a_sweep_staged_is_remembered(
    f: SweepFacts,
    m: SweepRunModel,
    run: RunnerModel,
    has_changes: bool,
    commit: Seq<char>,
)
    ensures
        m.at == SweepStep::Pipeline ==> sweep_next(
            f,
            m,
            run,
            SweepEventModel::PipelineEnded(OutcomeModel::Staged { has_changes }),
        ).0.staged == Some(has_changes),
        m.at == SweepStep::Commit ==> sweep_next(
            f,
            m,
            run,
            SweepEventModel::Committed(commit),
        ).0.staged == Some(true),
{
}

/// `told` is what subscribers are told of the event `e`: of a sweep that halts or
/// lands the items that it made stale, of one that halts then the halt, and of
/// one that has ended its completion.
pub open spec fn sweep_tells(
    config: Config,
    f: SweepFacts,
    m: SweepRunModel,
    run: RunnerModel,
    e: SweepEventModel,
    told: Seq<EventModel>,
) -> bool {
    let n = sweep_next(f, m, run, e).0;
    let counted = match (m.at, e) {
        (SweepStep::Restore, SweepEventModel::Restored(text)) => backlog_restored(run, text),
        _ => run,
    };
    let stale = |events: Seq<EventModel>|
        super::stale_events(
            events,
            run.state.deferred_item_attempts,
            f.pre_texts,
            super::pending_texts(counted.deferred),
            config.sweep.escalate_after,
        );
    if n.at == m.at {
        told.len() == 0
    } else {
        match (n.at, n.result) {
            (SweepStep::Halted, Some(PhaseResultModel::Halted { reason, .. })) => {
                &&& told.len() > 0
                &&& told.last() == EventModel::SweepHalted { after: f.accounting, reason }
                &&& stale(told.drop_last())
            },
            (SweepStep::WriteDeferred, _) => stale(told),
            (SweepStep::Advanced, Some(PhaseResultModel::Advanced { commit, .. })) => told
                == seq![
                EventModel::SweepCompleted { after: f.accounting, resolved: n.resolved, commit },
            ],
            _ => told.len() == 0,
        }
    }
}

/// What is told of a sweep. An event that changes nothing is not told. A halt is told
/// last, with its reason, and the completion alone, with the commit and how many items
/// were resolved; before either only stale items are told.
pub proof fn sweeps_are_told_as_they_end(
    config: Config,
    f: SweepFacts,
    m: SweepRunModel,
    run: RunnerModel,
    e: SweepEventModel,
    told: Seq<EventModel>,
    i: int,
)
    requires
        sweep_tells(config, f, m, run, e, told),
    ensures
        sweep_next(f, m, run, e).0.at == m.at ==> told.len() == 0,
        sweep_next(f, m, run, e).0.at != m.at ==> {
            let n = sweep_next(f, m, run, e).0;
            &&& n.at == SweepStep::Halted ==> (n.result matches Some(
                PhaseResultModel::Halted { reason, .. },
            ) ==> told.len() > 0 && told.last() == (EventModel::SweepHalted {
                after: f.accounting,
                reason,
            }) && (0 <= i < told.len() - 1 ==> told[i] is DeferredItemStale))
            &&& n.at == SweepStep::Advanced ==> (n.result matches Some(
                PhaseResultModel::Advanced { commit, .. },
            ) ==> told.len() == 1 && told[0] == (EventModel::SweepCompleted {
                after: f.accounting,
                resolved: n.resolved,
                commit,
            }))
            &&& n.at == SweepStep::WriteDeferred ==> (0 <= i < told.len()
                ==> told[i] is DeferredItemStale)
        },
{
    let n = sweep_next(f, m, run, e).0;
    if n.at == SweepStep::Halted && 0 <= i < told.len() - 1 {
        assert(told.drop_last()[i] == told[i]);
    }
}

/// What happens while a sweep runs.
pub enum SweepInput {
    /// The dispatches of the pipeline change the runner.
    Work(RunnerWork),
    /// A step of the sweep came to something.
    Event(SweepEventModel),
}

/// The run of a sweep and its runner, which is `run` at the start, after
/// `inputs`.
pub open spec fn sweep_after(f: SweepFacts, run: RunnerModel, inputs: Seq<SweepInput>) -> (
    SweepRunModel,
    RunnerModel,
)
    decreases inputs.len(),
{
    if inputs.len() == 0 {
        (sweep_begun(), run)
    } else {
        let (m, now) = sweep_after(f, run, inputs.drop_last());
        match inputs.last() {
            SweepInput::Work(work) => (m, super::worked(now, work)),
            SweepInput::Event(e) => sweep_next(f, m, now, e),
        }
    }
}

/// How many times the step `at` was carried out.
pub open spec fn times_done(
    f: SweepFacts,
    run: RunnerModel,
    inputs: Seq<SweepInput>,
    at: SweepStep,
) -> nat
    decreases inputs.len(),
{
    if inputs.len() == 0 {
        0
    } else {
        let front = inputs.drop_last();
        times_done(f, run, front, at) + if sweep_after(f, run, front).0.at == at && sweep_after(
            f,
            run,
            inputs,
        ).0.at != at {
            1nat
        } else {
            0nat
        }
    }
}

/// A sweep that halted made no commit and wrote no backlog of its own; the plan,
/// the completed phases, the obligation to sweep and the count of sweeps in a row
/// are as they were.
pub proof fn a_halted_sweep_never_commits(
    f: SweepFacts,
    run: RunnerModel,
    inputs: Seq<SweepInput>,
)
    ensures
        ({
            let (m, now) = sweep_after(f, run, inputs);
            m.at == SweepStep::Halted ==> {
                &&& times_done(f, run, inputs, SweepStep::Commit) == 0
                &&& times_done(f, run, inputs, SweepStep::WriteDeferred) == 0
                &&& now.plan == run.plan
                &&& now.state.completed == run.state.completed
                &&& now.state.pending_sweep == run.state.pending_sweep
                &&& now.state.consecutive_sweeps == run.state.consecutive_sweeps
                &&& m.result matches Some(PhaseResultModel::Halted { phase_id, .. }) && phase_id
                    == f.accounting
            }
        }),
{
    sweep_invariant(f, run, inputs);
}

/// A sweep that landed made one commit exactly when changes were staged, and its
/// result names it. The obligation is cleared and the sweep counted; the plan
/// and the completed phases are as they were.
pub proof fn a_landed_sweep_commits_what_is_staged(
    f: SweepFacts,
    run: RunnerModel,
    inputs: Seq<SweepInput>,
)
    ensures
        ({
            let (m, now) = sweep_after(f, run, inputs);
            m.at == SweepStep::Advanced ==> {
                &&& m.staged is Some
                &&& times_done(f, run, inputs, SweepStep::Commit) == phase_run::once_if(m.staged->0)
                &&& times_done(f, run, inputs, SweepStep::Restore) == 0
                &&& times_done(f, run, inputs, SweepStep::WriteDeferred) == 1
                &&& times_done(f, run, inputs, SweepStep::SaveState) == phase_run::once_if(
                    f.persist,
                )
                &&& m.result matches Some(
                    PhaseResultModel::Advanced { phase_id, next_phase, commit },
                ) && phase_id == f.accounting && next_phase == Some(run.plan.current_phase) && (
                commit is Some <==> m.staged->0)
                &&& now.plan == run.plan
                &&& now.state.completed == run.state.completed
                &&& !now.state.pending_sweep
                &&& now.state.consecutive_sweeps == sweep::one_more(run.state.consecutive_sweeps)
            }
        }),
{
    sweep_invariant(f, run, inputs);
}

/// A sweep whose dispatches edited `## Deferred phases` does not land, whatever
/// it staged: `deferred.md` is put back next, then the staleness counters take
/// the sweep in over what was put back, and it halts for that reason.
pub proof fn an_edited_phases_block_is_restored(
    f: SweepFacts,
    m: SweepRunModel,
    run: RunnerModel,
    has_changes: bool,
    text: Seq<char>,
)
    requires
        m.at == SweepStep::Pipeline,
        !phases_kept(f, run),
    ensures
        ({
            let staged = SweepEventModel::PipelineEnded(OutcomeModel::Staged { has_changes });
            let (n, now) = sweep_next(f, m, run, staged);
            let (last, after) = sweep_next(f, n, now, SweepEventModel::Restored(text));
            &&& n.at == SweepStep::Restore && now == run
            &&& forall|e: SweepEventModel|
                !(e is Restored) ==> #[trigger] sweep_next(f, n, now, e) == (n, now)
            &&& last.at == SweepStep::Halted
            &&& last.result == Some(
                PhaseResultModel::Halted {
                    phase_id: f.accounting,
                    reason: super::edited_phases(),
                },
            )
            &&& after == super::staleness_counted(backlog_restored(run, text), f.pre_texts)
        }),
{
}

proof fn sweep_invariant(f: SweepFacts, run: RunnerModel, inputs: Seq<SweepInput>)
    ensures
        ({
            let (m, now) = sweep_after(f, run, inputs);
            let commits = times_done(f, run, inputs, SweepStep::Commit);
            let restores = times_done(f, run, inputs, SweepStep::Restore);
            let writes = times_done(f, run, inputs, SweepStep::WriteDeferred);
            let saves = times_done(f, run, inputs, SweepStep::SaveState);
            let landed = m.at == SweepStep::WriteDeferred || m.at == SweepStep::SaveState || m.at
                == SweepStep::Advanced;
            &&& now.plan == run.plan
            &&& now.state.completed == run.state.completed
            &&& if !landed {
                &&& commits == 0 && writes == 0 && saves == 0
                &&& m.at != SweepStep::Halted ==> restores == 0
                &&& now.state.pending_sweep == run.state.pending_sweep
                &&& now.state.consecutive_sweeps == run.state.consecutive_sweeps
                &&& m.at == SweepStep::Pipeline ==> m == sweep_begun()
                &&& m.at == SweepStep::Commit ==> m.staged == Some(true) && m.result is None
                &&& m.at == SweepStep::Halted ==> (m.result matches Some(
                    PhaseResultModel::Halted { phase_id, .. },
                ) && phase_id == f.accounting)
            } else {
                &&& m.staged is Some
                &&& commits == phase_run::once_if(m.staged->0)
                &&& restores == 0
                &&& writes == phase_run::once_if(m.at != SweepStep::WriteDeferred)
                &&& m.at == SweepStep::SaveState ==> f.persist
                &&& saves == phase_run::once_if(m.at == SweepStep::Advanced && f.persist)
                &&& m.result matches Some(
                    PhaseResultModel::Advanced { phase_id, next_phase, commit },
                ) && phase_id == f.accounting && next_phase == Some(run.plan.current_phase) && (
                commit is Some <==> m.staged->0)
                &&& !now.state.pending_sweep
                &&& now.state.consecutive_sweeps == sweep::one_more(run.state.consecutive_sweeps)
            }
        }),
    decreases inputs.len(),
{
    if inputs.len() > 0 {
        sweep_invariant(f, run, inputs.drop_last());
    }
}

/// How many events the run of a sweep has before it at most, its pipeline being
/// one.
pub open spec fn sweep_rank(at: SweepStep) -> nat {
    match at {
        SweepStep::Pipeline => 4,
        SweepStep::Commit => 3,
        SweepStep::WriteDeferred => 2,
        SweepStep::Restore => 1,
        SweepStep::SaveState => 1,
        SweepStep::Advanced => 0,
        SweepStep::Halted => 0,
    }
}

/// The run of a sweep ends: each event either is ignored or brings it closer to
/// its end.
pub proof fn sweep_is_bounded(
    f: SweepFacts,
    m: SweepRunModel,
    run: RunnerModel,
    e: SweepEventModel,
)
    ensures
        ({
            let (n, now) = sweep_next(f, m, run, e);
            n == m && now == run || sweep_rank(n.at) < sweep_rank(m.at)
        }),
{
}

/// How a sweep goes. A pipeline that halts halts the sweep for the same reason. One
/// whose agents left the deferred phases alone lands: with the commit that was
/// made where changes were staged, and without one else. What it reports as
/// resolved are the items that were pending before and that it left fewer of.
pub proof fn sweeps_go_step_by_step(
    f: SweepFacts,
    m: SweepRunModel,
    run: RunnerModel,
    reason: HaltModel,
    id: Seq<char>,
)
    ensures
        m.at == SweepStep::Pipeline ==> {
            let halted = SweepEventModel::PipelineEnded(OutcomeModel::Halted(reason));
            let (n, now) = sweep_next(f, m, run, halted);
            n.at == SweepStep::Halted && n.result == Some(
                PhaseResultModel::Halted { phase_id: f.accounting, reason },
            ) && now == super::staleness_counted(run, f.pre_texts)
        },
        m.at == SweepStep::Pipeline && sweep::phases_block(run.deferred) == f.pre_phases ==> {
            let some = SweepEventModel::PipelineEnded(OutcomeModel::Staged { has_changes: true });
            let (n, now) = sweep_next(f, m, run, some);
            n.at == SweepStep::Commit && now == run && resolves(f, run, n.resolved)
        },
        m.at == SweepStep::Pipeline && sweep::phases_block(run.deferred) == f.pre_phases ==> {
            let none = SweepEventModel::PipelineEnded(OutcomeModel::Staged { has_changes: false });
            let (n, now) = sweep_next(f, m, run, none);
            n.at == SweepStep::WriteDeferred && now == super::sweep_finished(run, f.pre_texts) && (
            n.result matches Some(PhaseResultModel::Advanced { phase_id, next_phase, commit })
                && phase_id == f.accounting && commit is None) && resolves(f, run, n.resolved)
        },
        m.at == SweepStep::Commit ==> {
            let (n, now) = sweep_next(f, m, run, SweepEventModel::Committed(id));
            n.at == SweepStep::WriteDeferred && now == super::sweep_finished(run, f.pre_texts) && (
            n.result matches Some(PhaseResultModel::Advanced { phase_id, next_phase, commit })
                && phase_id == f.accounting && commit == Some(id)) && n.resolved == m.resolved
        },
        m.at == SweepStep::WriteDeferred ==> {
            let (n, now) = sweep_next(f, m, run, SweepEventModel::DeferredWritten);
            &&& f.persist ==> n.at == SweepStep::SaveState
            &&& !f.persist ==> n.at == SweepStep::Advanced
            &&& n.result == m.result && n.resolved == m.resolved && now == run
        },
        m.at == SweepStep::SaveState ==> sweep_next(f, m, run, SweepEventModel::StateSaved) == (
            SweepRunModel { at: SweepStep::Advanced, ..m },
            run,
        ),
{
    super::resolved_is_what_went_away(f.pre_unchecked, run.deferred);
}

/// `resolved` items went away of those that were pending before the sweep.
pub open spec fn resolves(f: SweepFacts, run: RunnerModel, resolved: nat) -> bool {
    let open = run.deferred.items.filter(|i: deferred::ItemModel| !i.done).len();
    &&& open <= f.pre_unchecked ==> resolved + open == f.pre_unchecked
    &&& open > f.pre_unchecked ==> resolved == 0
}

/// A backlog that was put back is the one that is on disk again; where that does
/// not parse the cached one stays. Nothing else of the runner changes.
pub proof fn what_is_put_back_is_cached(run: RunnerModel, text: Seq<char>)
    ensures
        deferred::parsed_deferred(text) matches Ok(doc) ==> backlog_restored(run, text).deferred
            == doc,
        deferred::parsed_deferred(text) is Err ==> backlog_restored(run, text) == run,
        backlog_restored(run, text).state == run.state,
        backlog_restored(run, text).plan == run.plan,
{
}

/// The run of one sweep.
#[derive(Debug, PartialEq, Eq)]
pub struct SweepRun {
    accounting: PhaseId,
    ticket: SweepTicket,
    persist: bool,
    at: SweepStep,
    staged: Option<bool>,
    resolved: usize,
    message: Option<String>,
    result: Option<PhaseResult>,
}

impl View for SweepRun {
    type V = SweepRunModel;

    closed spec fn view(&self) -> SweepRunModel {
        SweepRunModel {
            at: self.at,
            staged: self.staged,
            resolved: self.resolved as nat,
            result: phase_run::result_view(self.result),
        }
    }
}

/// What a sweep accounted under `accounting` knows from its start.
pub open spec fn facts_of(accounting: Seq<char>, ticket: SweepTicket, persist: bool) -> SweepFacts {
    SweepFacts {
        accounting,
        pre_unchecked: ticket.pre_unchecked as nat,
        pre_texts: text::views(ticket.pre_texts@),
        pre_phases: ticket.pre_phases@,
        persist,
    }
}

impl SweepRun {
    /// What the sweep knows from its start.
    pub closed spec fn facts(self) -> SweepFacts {
        facts_of(self.accounting@, self.ticket, self.persist)
    }

    /// What the sweep remembers from its start.
    pub closed spec fn the_ticket(self) -> SweepTicket {
        self.ticket
    }

    /// The message that is kept is the one of the commit that is due.
    #[verifier::type_invariant]
    spec fn message_kept(self) -> bool {
        self.at == SweepStep::Commit ==> (self.message matches Some(m) && m@
            == git::sweep_commit_text(self.accounting@, self.resolved as nat))
    }

    /// The run of a sweep that is accounted under `accounting` and started as
    /// `ticket`, and what to tell subscribers. `persist` says whether the run
    /// state is saved once the sweep landed.
    pub fn new(accounting: PhaseId, ticket: SweepTicket, persist: bool) -> (r: (Self, Event))
        ensures
            r.0.facts() == facts_of(accounting@, ticket, persist),
            r.0.the_ticket() == ticket,
            r.0@ == sweep_begun(),
            r.1@ == (EventModel::SweepStarted {
                after: accounting@,
                items_pending: ticket.pre_unchecked as nat,
                attempt: ticket.attempt,
            }),
    {
        let told = Event::SweepStarted {
            after: accounting.clone(),
            items_pending: ticket.pre_unchecked,
            attempt: ticket.attempt,
        };
        let run = SweepRun {
            accounting,
            ticket,
            persist,
            at: SweepStep::Pipeline,
            staged: None,
            resolved: 0,
            message: None,
            result: None,
        };
        (run, told)
    }

    /// What the sweep remembers from its start.
    pub fn ticket(&self) -> (r: &SweepTicket)
        ensures
            *r == self.the_ticket(),
    {
        &self.ticket
    }

    /// What is due.
    pub fn step(&self) -> (r: SweepStep)
        ensures
            r == self@.at,
    {
        self.at
    }

    /// The message of the commit that is due, if one is.
    pub fn commit_message(&self) -> (r: Option<String>)
        ensures
            text::view_of(r) == if self@.at == SweepStep::Commit {
                Some(git::sweep_commit_text(self.facts().accounting, self@.resolved))
            } else {
                None
            },
    {
        proof {
            use_type_invariant(self);
        }
        if self.at == SweepStep::Commit {
            text::copy_option(&self.message)
        } else {
            None
        }
    }

    fn halt(self, runner: &mut Runner, reason: HaltReason) -> (r: (Self, Vec<Event>))
        ensures
            r.0.facts() == self.facts(),
            r.0.the_ticket() == self.the_ticket(),
            final(runner).same_setup(*old(runner)),
            (r.0@, final(runner)@) == sweep_halted(self.facts(), self@, old(runner)@, reason@),
            r.1@.len() > 0,
            events::event_views(r.1@).last() == (EventModel::SweepHalted {
                after: self.facts().accounting,
                reason: reason@,
            }),
            super::stale_events(
                events::event_views(r.1@).drop_last(),
                old(runner)@.state.deferred_item_attempts,
                self.facts().pre_texts,
                super::pending_texts(old(runner)@.deferred),
                old(runner).the_config().sweep.escalate_after,
            ),
    {
        let mut told = runner.apply_sweep_staleness(self.ticket.pre_texts.as_slice());
        let ghost stale = told@;
        told.push(Event::SweepHalted { after: self.accounting.clone(), reason: reason.copy() });
        assert(events::event_views(told@).drop_last() =~= events::event_views(stale));
        let result = PhaseResult::Halted { phase_id: self.accounting.clone(), reason };
        let run = SweepRun {
            accounting: self.accounting,
            ticket: self.ticket,
            persist: self.persist,
            at: SweepStep::Halted,
            staged: self.staged,
            resolved: self.resolved,
            message: None,
            result: Some(result),
        };
        (run, told)
    }

    fn land(
        self,
        runner: &mut Runner,
        has_changes: bool,
        resolved: usize,
        commit: Option<String>,
    ) -> (r: (Self, Vec<Event>))
        ensures
            r.0.facts() == self.facts(),
            r.0.the_ticket() == self.the_ticket(),
            final(runner).same_setup(*old(runner)),
            (r.0@, final(runner)@) == sweep_landed(
                self.facts(),
                has_changes,
                resolved as nat,
                old(runner)@,
                text::view_of(commit),
            ),
            super::stale_events(
                events::event_views(r.1@),
                old(runner)@.state.deferred_item_attempts,
                self.facts().pre_texts,
                super::pending_texts(old(runner)@.deferred),
                old(runner).the_config().sweep.escalate_after,
            ),
    {
        let (result, told) = runner.finish_sweep(&self.accounting, &self.ticket, commit);
        let run = SweepRun {
            accounting: self.accounting,
            ticket: self.ticket,
            persist: self.persist,
            at: SweepStep::WriteDeferred,
            staged: Some(has_changes),
            resolved,
            message: None,
            result: Some(result),
        };
        (run, told)
    }

    fn at_step(
        self,
        at: SweepStep,
        staged: Option<bool>,
        resolved: usize,
        message: Option<String>,
    ) -> (r: Self)
        requires
            at == SweepStep::Commit ==> text::view_of(message) == Some(
                git::sweep_commit_text(self.facts().accounting, resolved as nat),
            ),
        ensures
            r.facts() == self.facts(),
            r.the_ticket() == self.the_ticket(),
            r@ == (SweepRunModel { at, staged, resolved: resolved as nat, ..self@ }),
    {
        SweepRun {
            accounting: self.accounting,
            ticket: self.ticket,
            persist: self.persist,
            at,
            staged,
            resolved,
            message,
            result: self.result,
        }
    }

    /// Takes in what came of the step that was due, and gives what to tell
    /// subscribers.
    pub fn advance(self, runner: &mut Runner, event: SweepEvent) -> (r: (Self, Vec<Event>))
        ensures
            r.0.facts() == self.facts(),
            r.0.the_ticket() == self.the_ticket(),
            final(runner).same_setup(*old(runner)),
            (r.0@, final(runner)@) == sweep_next(self.facts(), self@, old(runner)@, event@),
            sweep_tells(
                old(runner).the_config(),
                self.facts(),
                self@,
                old(runner)@,
                event@,
                events::event_views(r.1@),
            ),
    {
        match (self.at, event) {
            (SweepStep::Pipeline, SweepEvent::PipelineEnded(outcome)) => match outcome {
                PipelineOutcome::Halted(reason) => self.halt(runner, reason),
                PipelineOutcome::Staged { has_changes } => {
                    let resolved: usize = runner.sweep_resolved(&self.ticket);
                    match runner.settle_sweep(&self.ticket, has_changes, &self.accounting) {
                        SweepSettle::Restore(_) => {
                            let before: usize = self.resolved;
                            (
                                self.at_step(SweepStep::Restore, Some(has_changes), before, None),
                                Vec::new(),
                            )
                        },
                        SweepSettle::Commit(message) => (
                            self.at_step(SweepStep::Commit, Some(true), resolved, Some(message)),
                            Vec::new(),
                        ),
                        SweepSettle::Skip => self.land(runner, false, resolved, None),
                    }
                },
            },
            (SweepStep::Restore, SweepEvent::Restored(text)) => {
                if let Ok(doc) = deferred::parse(text.as_str()) {
                    runner.adopt_deferred(doc);
                }
                self.halt(runner, Runner::phases_halt())
            },
            (SweepStep::Commit, SweepEvent::Committed(id)) => {
                let resolved: usize = self.resolved;
                self.land(runner, true, resolved, Some(id))
            },
            (SweepStep::WriteDeferred, SweepEvent::DeferredWritten) => {
                if self.persist {
                    let (staged, resolved) = (self.staged, self.resolved);
                    (self.at_step(SweepStep::SaveState, staged, resolved, None), Vec::new())
                } else {
                    self.complete()
                }
            },
            (SweepStep::SaveState, SweepEvent::StateSaved) => self.complete(),
            _ => (self, Vec::new()),
        }
    }

    fn complete(self) -> (r: (Self, Vec<Event>))
        ensures
            r.0.facts() == self.facts(),
            r.0.the_ticket() == self.the_ticket(),
            r.0@ == (SweepRunModel { at: SweepStep::Advanced, ..self@ }),
            events::event_views(r.1@) == match self@.result {
                Some(PhaseResultModel::Advanced { commit, .. }) => seq![
                    EventModel::SweepCompleted {
                        after: self.facts().accounting,
                        resolved: self@.resolved,
                        commit,
                    },
                ],
                _ => Seq::empty(),
            },
    {
        let mut told: Vec<Event> = Vec::new();
        if let Some(PhaseResult::Advanced { commit, .. }) = &self.result {
            told.push(
                Event::SweepCompleted {
                    after: self.accounting.clone(),
                    resolved: self.resolved,
                    commit: text::copy_option(commit),
                },
            );
        }
        assert(events::event_views(told@) =~= match self@.result {
            Some(PhaseResultModel::Advanced { commit, .. }) => seq![
                EventModel::SweepCompleted {
                    after: self.facts().accounting,
                    resolved: self@.resolved,
                    commit,
                },
            ],
            _ => Seq::empty(),
        });
        let (staged, resolved) = (self.staged, self.resolved);
        (self.at_step(SweepStep::Advanced, staged, resolved, None), told)
    }

    /// What the sweep came to, once nothing is left to do.
    pub fn finish(self) -> (r: Option<PhaseResult>)
        ensures
            phase_run::result_view(r) == if self@.at == SweepStep::Advanced || self@.at
                == SweepStep::Halted {
                self@.result
            } else {
                None
            },
    {
        match self.at {
            SweepStep::Advanced => self.result,
            SweepStep::Halted => self.result,
            _ => None,
        }
    }
}

} // verus!
