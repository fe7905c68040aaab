//! The run of one phase.
//!
//! The dispatch pipeline, then the commit of what it staged, then the planning
//! artifacts and the run state. Running the pipeline, committing and writing
//! files is the caller's: [`PhaseRun`] says what is due and takes in what came
//! of it.

use vstd::prelude::*;

use super::events::{Event, EventModel};
use super::pipeline::{OutcomeModel, PipelineOutcome};
use super::{PhaseResult, PhaseResultModel, Runner, RunnerModel, RunnerWork};
use crate::config::Config;
use crate::git;
use crate::plan::{Phase, PhaseModel};
use crate::text;

verus! {

/// What the run of a phase waits for.
#[derive(Debug, Clone, Copy, PartialEq, Eq, Structural)]
pub enum PhaseStep {
    /// The dispatch pipeline.
    Pipeline,
    /// The commit of what is staged.
    Commit,
    /// Writing the backlog to `deferred.md`.
    WriteDeferred,
    /// Writing the advanced plan to `plan.md`.
    WritePlan,
    /// Saving the run state.
    SaveState,
    /// Nothing is left to do: the phase is completed.
    Advanced,
    /// Nothing is left to do: the phase halted.
    Halted,
}

/// What came of a step of a phase.
#[derive(Debug, PartialEq, Eq)]
pub enum PhaseEvent {
    /// The pipeline ended.
    PipelineEnded(PipelineOutcome),
    /// A commit with the carried id was made.
    Committed(String),
    /// `deferred.md` was written.
    DeferredWritten,
    /// `plan.md` was written.
    PlanWritten,
    /// The run state was saved.
    StateSaved,
}

/// A [`PhaseEvent`] as a mathematical value.
pub enum PhaseEventModel {
    PipelineEnded(OutcomeModel),
    Committed(Seq<char>),
    DeferredWritten,
    PlanWritten,
    StateSaved,
}

impl View for PhaseEvent {
    type V = PhaseEventModel;

    open spec fn view(&self) -> PhaseEventModel {
        match self {
            PhaseEvent::PipelineEnded(outcome) => PhaseEventModel::PipelineEnded(outcome@),
            PhaseEvent::Committed(id) => PhaseEventModel::Committed(id@),
            PhaseEvent::DeferredWritten => PhaseEventModel::DeferredWritten,
            PhaseEvent::PlanWritten => PhaseEventModel::PlanWritten,
            PhaseEvent::StateSaved => PhaseEventModel::StateSaved,
        }
    }
}

/// Where the run of a phase stands.
pub struct PhaseRunModel {
    /// What it waits for.
    pub at: PhaseStep,
    /// Whether the pipeline staged anything, once it did not halt.
    pub staged: Option<bool>,
    /// What the phase came to, once that is known.
    pub result: Option<PhaseResultModel>,
}

/// The start of a phase's run.
pub open spec fn phase_begun() -> PhaseRunModel {
    PhaseRunModel { at: PhaseStep::Pipeline, staged: None, result: None }
}

/// The phase `id` is completed with the commit `commit`.
pub open spec fn phase_landed(
    config: Config,
    id: Seq<char>,
    has_changes: bool,
    run: RunnerModel,
    commit: Option<Seq<char>>,
) -> (PhaseRunModel, RunnerModel) {
    (
        PhaseRunModel {
            at: PhaseStep::WriteDeferred,
            staged: Some(has_changes),
            result: Some(
                PhaseResultModel::Advanced {
                    phase_id: id,
                    next_phase: super::next_after(run.plan.phases, id, 0),
                    commit,
                },
            ),
        },
        super::phase_finished(config, run, id),
    )
}

/// A phase follows the one that came to `result`.
pub open spec fn phase_follows(result: Option<PhaseResultModel>) -> bool {
    result matches Some(PhaseResultModel::Advanced { next_phase, .. }) && next_phase is Some
}

/// The run of the phase `id` and its runner after the event `e`. An event that
/// is not due changes nothing.
pub open spec fn phase_next(
    config: Config,
    id: Seq<char>,
    m: PhaseRunModel,
    run: RunnerModel,
    e: PhaseEventModel,
) -> (PhaseRunModel, RunnerModel) {
    match (m.at, e) {
        (PhaseStep::Pipeline, PhaseEventModel::PipelineEnded(OutcomeModel::Halted(reason))) => (
            PhaseRunModel {
                at: PhaseStep::Halted,
                result: Some(PhaseResultModel::Halted { phase_id: id, reason }),
                ..m
            },
            run,
        ),
        (
            PhaseStep::Pipeline,
            PhaseEventModel::PipelineEnded(OutcomeModel::Staged { has_changes }),
        ) => if has_changes {
            (PhaseRunModel { at: PhaseStep::Commit, staged: Some(true), ..m }, run)
        } else {
            phase_landed(config, id, false, run, None)
        },
        (PhaseStep::Commit, PhaseEventModel::Committed(commit)) => phase_landed(
            config,
            id,
            true,
            run,
            Some(commit),
        ),
        (PhaseStep::WriteDeferred, PhaseEventModel::DeferredWritten) => (
            PhaseRunModel {
                at: if phase_follows(m.result) {
                    PhaseStep::WritePlan
                } else {
                    PhaseStep::SaveState
                },
                ..m
            },
            run,
        ),
        (PhaseStep::WritePlan, PhaseEventModel::PlanWritten) => (
            PhaseRunModel { at: PhaseStep::SaveState, ..m },
            run,
        ),
        (PhaseStep::SaveState, PhaseEventModel::StateSaved) => (
            PhaseRunModel { at: PhaseStep::Advanced, ..m },
            run,
        ),
        _ => (m, run),
    }
}

/// What the pipeline staged is remembered: changes lead to the commit and stay so once
/// it is made, and without changes nothing is committed.
pub proof fn what_was_staged_is_remembered(
    config: Config,
    id: Seq<char>,
    m: PhaseRunModel,
    run: RunnerModel,
    has_changes: bool,
    commit: Seq<char>,
)
    ensures
        m.at == PhaseStep::Pipeline ==> phase_next(
            config,
            id,
            m,
            run,
            PhaseEventModel::PipelineEnded(OutcomeModel::Staged { has_changes }),
        ).0.staged == Some(has_changes),
        m.at == PhaseStep::Commit ==> phase_next(
            config,
            id,
            m,
            run,
            PhaseEventModel::Committed(commit),
        ).0.staged == Some(true),
{
}

/// What subscribers are told of the event `e`.
pub open spec fn phase_tells(id: Seq<char>, m: PhaseRunModel, e: PhaseEventModel) -> Option<
    EventModel,
> {
    match (m.at, e, m.result) {
        (
            PhaseStep::SaveState,
            PhaseEventModel::StateSaved,
            Some(PhaseResultModel::Advanced { commit, .. }),
        ) => Some(EventModel::PhaseCommitted { phase_id: id, commit }),
        _ => None,
    }
}

/// What happens while a phase runs.
pub enum PhaseInput {
    /// The dispatches of the pipeline change the runner.
    Work(RunnerWork),
    /// A step of the phase came to something.
    Event(PhaseEventModel),
}

/// The run of the phase `id` and its runner, which is `run` at the start, after
/// `inputs`.
pub open spec fn phase_after(
    config: Config,
    id: Seq<char>,
    run: RunnerModel,
    inputs: Seq<PhaseInput>,
) -> (PhaseRunModel, RunnerModel)
    decreases inputs.len(),
{
    if inputs.len() == 0 {
        (phase_begun(), run)
    } else {
        let (m, now) = phase_after(config, id, run, inputs.drop_last());
        match inputs.last() {
            PhaseInput::Work(work) => (m, super::worked(now, work)),
            PhaseInput::Event(e) => phase_next(config, id, m, now, e),
        }
    }
}

/// How many times the step `at` was carried out.
pub open spec fn times_done(
    config: Config,
    id: Seq<char>,
    run: RunnerModel,
    inputs: Seq<PhaseInput>,
    at: PhaseStep,
) -> nat
    decreases inputs.len(),
{
    if inputs.len() == 0 {
        0
    } else {
        let front = inputs.drop_last();
        times_done(config, id, run, front, at) + if phase_after(config, id, run, front).0.at == at
            && phase_after(config, id, run, inputs).0.at != at {
            1nat
        } else {
            0nat
        }
    }
}

/// One if `b`, else none.
pub open spec fn once_if(b: bool) -> nat {
    if b {
        1
    } else {
        0
    }
}

/// A halt never commits: a phase that halted made no commit, completed no phase,
/// and left the plan where it was, and nothing was written.
pub proof fn a_halt_never_commits(
    config: Config,
    id: Seq<char>,
    run: RunnerModel,
    inputs: Seq<PhaseInput>,
)
    ensures
        ({
            let (m, now) = phase_after(config, id, run, inputs);
            m.at == PhaseStep::Halted ==> {
                &&& times_done(config, id, run, inputs, PhaseStep::Commit) == 0
                &&& times_done(config, id, run, inputs, PhaseStep::WriteDeferred) == 0
                &&& times_done(config, id, run, inputs, PhaseStep::WritePlan) == 0
                &&& now.plan == run.plan
                &&& now.state.completed == run.state.completed
                &&& m.result matches Some(PhaseResultModel::Halted { phase_id, .. }) && phase_id
                    == id
            }
        }),
{
    phase_invariant(config, id, run, inputs);
}

/// A phase that advanced made one commit exactly when changes were staged, and
/// its result names it. It is recorded as completed, `deferred.md` and the run
/// state were written once, and `plan.md` was rewritten exactly when a phase
/// follows, to which the plan then points; else the plan is as it was and the run
/// is past its final phase.
pub proof fn one_commit_exactly_when_staged(
    config: Config,
    id: Seq<char>,
    run: RunnerModel,
    inputs: Seq<PhaseInput>,
)
    ensures
        ({
            let (m, now) = phase_after(config, id, run, inputs);
            let next = super::next_after(run.plan.phases, id, 0);
            m.at == PhaseStep::Advanced ==> {
                &&& m.staged is Some
                &&& times_done(config, id, run, inputs, PhaseStep::Commit) == once_if(m.staged->0)
                &&& times_done(config, id, run, inputs, PhaseStep::WriteDeferred) == 1
                &&& times_done(config, id, run, inputs, PhaseStep::WritePlan) == once_if(
                    next is Some,
                )
                &&& times_done(config, id, run, inputs, PhaseStep::SaveState) == 1
                &&& m.result matches Some(
                    PhaseResultModel::Advanced { phase_id, next_phase, commit },
                ) && phase_id == id && next_phase == next && (commit is Some <==> m.staged->0)
                &&& now.state.completed == run.state.completed.push(id)
                &&& now.plan.phases == run.plan.phases
                &&& next is Some ==> now.plan.current_phase == next->0
                &&& next is None ==> now.plan == run.plan && now.state.post_final_phase
            }
        }),
{
    phase_invariant(config, id, run, inputs);
}

/// The steps up to `at` that come once a phase has landed.
spec fn landed_steps(at: PhaseStep) -> int {
    match at {
        PhaseStep::WriteDeferred => 1,
        PhaseStep::WritePlan => 2,
        PhaseStep::SaveState => 3,
        PhaseStep::Advanced => 4,
        _ => 0,
    }
}

proof fn phase_invariant(
    config: Config,
    id: Seq<char>,
    run: RunnerModel,
    inputs: Seq<PhaseInput>,
)
    ensures
        ({
            let (m, now) = phase_after(config, id, run, inputs);
            let next = super::next_after(run.plan.phases, id, 0);
            let commits = times_done(config, id, run, inputs, PhaseStep::Commit);
            let deferred = times_done(config, id, run, inputs, PhaseStep::WriteDeferred);
            let plan = times_done(config, id, run, inputs, PhaseStep::WritePlan);
            let saves = times_done(config, id, run, inputs, PhaseStep::SaveState);
            if landed_steps(m.at) == 0 {
                &&& commits == 0 && deferred == 0 && plan == 0 && saves == 0
                &&& now.plan == run.plan
                &&& now.state.completed == run.state.completed
                &&& m.at == PhaseStep::Pipeline ==> m == phase_begun()
                &&& m.at == PhaseStep::Commit ==> m.staged == Some(true) && m.result is None
                &&& m.at == PhaseStep::Halted ==> (m.result matches Some(
                    PhaseResultModel::Halted { phase_id, .. },
                ) && phase_id == id)
            } else {
                &&& m.staged is Some
                &&& commits == once_if(m.staged->0)
                &&& deferred == once_if(landed_steps(m.at) > 1)
                &&& plan == once_if(landed_steps(m.at) > 2 && next is Some)
                &&& m.at == PhaseStep::WritePlan ==> next is Some
                &&& saves == once_if(landed_steps(m.at) > 3)
                &&& m.result matches Some(
                    PhaseResultModel::Advanced { phase_id, next_phase, commit },
                ) && phase_id == id && next_phase == next && (commit is Some <==> m.staged->0)
                &&& now.state.completed == run.state.completed.push(id)
                &&& now.plan.phases == run.plan.phases
                &&& next is Some ==> now.plan.current_phase == next->0
                &&& next is None ==> now.plan == run.plan && now.state.post_final_phase
            }
        }),
    decreases inputs.len(),
{
    if inputs.len() > 0 {
        phase_invariant(config, id, run, inputs.drop_last());
    }
}

/// How many inputs the run of a phase has before it at most, its pipeline being
/// one.
pub open spec fn phase_rank(at: PhaseStep) -> nat {
    match at {
        PhaseStep::Pipeline => 5,
        PhaseStep::Commit => 4,
        PhaseStep::WriteDeferred => 3,
        PhaseStep::WritePlan => 2,
        PhaseStep::SaveState => 1,
        PhaseStep::Advanced => 0,
        PhaseStep::Halted => 0,
    }
}

/// The run of a phase ends: each event either is ignored or brings it closer to
/// its end.
pub proof fn phase_is_bounded(
    config: Config,
    id: Seq<char>,
    m: PhaseRunModel,
    run: RunnerModel,
    e: PhaseEventModel,
)
    ensures
        ({
            let (n, now) = phase_next(config, id, m, run, e);
            n == m && now == run || phase_rank(n.at) < phase_rank(m.at)
        }),
{
}

/// How a phase goes. A pipeline that halts halts the phase for the same reason,
/// and the runner is not touched. One that staged changes is committed first, and
/// the commit that was made is the one that the phase reports; one that staged
/// none reports none. Then the phase is finished, and what changed is written:
/// the backlog first, the plan behind it where a phase follows, and the run state
/// last.
pub proof fn phases_go_step_by_step(
    config: Config,
    id: Seq<char>,
    m: PhaseRunModel,
    run: RunnerModel,
    reason: super::pipeline::HaltModel,
    commit: Seq<char>,
)
    ensures
        m.at == PhaseStep::Pipeline ==> {
            let halted = PhaseEventModel::PipelineEnded(OutcomeModel::Halted(reason));
            let (n, now) = phase_next(config, id, m, run, halted);
            n.at == PhaseStep::Halted && n.result == Some(
                PhaseResultModel::Halted { phase_id: id, reason },
            ) && now == run
        },
        m.at == PhaseStep::Pipeline ==> {
            let some = PhaseEventModel::PipelineEnded(OutcomeModel::Staged { has_changes: true });
            let (n, now) = phase_next(config, id, m, run, some);
            n.at == PhaseStep::Commit && n.staged == Some(true) && now == run
        },
        m.at == PhaseStep::Pipeline ==> {
            let none = PhaseEventModel::PipelineEnded(OutcomeModel::Staged { has_changes: false });
            let (n, now) = phase_next(config, id, m, run, none);
            n.at == PhaseStep::WriteDeferred && (n.result matches Some(
                PhaseResultModel::Advanced { phase_id, next_phase, commit: made },
            ) && phase_id == id && made is None) && now == super::phase_finished(config, run, id)
        },
        m.at == PhaseStep::Commit ==> {
            let (n, now) = phase_next(config, id, m, run, PhaseEventModel::Committed(commit));
            n.at == PhaseStep::WriteDeferred && (n.result matches Some(
                PhaseResultModel::Advanced { phase_id, next_phase, commit: made },
            ) && phase_id == id && made == Some(commit)) && now == super::phase_finished(
                config,
                run,
                id,
            )
        },
        m.at == PhaseStep::WriteDeferred ==> {
            let (n, now) = phase_next(config, id, m, run, PhaseEventModel::DeferredWritten);
            let follows = m.result matches Some(PhaseResultModel::Advanced { next_phase, .. })
                && next_phase is Some;
            &&& follows ==> n.at == PhaseStep::WritePlan
            &&& !follows ==> n.at == PhaseStep::SaveState
            &&& n.result == m.result && now == run
        },
        m.at == PhaseStep::WritePlan ==> phase_next(config, id, m, run, PhaseEventModel::PlanWritten)
            == (PhaseRunModel { at: PhaseStep::SaveState, ..m }, run),
        m.at == PhaseStep::SaveState ==> phase_next(config, id, m, run, PhaseEventModel::StateSaved)
            == (PhaseRunModel { at: PhaseStep::Advanced, ..m }, run),
{
}

/// Subscribers are told of a phase's commit once its state is saved, with the
/// commit that was made, and of nothing else.
pub proof fn commits_are_told_once_saved(
    id: Seq<char>,
    m: PhaseRunModel,
    e: PhaseEventModel,
    next_phase: Option<Seq<char>>,
    commit: Option<Seq<char>>,
)
    ensures
        m.at == PhaseStep::SaveState && e is StateSaved && m.result == Some(
            PhaseResultModel::Advanced { phase_id: id, next_phase, commit },
        ) ==> phase_tells(id, m, e) == Some(EventModel::PhaseCommitted { phase_id: id, commit }),
        m.at != PhaseStep::SaveState || !(e is StateSaved) ==> phase_tells(id, m, e) is None,
{
}

/// The phase that a run goes on to behind a completed one is the first of the plan
/// that comes after it, in its result and in its plan alike.
pub proof fn completed_phases_lead_to_the_next(
    config: Config,
    id: Seq<char>,
    run: RunnerModel,
    inputs: Seq<PhaseInput>,
)
    requires
        phase_after(config, id, run, inputs).0.at == PhaseStep::Advanced,
    ensures
        ({
            let (m, now) = phase_after(config, id, run, inputs);
            let phases = run.plan.phases;
            match m.result {
                Some(PhaseResultModel::Advanced { next_phase: Some(next), .. }) => {
                    &&& now.plan.current_phase == next
                    &&& exists|k: int|
                        0 <= k < phases.len() && (#[trigger] phases[k]).id == next
                            && crate::plan::id::id_before(id, next) && forall|j: int|
                            0 <= j < k ==> !crate::plan::id::id_before(
                                id,
                                (#[trigger] phases[j]).id,
                            )
                },
                Some(PhaseResultModel::Advanced { next_phase: None, .. }) => {
                    &&& now.plan == run.plan && now.state.post_final_phase
                    &&& forall|j: int|
                        0 <= j < phases.len() ==> !crate::plan::id::id_before(
                            id,
                            (#[trigger] phases[j]).id,
                        )
                },
                _ => false,
            }
        }),
{
    phase_invariant(config, id, run, inputs);
    super::no_phase_is_skipped(run.plan.phases, id);
}

/// The model of an optional result.
pub open spec fn result_view(r: Option<PhaseResult>) -> Option<PhaseResultModel> {
    match r {
        Some(result) => Some(result@),
        None => None,
    }
}

/// The model of an optional event.
pub open spec fn event_view(e: Option<Event>) -> Option<EventModel> {
    match e {
        Some(event) => Some(event@),
        None => None,
    }
}

/// The run of one phase.
#[derive(Debug, PartialEq, Eq)]
pub struct PhaseRun {
    phase: Phase,
    at: PhaseStep,
    staged: Option<bool>,
    result: Option<PhaseResult>,
}

impl View for PhaseRun {
    type V = PhaseRunModel;

    closed spec fn view(&self) -> PhaseRunModel {
        PhaseRunModel { at: self.at, staged: self.staged, result: result_view(self.result) }
    }
}

impl PhaseRun {
    /// The phase that runs.
    pub closed spec fn the_phase(self) -> PhaseModel {
        self.phase@
    }

    /// The run of `phase`, whose dispatch counter stands at `attempt`, and what
    /// to tell subscribers.
    pub fn new(phase: Phase, attempt: u32) -> (r: (Self, Event))
        ensures
            r.0.the_phase() == phase@,
            r.0@ == phase_begun(),
            r.1@ == (EventModel::PhaseStarted {
                phase_id: phase@.id,
                title: phase@.title,
                attempt,
            }),
    {
        let told = Event::PhaseStarted {
            phase_id: phase.id.clone(),
            title: phase.title.clone(),
            attempt,
        };
        (PhaseRun { phase, at: PhaseStep::Pipeline, staged: None, result: None }, told)
    }

    /// The phase that runs.
    pub fn phase(&self) -> (r: &Phase)
        ensures
            r@ == self.the_phase(),
    {
        &self.phase
    }

    /// What is due.
    pub fn step(&self) -> (r: PhaseStep)
        ensures
            r == self@.at,
    {
        self.at
    }

    /// The message of the commit that is due, if one is.
    pub fn commit_message(&self) -> (r: Option<String>)
        ensures
            text::view_of(r) == if self@.at == PhaseStep::Commit {
                Some(git::commit_text(self.the_phase().id, self.the_phase().title))
            } else {
                None
            },
    {
        if self.at == PhaseStep::Commit {
            Some(git::commit_message(&self.phase.id, self.phase.title.as_str()))
        } else {
            None
        }
    }

    fn land(self, runner: &mut Runner, has_changes: bool, commit: Option<String>) -> (r: Self)
        ensures
            r.the_phase() == self.the_phase(),
            final(runner).same_setup(*old(runner)),
            (r@, final(runner)@) == phase_landed(
                old(runner).the_config(),
                self.the_phase().id,
                has_changes,
                old(runner)@,
                text::view_of(commit),
            ),
    {
        let mut m = self;
        m.result = Some(runner.finish_phase(&m.phase.id, commit));
        m.staged = Some(has_changes);
        m.at = PhaseStep::WriteDeferred;
        m
    }

    /// Takes in what came of the step that was due, and gives what to tell
    /// subscribers.
    pub fn advance(self, runner: &mut Runner, event: PhaseEvent) -> (r: (Self, Option<Event>))
        ensures
            r.0.the_phase() == self.the_phase(),
            final(runner).same_setup(*old(runner)),
            (r.0@, final(runner)@) == phase_next(
                old(runner).the_config(),
                self.the_phase().id,
                self@,
                old(runner)@,
                event@,
            ),
            event_view(r.1) == phase_tells(self.the_phase().id, self@, event@),
    {
        let mut m = self;
        match (m.at, event) {
            (PhaseStep::Pipeline, PhaseEvent::PipelineEnded(outcome)) => match outcome {
                PipelineOutcome::Halted(reason) => {
                    m.result =
                    Some(PhaseResult::Halted { phase_id: m.phase.id.clone(), reason });
                    m.at = PhaseStep::Halted;
                },
                PipelineOutcome::Staged { has_changes } => {
                    if has_changes {
                        m.at = PhaseStep::Commit;
                        m.staged = Some(true);
                    } else {
                        m = m.land(runner, false, None);
                    }
                },
            },
            (PhaseStep::Commit, PhaseEvent::Committed(id)) => {
                m = m.land(runner, true, Some(id));
            },
            (PhaseStep::WriteDeferred, PhaseEvent::DeferredWritten) => {
                let follows = match &m.result {
                    Some(PhaseResult::Advanced { next_phase, .. }) => next_phase.is_some(),
                    _ => false,
                };
                m.at = if follows {
                    PhaseStep::WritePlan
                } else {
                    PhaseStep::SaveState
                };
            },
            (PhaseStep::WritePlan, PhaseEvent::PlanWritten) => {
                m.at = PhaseStep::SaveState;
            },
            (PhaseStep::SaveState, PhaseEvent::StateSaved) => {
                m.at = PhaseStep::Advanced;
                if let Some(PhaseResult::Advanced { commit, .. }) = &m.result {
                    let told = Event::PhaseCommitted {
                        phase_id: m.phase.id.clone(),
                        commit: text::copy_option(commit),
                    };
                    return (m, Some(told));
                }
            },
            _ => {},
        }
        (m, None)
    }

    /// What the phase came to, once nothing is left to do.
    pub fn finish(self) -> (r: Option<PhaseResult>)
        ensures
            result_view(r) == if self@.at == PhaseStep::Advanced || self@.at == PhaseStep::Halted {
                self@.result
            } else {
                None
            },
    {
        match self.at {
            PhaseStep::Advanced => self.result,
            PhaseStep::Halted => self.result,
            _ => None,
        }
    }
}

} // verus!
