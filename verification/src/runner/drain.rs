//! The end of a run.
//!
//! Once no phase is left, the backlog is drained by a bounded number of sweeps
//! where the settings ask for that, and the run finishes. Running the sweeps and
//! saving the run state is the caller's: [`FinalDrain`] says what is due and
//! takes in what came of it.

use vstd::prelude::*;

use super::pipeline;
use super::pipeline::{HaltModel, HaltReason};
use super::sweep;
use super::{FinishMove, PhaseResult, PhaseResultModel, RunSummary, Runner, RunnerModel};
use crate::config::Config;
use crate::plan::PhaseId;
use crate::state::PlayModel;

verus! {

/// What the end of a run waits for.
#[derive(Debug, Clone, Copy, PartialEq, Eq, Structural)]
pub enum DrainStep {
    /// Saving the run state, which owes a sweep.
    SaveOwed,
    /// A sweep.
    Sweep,
    /// Saving the run state after a sweep halted.
    SaveHalt,
    /// Saving the run state, which owes no sweep any more.
    SaveEnd,
    /// Nothing is left to do: the run is finished.
    Done,
    /// Nothing is left to do: a sweep halted.
    Halted,
}

/// What came of a step of the end of a run.
#[derive(Debug, PartialEq, Eq)]
pub enum DrainEvent {
    /// The run state was saved.
    Saved,
    /// A sweep came to the carried result.
    Swept(PhaseResult),
}

/// A [`DrainEvent`] as a mathematical value.
pub enum DrainEventModel {
    Saved,
    Swept(PhaseResultModel),
}

impl View for DrainEvent {
    type V = DrainEventModel;

    open spec fn view(&self) -> DrainEventModel {
        match self {
            DrainEvent::Saved => DrainEventModel::Saved,
            DrainEvent::Swept(result) => DrainEventModel::Swept(result@),
        }
    }
}

/// Where the end of a run stands.
pub struct DrainModel {
    /// What it waits for.
    pub at: DrainStep,
    /// The sweeps that may still be dispatched.
    pub left: nat,
    /// The unchecked items before the current sweep.
    pub pending: nat,
    /// Why it halted.
    pub halt: Option<HaltModel>,
}

/// The most sweeps of a drain: at least one.
pub open spec fn drain_limit(config: Config) -> nat {
    if config.sweep.final_sweep_max_iterations == 0 {
        1
    } else {
        config.sweep.final_sweep_max_iterations as nat
    }
}

/// The run finishes: an obligation to sweep is dropped, and the run state saved
/// if there was one.
pub open spec fn drain_closed(m: DrainModel, run: RunnerModel) -> (DrainModel, RunnerModel) {
    (
        DrainModel {
            at: if run.state.pending_sweep {
                DrainStep::SaveEnd
            } else {
                DrainStep::Done
            },
            ..m
        },
        RunnerModel { state: PlayModel { pending_sweep: false, ..run.state }, ..run },
    )
}

/// The top of an iteration: another sweep is owed, unless none is left or the
/// backlog is empty.
pub open spec fn drain_looked(m: DrainModel, run: RunnerModel) -> (DrainModel, RunnerModel) {
    if m.left == 0 || sweep::unchecked(run.deferred) == 0 {
        drain_closed(m, run)
    } else {
        (
            DrainModel {
                at: DrainStep::SaveOwed,
                left: (m.left - 1) as nat,
                pending: sweep::unchecked(run.deferred),
                ..m
            },
            RunnerModel { state: PlayModel { pending_sweep: true, ..run.state }, ..run },
        )
    }
}

/// The end of a run that has no phase left.
pub open spec fn drain_begun(config: Config, run: RunnerModel) -> (DrainModel, RunnerModel) {
    let m = DrainModel { at: DrainStep::Done, left: drain_limit(config), pending: 0, halt: None };
    if super::drains(config, run) {
        drain_looked(
            m,
            RunnerModel { state: PlayModel { consecutive_sweeps: 0, ..run.state }, ..run },
        )
    } else {
        drain_closed(m, run)
    }
}

/// The end of a run and its runner after the event `e`. An event that is not due
/// changes nothing.
pub open spec fn drain_next(m: DrainModel, run: RunnerModel, e: DrainEventModel) -> (
    DrainModel,
    RunnerModel,
) {
    match (m.at, e) {
        (DrainStep::SaveOwed, DrainEventModel::Saved) => (
            DrainModel { at: DrainStep::Sweep, ..m },
            run,
        ),
        (DrainStep::Sweep, DrainEventModel::Swept(PhaseResultModel::Halted { reason, .. })) => (
            DrainModel { at: DrainStep::SaveHalt, halt: Some(reason), ..m },
            run,
        ),
        (DrainStep::Sweep, DrainEventModel::Swept(PhaseResultModel::Advanced { .. })) => {
            if sweep::unchecked(run.deferred) >= m.pending {
                drain_closed(m, run)
            } else {
                drain_looked(m, run)
            }
        },
        (DrainStep::SaveHalt, DrainEventModel::Saved) => (
            DrainModel { at: DrainStep::Halted, ..m },
            run,
        ),
        (DrainStep::SaveEnd, DrainEventModel::Saved) => (
            DrainModel { at: DrainStep::Done, ..m },
            run,
        ),
        _ => (m, run),
    }
}

/// What happens at the end of a run.
pub enum DrainInput {
    /// The sweep that is due leaves the runner as the carried one.
    Ran(RunnerModel),
    /// A step came to something.
    Event(DrainEventModel),
}

/// The end of a run, whose runner is `run` at the start, after `inputs`.
pub open spec fn drain_after(config: Config, run: RunnerModel, inputs: Seq<DrainInput>) -> (
    DrainModel,
    RunnerModel,
)
    decreases inputs.len(),
{
    if inputs.len() == 0 {
        drain_begun(config, run)
    } else {
        let (m, now) = drain_after(config, run, inputs.drop_last());
        match inputs.last() {
            DrainInput::Ran(next) => if m.at == DrainStep::Sweep {
                (m, next)
            } else {
                (m, now)
            },
            DrainInput::Event(e) => drain_next(m, now, e),
        }
    }
}

/// How many sweeps were begun.
pub open spec fn sweeps_begun(config: Config, run: RunnerModel, inputs: Seq<DrainInput>) -> nat
    decreases inputs.len(),
{
    if inputs.len() == 0 {
        0
    } else {
        let front = inputs.drop_last();
        sweeps_begun(config, run, front) + if drain_after(config, run, front).0.at
            != DrainStep::Sweep && drain_after(config, run, inputs).0.at == DrainStep::Sweep {
            1nat
        } else {
            0nat
        }
    }
}

/// The final drain dispatches at most the configured number of sweeps, and one
/// if that is zero, whatever the sweeps come to. Where the run is not drained it
/// dispatches none.
pub proof fn drain_is_bounded(config: Config, run: RunnerModel, inputs: Seq<DrainInput>)
    ensures
        sweeps_begun(config, run, inputs) <= drain_limit(config),
        !super::drains(config, run) ==> sweeps_begun(config, run, inputs) == 0,
{
    drain_counts_down(config, run, inputs);
}

proof fn drain_counts_down(config: Config, run: RunnerModel, inputs: Seq<DrainInput>)
    ensures
        ({
            let m = drain_after(config, run, inputs).0;
            let n = sweeps_begun(config, run, inputs);
            &&& n + m.left + if m.at == DrainStep::SaveOwed {
                1int
            } else {
                0int
            } == drain_limit(config)
            &&& !super::drains(config, run) ==> n == 0 && (m.at == DrainStep::SaveEnd || m.at
                == DrainStep::Done)
        }),
    decreases inputs.len(),
{
    if inputs.len() > 0 {
        drain_counts_down(config, run, inputs.drop_last());
    }
}

/// A run that finished owes no sweep. One that halted has a reason, and is left
/// as the sweep that halted left it.
pub proof fn a_finished_run_owes_no_sweep(
    config: Config,
    run: RunnerModel,
    inputs: Seq<DrainInput>,
)
    ensures
        ({
            let (m, now) = drain_after(config, run, inputs);
            &&& m.at == DrainStep::Done ==> !now.state.pending_sweep && m.halt is None
            &&& m.at == DrainStep::Halted ==> m.halt is Some
        }),
{
    drain_invariant(config, run, inputs);
}

proof fn drain_invariant(config: Config, run: RunnerModel, inputs: Seq<DrainInput>)
    ensures
        ({
            let (m, now) = drain_after(config, run, inputs);
            &&& m.at == DrainStep::Done || m.at == DrainStep::SaveEnd ==> !now.state.pending_sweep
            &&& m.at == DrainStep::SaveOwed ==> now.state.pending_sweep
            &&& m.halt is Some <==> m.at == DrainStep::SaveHalt || m.at == DrainStep::Halted
        }),
    decreases inputs.len(),
{
    if inputs.len() > 0 {
        drain_invariant(config, run, inputs.drop_last());
    }
}

/// A sweep that resolves nothing ends the drain: the loop never runs again over
/// a backlog that does not shrink.
pub proof fn drain_stops_without_progress(m: DrainModel, run: RunnerModel, result: PhaseResultModel)
    requires
        m.at == DrainStep::Sweep,
        result is Advanced,
        sweep::unchecked(run.deferred) >= m.pending,
    ensures
        ({
            let at = drain_next(m, run, DrainEventModel::Swept(result)).0.at;
            at == DrainStep::Done || at == DrainStep::SaveEnd
        }),
{
}

/// A sweep that halts stops the drain and stays owed: the runner is not touched.
pub proof fn a_halted_drain_changes_nothing(
    m: DrainModel,
    run: RunnerModel,
    result: PhaseResultModel,
)
    requires
        m.at == DrainStep::Sweep,
        result is Halted,
    ensures
        ({
            let (n, now) = drain_next(m, run, DrainEventModel::Swept(result));
            &&& n.at == DrainStep::SaveHalt
            &&& now == run
            &&& drain_next(n, now, DrainEventModel::Saved).0.at == DrainStep::Halted
            &&& drain_next(n, now, DrainEventModel::Saved).1 == run
        }),
{
}

/// How a run ends. It is drained where sweeps and the final drain are on, none is
/// suppressed, and an item is not done: then the count of sweeps in a row starts
/// anew, a sweep is owed, and as many may run as the settings say, and one where
/// they say none. Else it is finished at once, and an obligation to sweep is
/// dropped, which is saved where there was one.
pub proof fn a_backlog_is_drained_first(config: Config, run: RunnerModel)
    ensures
        ({
            let (m, now) = drain_begun(config, run);
            let open = run.deferred.items.filter(|i: crate::deferred::ItemModel| !i.done).len();
            let drains = open > 0 && config.sweep.enabled && config.sweep.final_sweep_enabled
                && run.sweep_override != super::SweepOverride::Skip;
            let most = config.sweep.final_sweep_max_iterations;
            &&& drains ==> m.at == DrainStep::SaveOwed && m.pending == open
                && now.state.pending_sweep && now.state.consecutive_sweeps == 0
            &&& drains && most > 0 ==> m.left + 1 == most
            &&& drains && most == 0 ==> m.left == 0
            &&& !drains ==> !now.state.pending_sweep && now.state.consecutive_sweeps
                == run.state.consecutive_sweeps
            &&& !drains && run.state.pending_sweep ==> m.at == DrainStep::SaveEnd
            &&& !drains && !run.state.pending_sweep ==> m.at == DrainStep::Done && now == run
            &&& m.halt is None && now.plan == run.plan && now.deferred == run.deferred
                && now.state.completed == run.state.completed
        }),
{
    crate::deferred::unchecked_means_not_done(run.deferred.items);
}

/// How a drain goes on behind a sweep that landed. With fewer items left than
/// before it, some left, and a sweep left, another sweep is owed, which counts
/// against what is left and is held to the items that there are now. In any other
/// case the run finishes and owes no sweep.
pub proof fn progress_keeps_the_drain_going(
    m: DrainModel,
    run: RunnerModel,
    result: PhaseResultModel,
)
    requires
        m.at == DrainStep::Sweep,
        result is Advanced,
    ensures
        ({
            let (n, now) = drain_next(m, run, DrainEventModel::Swept(result));
            let open = run.deferred.items.filter(|i: crate::deferred::ItemModel| !i.done).len();
            let on = 0 < open < m.pending && m.left > 0;
            &&& on ==> n.at == DrainStep::SaveOwed && n.pending == open && n.left + 1 == m.left
                && now.state.pending_sweep
            &&& !on ==> !now.state.pending_sweep && n.left == m.left
            &&& !on && run.state.pending_sweep ==> n.at == DrainStep::SaveEnd
            &&& !on && !run.state.pending_sweep ==> n.at == DrainStep::Done
            &&& n.halt == m.halt && now.plan == run.plan && now.deferred == run.deferred
        }),
{
    crate::deferred::unchecked_means_not_done(run.deferred.items);
}

/// What is owed is saved before it is done, and a halt is saved with its reason.
pub proof fn drains_save_before_they_go_on(
    m: DrainModel,
    run: RunnerModel,
    result: PhaseResultModel,
)
    ensures
        m.at == DrainStep::SaveOwed ==> drain_next(m, run, DrainEventModel::Saved) == (
            DrainModel { at: DrainStep::Sweep, ..m },
            run,
        ),
        m.at == DrainStep::SaveEnd ==> drain_next(m, run, DrainEventModel::Saved).0.at
            == DrainStep::Done,
        m.at == DrainStep::Sweep ==> (result matches PhaseResultModel::Halted { reason, .. }
            ==> drain_next(m, run, DrainEventModel::Swept(result)).0.halt == Some(reason)),
        m.at == DrainStep::Done || m.at == DrainStep::Halted ==> drain_next(
            m,
            run,
            DrainEventModel::Saved,
        ) == (m, run) && drain_next(m, run, DrainEventModel::Swept(result)) == (m, run),
{
}

/// The end of a run: the bounded final-sweep drain, if it is due, then the
/// finish. Runs after the final regular phase commits (or when a previous run
/// halted inside the drain) and dispatches at most the configured number of
/// sweeps in a row. Each iteration must resolve at least one item or the drain
/// ends; items the agent genuinely can't fix fall through to the staleness
/// machinery.
#[derive(Debug, PartialEq, Eq)]
pub struct FinalDrain {
    after: PhaseId,
    at: DrainStep,
    left: u32,
    pending: usize,
    halt: Option<HaltReason>,
}

impl View for FinalDrain {
    type V = DrainModel;

    closed spec fn view(&self) -> DrainModel {
        DrainModel {
            at: self.at,
            left: self.left as nat,
            pending: self.pending as nat,
            halt: pipeline::halt_view(self.halt),
        }
    }
}

impl FinalDrain {
    /// The phase that the sweeps are accounted under.
    pub closed spec fn anchor(self) -> Seq<char> {
        self.after@
    }

    /// The end of the run of `runner`, which has no phase left.
    pub fn new(runner: &mut Runner) -> (r: Self)
        ensures
            final(runner).same_setup(*old(runner)),
            r.anchor() == super::drain_anchor(old(runner)@),
            (r@, final(runner)@) == drain_begun(old(runner).the_config(), old(runner)@),
    {
        let limit: u32 = runner.config().sweep.final_sweep_max_iterations;
        let m = FinalDrain {
            after: runner.drain_anchor_id(),
            at: DrainStep::Done,
            left: if limit == 0 {
                1
            } else {
                limit
            },
            pending: 0,
            halt: None,
        };
        match runner.finish_or_drain() {
            FinishMove::Drain { .. } => m.look(runner),
            FinishMove::Finished { persist } => {
                let mut m = m;
                m.at = if persist {
                    DrainStep::SaveEnd
                } else {
                    DrainStep::Done
                };
                m
            },
        }
    }

    /// The phase that the sweeps are accounted under.
    pub fn after(&self) -> (r: &PhaseId)
        ensures
            r@ == self.anchor(),
    {
        &self.after
    }

    /// What is due.
    pub fn step(&self) -> (r: DrainStep)
        ensures
            r == self@.at,
    {
        self.at
    }

    fn close(self, runner: &mut Runner) -> (r: Self)
        ensures
            r.anchor() == self.anchor(),
            final(runner).same_setup(*old(runner)),
            (r@, final(runner)@) == drain_closed(self@, old(runner)@),
    {
        let mut m = self;
        m.at = if runner.clear_pending_sweep() {
            DrainStep::SaveEnd
        } else {
            DrainStep::Done
        };
        m
    }

    fn look(self, runner: &mut Runner) -> (r: Self)
        ensures
            r.anchor() == self.anchor(),
            final(runner).same_setup(*old(runner)),
            (r@, final(runner)@) == drain_looked(self@, old(runner)@),
    {
        let n: usize = sweep::unchecked_count(runner.deferred());
        if self.left == 0 || n == 0 {
            return self.close(runner);
        }
        let mut m = self;
        runner.owe_sweep();
        m.at = DrainStep::SaveOwed;
        m.left = m.left - 1;
        m.pending = n;
        m
    }

    /// Takes in what came of the step that was due.
    pub fn advance(self, runner: &mut Runner, event: DrainEvent) -> (r: Self)
        ensures
            r.anchor() == self.anchor(),
            final(runner).same_setup(*old(runner)),
            (r@, final(runner)@) == drain_next(self@, old(runner)@, event@),
    {
        let mut m = self;
        match (m.at, event) {
            (DrainStep::SaveOwed, DrainEvent::Saved) => {
                m.at = DrainStep::Sweep;
                m
            },
            (DrainStep::Sweep, DrainEvent::Swept(result)) => match result {
                PhaseResult::Halted { reason, .. } => {
                    m.at = DrainStep::SaveHalt;
                    m.halt = Some(reason);
                    m
                },
                PhaseResult::Advanced { .. } => {
                    if sweep::unchecked_count(runner.deferred()) >= m.pending {
                        m.close(runner)
                    } else {
                        m.look(runner)
                    }
                },
            },
            (DrainStep::SaveHalt, DrainEvent::Saved) => {
                m.at = DrainStep::Halted;
                m
            },
            (DrainStep::SaveEnd, DrainEvent::Saved) => {
                m.at = DrainStep::Done;
                m
            },
            _ => m,
        }
    }

    /// What the run came to, once nothing is left to do.
    pub fn finish(self) -> (r: Option<RunSummary>)
        ensures
            match self@.at {
                DrainStep::Done => r == Some(RunSummary::Finished),
                DrainStep::Halted => match self@.halt {
                    Some(why) => r matches Some(RunSummary::Halted { phase_id, reason })
                        && phase_id@ == self.anchor() && reason@ == why,
                    None => r is None,
                },
                _ => r is None,
            },
    {
        match self.at {
            DrainStep::Done => Some(RunSummary::Finished),
            DrainStep::Halted => match self.halt {
                Some(reason) => Some(RunSummary::Halted { phase_id: self.after, reason }),
                None => None,
            },
            _ => None,
        }
    }
}

} // verus!
