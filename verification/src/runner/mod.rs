//! Orchestration of a plan.
//!
//! The runner owns the per-phase state machine. It snapshots the planning
//! artifacts, has the implementer agent dispatched, validates the agent's
//! output, has the project tests run, and lands a per-phase commit. Every
//! observable transition is an [`events::Event`] that the CLI logger and the
//! TUI can subscribe to without changing the runner.
//!
//! When the project tests fail, the fixer agent is dispatched a bounded number
//! of times, tests re-running after each attempt, before halting. The auditor
//! pass sits between the (passing) test run and the commit: the implementer's
//! diff is staged and handed to the auditor agent, the planning artifacts are
//! validated again, and the tests re-run before the commit may land.
//!
//! Dispatching, running tests, git and files are the caller's. [`Runner`] holds
//! the plan, the backlog and the run state and decides; [`phase_run::PhaseRun`]
//! orders the steps of a phase, [`sweep_run::SweepRun`] those of a sweep,
//! [`pipeline::Pipeline`] those that the two share, [`validation::Validation`]
//! those of one dispatch, and [`drain::FinalDrain`] those of the end of the run,
//! after the final phase.

pub mod drain;
pub mod events;
pub mod phase_run;
pub mod pipeline;
pub mod sweep;
pub mod sweep_run;
pub mod validation;

use vstd::prelude::*;
use vstd::string::StringExecFns;

use crate::agent;
use crate::agent::{AgentRequest, Role, StopModel, StopReason};
use crate::config::Config;
use crate::deferred;
use crate::deferred::{DeferredDoc, DeferredModel};
use crate::git;
use crate::grind::budget;
use crate::money;
use crate::money::Usd;
use crate::paths;
use crate::plan::id;
use crate::plan;
use crate::plan::{Phase, PhaseId, PhaseModel, Plan, PlanModel};
use crate::prompts;
use crate::prompts::caveman;
use crate::prompts::render;
use crate::prompts::templates;
use crate::prompts::StaleItem;
use crate::state;
use crate::state::{PlayModel, RoleUsage, RunState, TokenUsage, UsageModel};
use crate::table::Table;
use crate::text;
use crate::time::Timestamp;
use events::{Event, EventModel};
use pipeline::{HaltModel, HaltReason};
use validation::{Validation, ValidationEvent, ValidationEventModel, ValidationResult};

verus! {

/// Default agent wall-clock cap in seconds. Conservative so a stuck agent does
/// not strand a run for an unbounded time.
pub const DEFAULT_AGENT_TIMEOUT: u64 = 3600;

// ---------------------------------------------------------------------------
// Budgets
// ---------------------------------------------------------------------------

/// What the tokens of a role cost; nothing where the role has none or its model
/// has no price.
pub open spec fn role_cost(
    pricing: Map<Seq<char>, budget::ModelPricing>,
    usage: UsageModel,
    role: Seq<char>,
    model: Seq<char>,
) -> Usd {
    if usage.by_role.contains_key(role) && pricing.contains_key(model) {
        Usd {
            pico: budget::dispatch_cost(
                pricing[model],
                usage.by_role[role].input,
                usage.by_role[role].output,
            ) as i128,
        }
    } else {
        Usd { pico: 0 }
    }
}

/// What the tokens of a run cost, role by role.
pub open spec fn usage_cost(config: Config, usage: UsageModel) -> Usd {
    let pricing = config.budgets.pricing@;
    let planner = role_cost(pricing, usage, "planner"@, config.models.planner@);
    let implementer = role_cost(pricing, usage, "implementer"@, config.models.implementer@);
    let auditor = role_cost(pricing, usage, "auditor"@, config.models.auditor@);
    let fixer = role_cost(pricing, usage, "fixer"@, config.models.fixer@);
    money::usd_sum(money::usd_sum(money::usd_sum(planner, implementer), auditor), fixer)
}

fn cost_of_role(config: &Config, usage: &TokenUsage, role: &str, model: &str) -> (r: Usd)
    ensures
        r == role_cost(config.budgets.pricing@, usage@, role@, model@),
{
    match usage.by_role.get(role) {
        Some(u) => {
            match config.budgets.pricing.get(model) {
                Some(p) => p.cost_usd(u.input, u.output),
                None => Usd::zero(),
            }
        },
        None => Usd::zero(),
    }
}

/// The total tokens and the total cost of `usage`.
///
/// The tokens are the simple `input + output` sum from the top-level counter —
/// that's the figure compared against the token cap.
///
/// The cost walks each role, looks up the per-role tokens, and prices them
/// against the price table keyed by the role's configured model id. Roles whose
/// model is missing from the pricing table contribute zero — the token-count
/// budget still applies. Agent-supplied role keys that don't match a configured
/// role are ignored here, since we have no model assignment to price them
/// under.
pub fn budget_totals(config: &Config, usage: &TokenUsage) -> (r: (u64, Usd))
    ensures
        r.0 == state::capped(usage.input, usage.output),
        r.1 == usage_cost(*config, usage@),
{
    let tokens: u64 = usage.input.saturating_add(usage.output);
    let planner = cost_of_role(config, usage, "planner", config.models.planner.as_str());
    let implementer = cost_of_role(
        config,
        usage,
        "implementer",
        config.models.implementer.as_str(),
    );
    let auditor = cost_of_role(config, usage, "auditor", config.models.auditor.as_str());
    let fixer = cost_of_role(config, usage, "fixer", config.models.fixer.as_str());
    (tokens, planner.plus(implementer).plus(auditor).plus(fixer))
}

/// The halt that the tokens and the cost of a run call for.
pub open spec fn budget_halt(config: Config, usage: UsageModel) -> Option<HaltModel> {
    let tokens = state::capped(usage.input, usage.output);
    let cost = usage_cost(config, usage);
    if config.budgets.max_total_tokens matches Some(cap) && tokens >= cap {
        Some(
            HaltModel::BudgetExceeded(
                "token budget exceeded: "@ + text::decimal(tokens as nat) + " >= cap "@
                    + text::decimal(config.budgets.max_total_tokens->0 as nat),
            ),
        )
    } else if config.budgets.max_total_usd matches Some(cap) && cost.pico >= cap.pico {
        Some(
            HaltModel::BudgetExceeded(
                "USD budget exceeded: $"@ + money::dollars_text(cost.pico as int) + " >= cap $"@
                    + money::dollars_text(config.budgets.max_total_usd->0.pico as int),
            ),
        )
    } else {
        None
    }
}

/// Compare the tokens and the cost of a run against the configured budgets.
/// Returns [`HaltReason::BudgetExceeded`] when either cap has been met or
/// surpassed, otherwise `None`. Called before every agent dispatch so a fresh
/// run never exceeds its budget by more than one dispatch's worth of tokens.
pub fn check_usage(config: &Config, usage: &TokenUsage) -> (r: Option<HaltReason>)
    ensures
        pipeline::halt_view(r) == budget_halt(*config, usage@),
{
    let (tokens, cost) = budget_totals(config, usage);
    if let Some(cap) = config.budgets.max_total_tokens {
        if tokens >= cap {
            let mut out = text::owned("token budget exceeded: ");
            out.append(text::decimal_u64(tokens).as_str());
            out.append(" >= cap ");
            out.append(text::decimal_u64(cap).as_str());
            return Some(HaltReason::BudgetExceeded(out));
        }
    }
    if let Some(cap) = config.budgets.max_total_usd {
        if cost.pico >= cap.pico {
            let mut out = text::owned("USD budget exceeded: $");
            out.append(cost.to_dollars().as_str());
            out.append(" >= cap $");
            out.append(cap.to_dollars().as_str());
            return Some(HaltReason::BudgetExceeded(out));
        }
    }
    None
}

/// What a role's tokens cost, in pico-dollars: its input tokens at the input
/// price and its output tokens at the output price of the model that the settings
/// give the role, and nothing where the role used none or the model has no price.
pub open spec fn priced(
    pricing: Map<Seq<char>, budget::ModelPricing>,
    usage: UsageModel,
    role: Seq<char>,
    model: Seq<char>,
) -> int {
    if usage.by_role.contains_key(role) && pricing.contains_key(model) {
        usage.by_role[role].input * pricing[model].input_micros_per_million
            + usage.by_role[role].output * pricing[model].output_micros_per_million
    } else {
        0
    }
}

/// The cost of a run is the cost of its four roles added up, each at the price of
/// the model that it is configured to run with. It is exact while it fits its
/// type.
pub proof fn each_role_is_priced_by_its_model(config: Config, usage: UsageModel)
    requires
        ({
            let p = config.budgets.pricing@;
            priced(p, usage, "planner"@, config.models.planner@) + priced(
                p,
                usage,
                "implementer"@,
                config.models.implementer@,
            ) + priced(p, usage, "auditor"@, config.models.auditor@) + priced(
                p,
                usage,
                "fixer"@,
                config.models.fixer@,
            ) <= i128::MAX
        }),
    ensures
        ({
            let p = config.budgets.pricing@;
            usage_cost(config, usage).pico == priced(
                p,
                usage,
                "planner"@,
                config.models.planner@,
            ) + priced(p, usage, "implementer"@, config.models.implementer@) + priced(
                p,
                usage,
                "auditor"@,
                config.models.auditor@,
            ) + priced(p, usage, "fixer"@, config.models.fixer@)
        }),
{
    let p = config.budgets.pricing@;
    prices_are_not_negative(p, usage, "planner"@, config.models.planner@);
    prices_are_not_negative(p, usage, "implementer"@, config.models.implementer@);
    prices_are_not_negative(p, usage, "auditor"@, config.models.auditor@);
    prices_are_not_negative(p, usage, "fixer"@, config.models.fixer@);
}

proof fn prices_are_not_negative(
    pricing: Map<Seq<char>, budget::ModelPricing>,
    usage: UsageModel,
    role: Seq<char>,
    model: Seq<char>,
)
    ensures
        0 <= priced(pricing, usage, role, model),
        priced(pricing, usage, role, model) <= i128::MAX ==> role_cost(pricing, usage, role, model).pico
            == priced(pricing, usage, role, model),
{
    if usage.by_role.contains_key(role) && pricing.contains_key(model) {
        let (u, p) = (usage.by_role[role], pricing[model]);
        let (a, b) = (u.input as int, p.input_micros_per_million as int);
        let (c, d) = (u.output as int, p.output_micros_per_million as int);
        assert(0 <= a * b) by (nonlinear_arith)
            requires
                0 <= a,
                0 <= b,
        ;
        assert(0 <= c * d) by (nonlinear_arith)
            requires
                0 <= c,
                0 <= d,
        ;
    }
}

/// A run halts for its budget exactly where a cap is met: the token cap once the
/// input and output tokens together reach it, the money cap once the cost does. A
/// cap that is not set is never met, and where both are met the token cap is the
/// one that is reported.
pub proof fn caps_halt_once_they_are_met(config: Config, usage: UsageModel)
    ensures
        ({
            let tokens = config.budgets.max_total_tokens matches Some(cap) && usage.input
                + usage.output >= cap;
            let money = config.budgets.max_total_usd matches Some(cap) && usage_cost(
                config,
                usage,
            ).pico >= cap.pico;
            let halt = budget_halt(config, usage);
            &&& halt is Some <==> tokens || money
            &&& halt is Some ==> halt->0 is BudgetExceeded
            &&& tokens ==> halt->0->BudgetExceeded_0.take(5) == "token"@
            &&& !tokens && money ==> halt->0->BudgetExceeded_0.take(3) == "USD"@
        }),
{
    reveal_strlit("token");
    reveal_strlit("USD");
    reveal_strlit("token budget exceeded: ");
    reveal_strlit("USD budget exceeded: $");
    if let Some(halt) = budget_halt(config, usage) {
        let msg = halt->BudgetExceeded_0;
        if config.budgets.max_total_tokens matches Some(cap) && usage.input + usage.output >= cap {
            assert(msg.take(5) =~= "token"@);
        } else {
            assert(msg.take(3) =~= "USD"@);
        }
    }
}

// ---------------------------------------------------------------------------
// Judging a dispatch
// ---------------------------------------------------------------------------

/// The halt that the end of a dispatch calls for.
pub open spec fn stop_halt(stop: StopModel, agent: Seq<char>) -> Option<HaltModel> {
    match stop {
        StopModel::Completed => None,
        StopModel::Timeout => Some(
            HaltModel::AgentFailure(
                "agent "@ + text::debug_text(agent) + " timed out after "@ + text::decimal(
                    DEFAULT_AGENT_TIMEOUT as nat,
                ) + "s"@,
            ),
        ),
        StopModel::Cancelled => Some(
            HaltModel::AgentFailure("agent "@ + text::debug_text(agent) + " was cancelled"@),
        ),
        StopModel::Error(msg) => Some(HaltModel::AgentFailure(msg)),
    }
}

/// A dispatch can be built on exactly where it completed. Any other end is a
/// failure of the agent, and an error is passed on word for word.
pub proof fn only_completed_dispatches_are_built_on(
    stop: StopModel,
    agent: Seq<char>,
    other: Seq<char>,
)
    ensures
        stop_halt(stop, agent) is None <==> stop is Completed,
        stop_halt(stop, agent) is Some ==> stop_halt(stop, agent)->0 is AgentFailure,
        stop matches StopModel::Error(msg) ==> stop_halt(stop, agent) == Some(
            HaltModel::AgentFailure(msg),
        ),
        stop is Error ==> stop_halt(stop, agent) == stop_halt(stop, other),
{
}

/// The halt that the end of a dispatch calls for; none where it completed.
pub fn judge_stop(stop: StopReason, agent: &str) -> (r: Option<HaltReason>)
    ensures
        pipeline::halt_view(r) == stop_halt(stop@, agent@),
{
    match stop {
        StopReason::Completed => None,
        StopReason::Timeout => {
            let mut out = text::owned("agent ");
            out.append(text::quoted(agent).as_str());
            out.append(" timed out after ");
            out.append(text::decimal_u64(DEFAULT_AGENT_TIMEOUT).as_str());
            out.append("s");
            Some(HaltReason::AgentFailure(out))
        },
        StopReason::Cancelled => {
            let mut out = text::owned("agent ");
            out.append(text::quoted(agent).as_str());
            out.append(" was cancelled");
            Some(HaltReason::AgentFailure(out))
        },
        StopReason::Error(msg) => Some(HaltReason::AgentFailure(msg)),
    }
}

// ---------------------------------------------------------------------------
// The plan
// ---------------------------------------------------------------------------

/// The first phase at or after the index `from` that has the id `id`.
pub open spec fn find_phase(phases: Seq<PhaseModel>, id: Seq<char>, from: int) -> Option<PhaseModel>
    decreases phases.len() - from,
{
    if from < 0 || from >= phases.len() {
        None
    } else if phases[from].id == id {
        Some(phases[from])
    } else {
        find_phase(phases, id, from + 1)
    }
}

/// The id of the first phase at or after the index `from` that comes after
/// `current`.
pub open spec fn next_after(phases: Seq<PhaseModel>, current: Seq<char>, from: int) -> Option<
    Seq<char>,
>
    decreases phases.len() - from,
{
    if from < 0 || from >= phases.len() {
        None
    } else if id::id_before(current, phases[from].id) {
        Some(phases[from].id)
    } else {
        next_after(phases, current, from + 1)
    }
}

/// The model of an optional id.
pub open spec fn id_option(id: Option<PhaseId>) -> Option<Seq<char>> {
    match id {
        Some(i) => Some(i@),
        None => None,
    }
}

fn next_phase_id_after(plan: &Plan, current: &PhaseId) -> (r: Option<PhaseId>)
    ensures
        id_option(r) == next_after(plan@.phases, current@, 0),
{
    let ghost phases = plan@.phases;
    let n: usize = plan.phases.len();
    let mut i: usize = 0;
    while i < n
        invariant
            phases == plan::phase_models(plan.phases@),
            n == phases.len(),
            i <= n,
            next_after(phases, current@, 0) == next_after(phases, current@, i as int),
        decreases n - i,
    {
        assert(phases[i as int].id == plan.phases@[i as int].id@);
        if current.before(&plan.phases[i].id) {
            return Some(plan.phases[i].id.clone());
        }
        i = i + 1;
    }
    None
}

fn find_phase_in<'a>(plan: &'a Plan, id: &PhaseId) -> (r: Option<&'a Phase>)
    ensures
        match r {
            Some(p) => find_phase(plan@.phases, id@, 0) == Some(p@),
            None => find_phase(plan@.phases, id@, 0) is None,
        },
{
    let ghost phases = plan@.phases;
    let n: usize = plan.phases.len();
    let mut i: usize = 0;
    while i < n
        invariant
            phases == plan::phase_models(plan.phases@),
            n == phases.len(),
            i <= n,
            find_phase(phases, id@, 0) == find_phase(phases, id@, i as int),
        decreases n - i,
    {
        assert(phases[i as int] == plan.phases@[i as int]@);
        if plan.phases[i].id.same(id) {
            return Some(&plan.phases[i]);
        }
        i = i + 1;
    }
    None
}

/// Advancing makes progress: the phase that follows comes after the current
/// one, so a run never visits a phase twice.
pub proof fn next_phase_comes_after(phases: Seq<PhaseModel>, current: Seq<char>, from: int)
    ensures
        next_after(phases, current, from) matches Some(next) ==> id::id_before(current, next)
            && next != current,
    decreases phases.len() - from,
{
    id::id_order_irreflexive(current);
    if 0 <= from < phases.len() && !id::id_before(current, phases[from].id) {
        next_phase_comes_after(phases, current, from + 1);
    }
}

/// No phase is skipped. The phase after `current` is a phase of the plan that
/// comes after `current`, and every phase that stands before it in the plan does
/// not. Where there is none, no phase of the plan comes after `current`.
pub proof fn no_phase_is_skipped(phases: Seq<PhaseModel>, current: Seq<char>)
    ensures
        next_after(phases, current, 0) matches Some(next) ==> exists|k: int|
            0 <= k < phases.len() && (#[trigger] phases[k]).id == next && id::id_before(
                current,
                next,
            ) && forall|j: int|
                0 <= j < k ==> !id::id_before(current, (#[trigger] phases[j]).id),
        next_after(phases, current, 0) is None ==> forall|j: int|
            0 <= j < phases.len() ==> !id::id_before(current, (#[trigger] phases[j]).id),
{
    first_after(phases, current, 0);
}

proof fn first_after(phases: Seq<PhaseModel>, current: Seq<char>, from: int)
    requires
        0 <= from <= phases.len(),
    ensures
        match next_after(phases, current, from) {
            Some(next) => exists|k: int|
                from <= k < phases.len() && (#[trigger] phases[k]).id == next && id::id_before(
                    current,
                    next,
                ) && forall|j: int|
                    from <= j < k ==> !id::id_before(current, (#[trigger] phases[j]).id),
            None => forall|j: int|
                from <= j < phases.len() ==> !id::id_before(current, (#[trigger] phases[j]).id),
        },
    decreases phases.len() - from,
{
    if from < phases.len() {
        if id::id_before(current, phases[from].id) {
            assert(phases[from].id == phases[from].id);
        } else {
            first_after(phases, current, from + 1);
        }
    }
}

/// In a plan whose ids ascend, the phase after `current` is the nearest one: no
/// id of the plan lies strictly between the two.
pub proof fn nothing_lies_between(phases: Seq<PhaseModel>, current: Seq<char>, j: int)
    requires
        forall|a: int, b: int|
            0 <= a < b < phases.len() ==> id::id_before(
                (#[trigger] phases[a]).id,
                (#[trigger] phases[b]).id,
            ),
        0 <= j < phases.len(),
    ensures
        next_after(phases, current, 0) matches Some(next) ==> !(id::id_before(
            current,
            phases[j].id,
        ) && id::id_before(phases[j].id, next)),
{
    no_phase_is_skipped(phases, current);
    if let Some(next) = next_after(phases, current, 0) {
        let k = choose|k: int|
            0 <= k < phases.len() && (#[trigger] phases[k]).id == next && id::id_before(
                current,
                next,
            ) && forall|j: int|
                0 <= j < k ==> !id::id_before(current, (#[trigger] phases[j]).id);
        if j >= k && id::id_before(phases[j].id, next) {
            id::id_order_irreflexive(next);
            if j > k {
                assert(id::id_before(phases[k].id, phases[j].id));
                id::id_order_transitive(phases[j].id, next, phases[j].id);
                id::id_order_irreflexive(phases[j].id);
            }
        }
    }
}

/// The phase that an id names is the first one with that very id; only where no
/// phase of the plan has it is there none.
pub proof fn phases_are_found_by_id(phases: Seq<PhaseModel>, id: Seq<char>, from: int)
    requires
        0 <= from <= phases.len(),
    ensures
        match find_phase(phases, id, from) {
            Some(p) => exists|k: int|
                from <= k < phases.len() && #[trigger] phases[k] == p && p.id == id && forall|j: int|
                    from <= j < k ==> (#[trigger] phases[j]).id != id,
            None => forall|j: int| from <= j < phases.len() ==> (#[trigger] phases[j]).id != id,
        },
    decreases phases.len() - from,
{
    if from < phases.len() {
        if phases[from].id == id {
            assert(phases[from] == phases[from]);
        } else {
            phases_are_found_by_id(phases, id, from + 1);
        }
    }
}

// ---------------------------------------------------------------------------
// Results
// ---------------------------------------------------------------------------

/// Outcome of a phase or a sweep.
#[derive(Debug, PartialEq, Eq)]
pub enum PhaseResult {
    /// Phase completed and the runner advanced. `commit` is `None` when the
    /// agent only modified excluded paths.
    Advanced {
        /// Phase that just completed.
        phase_id: PhaseId,
        /// Phase the runner advanced to, or `None` if no phases remain.
        next_phase: Option<PhaseId>,
        /// Resulting commit, or `None` for the excluded-only case.
        commit: Option<String>,
    },
    /// Runner halted; no phase advance.
    Halted {
        /// Phase that was active when the halt fired.
        phase_id: PhaseId,
        /// Why the halt fired.
        reason: HaltReason,
    },
}

/// A [`PhaseResult`] as a mathematical value.
pub enum PhaseResultModel {
    Advanced { phase_id: Seq<char>, next_phase: Option<Seq<char>>, commit: Option<Seq<char>> },
    Halted { phase_id: Seq<char>, reason: HaltModel },
}

impl View for PhaseResult {
    type V = PhaseResultModel;

    open spec fn view(&self) -> PhaseResultModel {
        match self {
            PhaseResult::Advanced { phase_id, next_phase, commit } => PhaseResultModel::Advanced {
                phase_id: phase_id@,
                next_phase: id_option(*next_phase),
                commit: text::view_of(*commit),
            },
            PhaseResult::Halted { phase_id, reason } => PhaseResultModel::Halted {
                phase_id: phase_id@,
                reason: reason@,
            },
        }
    }
}

/// Outcome of a whole run.
#[derive(Debug, PartialEq, Eq)]
pub enum RunSummary {
    /// All phases completed.
    Finished,
    /// The run halted at the carried phase for the carried reason.
    Halted {
        /// Phase that halted.
        phase_id: PhaseId,
        /// Why the halt fired.
        reason: HaltReason,
    },
}

impl RunSummary {
    /// What subscribers are told of the end of the run.
    pub fn told(&self) -> (r: Event)
        ensures
            r@ == match *self {
                RunSummary::Finished => EventModel::RunFinished,
                RunSummary::Halted { phase_id, reason } => EventModel::PhaseHalted {
                    phase_id: phase_id@,
                    reason: reason@,
                },
            },
    {
        match self {
            RunSummary::Finished => Event::RunFinished,
            RunSummary::Halted { phase_id, reason } => Event::PhaseHalted {
                phase_id: phase_id.clone(),
                reason: reason.copy(),
            },
        }
    }
}

/// What a run does after a phase.
#[derive(Debug, Clone, Copy, PartialEq, Eq, Structural)]
pub enum RunMove {
    /// Run the next phase.
    NextPhase,
    /// Finish, or drain the backlog first.
    Finish,
    /// Stop: the phase halted.
    Halt,
}

/// What a run does after a phase that came to `result`.
pub open spec fn move_after(result: PhaseResultModel) -> RunMove {
    match result {
        PhaseResultModel::Halted { .. } => RunMove::Halt,
        PhaseResultModel::Advanced { next_phase, .. } => if next_phase is Some {
            RunMove::NextPhase
        } else {
            RunMove::Finish
        },
    }
}

/// A run stops exactly where its phase halted, goes on exactly where a phase is
/// left, and finishes exactly where none is.
pub proof fn runs_go_on_while_phases_are_left(result: PhaseResultModel)
    ensures
        move_after(result) == RunMove::Halt <==> result is Halted,
        move_after(result) == RunMove::NextPhase <==> (result matches PhaseResultModel::Advanced {
            next_phase,
            ..
        } && next_phase is Some),
        move_after(result) == RunMove::Finish <==> (result matches PhaseResultModel::Advanced {
            next_phase,
            ..
        } && next_phase is None),
{
}

/// What a run does after a phase.
pub fn after_phase(result: &PhaseResult) -> (r: RunMove)
    ensures
        r == move_after(result@),
{
    match result {
        PhaseResult::Halted { .. } => RunMove::Halt,
        PhaseResult::Advanced { next_phase, .. } => {
            if next_phase.is_some() {
                RunMove::NextPhase
            } else {
                RunMove::Finish
            }
        },
    }
}

// ---------------------------------------------------------------------------
// The runner
// ---------------------------------------------------------------------------

/// Operator-supplied override for the deferred-sweep trigger.
///
/// Set via [`Runner::skip_sweep`] / [`Runner::force_sweep`] (mirrored on the
/// CLI as `pitboss play --no-sweep` / `--sweep`). The two flags are mutually
/// exclusive at the CLI level, so the runner only ever sees one of these
/// applied per invocation.
#[derive(Debug, Clone, Copy, PartialEq, Eq, Structural)]
pub enum SweepOverride {
    /// Honor the configured sweep trigger (default).
    Configured,
    /// Suppress sweeps for the duration of the run. Clears `pending_sweep`
    /// at the top of the run and refuses to arm it from any subsequent phase
    /// commit.
    Skip,
    /// Force a sweep before the next phase even if the trigger threshold
    /// isn't met. After it lands the trigger reverts to the configured
    /// behavior.
    Force,
}

/// What a runner holds.
#[verifier::ext_equal]
pub struct RunnerModel {
    pub plan: PlanModel,
    pub deferred: DeferredModel,
    pub state: PlayModel,
    pub skip_tests: bool,
    pub sweep_override: SweepOverride,
}

/// Per-phase orchestrator. One `Runner` drives a single workspace through its
/// plan.
#[derive(Debug)]
pub struct Runner {
    workspace: String,
    config: Config,
    plan: Plan,
    deferred: DeferredDoc,
    state: RunState,
    /// When `true`, test detection and execution are skipped. Set by
    /// `pitboss play --dry-run`, which dispatches a no-op agent: since it never
    /// modifies the working tree, running tests would only re-confirm whatever
    /// the pre-run state was and risk halting the dry-run on a flaky suite.
    skip_tests: bool,
    /// Operator-supplied override for the deferred-sweep gate.
    sweep_override: SweepOverride,
}

impl View for Runner {
    type V = RunnerModel;

    closed spec fn view(&self) -> RunnerModel {
        RunnerModel {
            plan: self.plan@,
            deferred: self.deferred@,
            state: self.state@,
            skip_tests: self.skip_tests,
            sweep_override: self.sweep_override,
        }
    }
}

/// The state after one more dispatch is counted for the phase `id`.
pub open spec fn dispatch_counted(s: PlayModel, id: Seq<char>) -> PlayModel {
    PlayModel {
        attempts: s.attempts.insert(id, sweep::one_more(sweep::attempts_of(s.attempts, id))),
        ..s
    }
}

/// What a dispatch does to a runner while a phase or a sweep is under way.
pub enum RunnerWork {
    /// A dispatch is counted for a phase.
    Dispatched(Seq<char>),
    /// A dispatch in a role consumed tokens.
    Spent(Role, UsageModel),
    /// A dispatch left a backlog behind.
    Left(DeferredModel),
}

/// The runner after `work`.
pub open spec fn worked(m: RunnerModel, work: RunnerWork) -> RunnerModel {
    match work {
        RunnerWork::Dispatched(id) => RunnerModel { state: dispatch_counted(m.state, id), ..m },
        RunnerWork::Spent(role, tokens) => RunnerModel {
            state: PlayModel {
                token_usage: usage_folded(m.state.token_usage, role, tokens),
                ..m.state
            },
            ..m
        },
        RunnerWork::Left(doc) => RunnerModel { deferred: doc, ..m },
    }
}

/// The usage once a dispatch in the role `role` that consumed `tokens` is
/// counted in.
pub open spec fn usage_folded(usage: UsageModel, role: Role, tokens: UsageModel) -> UsageModel {
    state::usage_total(
        state::usage_total(
            usage,
            UsageModel {
                input: 0,
                output: 0,
                by_role: Map::empty().insert(
                    agent::role_text(role),
                    RoleUsage { input: tokens.input, output: tokens.output },
                ),
            },
        ),
        tokens,
    )
}

/// What a dispatch does to the counters of a run. Counting it adds one attempt to
/// its own phase and to no other. What it consumed is added to the totals, and to
/// its own role, together with what it reports of that role itself; any other
/// role gains only what the dispatch reports of it. A backlog that it left takes
/// the place of the one before.
pub proof fn dispatches_are_counted_in(
    m: RunnerModel,
    id: Seq<char>,
    other: Seq<char>,
    role: Role,
    tokens: UsageModel,
    doc: DeferredModel,
)
    ensures
        ({
            let was = m.state.attempts;
            let now = worked(m, RunnerWork::Dispatched(id)).state.attempts;
            &&& now.contains_key(id)
            &&& !was.contains_key(id) ==> now[id] == 1
            &&& was.contains_key(id) && was[id] < u32::MAX ==> now[id] == was[id] + 1
            &&& was.contains_key(id) && was[id] == u32::MAX ==> now[id] == u32::MAX
            &&& other != id ==> (now.contains_key(other) <==> was.contains_key(other))
            &&& other != id && was.contains_key(other) ==> now[other] == was[other]
            &&& worked(m, RunnerWork::Dispatched(id)).state.token_usage == m.state.token_usage
            &&& worked(m, RunnerWork::Dispatched(id)).deferred == m.deferred
        }),
        ({
            let was = m.state.token_usage;
            let now = worked(m, RunnerWork::Spent(role, tokens)).state.token_usage;
            let name = agent::role_text(role);
            &&& was.input + tokens.input <= u64::MAX ==> now.input == was.input + tokens.input
            &&& was.output + tokens.output <= u64::MAX ==> now.output == was.output + tokens.output
            &&& now.by_role.contains_key(name)
            &&& !was.by_role.contains_key(name) && !tokens.by_role.contains_key(name)
                ==> now.by_role[name].input == tokens.input && now.by_role[name].output
                == tokens.output
            &&& was.by_role.contains_key(name) && !tokens.by_role.contains_key(name)
                && was.by_role[name].input + tokens.input <= u64::MAX ==> now.by_role[name].input
                == was.by_role[name].input + tokens.input
            &&& was.by_role.contains_key(name) && !tokens.by_role.contains_key(name)
                && was.by_role[name].output + tokens.output <= u64::MAX
                ==> now.by_role[name].output == was.by_role[name].output + tokens.output
            &&& other != name && was.by_role.contains_key(other) && !tokens.by_role.contains_key(
                other,
            ) ==> now.by_role.contains_key(other) && now.by_role[other] == was.by_role[other]
            &&& other != name && !was.by_role.contains_key(other) && !tokens.by_role.contains_key(
                other,
            ) ==> !now.by_role.contains_key(other)
            &&& worked(m, RunnerWork::Spent(role, tokens)).state.attempts == m.state.attempts
            &&& worked(m, RunnerWork::Spent(role, tokens)).deferred == m.deferred
        }),
        worked(m, RunnerWork::Left(doc)).deferred == doc,
        worked(m, RunnerWork::Left(doc)).state == m.state,
{
}

/// Work under way moves the run neither forward nor back.
pub proof fn work_keeps_progress(m: RunnerModel, work: RunnerWork)
    ensures
        worked(m, work).plan == m.plan,
        worked(m, work).state.completed == m.state.completed,
        worked(m, work).state.pending_sweep == m.state.pending_sweep,
        worked(m, work).state.consecutive_sweeps == m.state.consecutive_sweeps,
        worked(m, work).state.post_final_phase == m.state.post_final_phase,
        worked(m, work).sweep_override == m.sweep_override,
{
}

/// The items that a sweep ticked off, of `pre` that were unchecked before it.
pub open spec fn resolved_count(pre: nat, doc: DeferredModel) -> nat {
    if pre > sweep::unchecked(doc) {
        (pre - sweep::unchecked(doc)) as nat
    } else {
        0
    }
}

/// Why a sweep that edited `## Deferred phases` halts.
pub open spec fn edited_phases() -> HaltModel {
    HaltModel::DeferredInvalid("sweep modified Deferred phases"@)
}

/// What becomes of a sweep whose changes are staged.
#[derive(Debug, PartialEq, Eq)]
pub enum SweepSettle {
    /// It edited `## Deferred phases`: `deferred.md` is restored, and the sweep
    /// halts for the carried reason.
    Restore(HaltReason),
    /// It lands with a commit of the carried message.
    Commit(String),
    /// It lands without a commit.
    Skip,
}

/// The sweep gate lets a sweep pass.
pub open spec fn gate_allows(config: Config, m: RunnerModel, parsed: DeferredModel) -> bool {
    match m.sweep_override {
        SweepOverride::Skip => false,
        SweepOverride::Force => true,
        SweepOverride::Configured => sweep::sweep_due(
            parsed,
            config.sweep,
            m.state.consecutive_sweeps,
        ),
    }
}

/// The backlog that the sweep gate looks at: the one on disk, or the cached one where
/// that cannot be parsed.
pub open spec fn gate_backlog(m: RunnerModel, on_disk: Option<DeferredModel>) -> DeferredModel {
    match on_disk {
        Some(doc) => doc,
        None => m.deferred,
    }
}

/// The sweep gate sends the runner into a sweep.
pub open spec fn gate_sweeps(config: Config, m: RunnerModel, on_disk: Option<DeferredModel>) -> bool {
    m.state.pending_sweep && gate_allows(config, m, gate_backlog(m, on_disk))
        && m.state.completed.len() > 0
}

/// The runner behind the sweep gate.
pub open spec fn gate_passed(config: Config, m: RunnerModel, on_disk: Option<DeferredModel>) ->
    RunnerModel {
    if !m.state.pending_sweep {
        m
    } else if gate_sweeps(config, m, on_disk) {
        RunnerModel { deferred: gate_backlog(m, on_disk), ..m }
    } else {
        RunnerModel {
            deferred: gate_backlog(m, on_disk),
            state: PlayModel { pending_sweep: false, ..m.state },
            ..m
        }
    }
}

/// The runner once sweeps are suppressed, if `skip`.
pub open spec fn sweeps_skipped(m: RunnerModel, skip: bool) -> RunnerModel {
    if skip {
        RunnerModel {
            sweep_override: SweepOverride::Skip,
            state: PlayModel { pending_sweep: false, ..m.state },
            ..m
        }
    } else {
        m
    }
}

/// The runner once a sweep is forced, if `force`.
pub open spec fn sweep_forced(m: RunnerModel, force: bool) -> RunnerModel {
    if force {
        RunnerModel {
            sweep_override: SweepOverride::Force,
            state: PlayModel { pending_sweep: true, ..m.state },
            ..m
        }
    } else {
        m
    }
}

/// The runner once a sweep that the sweep gate sent it into came to `result`.
pub open spec fn gated_sweep_ended(m: RunnerModel, result: PhaseResultModel) -> RunnerModel {
    RunnerModel {
        sweep_override: if result is Advanced && m.sweep_override == SweepOverride::Force {
            SweepOverride::Configured
        } else {
            m.sweep_override
        },
        ..m
    }
}

/// A run with sweeps suppressed owes none and does none, whatever it inherited and
/// whatever the settings and the backlog say; a phase that it finishes leaves it
/// so.
pub proof fn suppressing_drops_what_was_owed(
    config: Config,
    m: RunnerModel,
    on_disk: Option<DeferredModel>,
    id: Seq<char>,
)
    ensures
        ({
            let n = sweeps_skipped(m, true);
            &&& !n.state.pending_sweep && !gate_sweeps(config, n, on_disk) && !drains(config, n)
            &&& !phase_finished(config, n, id).state.pending_sweep
            &&& !gate_sweeps(config, phase_finished(config, n, id), on_disk)
            &&& n.plan == m.plan && n.deferred == m.deferred && n.state.completed
                == m.state.completed
        }),
        sweeps_skipped(m, false) == m,
{
}

/// A forced sweep runs before the next phase once one is completed, whatever the
/// settings and the backlog say, and once: behind a sweep that landed the settings
/// decide again, and behind one that halted it is still forced.
pub proof fn a_forced_sweep_runs_once(
    config: Config,
    m: RunnerModel,
    on_disk: Option<DeferredModel>,
    result: PhaseResultModel,
)
    ensures
        ({
            let n = sweep_forced(m, true);
            &&& n.state.pending_sweep
            &&& m.state.completed.len() > 0 ==> gate_sweeps(config, n, on_disk)
            &&& m.state.completed.len() == 0 ==> !gate_sweeps(config, n, on_disk)
            &&& result is Advanced ==> gated_sweep_ended(n, result).sweep_override
                == SweepOverride::Configured
            &&& result is Halted ==> gated_sweep_ended(n, result) == n
        }),
        sweep_forced(m, false) == m,
        m.sweep_override != SweepOverride::Force ==> gated_sweep_ended(m, result) == m,
        gated_sweep_ended(m, result).state == m.state && gated_sweep_ended(m, result).plan == m.plan
            && gated_sweep_ended(m, result).deferred == m.deferred,
{
}

/// The way out of the sweep gate.
#[derive(Debug, PartialEq, Eq)]
pub enum Gate {
    /// A sweep is owed first, after the carried phase.
    Sweep {
        /// The most recently completed phase.
        after: PhaseId,
    },
    /// The current phase is next.
    Phase {
        /// The run state changed and is to be saved.
        persist: bool,
    },
}

/// The start of a phase.
#[derive(Debug, PartialEq, Eq)]
pub enum PhaseStart {
    /// The plan has no phase with the current id.
    Missing(String),
    /// The run is over budget.
    Halted(HaltReason),
    /// The implementer is to be dispatched.
    Started {
        /// The phase.
        phase: Phase,
        /// The dispatch counter of the phase.
        attempt: u32,
    },
}

/// What a sweep remembers from its start.
#[derive(Debug, PartialEq, Eq)]
pub struct SweepTicket {
    /// The dispatch counter of the phase that the sweep is accounted under.
    pub attempt: u32,
    /// The unchecked items before the sweep.
    pub pre_unchecked: usize,
    /// Their texts.
    pub pre_texts: Vec<String>,
    /// The `## Deferred phases` block before the sweep.
    pub pre_phases: String,
}

/// The start of a sweep.
#[derive(Debug, PartialEq, Eq)]
pub enum SweepStart {
    /// The run is over budget. The agent never ran, so this does not tick the
    /// staleness clock: the sweep is retried on resume.
    Halted(HaltReason),
    /// The implementer is to be dispatched.
    Started(SweepTicket),
}

/// The runner after the phase `id` was committed.
pub open spec fn phase_finished(config: Config, m: RunnerModel, id: Seq<char>) -> RunnerModel {
    let backlog = DeferredModel {
        items: deferred::unchecked_items(m.deferred.items),
        phases: m.deferred.phases,
    };
    let next = next_after(m.plan.phases, id, 0);
    let arms = m.sweep_override != SweepOverride::Skip && (m.sweep_override == SweepOverride::Force
        || sweep::sweep_due(backlog, config.sweep, 0));
    RunnerModel {
        plan: match next {
            Some(n) => PlanModel {
                current_phase: n,
                frontmatter: plan::with_pointer(m.plan.frontmatter, n),
                ..m.plan
            },
            None => m.plan,
        },
        deferred: backlog,
        state: PlayModel {
            completed: m.state.completed.push(id),
            consecutive_sweeps: 0,
            post_final_phase: m.state.post_final_phase || next is None,
            pending_sweep: m.state.pending_sweep || next is Some && arms,
            ..m.state
        },
        ..m
    }
}

/// Finishing a phase goes on to the very next one. Where a phase of the plan
/// comes after the one that finished, the plan points to the first such phase, in
/// its pointer and in its frontmatter, and the run is not past its final phase on
/// that account. Where none does, the plan stays and the run is past its final
/// phase.
pub proof fn finishing_goes_to_the_next_phase(config: Config, m: RunnerModel, id: Seq<char>)
    ensures
        ({
            let n = phase_finished(config, m, id);
            let phases = m.plan.phases;
            &&& (forall|j: int|
                0 <= j < phases.len() ==> !id::id_before(id, (#[trigger] phases[j]).id)) ==> n.plan
                == m.plan && n.state.post_final_phase && n.state.pending_sweep
                == m.state.pending_sweep
            &&& (exists|j: int|
                0 <= j < phases.len() && id::id_before(id, (#[trigger] phases[j]).id)) ==> {
                &&& exists|k: int|
                    0 <= k < phases.len() && (#[trigger] phases[k]).id == n.plan.current_phase
                        && id::id_before(id, phases[k].id) && forall|j: int|
                        0 <= j < k ==> !id::id_before(id, (#[trigger] phases[j]).id)
                &&& n.plan.frontmatter == plan::with_pointer(
                    m.plan.frontmatter,
                    n.plan.current_phase,
                )
                &&& n.state.post_final_phase == m.state.post_final_phase
            }
        }),
{
    no_phase_is_skipped(m.plan.phases, id);
}

/// What a finished phase leaves of the backlog and of the sweeps. The items that
/// are not done stay, each as it is and in their order, and the deferred phases
/// stay. The count of sweeps in a row starts anew. Where a phase is left, a sweep
/// is owed behind this one if it was owed before, if it is forced, or if sweeps
/// are configured, switched on and allowed at all, and at least as many items are
/// not done as the trigger asks for; with sweeps suppressed it is owed only if it
/// was.
pub proof fn finishing_arms_a_due_sweep(config: Config, m: RunnerModel, id: Seq<char>, j: int)
    ensures
        ({
            let n = phase_finished(config, m, id);
            let open = m.deferred.items.filter(|i: deferred::ItemModel| !i.done);
            let due = config.sweep.enabled && config.sweep.max_consecutive > 0 && open.len()
                >= config.sweep.trigger_min_items;
            &&& n.deferred.items == open && n.deferred.phases == m.deferred.phases
            &&& n.state.consecutive_sweeps == 0
            &&& n.state.completed.len() == m.state.completed.len() + 1
            &&& n.state.completed.last() == id
            &&& 0 <= j < m.plan.phases.len() && id::id_before(id, m.plan.phases[j].id) ==> {
                &&& m.sweep_override == SweepOverride::Skip ==> n.state.pending_sweep
                    == m.state.pending_sweep
                &&& m.sweep_override == SweepOverride::Force ==> n.state.pending_sweep
                &&& m.sweep_override == SweepOverride::Configured ==> n.state.pending_sweep == (
                m.state.pending_sweep || due)
            }
            &&& n.sweep_override == m.sweep_override && n.skip_tests == m.skip_tests
            &&& n.state.deferred_item_attempts == m.state.deferred_item_attempts
            &&& n.state.run_id == m.state.run_id && n.state.branch == m.state.branch
        }),
{
    no_phase_is_skipped(m.plan.phases, id);
    deferred::unchecked_means_not_done(m.deferred.items);
    unchecked_twice(m.deferred.items);
}

/// When the sweep gate opens. A sweep goes first exactly where one is owed, a
/// phase is completed to anchor it on, and it is forced, or it is configured and
/// still due: switched on, short of as many in a row as are allowed, and with at
/// least as many items not done as the trigger asks for. The items that count are
/// those of the file on disk, and the cached ones only where that cannot be read.
pub proof fn the_gate_opens_for_a_due_sweep(
    config: Config,
    m: RunnerModel,
    on_disk: Option<DeferredModel>,
)
    ensures
        ({
            let doc = if on_disk is Some {
                on_disk->0
            } else {
                m.deferred
            };
            let open = doc.items.filter(|i: deferred::ItemModel| !i.done).len();
            let due = config.sweep.enabled && m.state.consecutive_sweeps
                < config.sweep.max_consecutive && open >= config.sweep.trigger_min_items;
            let sweeps = m.state.pending_sweep && m.state.completed.len() > 0 && (m.sweep_override
                == SweepOverride::Force || m.sweep_override == SweepOverride::Configured && due);
            let n = gate_passed(config, m, on_disk);
            &&& gate_sweeps(config, m, on_disk) == sweeps
            &&& !m.state.pending_sweep ==> n == m
            &&& m.state.pending_sweep ==> n.deferred == doc && n.state.pending_sweep == sweeps
            &&& n.plan == m.plan && n.state.completed == m.state.completed
            &&& n.state.consecutive_sweeps == m.state.consecutive_sweeps
            &&& n.state.attempts == m.state.attempts && n.state.token_usage == m.state.token_usage
        }),
{
    let doc = gate_backlog(m, on_disk);
    deferred::unchecked_means_not_done(doc.items);
}

/// What a sweep that landed leaves: the obligation is met, one more sweep ran in
/// a row, the items that it ticked off are gone and the others stay in their
/// order, and the run is as far as it was.
pub proof fn a_landed_sweep_meets_its_obligation(m: RunnerModel, pre: Seq<Seq<char>>)
    ensures
        ({
            let n = sweep_finished(m, pre);
            &&& !n.state.pending_sweep
            &&& m.state.consecutive_sweeps < u32::MAX ==> n.state.consecutive_sweeps
                == m.state.consecutive_sweeps + 1
            &&& n.deferred.items == m.deferred.items.filter(|i: deferred::ItemModel| !i.done)
            &&& n.deferred.phases == m.deferred.phases
            &&& n.plan == m.plan && n.state.completed == m.state.completed
            &&& n.state.post_final_phase == m.state.post_final_phase
            &&& n.state.attempts == m.state.attempts && n.state.token_usage == m.state.token_usage
            &&& n.sweep_override == m.sweep_override
        }),
{
    deferred::unchecked_means_not_done(m.deferred.items);
}

/// A sweep, landed or halted, counts one attempt more for each item that was
/// pending before it and still is not done, and forgets the attempts of every
/// item that is done or gone.
pub proof fn sweeps_count_attempts_per_item(
    m: RunnerModel,
    pre: Seq<Seq<char>>,
    item: Seq<char>,
)
    ensures
        ({
            let had = m.state.deferred_item_attempts;
            let pending = exists|i: int|
                0 <= i < m.deferred.items.len() && !(#[trigger] m.deferred.items[i]).done
                    && m.deferred.items[i].text == item;
            let halted = staleness_counted(m, pre).state.deferred_item_attempts;
            let landed = sweep_finished(m, pre).state.deferred_item_attempts;
            &&& halted == landed
            &&& !pending ==> !landed.contains_key(item)
            &&& pending && pre.contains(item) && !had.contains_key(item) ==> landed.contains_key(
                item,
            ) && landed[item] == 1
            &&& pending && pre.contains(item) && had.contains_key(item) && had[item] < u32::MAX
                ==> landed.contains_key(item) && landed[item] == had[item] + 1
            &&& pending && !pre.contains(item) ==> (landed.contains_key(item)
                <==> had.contains_key(item))
            &&& pending && !pre.contains(item) && had.contains_key(item) ==> landed[item]
                == had[item]
        }),
{
    pending_texts_are_not_done(m.deferred.items, item);
    sweep::survivors_count_one_more(
        m.state.deferred_item_attempts,
        pre,
        pending_texts(m.deferred),
        item,
    );
}

proof fn pending_texts_are_not_done(items: Seq<deferred::ItemModel>, item: Seq<char>)
    ensures
        deferred::item_texts(deferred::unchecked_items(items)).contains(item) <==> exists|i: int|
            0 <= i < items.len() && !(#[trigger] items[i]).done && items[i].text == item,
    decreases items.len(),
{
    let texts = deferred::item_texts(deferred::unchecked_items(items));
    if items.len() > 0 {
        let front = items.drop_last();
        pending_texts_are_not_done(front, item);
        let less = deferred::item_texts(deferred::unchecked_items(front));
        if items.last().done {
            assert(texts == less);
        } else {
            assert(texts =~= less.push(items.last().text));
            assert(texts[less.len() as int] == items.last().text);
        }
        if texts.contains(item) {
            let k = choose|k: int| 0 <= k < texts.len() && texts[k] == item;
            if k < less.len() {
                assert(less[k] == item);
                let i = choose|i: int|
                    0 <= i < front.len() && !(#[trigger] front[i]).done && front[i].text == item;
                assert(items[i] == front[i]);
            } else {
                assert(items[items.len() - 1] == items.last());
            }
        }
        if exists|i: int| 0 <= i < items.len() && !(#[trigger] items[i]).done && items[i].text
            == item {
            let i = choose|i: int|
                0 <= i < items.len() && !(#[trigger] items[i]).done && items[i].text == item;
            if i < front.len() {
                assert(front[i] == items[i]);
                let k = choose|k: int| 0 <= k < less.len() && less[k] == item;
                assert(texts[k] == item);
            }
        }
    }
}

/// The items that a sweep resolved are those that it left fewer of: as many as
/// were pending before, less those that are not done now, and never less than
/// none.
pub proof fn resolved_is_what_went_away(pre: nat, doc: DeferredModel)
    ensures
        ({
            let open = doc.items.filter(|i: deferred::ItemModel| !i.done).len();
            &&& open <= pre ==> resolved_count(pre, doc) + open == pre
            &&& open > pre ==> resolved_count(pre, doc) == 0
        }),
{
    deferred::unchecked_means_not_done(doc.items);
}

/// The events of the items that a sweep made stale.
pub open spec fn stale_events(
    events: Seq<EventModel>,
    attempts: Map<Seq<char>, u32>,
    pre: Seq<Seq<char>>,
    post: Seq<Seq<char>>,
    escalate_after: u32,
) -> bool {
    &&& forall|i: int|
        0 <= i < events.len() ==> {
            &&& (#[trigger] events[i]) matches EventModel::DeferredItemStale { text, attempts: n }
            &&& sweep::crosses(attempts, pre, post, escalate_after, text)
            &&& n == sweep::attempts_of(sweep::counted(attempts, pre, post), text)
        }
    &&& forall|item: Seq<char>| #[trigger]
        sweep::crosses(attempts, pre, post, escalate_after, item) ==> events.contains(
            EventModel::DeferredItemStale {
                text: item,
                attempts: sweep::attempts_of(sweep::counted(attempts, pre, post), item),
            },
        )
    &&& forall|i: int, j: int|
        0 <= i < j < events.len() ==> text::precedes(
            (#[trigger] events[i])->DeferredItemStale_text,
            (#[trigger] events[j])->DeferredItemStale_text,
        )
}

/// The events of stale items: one for each item that was pending before the sweep and
/// after it and whose attempts just came to the limit, with that number; none for any
/// other item, and none twice.
pub proof fn each_stale_item_is_told_once(
    events: Seq<EventModel>,
    attempts: Map<Seq<char>, u32>,
    pre: Seq<Seq<char>>,
    post: Seq<Seq<char>>,
    escalate_after: u32,
    i: int,
    j: int,
)
    requires
        stale_events(events, attempts, pre, post, escalate_after),
        0 <= i < j < events.len(),
    ensures
        events[i] matches EventModel::DeferredItemStale { text, attempts: n } && pre.contains(text)
            && post.contains(text) && n == (if escalate_after == 0 {
            1
        } else {
            escalate_after
        }) && n == (if attempts.contains_key(text) {
            attempts[text] as int
        } else {
            0
        }) + 1,
        events[i] != events[j],
{
    let item = events[i]->DeferredItemStale_text;
    sweep::the_threshold_is_reached_once(attempts, pre, post, escalate_after, item);
    sweep::survivors_count_one_more(attempts, pre, post, item);
    text::precedes_irreflexive(item);
}

/// The texts of the unchecked items.
pub open spec fn pending_texts(doc: DeferredModel) -> Seq<Seq<char>> {
    deferred::item_texts(deferred::unchecked_items(doc.items))
}

/// The runner once the staleness counters took in a sweep over `pre`.
pub open spec fn staleness_counted(m: RunnerModel, pre: Seq<Seq<char>>) -> RunnerModel {
    RunnerModel {
        state: PlayModel {
            deferred_item_attempts: sweep::counted(
                m.state.deferred_item_attempts,
                pre,
                pending_texts(m.deferred),
            ),
            ..m.state
        },
        ..m
    }
}

/// The runner after a sweep landed.
pub open spec fn sweep_finished(m: RunnerModel, pre: Seq<Seq<char>>) -> RunnerModel {
    let counted = staleness_counted(m, pre);
    RunnerModel {
        deferred: DeferredModel {
            items: deferred::unchecked_items(m.deferred.items),
            phases: m.deferred.phases,
        },
        state: PlayModel {
            pending_sweep: false,
            consecutive_sweeps: sweep::one_more(m.state.consecutive_sweeps),
            ..counted.state
        },
        ..counted
    }
}

/// A finished phase moves the run forward: it is recorded as completed, and
/// where a phase is left the plan points to one that comes after it; where none
/// is, the run is marked as past its final phase. Nothing but the backlog's
/// ticked-off items is dropped.
pub proof fn finishing_moves_forward(config: Config, m: RunnerModel, id: Seq<char>)
    ensures
        ({
            let n = phase_finished(config, m, id);
            &&& n.state.completed == m.state.completed.push(id)
            &&& n.plan.phases == m.plan.phases
            &&& n.deferred.phases == m.deferred.phases
            &&& n.state.attempts == m.state.attempts
            &&& n.state.token_usage == m.state.token_usage
            &&& n.plan.current_phase == m.plan.current_phase || id::id_before(
                id,
                n.plan.current_phase,
            )
            &&& next_after(m.plan.phases, id, 0) is None ==> n.state.post_final_phase && n.plan
                == m.plan
            &&& sweep::unchecked(n.deferred) == sweep::unchecked(m.deferred)
        }),
{
    next_phase_comes_after(m.plan.phases, id, 0);
    unchecked_twice(m.deferred.items);
}

proof fn unchecked_twice(items: Seq<deferred::ItemModel>)
    ensures
        deferred::unchecked_items(deferred::unchecked_items(items)) == deferred::unchecked_items(
            items,
        ),
    decreases items.len(),
{
    if items.len() > 0 {
        unchecked_twice(items.drop_last());
        if !items.last().done {
            let front = deferred::unchecked_items(items.drop_last());
            assert(front.push(items.last()).drop_last() =~= front);
        }
    }
}

/// With sweeps suppressed none ever runs: the sweep gate lets none pass, and a phase
/// that finishes arms none.
pub proof fn suppressed_sweeps_never_run(
    config: Config,
    m: RunnerModel,
    on_disk: Option<DeferredModel>,
    id: Seq<char>,
)
    requires
        m.sweep_override == SweepOverride::Skip,
    ensures
        !gate_sweeps(config, m, on_disk),
        phase_finished(config, m, id).state.pending_sweep == m.state.pending_sweep,
        !drains(config, m),
{
}

/// A sweep that halts is retried: it stays owed, and so does the phase behind
/// it.
pub proof fn halted_sweep_stays_owed(m: RunnerModel, pre: Seq<Seq<char>>)
    ensures
        staleness_counted(m, pre).state.pending_sweep == m.state.pending_sweep,
        staleness_counted(m, pre).state.completed == m.state.completed,
        staleness_counted(m, pre).plan == m.plan,
{
}

/// The final phase has committed, but the run has not finished yet.
///
/// The authoritative signal is the persisted flag; the inference from the
/// completed phases covers state files that predate the flag.
pub open spec fn past_final_phase(m: RunnerModel) -> bool {
    m.state.post_final_phase || (m.state.completed.len() > 0 && m.state.completed.last()
        == m.plan.current_phase && next_after(m.plan.phases, m.state.completed.last(), 0) is None)
}

/// The backlog is drained before the run finishes.
pub open spec fn drains(config: Config, m: RunnerModel) -> bool {
    m.sweep_override != SweepOverride::Skip && config.sweep.enabled
        && config.sweep.final_sweep_enabled && sweep::unchecked(m.deferred) > 0
}

/// How a run finishes.
#[derive(Debug, PartialEq, Eq)]
pub enum FinishMove {
    /// The backlog is drained first, after the carried phase.
    Drain {
        /// The last completed phase.
        after: PhaseId,
    },
    /// The run is finished.
    Finished {
        /// The run state changed and is to be saved.
        persist: bool,
    },
}

/// The phase that the final drain is accounted under.
pub open spec fn drain_anchor(m: RunnerModel) -> Seq<char> {
    if m.state.completed.len() > 0 {
        m.state.completed.last()
    } else {
        m.plan.current_phase
    }
}

/// A run that has just started has done nothing and owes nothing: no phase is
/// completed, no dispatch is counted for any phase and no sweep for any item, no
/// tokens are spent, so only a cap of zero can halt it, no sweep goes first, and it
/// is not past its final phase.
pub proof fn a_fresh_run_has_done_nothing(
    config: Config,
    m: RunnerModel,
    on_disk: Option<DeferredModel>,
    run_id: Seq<char>,
    branch: Seq<char>,
    phase: Seq<char>,
    now: Timestamp,
    any: Seq<char>,
)
    requires
        m.state == state::fresh_state(run_id, branch, phase, now),
    ensures
        m.state.run_id == run_id && m.state.branch == branch && m.state.started_phase == phase
            && m.state.started_at == now,
        m.state.completed.len() == 0 && !m.state.aborted,
        sweep::attempts_of(m.state.attempts, any) == 0,
        sweep::attempts_of(m.state.deferred_item_attempts, any) == 0,
        m.state.token_usage.input == 0 && m.state.token_usage.output == 0,
        config.budgets.max_total_tokens != Some(0u64) && (config.budgets.max_total_usd matches Some(
            cap,
        ) ==> cap.pico > 0) ==> budget_halt(config, m.state.token_usage) is None,
        !gate_sweeps(config, m, on_disk),
        !past_final_phase(m),
        m.state.consecutive_sweeps == 0,
{
}

/// When a run is past its final phase: its state says so, or the phase that it
/// completed last is the one that its plan points to, and no phase of the plan
/// comes after that.
pub proof fn past_the_final_phase_nothing_is_left(m: RunnerModel)
    ensures
        m.state.post_final_phase ==> past_final_phase(m),
        m.state.completed.len() == 0 && !m.state.post_final_phase ==> !past_final_phase(m),
        m.state.completed.len() > 0 && !m.state.post_final_phase ==> (past_final_phase(m) <==> {
            &&& m.state.completed.last() == m.plan.current_phase
            &&& forall|j: int|
                0 <= j < m.plan.phases.len() ==> !id::id_before(
                    m.plan.current_phase,
                    (#[trigger] m.plan.phases[j]).id,
                )
        }),
{
    if m.state.completed.len() > 0 {
        no_phase_is_skipped(m.plan.phases, m.state.completed.last());
    }
}

/// The backlog is drained before the run finishes exactly where an item is not
/// done and both sweeps and the final drain are switched on, unless sweeps are
/// suppressed.
pub proof fn a_backlog_is_drained(config: Config, m: RunnerModel)
    ensures
        ({
            let open = exists|i: int|
                0 <= i < m.deferred.items.len() && !(#[trigger] m.deferred.items[i]).done;
            drains(config, m) <==> open && config.sweep.enabled && config.sweep.final_sweep_enabled
                && m.sweep_override != SweepOverride::Skip
        }),
{
    deferred::unchecked_means_not_done(m.deferred.items);
}

/// The texts of the items that are ticked off now and were pending before.
pub open spec fn resolved_texts(items: Seq<deferred::ItemModel>, pre: Seq<Seq<char>>) -> Seq<
    Seq<char>,
>
    decreases items.len(),
{
    if items.len() == 0 {
        Seq::empty()
    } else {
        let front = resolved_texts(items.drop_last(), pre);
        if items.last().done && pre.contains(items.last().text) {
            front.push(items.last().text)
        } else {
            front
        }
    }
}

/// The auditor of a sweep is shown as resolved exactly what was pending before
/// the sweep and is done now.
pub proof fn resolved_were_pending(
    items: Seq<deferred::ItemModel>,
    pre: Seq<Seq<char>>,
    item: Seq<char>,
)
    ensures
        resolved_texts(items, pre).contains(item) <==> pre.contains(item) && exists|i: int|
            0 <= i < items.len() && (#[trigger] items[i]).done && items[i].text == item,
    decreases items.len(),
{
    let all = resolved_texts(items, pre);
    if items.len() > 0 {
        let front = items.drop_last();
        resolved_were_pending(front, pre, item);
        let less = resolved_texts(front, pre);
        if items.last().done && pre.contains(items.last().text) {
            assert(all[less.len() as int] == items.last().text);
        }
        if all.contains(item) {
            let k = choose|k: int| 0 <= k < all.len() && all[k] == item;
            if k < less.len() {
                assert(less[k] == item);
                let i = choose|i: int|
                    0 <= i < front.len() && (#[trigger] front[i]).done && front[i].text == item;
                assert(items[i] == front[i]);
            } else {
                assert(items[items.len() - 1] == items.last());
            }
        }
        if pre.contains(item) && exists|i: int|
            0 <= i < items.len() && (#[trigger] items[i]).done && items[i].text == item {
            let i = choose|i: int|
                0 <= i < items.len() && (#[trigger] items[i]).done && items[i].text == item;
            if i < front.len() {
                assert(front[i] == items[i]);
                let k = choose|k: int| 0 <= k < less.len() && less[k] == item;
                assert(all[k] == item);
            }
        }
    }
}

// ---------------------------------------------------------------------------
// Requests
// ---------------------------------------------------------------------------

/// The log of a phase's dispatch.
pub open spec fn attempt_log(
    workspace: Seq<char>,
    phase_id: Seq<char>,
    role: Seq<char>,
    attempt: u32,
) -> Seq<char> {
    paths::joined(
        paths::joined(workspace, ".pitboss/play/logs"@),
        "phase-"@ + phase_id + "-"@ + role + "-"@ + text::decimal(attempt as nat) + ".log"@,
    )
}

/// The log of a sweep's dispatch. Distinct prefix from [`attempt_log`] so an
/// operator scanning `.pitboss/play/logs/` can tell sweep dispatches apart from
/// regular phase dispatches at a glance even though both account against the
/// same phase.
pub open spec fn sweep_log(
    workspace: Seq<char>,
    after: Seq<char>,
    role: Seq<char>,
    attempt: u32,
) -> Seq<char> {
    paths::joined(
        paths::joined(workspace, ".pitboss/play/logs"@),
        "sweep-after-"@ + after + "-"@ + role + "-"@ + text::decimal(attempt as nat) + ".log"@,
    )
}

/// The log of a dispatch lies in the log directory of the workspace, and its name
/// tells phases and sweeps apart and carries the phase, the role and the attempt.
pub proof fn logs_name_their_dispatch(
    workspace: Seq<char>,
    id: Seq<char>,
    role: Seq<char>,
    attempt: u32,
)
    ensures
        text::contains(
            attempt_log(workspace, id, role, attempt),
            "phase-"@ + id + "-"@ + role + "-"@ + text::decimal(attempt as nat) + ".log"@,
        ),
        text::contains(
            sweep_log(workspace, id, role, attempt),
            "sweep-after-"@ + id + "-"@ + role + "-"@ + text::decimal(attempt as nat) + ".log"@,
        ),
        workspace.is_prefix_of(attempt_log(workspace, id, role, attempt)),
        workspace.is_prefix_of(sweep_log(workspace, id, role, attempt)),
        text::contains(attempt_log(workspace, id, role, attempt), ".pitboss/play/logs"@),
        text::contains(sweep_log(workspace, id, role, attempt), ".pitboss/play/logs"@),
{
    let dir = ".pitboss/play/logs"@;
    reveal_strlit(".pitboss/play/logs");
    reveal_strlit("phase-");
    reveal_strlit("sweep-after-");
    let phase = "phase-"@ + id + "-"@ + role + "-"@ + text::decimal(attempt as nat) + ".log"@;
    let sweep = "sweep-after-"@ + id + "-"@ + role + "-"@ + text::decimal(attempt as nat)
        + ".log"@;
    assert(phase[0] == 'p');
    assert(sweep[0] == 's');
    let upper = paths::joined(workspace, dir);
    paths::joining_shows_both(workspace, dir, workspace);
    paths::joining_shows_both(upper, phase, dir);
    paths::joining_shows_both(upper, sweep, dir);
    assert(workspace.is_prefix_of(paths::joined(upper, phase))) by {
        assert(paths::joined(upper, phase).take(upper.len() as int).take(workspace.len() as int)
            =~= paths::joined(upper, phase).take(workspace.len() as int));
    }
    assert(workspace.is_prefix_of(paths::joined(upper, sweep))) by {
        assert(paths::joined(upper, sweep).take(upper.len() as int).take(workspace.len() as int)
            =~= paths::joined(upper, sweep).take(workspace.len() as int));
    }
}

/// The name of a log shows the role behind the phase.
pub proof fn logs_name_their_role(
    workspace: Seq<char>,
    id: Seq<char>,
    role: Seq<char>,
    attempt: u32,
)
    ensures
        text::contains(
            attempt_log(workspace, id, role, attempt),
            "phase-"@ + id + "-"@ + role,
        ),
        text::contains(
            attempt_log(workspace, id, role, attempt),
            "phase-"@ + id + "-"@ + role + "-"@ + text::decimal(attempt as nat),
        ),
        text::contains(
            sweep_log(workspace, id, role, attempt),
            "sweep-after-"@ + id + "-"@ + role,
        ),
{
    let number = text::decimal(attempt as nat);
    let phase = "phase-"@ + id + "-"@ + role;
    let sweep = "sweep-after-"@ + id + "-"@ + role;
    let phase_path = attempt_log(workspace, id, role, attempt);
    let sweep_path = sweep_log(workspace, id, role, attempt);
    logs_name_their_dispatch(workspace, id, role, attempt);
    text::held_from_its_start(phase_path, phase + "-"@ + number, ".log"@);
    text::held_from_its_start(phase_path, phase + "-"@, number);
    text::held_from_its_start(phase_path, phase, "-"@);
    text::held_from_its_start(sweep_path, sweep + "-"@ + number, ".log"@);
    text::held_from_its_start(sweep_path, sweep + "-"@, number);
    text::held_from_its_start(sweep_path, sweep, "-"@);
}

/// `r` is a dispatch in the role `role`, but for its user prompt.
pub open spec fn is_request(
    r: AgentRequest,
    config: Config,
    workspace: Seq<char>,
    role: Role,
    model: Seq<char>,
    log: Seq<char>,
) -> bool {
    &&& r.role == role
    &&& r.model@ == model
    &&& r.system_prompt@ == caveman::directive(config.caveman)
    &&& r.workdir@ == workspace
    &&& r.log_path@ == log
    &&& r.timeout_secs == DEFAULT_AGENT_TIMEOUT
    &&& r.env@ == Map::<Seq<char>, String>::empty()
}

/// The auditor of a phase is asked with its own model and logs as an audit of the
/// phase. It works in the workspace, with the directive of the configured mode, an
/// hour at most and nothing added to its environment.
pub proof fn auditors_are_asked_with_their_model(
    runner: Runner,
    r: AgentRequest,
    phase: PhaseModel,
    diff: Seq<char>,
)
    requires
        runner.auditor_asked(r, phase, diff),
    ensures
        r.role is Auditor,
        r.model@ == runner.the_config().models.auditor@,
        text::contains(r.log_path@, "phase-"@ + phase.id + "-"@ + "audit"@),
        r.workdir@ == runner.the_workspace(),
        r.system_prompt@ == caveman::directive(runner.the_config().caveman),
        r.timeout_secs == 3600,
        r.env@.dom() == Set::<Seq<char>>::empty(),
{
    logs_name_their_role(runner.the_workspace(), phase.id, "audit"@, 1);
    assert(Map::<Seq<char>, String>::empty().dom() =~= Set::<Seq<char>>::empty());
}

/// The auditor of a sweep is asked alike, and logs as an audit of the sweep.
pub proof fn sweep_auditors_are_asked_with_their_model(
    runner: Runner,
    r: AgentRequest,
    after: Seq<char>,
    pre: Seq<Seq<char>>,
    diff: Seq<char>,
)
    requires
        runner.sweep_auditor_asked(r, after, pre, diff),
    ensures
        r.role is Auditor,
        r.model@ == runner.the_config().models.auditor@,
        text::contains(r.log_path@, "sweep-after-"@ + after + "-"@ + "audit"@),
        r.workdir@ == runner.the_workspace(),
        r.system_prompt@ == caveman::directive(runner.the_config().caveman),
        r.timeout_secs == 3600,
        r.env@.dom() == Set::<Seq<char>>::empty(),
{
    logs_name_their_role(runner.the_workspace(), after, "audit"@, 1);
    assert(Map::<Seq<char>, String>::empty().dom() =~= Set::<Seq<char>>::empty());
}

/// A fixer is asked alike with its own model, and logs under the number of its
/// attempt.
pub proof fn fixers_are_asked_with_their_model(
    runner: Runner,
    r: AgentRequest,
    phase: Option<PhaseModel>,
    id: Seq<char>,
    attempt: u32,
    failure: Seq<char>,
)
    requires
        runner.fixer_asked(r, phase, id, attempt, failure),
    ensures
        r.role is Fixer,
        r.model@ == runner.the_config().models.fixer@,
        text::contains(r.log_path@, "phase-"@ + id + "-"@ + "fix"@ + "-"@ + text::decimal(attempt as nat)),
        r.workdir@ == runner.the_workspace(),
        r.system_prompt@ == caveman::directive(runner.the_config().caveman),
        r.timeout_secs == 3600,
        r.env@.dom() == Set::<Seq<char>>::empty(),
{
    logs_name_their_role(runner.the_workspace(), id, "fix"@, attempt);
    assert(Map::<Seq<char>, String>::empty().dom() =~= Set::<Seq<char>>::empty());
}

/// An implementer is asked alike, for whatever role, model and log it is given.
pub proof fn requests_carry_what_they_are_given(
    r: AgentRequest,
    config: Config,
    workspace: Seq<char>,
    role: Role,
    model: Seq<char>,
    log: Seq<char>,
)
    requires
        is_request(r, config, workspace, role, model, log),
    ensures
        r.role == role,
        r.model@ == model,
        r.log_path@ == log,
        r.workdir@ == workspace,
        r.system_prompt@ == caveman::directive(config.caveman),
        r.timeout_secs == 3600,
        r.env@.dom() == Set::<Seq<char>>::empty(),
{
    assert(Map::<Seq<char>, String>::empty().dom() =~= Set::<Seq<char>>::empty());
}

/// `s` is the template with the substitutions `vars`.
pub open spec fn is_prompt(s: Seq<char>, template: Seq<char>, vars: Seq<(Seq<char>, Seq<char>)>) -> bool {
    render::rendered(template, vars) == Some(s)
}

impl Runner {
    /// The settings.
    pub closed spec fn the_config(self) -> Config {
        self.config
    }

    /// The workspace.
    pub closed spec fn the_workspace(self) -> Seq<char> {
        self.workspace@
    }

    /// Everything but the model stays as it is.
    pub closed spec fn same_setup(self, other: Runner) -> bool {
        self.config == other.config && self.workspace == other.workspace
    }

    /// `r` is the dispatch of a fixer of the phase `phase`, or without one of a
    /// sweep, after the test run that `failure` sums up.
    pub open spec fn fixer_asked(
        self,
        r: AgentRequest,
        phase: Option<PhaseModel>,
        id: Seq<char>,
        fixer_attempt: u32,
        failure: Seq<char>,
    ) -> bool {
        &&& is_request(
            r,
            self.the_config(),
            self.the_workspace(),
            Role::Fixer,
            self.the_config().models.fixer@,
            attempt_log(self.the_workspace(), id, "fix"@, fixer_attempt),
        )
        &&& match phase {
            Some(p) => is_prompt(
                r.user_prompt@,
                templates::FIXER_TEMPLATE@,
                prompts::fixer_vars(p, failure, prompts::deferred_block(self@.deferred)),
            ),
            None => is_prompt(
                r.user_prompt@,
                templates::SWEEP_FIXER_TEMPLATE@,
                seq![
                    ("test_output"@, failure),
                    ("deferred"@, prompts::deferred_block(self@.deferred)),
                ],
            ),
        }
    }

    /// `r` is the dispatch of the auditor of the phase `phase` on `diff`.
    pub open spec fn auditor_asked(
        self,
        r: AgentRequest,
        phase: PhaseModel,
        diff: Seq<char>,
    ) -> bool {
        &&& is_request(
            r,
            self.the_config(),
            self.the_workspace(),
            Role::Auditor,
            self.the_config().models.auditor@,
            attempt_log(self.the_workspace(), phase.id, "audit"@, 1),
        )
        &&& is_prompt(
            r.user_prompt@,
            templates::AUDITOR_TEMPLATE@,
            prompts::auditor_vars(
                phase,
                diff,
                prompts::deferred_block(self@.deferred),
                self.the_config().audit.small_fix_line_limit as nat,
            ),
        )
    }

    /// `r` is the dispatch of the auditor of a sweep after the phase `after` on
    /// `diff`, `pre` being the texts of the items that were pending before it.
    pub open spec fn sweep_auditor_asked(
        self,
        r: AgentRequest,
        after: Seq<char>,
        pre: Seq<Seq<char>>,
        diff: Seq<char>,
    ) -> bool {
        &&& is_request(
            r,
            self.the_config(),
            self.the_workspace(),
            Role::Auditor,
            self.the_config().models.auditor@,
            sweep_log(self.the_workspace(), after, "audit"@, 1),
        )
        &&& exists|stale: Seq<(Seq<char>, nat)>|
            #![trigger prompts::stale_list(stale)]
            sweep::is_stale_list(
                stale,
                self@.state.deferred_item_attempts,
                self.the_config().sweep.escalate_after,
                sweep::STALE_ITEMS_PROMPT_CAP as nat,
            ) && is_prompt(
                r.user_prompt@,
                templates::SWEEP_AUDITOR_TEMPLATE@,
                prompts::sweep_auditor_vars(
                    after,
                    diff,
                    resolved_texts(self@.deferred.items, pre),
                    pending_texts(self@.deferred),
                    stale,
                    prompts::deferred_block(self@.deferred),
                    self.the_config().audit.small_fix_line_limit as nat,
                ),
            )
    }

    /// A runner of one workspace keeps its settings.
    pub proof fn same_setup_keeps(self, other: Runner)
        requires
            self.same_setup(other),
        ensures
            self.the_config() == other.the_config(),
            self.the_workspace() == other.the_workspace(),
    {
    }

    /// Build a new runner. The caller has already loaded `config`, `plan`,
    /// `deferred`, and `state` from the workspace and is responsible for
    /// having checked out the per-run branch.
    pub fn new(
        workspace: String,
        config: Config,
        plan: Plan,
        deferred: DeferredDoc,
        state: RunState,
    ) -> (r: Self)
        ensures
            r.the_config() == config,
            r.the_workspace() == workspace@,
            r@ == (RunnerModel {
                plan: plan@,
                deferred: deferred@,
                state: state@,
                skip_tests: false,
                sweep_override: SweepOverride::Configured,
            }),
    {
        Runner {
            workspace,
            config,
            plan,
            deferred,
            state,
            skip_tests: false,
            sweep_override: SweepOverride::Configured,
        }
    }

    /// Skip the per-phase test invocation entirely. Used by
    /// `pitboss play --dry-run` so a no-op agent does not get halted by a
    /// pre-existing red test suite.
    pub fn skip_tests(self, skip: bool) -> (r: Self)
        ensures
            r.same_setup(self),
            r@ == (RunnerModel { skip_tests: skip, ..self@ }),
    {
        let mut m = self;
        m.skip_tests = skip;
        m
    }

    /// Suppress deferred sweeps for the duration of this runner. Mirrors the
    /// CLI flag `pitboss play --no-sweep`: clears `state.pending_sweep`
    /// immediately so an inherited obligation from a prior run is dropped,
    /// and refuses to arm the sweep gate from any subsequent phase commit. The
    /// override is in-memory only.
    pub fn skip_sweep(self, skip: bool) -> (r: Self)
        ensures
            r.same_setup(self),
            r@ == sweeps_skipped(self@, skip),
    {
        let mut m = self;
        if skip {
            m.sweep_override = SweepOverride::Skip;
            m.state.pending_sweep = false;
        }
        m
    }

    /// Force a sweep before the next phase, regardless of the configured
    /// trigger threshold. Mirrors `pitboss play --sweep`: sets
    /// `state.pending_sweep` so the sweep gate fires on the next phase, and bypasses
    /// the sweep gate's trigger re-evaluation so a backlog below the threshold still
    /// sweeps once. Mutually exclusive with [`Runner::skip_sweep`] (enforced at
    /// the CLI layer).
    pub fn force_sweep(self, force: bool) -> (r: Self)
        ensures
            r.same_setup(self),
            r@ == sweep_forced(self@, force),
    {
        let mut m = self;
        if force {
            m.sweep_override = SweepOverride::Force;
            m.state.pending_sweep = true;
        }
        m
    }

    /// Workspace this runner operates on.
    pub fn workspace(&self) -> (r: &str)
        ensures
            r@ == self.the_workspace(),
    {
        self.workspace.as_str()
    }

    /// Borrow the loaded plan. Useful for tests asserting state advance.
    pub fn plan(&self) -> (r: &Plan)
        ensures
            r@ == self@.plan,
    {
        &self.plan
    }

    /// Borrow the loaded deferred doc.
    pub fn deferred(&self) -> (r: &DeferredDoc)
        ensures
            r@ == self@.deferred,
    {
        &self.deferred
    }

    /// Borrow the run state.
    pub fn state(&self) -> (r: &RunState)
        ensures
            r@ == self@.state,
    {
        &self.state
    }

    /// Mutable handle to the cached run state, to seed a multi-step scenario.
    pub fn state_mut(&mut self) -> (r: &mut RunState)
        ensures
            r@ == old(self)@.state,
            final(self).same_setup(*old(self)),
            final(self)@ == (RunnerModel { state: final(r)@, ..old(self)@ }),
    {
        &mut self.state
    }

    /// Borrow the loaded config. Used by the TUI to populate the agent /
    /// per-role model header chip.
    pub fn config(&self) -> (r: &Config)
        ensures
            *r == self.the_config(),
    {
        &self.config
    }

    /// Whether test runs are skipped.
    pub fn skips_tests(&self) -> (r: bool)
        ensures
            r == self@.skip_tests,
    {
        self.skip_tests
    }

    /// Snapshot of `## Deferred items` entries whose per-sweep attempt counter
    /// is at or above the threshold. Sorted by descending attempts (text
    /// ascending as a deterministic tiebreaker) and capped at
    /// [`sweep::STALE_ITEMS_PROMPT_CAP`] entries so the sweep prompt stays
    /// bounded.
    pub fn stale_items(&self) -> (r: Vec<StaleItem>)
        ensures
            sweep::is_stale_list(
                prompts::stale_views(r@),
                self@.state.deferred_item_attempts,
                self.the_config().sweep.escalate_after,
                sweep::STALE_ITEMS_PROMPT_CAP as nat,
            ),
    {
        sweep::stale_items(&self.state.deferred_item_attempts, self.config.sweep.escalate_after)
    }

    /// Compare the running token usage against the configured budgets.
    pub fn check_budget(&self) -> (r: Option<HaltReason>)
        ensures
            pipeline::halt_view(r) == budget_halt(self.the_config(), self@.state.token_usage),
    {
        check_usage(&self.config, &self.state.token_usage)
    }

    /// Increment and return the per-phase attempt counter. The counter mirrors
    /// every agent dispatch made for a phase (implementer + each fixer
    /// attempt) so it is the single source of truth for "how many model
    /// dispatches did this phase consume."
    pub fn bump_attempts(&mut self, phase_id: &PhaseId) -> (r: u32)
        ensures
            final(self).same_setup(*old(self)),
            final(self)@ == worked(old(self)@, RunnerWork::Dispatched(phase_id@)),
            r == sweep::attempts_of(final(self)@.state.attempts, phase_id@),
    {
        let now: u32 = match self.state.attempts.get(phase_id.as_str()) {
            Some(n) => n.saturating_add(1),
            None => 1,
        };
        self.state.attempts.insert(phase_id.as_str(), now);
        assert(self@.state =~= dispatch_counted(old(self)@.state, phase_id@));
        now
    }

    /// The dispatches counted for a phase.
    pub fn attempts(&self, phase_id: &PhaseId) -> (r: u32)
        ensures
            r == sweep::attempts_of(self@.state.attempts, phase_id@),
    {
        match self.state.attempts.get(phase_id.as_str()) {
            Some(n) => *n,
            None => 0,
        }
    }

    /// The sweep gate at the top of a phase. A regular phase that closed above
    /// the trigger threshold arms a sweep; the trigger is evaluated again here
    /// against the current on-disk backlog so a manual cleanup between resumes
    /// (the user clearing items by hand) drains the obligation cleanly rather
    /// than firing a no-op sweep. `on_disk` is that backlog, `None` where it
    /// could not be parsed.
    ///
    /// A forced sweep before the first phase is dropped: there is no completed
    /// phase to anchor on.
    pub fn gate(&mut self, on_disk: Option<DeferredDoc>) -> (r: Gate)
        ensures
            final(self).same_setup(*old(self)),
            ({
                let disk = match on_disk {
                    Some(doc) => Some(doc@),
                    None => None,
                };
                let config = old(self).the_config();
                &&& final(self)@ == gate_passed(config, old(self)@, disk)
                &&& match r {
                    Gate::Sweep { after } => gate_sweeps(config, old(self)@, disk) && after@
                        == old(self)@.state.completed.last(),
                    Gate::Phase { persist } => !gate_sweeps(config, old(self)@, disk) && persist
                        == old(self)@.state.pending_sweep,
                }
            }),
    {
        let ghost before = self@;
        if !self.state.pending_sweep {
            return Gate::Phase { persist: false };
        }
        if let Some(doc) = on_disk {
            self.deferred = doc;
        }
        let allow = match self.sweep_override {
            SweepOverride::Skip => false,
            SweepOverride::Force => true,
            SweepOverride::Configured => sweep::should_run_deferred_sweep(
                &self.deferred,
                &self.config.sweep,
                self.state.consecutive_sweeps,
            ),
        };
        let n: usize = self.state.completed.len();
        if allow && n > 0 {
            let after = self.state.completed[n - 1].clone();
            assert(before.state.completed.last() == self.state.completed@[n - 1]@);
            return Gate::Sweep { after };
        }
        self.state.pending_sweep = false;
        Gate::Phase { persist: true }
    }

    /// A sweep that the sweep gate sent the runner into came to `result`.
    /// `--sweep` is a one-shot directive: after the sweep advances, subsequent
    /// post-phase triggers fall back to the configured threshold logic so we
    /// don't sweep between every pair of phases.
    pub fn end_gated_sweep(&mut self, result: &PhaseResult)
        ensures
            final(self).same_setup(*old(self)),
            final(self)@ == gated_sweep_ended(old(self)@, result@),
    {
        if let PhaseResult::Advanced { .. } = result {
            if self.sweep_override == SweepOverride::Force {
                self.sweep_override = SweepOverride::Configured;
            }
        }
    }

    /// Starts the current phase: it is looked up, the budget is checked, and
    /// its implementer dispatch is counted.
    pub fn start_phase(&mut self) -> (r: PhaseStart)
        ensures
            final(self).same_setup(*old(self)),
            ({
                let m = old(self)@;
                match find_phase(m.plan.phases, m.plan.current_phase, 0) {
                    None => final(self)@ == m && (r matches PhaseStart::Missing(msg) && msg@
                        == "plan.current_phase "@ + text::debug_text(m.plan.current_phase)
                        + " is not present in plan.phases"@),
                    Some(p) => match budget_halt(old(self).the_config(), m.state.token_usage) {
                        Some(h) => final(self)@ == m && (r matches PhaseStart::Halted(reason)
                            && reason@ == h),
                        None => final(self)@ == (RunnerModel {
                            state: dispatch_counted(m.state, p.id),
                            ..m
                        }) && (r matches PhaseStart::Started { phase, attempt } && phase@ == p
                            && attempt == sweep::attempts_of(final(self)@.state.attempts, p.id)),
                    },
                }
            }),
    {
        let found = match find_phase_in(&self.plan, &self.plan.current_phase) {
            Some(p) => Some(p.copy()),
            None => None,
        };
        match found {
            None => {
                let mut out = text::owned("plan.current_phase ");
                out.append(text::quoted(self.plan.current_phase.as_str()).as_str());
                out.append(" is not present in plan.phases");
                PhaseStart::Missing(out)
            },
            Some(phase) => {
                if let Some(reason) = self.check_budget() {
                    return PhaseStart::Halted(reason);
                }
                let attempt = self.bump_attempts(&phase.id);
                PhaseStart::Started { phase, attempt }
            },
        }
    }

    /// Counts in what a dispatch in the role `role` consumed. Done regardless
    /// of whether the dispatch ended cleanly — even an aborted run can incur
    /// partial spend. Every counter stops at the largest value.
    pub fn fold_token_usage(&mut self, role: Role, tokens: &TokenUsage)
        ensures
            final(self).same_setup(*old(self)),
            final(self)@ == worked(old(self)@, RunnerWork::Spent(role, tokens@)),
    {
        let mut by_role: Table<RoleUsage> = Table::new();
        by_role.insert(
            role.as_str(),
            RoleUsage { input: tokens.input, output: tokens.output },
        );
        let own = TokenUsage { input: 0, output: 0, by_role };
        self.state.token_usage.fold(&own);
        self.state.token_usage.fold(tokens);
    }

    /// Caches `doc` as the backlog on disk.
    pub fn adopt_deferred(&mut self, doc: DeferredDoc)
        ensures
            final(self).same_setup(*old(self)),
            final(self)@ == worked(old(self)@, RunnerWork::Left(doc@)),
    {
        self.deferred = doc;
    }

    /// The dispatch under `validation` ended as `stop`: what it consumed is
    /// counted in, whatever the validation comes to, and subscribers are to be
    /// told of it.
    pub fn end_dispatch(
        &mut self,
        validation: Validation,
        role: Role,
        tokens: &TokenUsage,
        stop: StopReason,
    ) -> (r: (Validation, Event))
        ensures
            final(self).same_setup(*old(self)),
            final(self)@ == worked(old(self)@, RunnerWork::Spent(role, tokens@)),
            r.0.agent_name() == validation.agent_name(),
            r.0.plan_digest() == validation.plan_digest(),
            r.0@ == validation::validation_next(
                validation.agent_name(),
                validation.plan_digest(),
                validation@,
                ValidationEventModel::Stopped(stop@),
            ),
            r.1@ == EventModel::UsageUpdated(final(self)@.state.token_usage),
    {
        self.fold_token_usage(role, tokens);
        let told = Event::UsageUpdated(self.state.token_usage.copy());
        (validation.advance(ValidationEvent::Stopped(stop)), told)
    }

    /// Takes in what the validation of a dispatch gave: the backlog that it left
    /// replaces the cached one, or the halt is handed on and nothing changes.
    pub fn settle_dispatch(&mut self, result: ValidationResult) -> (r: Option<HaltReason>)
        ensures
            final(self).same_setup(*old(self)),
            match result {
                ValidationResult::Continue(doc) => r is None && final(self)@ == worked(
                    old(self)@,
                    RunnerWork::Left(doc@),
                ),
                ValidationResult::Halt(reason) => pipeline::halt_view(r) == Some(reason@)
                    && final(self)@ == old(self)@,
            },
    {
        match result {
            ValidationResult::Continue(doc) => {
                self.adopt_deferred(doc);
                None
            },
            ValidationResult::Halt(reason) => Some(reason),
        }
    }

    /// The phase `phase_id` was committed (or had nothing to commit): sweeps
    /// the ticked-off items out of the backlog, records the phase, advances the
    /// plan, and arms a sweep where one is due. The caller writes `deferred.md`,
    /// `plan.md` and the run state.
    pub fn finish_phase(&mut self, phase_id: &PhaseId, commit: Option<String>) -> (r: PhaseResult)
        ensures
            final(self).same_setup(*old(self)),
            final(self)@ == phase_finished(old(self).the_config(), old(self)@, phase_id@),
            r@ == (PhaseResultModel::Advanced {
                phase_id: phase_id@,
                next_phase: next_after(old(self)@.plan.phases, phase_id@, 0),
                commit: text::view_of(commit),
            }),
    {
        let ghost before = self@;
        let ghost config = self.the_config();
        self.deferred.sweep();
        self.state.completed.push(phase_id.clone());
        self.state.consecutive_sweeps = 0;
        let next = next_phase_id_after(&self.plan, phase_id);
        match &next {
            None => {
                self.state.post_final_phase = true;
            },
            Some(n) => {
                self.plan.set_current_phase(n.clone());
                let arms = match self.sweep_override {
                    SweepOverride::Skip => false,
                    SweepOverride::Force => true,
                    SweepOverride::Configured => sweep::should_run_deferred_sweep(
                        &self.deferred,
                        &self.config.sweep,
                        0,
                    ),
                };
                if arms {
                    self.state.pending_sweep = true;
                }
            },
        }
        proof {
            let after = phase_finished(config, before, phase_id@);
            assert(self@.state.completed =~= before.state.completed.push(phase_id@));
            assert(self@.state =~= after.state);
            assert(self@ =~= after);
        }
        PhaseResult::Advanced { phase_id: phase_id.clone(), next_phase: next, commit }
    }

    /// Starts a sweep that is accounted under the phase `accounting`: what it
    /// is to be held against is taken down, the budget is checked, and its
    /// implementer dispatch is counted.
    pub fn start_sweep(&mut self, accounting: &PhaseId) -> (r: SweepStart)
        ensures
            final(self).same_setup(*old(self)),
            ({
                let m = old(self)@;
                match budget_halt(old(self).the_config(), m.state.token_usage) {
                    Some(h) => final(self)@ == m && (r matches SweepStart::Halted(reason)
                        && reason@ == h),
                    None => final(self)@ == (RunnerModel {
                        state: dispatch_counted(m.state, accounting@),
                        ..m
                    }) && (r matches SweepStart::Started(t) && t.attempt == sweep::attempts_of(
                        final(self)@.state.attempts,
                        accounting@,
                    ) && t.pre_unchecked == sweep::unchecked(m.deferred) && text::views(
                        t.pre_texts@,
                    ) == pending_texts(m.deferred) && t.pre_phases@ == sweep::phases_block(
                        m.deferred,
                    )),
                }
            }),
    {
        if let Some(reason) = self.check_budget() {
            return SweepStart::Halted(reason);
        }
        let pre_unchecked = sweep::unchecked_count(&self.deferred);
        let pre_texts = self.deferred.unchecked_texts();
        let pre_phases = sweep::phases_block_canonical(&self.deferred);
        let attempt = self.bump_attempts(accounting);
        SweepStart::Started(SweepTicket { attempt, pre_unchecked, pre_texts, pre_phases })
    }

    /// Whether the sweep left `## Deferred phases` alone. The sweep prompt
    /// forbids editing it; where a sweep did, the caller restores `deferred.md`
    /// and the sweep halts for [`Runner::phases_halt`].
    pub fn kept_phases(&self, ticket: &SweepTicket) -> (r: bool)
        ensures
            r == (sweep::phases_block(self@.deferred) == ticket.pre_phases@),
    {
        let now = sweep::phases_block_canonical(&self.deferred);
        text::same(now.as_str(), ticket.pre_phases.as_str())
    }

    /// Why a sweep that edited `## Deferred phases` halts.
    pub fn phases_halt() -> (r: HaltReason)
        ensures
            r@ == edited_phases(),
    {
        HaltReason::DeferredInvalid(text::owned("sweep modified Deferred phases"))
    }

    /// The items that the sweep ticked off. New items the agent appended
    /// (against the prompt's instruction) do not make it negative.
    pub fn sweep_resolved(&self, ticket: &SweepTicket) -> (r: usize)
        ensures
            r == resolved_count(ticket.pre_unchecked as nat, self@.deferred),
    {
        let now = sweep::unchecked_count(&self.deferred);
        ticket.pre_unchecked.saturating_sub(now)
    }

    /// What becomes of a sweep accounted under `accounting`, once its changes
    /// are staged; `has_changes` says whether there are any.
    pub fn settle_sweep(&self, ticket: &SweepTicket, has_changes: bool, accounting: &PhaseId) -> (r:
        SweepSettle)
        ensures
            ({
                let kept = sweep::phases_block(self@.deferred) == ticket.pre_phases@;
                match r {
                    SweepSettle::Restore(reason) => !kept && reason@ == edited_phases(),
                    SweepSettle::Commit(message) => kept && has_changes && message@
                        == git::sweep_commit_text(
                        accounting@,
                        resolved_count(ticket.pre_unchecked as nat, self@.deferred),
                    ),
                    SweepSettle::Skip => kept && !has_changes,
                }
            }),
    {
        if !self.kept_phases(ticket) {
            SweepSettle::Restore(Runner::phases_halt())
        } else if has_changes {
            SweepSettle::Commit(git::commit_message_sweep(accounting, self.sweep_resolved(ticket)))
        } else {
            SweepSettle::Skip
        }
    }

    /// Run the per-item staleness bookkeeping after a sweep dispatch, success
    /// or halt. Gives an event for each item whose counter just crossed the
    /// threshold (transition only — items already at or above it do not
    /// re-emit).
    pub fn apply_sweep_staleness(&mut self, pre_texts: &[String]) -> (r: Vec<Event>)
        ensures
            final(self).same_setup(*old(self)),
            final(self)@ == staleness_counted(old(self)@, text::views(pre_texts@)),
            stale_events(
                events::event_views(r@),
                old(self)@.state.deferred_item_attempts,
                text::views(pre_texts@),
                pending_texts(old(self)@.deferred),
                old(self).the_config().sweep.escalate_after,
            ),
    {
        let ghost was = self@.state.deferred_item_attempts;
        let ghost pre = text::views(pre_texts@);
        let ghost post = pending_texts(self@.deferred);
        let ghost limit = self.config.sweep.escalate_after;
        let ghost now = sweep::counted(was, pre, post);
        let left = self.deferred.unchecked_texts();
        let crossed = sweep::update_sweep_staleness(
            &mut self.state.deferred_item_attempts,
            pre_texts,
            left.as_slice(),
            self.config.sweep.escalate_after,
        );
        let mut out: Vec<Event> = Vec::new();
        for i in 0..crossed.len()
            invariant
                out@.len() == i,
                forall|j: int|
                    0 <= j < i ==> (#[trigger] out@[j])@ == (EventModel::DeferredItemStale {
                        text: crossed@[j].0@,
                        attempts: crossed@[j].1,
                    }),
        {
            out.push(
                Event::DeferredItemStale { text: crossed[i].0.clone(), attempts: crossed[i].1 },
            );
        }
        proof {
            let told = events::event_views(out@);
            let texts = sweep::crossed_texts(crossed@);
            assert forall|i: int| 0 <= i < told.len() implies {
                &&& (#[trigger] told[i]) matches EventModel::DeferredItemStale {
                    text,
                    attempts: n,
                }
                &&& sweep::crosses(was, pre, post, limit, text)
                &&& n == sweep::attempts_of(now, text)
            } by {
                assert(told[i] == out@[i]@);
                assert(texts[i] == crossed@[i].0@);
                assert(texts.contains(texts[i]));
            }
            assert forall|item: Seq<char>| #[trigger]
                sweep::crosses(was, pre, post, limit, item) implies told.contains(
                EventModel::DeferredItemStale {
                    text: item,
                    attempts: sweep::attempts_of(now, item),
                },
            ) by {
                assert(texts.contains(item));
                let i = choose|i: int| 0 <= i < texts.len() && texts[i] == item;
                assert(texts[i] == crossed@[i].0@);
                assert(told[i] == out@[i]@);
            }
            assert forall|i: int, j: int| 0 <= i < j < told.len() implies text::precedes(
                (#[trigger] told[i])->DeferredItemStale_text,
                (#[trigger] told[j])->DeferredItemStale_text,
            ) by {
                assert(told[i] == out@[i]@ && told[j] == out@[j]@);
                assert(text::precedes(texts[i], texts[j]));
            }
            assert(self@ =~= staleness_counted(old(self)@, pre));
        }
        out
    }

    /// The sweep landed: the staleness counters take it in, the ticked-off
    /// items are dropped so a later phase doesn't re-render them, and the
    /// obligation is cleared. Completed phases track plan progress only; a
    /// sweep adds none. The caller writes `deferred.md` and the run state.
    pub fn finish_sweep(
        &mut self,
        accounting: &PhaseId,
        ticket: &SweepTicket,
        commit: Option<String>,
    ) -> (r: (PhaseResult, Vec<Event>))
        ensures
            final(self).same_setup(*old(self)),
            final(self)@ == sweep_finished(old(self)@, text::views(ticket.pre_texts@)),
            r.0@ == (PhaseResultModel::Advanced {
                phase_id: accounting@,
                next_phase: Some(old(self)@.plan.current_phase),
                commit: text::view_of(commit),
            }),
            stale_events(
                events::event_views(r.1@),
                old(self)@.state.deferred_item_attempts,
                text::views(ticket.pre_texts@),
                pending_texts(old(self)@.deferred),
                old(self).the_config().sweep.escalate_after,
            ),
    {
        let stale = self.apply_sweep_staleness(ticket.pre_texts.as_slice());
        self.deferred.sweep();
        self.state.pending_sweep = false;
        self.state.consecutive_sweeps = self.state.consecutive_sweeps.saturating_add(1);
        let result = PhaseResult::Advanced {
            phase_id: accounting.clone(),
            next_phase: Some(self.plan.current_phase.clone()),
            commit,
        };
        (result, stale)
    }

    /// True when state + plan describe "the final regular phase has committed
    /// but the run hasn't finished yet": a resume then goes straight to the
    /// final drain rather than re-running the phase.
    pub fn is_post_final_phase_state(&self) -> (r: bool)
        ensures
            r == past_final_phase(self@),
    {
        if self.state.post_final_phase {
            return true;
        }
        let n: usize = self.state.completed.len();
        if n == 0 {
            return false;
        }
        let last = &self.state.completed[n - 1];
        assert(self@.state.completed.last() == last@);
        last.same(&self.plan.current_phase) && next_phase_id_after(&self.plan, last).is_none()
    }

    /// Decide whether the final-sweep drain loop should run. The master
    /// `[sweep] enabled` switch dominates the trailing-drain toggle so an
    /// operator with sweeps disabled never sees a surprise drain pass.
    /// `--no-sweep` suppresses the loop the same way it suppresses
    /// between-phase sweeps.
    pub fn should_run_final_sweep_loop(&self) -> (r: bool)
        ensures
            r == drains(self.the_config(), self@),
    {
        self.sweep_override != SweepOverride::Skip && self.config.sweep.enabled
            && self.config.sweep.final_sweep_enabled && sweep::unchecked_count(&self.deferred) > 0
    }

    /// The phase that the final drain is accounted under: the last completed one.
    pub fn drain_anchor_id(&self) -> (r: PhaseId)
        ensures
            r@ == drain_anchor(self@),
    {
        let n: usize = self.state.completed.len();
        if n > 0 {
            assert(self@.state.completed.last() == self.state.completed@[n - 1]@);
            self.state.completed[n - 1].clone()
        } else {
            self.plan.current_phase.clone()
        }
    }

    /// The phases are through: either the backlog is to be drained first, or
    /// the run is finished and an inherited sweep obligation is dropped, so a
    /// follow-up `pitboss play` doesn't see stale state.
    pub fn finish_or_drain(&mut self) -> (r: FinishMove)
        ensures
            final(self).same_setup(*old(self)),
            ({
                let m = old(self)@;
                if drains(old(self).the_config(), m) {
                    &&& final(self)@ == (RunnerModel {
                        state: PlayModel { consecutive_sweeps: 0, ..m.state },
                        ..m
                    })
                    &&& r matches FinishMove::Drain { after }
                    &&& after@ == drain_anchor(m)
                } else {
                    &&& final(self)@ == (RunnerModel {
                        state: PlayModel { pending_sweep: false, ..m.state },
                        ..m
                    })
                    &&& r == (FinishMove::Finished { persist: m.state.pending_sweep })
                }
            }),
    {
        if self.should_run_final_sweep_loop() {
            let after = self.drain_anchor_id();
            self.state.consecutive_sweeps = 0;
            FinishMove::Drain { after }
        } else {
            FinishMove::Finished { persist: self.clear_pending_sweep() }
        }
    }

    /// Owes a sweep, before an iteration of the final drain.
    pub fn owe_sweep(&mut self)
        ensures
            final(self).same_setup(*old(self)),
            final(self)@ == (RunnerModel {
                state: PlayModel { pending_sweep: true, ..old(self)@.state },
                ..old(self)@
            }),
    {
        self.state.pending_sweep = true;
    }

    /// Drops a sweep obligation; `true` if there was one.
    pub fn clear_pending_sweep(&mut self) -> (r: bool)
        ensures
            final(self).same_setup(*old(self)),
            final(self)@ == (RunnerModel {
                state: PlayModel { pending_sweep: false, ..old(self)@.state },
                ..old(self)@
            }),
            r == old(self)@.state.pending_sweep,
    {
        let owed = self.state.pending_sweep;
        self.state.pending_sweep = false;
        owed
    }

    fn request(&self, role: Role, model: &str, user_prompt: String, log_path: String) -> (r:
        AgentRequest)
        ensures
            is_request(r, self.the_config(), self.the_workspace(), role, model@, log_path@),
            r.user_prompt == user_prompt,
    {
        AgentRequest {
            role,
            model: text::owned(model),
            system_prompt: caveman::system_prompt(&self.config.caveman),
            user_prompt,
            workdir: self.workspace.clone(),
            log_path,
            timeout_secs: DEFAULT_AGENT_TIMEOUT,
            env: Table::new(),
        }
    }

    /// The log of a phase's dispatch.
    pub fn attempt_log_path(&self, phase_id: &PhaseId, role: &str, attempt: u32) -> (r: String)
        ensures
            r@ == attempt_log(self.the_workspace(), phase_id@, role@, attempt),
    {
        let dir = paths::join(self.workspace.as_str(), ".pitboss/play/logs");
        let mut name = text::owned("phase-");
        name.append(phase_id.as_str());
        name.append("-");
        name.append(role);
        name.append("-");
        name.append(text::decimal_u32(attempt).as_str());
        name.append(".log");
        paths::join(dir.as_str(), name.as_str())
    }

    /// The log of a sweep's dispatch.
    pub fn sweep_log_path(&self, after: &PhaseId, role: &str, attempt: u32) -> (r: String)
        ensures
            r@ == sweep_log(self.the_workspace(), after@, role@, attempt),
    {
        let dir = paths::join(self.workspace.as_str(), ".pitboss/play/logs");
        let mut name = text::owned("sweep-after-");
        name.append(after.as_str());
        name.append("-");
        name.append(role);
        name.append("-");
        name.append(text::decimal_u32(attempt).as_str());
        name.append(".log");
        paths::join(dir.as_str(), name.as_str())
    }

    /// The implementer dispatch of `phase`. `attempt` flows into the
    /// per-attempt log filename so a fixer re-dispatch later in the phase does
    /// not clobber the implementer's log.
    pub fn implementer_request(&self, phase: &Phase, attempt: u32) -> (r: AgentRequest)
        ensures
            is_request(
                r,
                self.the_config(),
                self.the_workspace(),
                Role::Implementer,
                self.the_config().models.implementer@,
                attempt_log(self.the_workspace(), phase@.id, "implementer"@, attempt),
            ),
            is_prompt(
                r.user_prompt@,
                templates::IMPLEMENTER_TEMPLATE@,
                prompts::implementer_vars(phase@, prompts::deferred_block(self@.deferred)),
            ),
    {
        let prompt = prompts::implementer(&self.plan, &self.deferred, phase);
        let log = self.attempt_log_path(&phase.id, "implementer", attempt);
        self.request(Role::Implementer, self.config.models.implementer.as_str(), prompt, log)
    }

    /// The fixer dispatch after a failed test run, for a phase or, without one,
    /// for a sweep.
    pub fn fixer_request(
        &self,
        phase: Option<&Phase>,
        phase_id: &PhaseId,
        fixer_attempt: u32,
        failure: &str,
    ) -> (r: AgentRequest)
        ensures
            self.fixer_asked(
                r,
                match phase {
                    Some(p) => Some(p@),
                    None => None,
                },
                phase_id@,
                fixer_attempt,
                failure@,
            ),
    {
        let prompt = match phase {
            Some(p) => prompts::fixer_with_deferred(&self.plan, p, failure, &self.deferred),
            None => prompts::fixer_for_sweep(&self.plan, &self.deferred, failure),
        };
        let log = self.attempt_log_path(phase_id, "fix", fixer_attempt);
        self.request(Role::Fixer, self.config.models.fixer.as_str(), prompt, log)
    }

    /// The auditor dispatch of a phase. It runs once per phase, so the attempt
    /// in its log filename stays at one.
    pub fn auditor_request(&self, phase: &Phase, diff: &str) -> (r: AgentRequest)
        ensures
            self.auditor_asked(r, phase@, diff@),
    {
        let prompt = prompts::auditor_with_deferred(
            &self.plan,
            phase,
            diff,
            &self.deferred,
            self.config.audit.small_fix_line_limit,
        );
        let log = self.attempt_log_path(&phase.id, "audit", 1);
        self.request(Role::Auditor, self.config.models.auditor.as_str(), prompt, log)
    }

    /// The implementer dispatch of a sweep. `prompt_after` is what the prompt
    /// names as the most recently completed phase; `None` selects the
    /// standalone variant. `max_items` clamps the list of pending items in the
    /// prompt; the on-disk file is unchanged, and items dropped from the prompt
    /// view surface on the next sweep.
    pub fn sweep_request(
        &self,
        accounting: &PhaseId,
        prompt_after: Option<&PhaseId>,
        max_items: Option<usize>,
        attempt: u32,
    ) -> (r: AgentRequest)
        ensures
            is_request(
                r,
                self.the_config(),
                self.the_workspace(),
                Role::Implementer,
                self.the_config().models.implementer@,
                sweep_log(self.the_workspace(), accounting@, "implementer"@, attempt),
            ),
            exists|stale: Seq<(Seq<char>, nat)>|
                #![trigger prompts::stale_list(stale)]
                sweep::is_stale_list(
                    stale,
                    self@.state.deferred_item_attempts,
                    self.the_config().sweep.escalate_after,
                    sweep::STALE_ITEMS_PROMPT_CAP as nat,
                ) && is_prompt(
                    r.user_prompt@,
                    templates::SWEEP_TEMPLATE@,
                    prompts::sweep_vars(
                        match max_items {
                            Some(n) => sweep::clamped(self@.deferred.items, n as nat),
                            None => self@.deferred.items,
                        },
                        stale,
                        prompts::id_view(prompt_after),
                    ),
                ),
    {
        let stale = self.stale_items();
        let doc = match max_items {
            Some(n) => sweep::clamp_pending_items(&self.deferred, n),
            None => self.deferred.copy(),
        };
        let prompt = prompts::sweep(&self.plan, &doc, prompt_after, stale.as_slice());
        assert(prompts::stale_list(prompts::stale_views(stale@)) == prompts::stale_list(
            prompts::stale_views(stale@),
        ));
        let log = self.sweep_log_path(accounting, "implementer", attempt);
        self.request(Role::Implementer, self.config.models.implementer.as_str(), prompt, log)
    }

    /// The texts of the items that are ticked off now and were pending before.
    fn resolved(&self, pre_texts: &Vec<String>) -> (r: Vec<String>)
        ensures
            text::views(r@) == resolved_texts(self@.deferred.items, text::views(pre_texts@)),
    {
        let ghost all = deferred::item_models(self.deferred.items@);
        let ghost pre = text::views(pre_texts@);
        let mut out: Vec<String> = Vec::new();
        assert(text::views(out@) =~= resolved_texts(all.take(0), pre));
        for i in 0..self.deferred.items.len()
            invariant
                all == deferred::item_models(self.deferred.items@),
                pre == text::views(pre_texts@),
                text::views(out@) == resolved_texts(all.take(i as int), pre),
        {
            let ghost before = text::views(out@);
            let item = &self.deferred.items[i];
            proof {
                assert(all.take(i + 1).drop_last() =~= all.take(i as int));
                assert(all.take(i + 1).last() == item@);
            }
            if item.done && sweep::listed(pre_texts.as_slice(), item.text.as_str()) {
                out.push(item.text.clone());
                assert(text::views(out@) =~= before.push(item.text@));
            }
        }
        assert(all.take(all.len() as int) =~= all);
        out
    }

    /// The auditor dispatch of a sweep after the phase `after`. It is shown the
    /// items that the sweep ticked off and those still pending; the sweep
    /// prompt forbids rewording, so matching by exact text is sound.
    pub fn sweep_auditor_request(&self, after: &PhaseId, ticket: &SweepTicket, diff: &str) -> (r:
        AgentRequest)
        ensures
            self.sweep_auditor_asked(r, after@, text::views(ticket.pre_texts@), diff@),
    {
        let resolved = self.resolved(&ticket.pre_texts);
        let remaining = self.deferred.unchecked_texts();
        let stale = self.stale_items();
        let prompt = prompts::sweep_auditor(
            prompts::SweepAuditorPrompt {
                plan: &self.plan,
                deferred: &self.deferred,
                after,
                diff,
                resolved: resolved.as_slice(),
                remaining: remaining.as_slice(),
                stale_items: stale.as_slice(),
                small_fix_line_limit: self.config.audit.small_fix_line_limit,
            },
        );
        assert(prompts::stale_list(prompts::stale_views(stale@)) == prompts::stale_list(
            prompts::stale_views(stale@),
        ));
        let log = self.sweep_log_path(after, "audit", 1);
        self.request(Role::Auditor, self.config.models.auditor.as_str(), prompt, log)
    }
}

/// Build a fresh [`RunState`] for a workspace that has not started a run yet.
///
/// `now` is the timestamp used to derive both the run id and the per-run
/// branch (`<branch_prefix><utc_timestamp>`). Keeping the timestamp explicit
/// makes startup deterministic in tests.
pub fn fresh_run_state(plan: &Plan, config: &Config, now: Timestamp) -> (r: RunState)
    ensures
        r@ == state::fresh_state(
            now.compact(),
            config.branch_prefix@ + now.compact(),
            plan@.current_phase,
            now,
        ),
{
    let run_id = now.to_compact();
    let branch = git::branch_name(config.branch_prefix.as_str(), now);
    RunState::starting_at(run_id.as_str(), branch.as_str(), plan.current_phase.clone(), now)
}

} // verus!
