//! Budget tracking for `pitboss grind`.
//!
//! The runner consults [`BudgetTracker::check`] before each session
//! dispatch and again after every session completes. Once a budget trips, the
//! runner finishes the in-flight session (if any), records the exhaustion
//! reason, and exits.
//!
//! Budgets are resolved from three layered sources, with later sources
//! overriding earlier ones:
//!
//! 1. `[grind.budgets]` in `config.toml` — workspace-wide defaults.
//! 2. The selected plan's `PlanBudgets` block — plan-specific overrides.
//! 3. CLI flags (`--max-iterations`, `--until`, `--max-cost`, `--max-tokens`).
//!
//! The tracker also counts consecutive failed sessions; once
//! `consecutive_failure_limit` is reached the runner trips the
//! consecutive-failure escape valve. Successful and dirty sessions reset the
//! counter; aborted and skipped ones leave it untouched.

use vstd::prelude::*;
use vstd::string::StringExecFns;

use super::plan::PlanBudgets;
use super::run_dir::{SessionRecord, SessionStatus};
use crate::money;
use crate::money::Usd;
use crate::state;
use crate::table::Table;
use crate::text;
use crate::time::Timestamp;

verus! {

/// Persisted snapshot of a [`BudgetTracker`]'s aggregated counters. Written
/// into `state.json` so a resumed run picks up the same cumulative spend.
/// Pure data — no clock, no policy.
#[derive(Debug, Clone, Copy, PartialEq, Eq, Structural)]
pub struct BudgetSnapshot {
    /// Sessions dispatched so far.
    pub iterations: u32,
    /// Cumulative input tokens billed across every recorded session.
    pub tokens_input: u64,
    /// Cumulative output tokens billed across every recorded session.
    pub tokens_output: u64,
    /// Cumulative cost.
    pub cost_usd: Usd,
    /// Current run of consecutive failed sessions (`Error` / `Timeout`).
    pub consecutive_failures: u32,
}

/// Which budget tripped. Carried by [`BudgetCheck::Exhausted`] so the runner
/// can render a precise log line.
#[derive(Debug, Clone, Copy, PartialEq, Eq, Structural)]
pub enum BudgetReason {
    /// `max_iterations` reached. `count` is the session count at the moment
    /// the cap was hit; `cap` echoes the configured limit.
    MaxIterations {
        /// Sessions dispatched so far.
        count: u32,
        /// Configured cap.
        cap: u32,
    },
    /// `until` reached or passed.
    Until {
        /// Wall clock at the time of the check.
        now: Timestamp,
        /// Configured cutoff.
        until: Timestamp,
    },
    /// `max_tokens` cumulative cap reached.
    MaxTokens {
        /// Cumulative tokens (input + output) so far.
        used: u64,
        /// Configured cap.
        cap: u64,
    },
    /// `max_cost_usd` cumulative cap reached.
    MaxCost {
        /// Cumulative cost so far.
        used: Usd,
        /// Configured cap.
        cap: Usd,
    },
}

/// Result of [`BudgetTracker::check`].
#[derive(Debug, Clone, Copy, PartialEq, Eq, Structural)]
pub enum BudgetCheck {
    /// All budgets still have headroom — keep dispatching.
    Within,
    /// A budget tripped — finish any in-flight session and exit.
    Exhausted(BudgetReason),
}

/// The sentence that reports a tripped budget.
pub open spec fn reason_text(r: BudgetReason) -> Seq<char> {
    match r {
        BudgetReason::MaxIterations { count, cap } => "max-iterations reached: "@ + text::decimal(
            count as nat,
        ) + " >= "@ + text::decimal(cap as nat),
        BudgetReason::Until { now, until } => "until reached: "@ + now.rfc3339() + " >= "@
            + until.rfc3339(),
        BudgetReason::MaxTokens { used, cap } => "max-tokens reached: "@ + text::decimal(
            used as nat,
        ) + " >= "@ + text::decimal(cap as nat),
        BudgetReason::MaxCost { used, cap } => "max-cost reached: $"@ + money::dollars_text(
            used.pico as int,
        ) + " >= $"@ + money::dollars_text(cap.pico as int),
    }
}

/// The sentence of a tripped budget carries what was used, and behind it the cap
/// that it met.
pub proof fn reasons_carry_use_and_cap(r: BudgetReason)
    ensures
        r matches BudgetReason::MaxIterations { count, cap } ==> {
            &&& text::contains(reason_text(r), text::decimal(count as nat))
            &&& text::contains(reason_text(r), " >= "@ + text::decimal(cap as nat))
        },
        r matches BudgetReason::Until { now, until } ==> {
            &&& text::contains(reason_text(r), now.rfc3339())
            &&& text::contains(reason_text(r), " >= "@ + until.rfc3339())
        },
        r matches BudgetReason::MaxTokens { used, cap } ==> {
            &&& text::contains(reason_text(r), text::decimal(used as nat))
            &&& text::contains(reason_text(r), " >= "@ + text::decimal(cap as nat))
        },
        r matches BudgetReason::MaxCost { used, cap } ==> {
            &&& text::contains(reason_text(r), money::dollars_text(used.pico as int))
            &&& text::contains(reason_text(r), " >= $"@ + money::dollars_text(cap.pico as int))
        },
{
    match r {
        BudgetReason::MaxIterations { count, cap } => {
            text::parts_are_held(
                "max-iterations reached: "@,
                text::decimal(count as nat),
                " >= "@ + text::decimal(cap as nat),
                reason_text(r),
            );
            text::parts_are_held(
                "max-iterations reached: "@ + text::decimal(count as nat),
                " >= "@ + text::decimal(cap as nat),
                Seq::<char>::empty(),
                reason_text(r),
            );
        },
        BudgetReason::Until { now, until } => {
            text::parts_are_held(
                "until reached: "@,
                now.rfc3339(),
                " >= "@ + until.rfc3339(),
                reason_text(r),
            );
            text::parts_are_held(
                "until reached: "@ + now.rfc3339(),
                " >= "@ + until.rfc3339(),
                Seq::<char>::empty(),
                reason_text(r),
            );
        },
        BudgetReason::MaxTokens { used, cap } => {
            text::parts_are_held(
                "max-tokens reached: "@,
                text::decimal(used as nat),
                " >= "@ + text::decimal(cap as nat),
                reason_text(r),
            );
            text::parts_are_held(
                "max-tokens reached: "@ + text::decimal(used as nat),
                " >= "@ + text::decimal(cap as nat),
                Seq::<char>::empty(),
                reason_text(r),
            );
        },
        BudgetReason::MaxCost { used, cap } => {
            text::parts_are_held(
                "max-cost reached: $"@,
                money::dollars_text(used.pico as int),
                " >= $"@ + money::dollars_text(cap.pico as int),
                reason_text(r),
            );
            text::parts_are_held(
                "max-cost reached: $"@ + money::dollars_text(used.pico as int),
                " >= $"@ + money::dollars_text(cap.pico as int),
                Seq::<char>::empty(),
                reason_text(r),
            );
        },
    }
}

impl BudgetReason {
    /// The reason as a sentence.
    pub fn message(&self) -> (r: String)
        ensures
            r@ == reason_text(*self),
    {
        match self {
            BudgetReason::MaxIterations { count, cap } => {
                let mut out = text::owned("max-iterations reached: ");
                out.append(text::decimal_u32(*count).as_str());
                out.append(" >= ");
                out.append(text::decimal_u32(*cap).as_str());
                out
            },
            BudgetReason::Until { now, until } => {
                let mut out = text::owned("until reached: ");
                out.append(now.to_rfc3339().as_str());
                out.append(" >= ");
                out.append(until.to_rfc3339().as_str());
                out
            },
            BudgetReason::MaxTokens { used, cap } => {
                let mut out = text::owned("max-tokens reached: ");
                out.append(text::decimal_u64(*used).as_str());
                out.append(" >= ");
                out.append(text::decimal_u64(*cap).as_str());
                out
            },
            BudgetReason::MaxCost { used, cap } => {
                let mut out = text::owned("max-cost reached: $");
                out.append(used.to_dollars().as_str());
                out.append(" >= $");
                out.append(cap.to_dollars().as_str());
                out
            },
        }
    }
}

// ---------------------------------------------------------------------------
// Counting sessions
// ---------------------------------------------------------------------------

/// A counter that is one higher, unless it is at its largest value.
pub open spec fn bumped(n: u32) -> u32 {
    if n < u32::MAX {
        (n + 1) as u32
    } else {
        n
    }
}

/// The failure streak after a session with status `status`.
pub open spec fn streak_after(streak: u32, status: SessionStatus) -> u32 {
    match status {
        SessionStatus::Okay | SessionStatus::Dirty => 0,
        SessionStatus::Error | SessionStatus::Timeout => bumped(streak),
        SessionStatus::Aborted | SessionStatus::Skipped => streak,
    }
}

/// The counters after one more session.
pub open spec fn recorded(s: BudgetSnapshot, r: SessionRecord) -> BudgetSnapshot {
    BudgetSnapshot {
        iterations: bumped(s.iterations),
        tokens_input: state::capped(s.tokens_input, r.tokens.input),
        tokens_output: state::capped(s.tokens_output, r.tokens.output),
        cost_usd: Usd { pico: money::clamped(s.cost_usd.pico + r.cost_usd.pico) as i128 },
        consecutive_failures: streak_after(s.consecutive_failures, r.status),
    }
}

/// All tokens counted so far.
pub open spec fn tokens_of(s: BudgetSnapshot) -> u64 {
    state::capped(s.tokens_input, s.tokens_output)
}

/// The first budget that the counters have used up, looked for in this order:
/// iterations, cutoff, tokens, cost.
pub open spec fn budget_check(budgets: PlanBudgets, s: BudgetSnapshot, now: Timestamp) -> BudgetCheck {
    if budgets.max_iterations matches Some(cap) && s.iterations >= cap {
        BudgetCheck::Exhausted(
            BudgetReason::MaxIterations { count: s.iterations, cap: budgets.max_iterations->0 },
        )
    } else if budgets.until matches Some(until) && !now.earlier(until) {
        BudgetCheck::Exhausted(BudgetReason::Until { now, until: budgets.until->0 })
    } else if budgets.max_tokens matches Some(cap) && tokens_of(s) >= cap {
        BudgetCheck::Exhausted(
            BudgetReason::MaxTokens { used: tokens_of(s), cap: budgets.max_tokens->0 },
        )
    } else if budgets.max_cost_usd matches Some(cap) && s.cost_usd.pico >= cap.pico {
        BudgetCheck::Exhausted(
            BudgetReason::MaxCost { used: s.cost_usd, cap: budgets.max_cost_usd->0 },
        )
    } else {
        BudgetCheck::Within
    }
}

impl BudgetSnapshot {
    /// No sessions.
    pub fn zero() -> (r: Self)
        ensures
            r == (BudgetSnapshot {
                iterations: 0,
                tokens_input: 0,
                tokens_output: 0,
                cost_usd: Usd { pico: 0 },
                consecutive_failures: 0,
            }),
    {
        BudgetSnapshot {
            iterations: 0,
            tokens_input: 0,
            tokens_output: 0,
            cost_usd: Usd::zero(),
            consecutive_failures: 0,
        }
    }

    /// The counters after one more session.
    ///
    /// `Okay` and `Dirty` reset the consecutive counter; `Error` and `Timeout`
    /// increment it. `Aborted` and `Skipped` leave the counter untouched — they
    /// are not the kind of failure the escape valve is meant to guard against.
    pub fn after(&self, record: &SessionRecord) -> (r: Self)
        ensures
            r == recorded(*self, *record),
    {
        BudgetSnapshot {
            iterations: self.iterations.saturating_add(1),
            tokens_input: self.tokens_input.saturating_add(record.tokens.input),
            tokens_output: self.tokens_output.saturating_add(record.tokens.output),
            cost_usd: self.cost_usd.plus(record.cost_usd),
            consecutive_failures: match record.status {
                SessionStatus::Okay | SessionStatus::Dirty => 0,
                SessionStatus::Error | SessionStatus::Timeout => {
                    self.consecutive_failures.saturating_add(1)
                },
                SessionStatus::Aborted | SessionStatus::Skipped => self.consecutive_failures,
            },
        }
    }
}

/// Aggregating budget tracker. Sessions feed
/// [`BudgetTracker::record_session`] after they resolve; the runner calls
/// [`BudgetTracker::check`] before each dispatch and again after each
/// completion.
///
/// The tracker is intentionally pure — no IO, no clock except the `now`
/// parameter on [`BudgetTracker::check_with_now`], which
/// [`BudgetTracker::check`] reads from the system clock.
#[derive(Debug, Clone, Copy, PartialEq, Eq, Structural)]
pub struct BudgetTracker {
    budgets: PlanBudgets,
    consecutive_failure_limit: u32,
    totals: BudgetSnapshot,
}

impl BudgetTracker {
    /// The budgets that are enforced.
    pub closed spec fn limits(self) -> PlanBudgets {
        self.budgets
    }

    /// The length of a failure streak that stops the run; zero for none.
    pub closed spec fn failure_limit(self) -> u32 {
        self.consecutive_failure_limit
    }

    /// The counters.
    pub closed spec fn counters(self) -> BudgetSnapshot {
        self.totals
    }

    /// Build a fresh tracker. `consecutive_failure_limit` of zero is treated
    /// as "disabled" (the escape valve never fires); callers that want
    /// `consecutive_failure_limit = 0` to mean "halt on first failure" should
    /// pass `1` instead.
    pub fn new(budgets: PlanBudgets, consecutive_failure_limit: u32) -> (r: Self)
        ensures
            r.limits() == budgets,
            r.failure_limit() == consecutive_failure_limit,
            r.counters() == (BudgetSnapshot {
                iterations: 0,
                tokens_input: 0,
                tokens_output: 0,
                cost_usd: Usd { pico: 0 },
                consecutive_failures: 0,
            }),
    {
        BudgetTracker { budgets, consecutive_failure_limit, totals: BudgetSnapshot::zero() }
    }

    /// Build a tracker pre-loaded with a previously persisted [`BudgetSnapshot`].
    /// Used by `pitboss grind --resume` to keep cumulative counters aligned
    /// with sessions that landed before the kill.
    pub fn from_snapshot(
        budgets: PlanBudgets,
        consecutive_failure_limit: u32,
        snapshot: BudgetSnapshot,
    ) -> (r: Self)
        ensures
            r.limits() == budgets,
            r.failure_limit() == consecutive_failure_limit,
            r.counters() == snapshot,
    {
        BudgetTracker { budgets, consecutive_failure_limit, totals: snapshot }
    }

    /// Capture the tracker's aggregated counters into a [`BudgetSnapshot`].
    pub fn snapshot(&self) -> (r: BudgetSnapshot)
        ensures
            r == self.counters(),
    {
        self.totals
    }

    /// Feed a finished session into the tracker. Increments the iteration
    /// count, folds in tokens and cost, and updates the consecutive-failure
    /// counter.
    pub fn record_session(&mut self, record: &SessionRecord)
        ensures
            final(self).limits() == old(self).limits(),
            final(self).failure_limit() == old(self).failure_limit(),
            final(self).counters() == recorded(old(self).counters(), *record),
    {
        self.totals = self.totals.after(record);
    }

    /// The configured failure limit.
    pub fn failure_limit_value(&self) -> (r: u32)
        ensures
            r == self.failure_limit(),
    {
        self.consecutive_failure_limit
    }

    /// Number of sessions dispatched so far.
    pub fn iterations(&self) -> (r: u32)
        ensures
            r == self.counters().iterations,
    {
        self.totals.iterations
    }

    /// Cumulative token count (input + output) across every recorded session.
    pub fn total_tokens(&self) -> (r: u64)
        ensures
            r == tokens_of(self.counters()),
    {
        self.totals.tokens_input.saturating_add(self.totals.tokens_output)
    }

    /// Cumulative cost across every recorded session.
    pub fn total_cost_usd(&self) -> (r: Usd)
        ensures
            r == self.counters().cost_usd,
    {
        self.totals.cost_usd
    }

    /// Current run of consecutive failed sessions.
    pub fn consecutive_failures(&self) -> (r: u32)
        ensures
            r == self.counters().consecutive_failures,
    {
        self.totals.consecutive_failures
    }

    /// `true` once the consecutive-failure counter meets or exceeds the
    /// configured limit. Disabled (always `false`) when the limit is zero.
    pub fn consecutive_failure_limit_reached(&self) -> (r: bool)
        ensures
            r == streak_trips(self.failure_limit(), self.counters()),
    {
        self.consecutive_failure_limit > 0 && self.totals.consecutive_failures
            >= self.consecutive_failure_limit
    }

    /// [`BudgetTracker::check_with_now`] with the instant that the system clock
    /// shows.
    pub fn check(&self) -> (r: BudgetCheck)
        ensures
            exists|now: Timestamp|
                now.seconds() >= 0 && r == #[trigger] budget_check(
                    self.limits(),
                    self.counters(),
                    now,
                ),
    {
        self.check_with_now(Timestamp::now())
    }

    /// Compare current totals against the configured budgets. Returns
    /// [`BudgetCheck::Exhausted`] for the first cap that trips, in this
    /// order: max-iterations, until, max-tokens, max-cost.
    pub fn check_with_now(&self, now: Timestamp) -> (r: BudgetCheck)
        ensures
            r == budget_check(self.limits(), self.counters(), now),
    {
        if let Some(cap) = self.budgets.max_iterations {
            if self.totals.iterations >= cap {
                return BudgetCheck::Exhausted(
                    BudgetReason::MaxIterations { count: self.totals.iterations, cap },
                );
            }
        }
        if let Some(until) = self.budgets.until {
            if !now.is_before(&until) {
                return BudgetCheck::Exhausted(BudgetReason::Until { now, until });
            }
        }
        if let Some(cap) = self.budgets.max_tokens {
            let used: u64 = self.total_tokens();
            if used >= cap {
                return BudgetCheck::Exhausted(BudgetReason::MaxTokens { used, cap });
            }
        }
        if let Some(cap) = self.budgets.max_cost_usd {
            if self.totals.cost_usd.pico >= cap.pico {
                return BudgetCheck::Exhausted(
                    BudgetReason::MaxCost { used: self.totals.cost_usd, cap },
                );
            }
        }
        BudgetCheck::Within
    }
}

/// The failure streak has reached the limit, which zero disables.
pub open spec fn streak_trips(limit: u32, s: BudgetSnapshot) -> bool {
    limit > 0 && s.consecutive_failures >= limit
}

/// A budget that has tripped stays tripped: one more session that costs nothing
/// negative, and a later clock, cannot bring a run back under its budgets.
pub proof fn exhausted_stays_exhausted(
    budgets: PlanBudgets,
    s: BudgetSnapshot,
    r: SessionRecord,
    now: Timestamp,
    later: Timestamp,
)
    requires
        budget_check(budgets, s, now) is Exhausted,
        !later.earlier(now),
        r.cost_usd.pico >= 0,
    ensures
        budget_check(budgets, recorded(s, r), later) is Exhausted,
{
}

/// A budget trips exactly where its counter has met it: as many sessions as it
/// allows, an instant that is not before the cutoff, as many input and output
/// tokens together as it allows, or as much money. A budget that is not set never
/// trips. Where several have tripped, the one that is reported is the first of
/// sessions, cutoff, tokens and cost, with the value that met it and the cap.
pub proof fn budgets_trip_once_they_are_met(
    budgets: PlanBudgets,
    s: BudgetSnapshot,
    now: Timestamp,
)
    ensures
        ({
            let sessions = budgets.max_iterations matches Some(cap) && s.iterations >= cap;
            let cutoff = budgets.until matches Some(until) && !now.earlier(until);
            let tokens = budgets.max_tokens matches Some(cap) && s.tokens_input + s.tokens_output
                >= cap;
            let cost = budgets.max_cost_usd matches Some(cap) && s.cost_usd.pico >= cap.pico;
            let r = budget_check(budgets, s, now);
            &&& r == BudgetCheck::Within <==> !sessions && !cutoff && !tokens && !cost
            &&& sessions ==> r == BudgetCheck::Exhausted(
                BudgetReason::MaxIterations {
                    count: s.iterations,
                    cap: budgets.max_iterations->0,
                },
            )
            &&& !sessions && cutoff ==> r == BudgetCheck::Exhausted(
                BudgetReason::Until { now, until: budgets.until->0 },
            )
            &&& !sessions && !cutoff && tokens ==> (r matches BudgetCheck::Exhausted(
                BudgetReason::MaxTokens { used, cap },
            ) && cap == budgets.max_tokens->0 && used >= cap && (s.tokens_input
                + s.tokens_output <= u64::MAX ==> used == s.tokens_input + s.tokens_output))
            &&& !sessions && !cutoff && !tokens && cost ==> r == BudgetCheck::Exhausted(
                BudgetReason::MaxCost { used: s.cost_usd, cap: budgets.max_cost_usd->0 },
            )
        }),
{
}

/// What one session adds to the counters: one session, its own input and output
/// tokens, and its own cost, each while it fits. A session that failed or timed
/// out makes the streak one longer; one that went well or left a dirty tree ends
/// it; one that was aborted or skipped leaves it alone.
pub proof fn a_session_counts_once(s: BudgetSnapshot, r: SessionRecord)
    ensures
        ({
            let n = recorded(s, r);
            &&& s.iterations < u32::MAX ==> n.iterations == s.iterations + 1
            &&& s.iterations == u32::MAX ==> n.iterations == u32::MAX
            &&& s.tokens_input + r.tokens.input <= u64::MAX ==> n.tokens_input == s.tokens_input
                + r.tokens.input
            &&& s.tokens_input + r.tokens.input > u64::MAX ==> n.tokens_input == u64::MAX
            &&& s.tokens_output + r.tokens.output <= u64::MAX ==> n.tokens_output
                == s.tokens_output + r.tokens.output
            &&& s.tokens_output + r.tokens.output > u64::MAX ==> n.tokens_output == u64::MAX
            &&& i128::MIN <= s.cost_usd.pico + r.cost_usd.pico <= i128::MAX ==> n.cost_usd.pico
                == s.cost_usd.pico + r.cost_usd.pico
            &&& (r.status == SessionStatus::Error || r.status == SessionStatus::Timeout)
                && s.consecutive_failures < u32::MAX ==> n.consecutive_failures
                == s.consecutive_failures + 1
            &&& (r.status == SessionStatus::Error || r.status == SessionStatus::Timeout)
                && s.consecutive_failures == u32::MAX ==> n.consecutive_failures == u32::MAX
            &&& r.status == SessionStatus::Okay || r.status == SessionStatus::Dirty
                ==> n.consecutive_failures == 0
            &&& r.status == SessionStatus::Aborted || r.status == SessionStatus::Skipped
                ==> n.consecutive_failures == s.consecutive_failures
        }),
{
}

/// The escape valve trips exactly once a streak is as long as the limit; a limit
/// of zero never trips it, and a limit of one trips it on the first failure.
pub proof fn the_valve_trips_at_its_limit(limit: u32, s: BudgetSnapshot, r: SessionRecord)
    ensures
        limit == 0 ==> !streak_trips(limit, s),
        limit > 0 && s.consecutive_failures >= limit ==> streak_trips(limit, s),
        s.consecutive_failures < limit ==> !streak_trips(limit, s),
        limit == 1 && r.status == SessionStatus::Error ==> streak_trips(limit, recorded(s, r)),
{
}

/// A streak of failures ends with the first session that did not fail: the
/// escape valve never trips right after a session that went well.
pub proof fn success_ends_streak(limit: u32, s: BudgetSnapshot, r: SessionRecord)
    requires
        r.status == SessionStatus::Okay || r.status == SessionStatus::Dirty,
    ensures
        recorded(s, r).consecutive_failures == 0,
        !streak_trips(limit, recorded(s, r)),
{
}

// ---------------------------------------------------------------------------
// Resolving budgets
// ---------------------------------------------------------------------------

/// `over` where it is set, else `under`.
pub open spec fn over_or<T>(over: Option<T>, under: Option<T>) -> Option<T> {
    match over {
        Some(x) => Some(x),
        None => under,
    }
}

/// `under` with everything that `over` sets replaced.
pub open spec fn layered(under: PlanBudgets, over: PlanBudgets) -> PlanBudgets {
    PlanBudgets {
        max_iterations: over_or(over.max_iterations, under.max_iterations),
        until: over_or(over.until, under.until),
        max_cost_usd: over_or(over.max_cost_usd, under.max_cost_usd),
        max_tokens: over_or(over.max_tokens, under.max_tokens),
    }
}

fn layer(under: &PlanBudgets, over: &PlanBudgets) -> (r: PlanBudgets)
    ensures
        r == layered(*under, *over),
{
    PlanBudgets {
        max_iterations: match over.max_iterations {
            Some(n) => Some(n),
            None => under.max_iterations,
        },
        until: match over.until {
            Some(t) => Some(t),
            None => under.until,
        },
        max_cost_usd: match over.max_cost_usd {
            Some(c) => Some(c),
            None => under.max_cost_usd,
        },
        max_tokens: match over.max_tokens {
            Some(n) => Some(n),
            None => under.max_tokens,
        },
    }
}

/// Resolve the budgets a run should enforce. Order of precedence (later wins):
/// 1. `[grind.budgets]` from `config.toml`.
/// 2. The plan's `PlanBudgets`.
/// 3. CLI flag overrides.
pub fn resolve_budgets(
    config_budgets: &PlanBudgets,
    plan_budgets: &PlanBudgets,
    cli: &PlanBudgets,
) -> (r: PlanBudgets)
    ensures
        r == layered(layered(*config_budgets, *plan_budgets), *cli),
{
    let planned = layer(config_budgets, plan_budgets);
    layer(&planned, cli)
}

/// Resolution is additive: a layer that sets nothing leaves the layers before
/// it untouched, and it does not matter which two layers are merged first.
pub proof fn layering_is_additive(a: PlanBudgets, b: PlanBudgets, c: PlanBudgets)
    ensures
        layered(
            a,
            PlanBudgets { max_iterations: None, until: None, max_cost_usd: None, max_tokens: None },
        ) == a,
        layered(
            PlanBudgets { max_iterations: None, until: None, max_cost_usd: None, max_tokens: None },
            a,
        ) == a,
        layered(layered(a, b), c) == layered(a, layered(b, c)),
{
}

/// Later layers win, field by field: what the command line sets is what is
/// enforced; what it leaves open the plan decides; what both leave open the
/// config decides.
pub proof fn later_layers_win(config: PlanBudgets, plan: PlanBudgets, cli: PlanBudgets)
    ensures
        ({
            let r = layered(layered(config, plan), cli);
            &&& cli.max_iterations is Some ==> r.max_iterations == cli.max_iterations
            &&& cli.max_iterations is None && plan.max_iterations is Some ==> r.max_iterations
                == plan.max_iterations
            &&& cli.max_iterations is None && plan.max_iterations is None ==> r.max_iterations
                == config.max_iterations
            &&& cli.until is Some ==> r.until == cli.until
            &&& cli.until is None && plan.until is Some ==> r.until == plan.until
            &&& cli.until is None && plan.until is None ==> r.until == config.until
            &&& cli.max_cost_usd is Some ==> r.max_cost_usd == cli.max_cost_usd
            &&& cli.max_cost_usd is None && plan.max_cost_usd is Some ==> r.max_cost_usd
                == plan.max_cost_usd
            &&& cli.max_cost_usd is None && plan.max_cost_usd is None ==> r.max_cost_usd
                == config.max_cost_usd
            &&& cli.max_tokens is Some ==> r.max_tokens == cli.max_tokens
            &&& cli.max_tokens is None && plan.max_tokens is Some ==> r.max_tokens
                == plan.max_tokens
            &&& cli.max_tokens is None && plan.max_tokens is None ==> r.max_tokens
                == config.max_tokens
        }),
{
}

// ---------------------------------------------------------------------------
// Prices
// ---------------------------------------------------------------------------

/// What a model charges, in micro-dollars for a million tokens.
#[derive(Debug, Clone, Copy, PartialEq, Eq, Structural)]
pub struct ModelPricing {
    /// Price of a million input tokens.
    pub input_micros_per_million: u64,
    /// Price of a million output tokens.
    pub output_micros_per_million: u64,
}

/// The cost of a dispatch in pico-dollars.
pub open spec fn dispatch_cost(p: ModelPricing, input: u64, output: u64) -> int {
    money::clamped(
        input * p.input_micros_per_million + output * p.output_micros_per_million,
    )
}

/// Tokens are priced one by one: input tokens at the input price and output
/// tokens at the output price, and nothing else is charged. The cost is exact
/// while it fits its type, and stops there.
pub proof fn tokens_are_priced_one_by_one(p: ModelPricing, input: u64, output: u64)
    ensures
        dispatch_cost(p, 0, 0) == 0,
        ({
            let sum = input * p.input_micros_per_million + output * p.output_micros_per_million;
            &&& sum <= i128::MAX ==> dispatch_cost(p, input, output) == sum
            &&& sum > i128::MAX ==> dispatch_cost(p, input, output) == i128::MAX
        }),
        input > 0 && dispatch_cost(p, input, 0) < i128::MAX ==> dispatch_cost(p, input, 0)
            == dispatch_cost(p, (input - 1) as u64, 0) + p.input_micros_per_million,
        output > 0 && dispatch_cost(p, 0, output) < i128::MAX ==> dispatch_cost(p, 0, output)
            == dispatch_cost(p, 0, (output - 1) as u64) + p.output_micros_per_million,
{
    let (a, b) = (p.input_micros_per_million as int, p.output_micros_per_million as int);
    let (i, o) = (input as int, output as int);
    assert(0 * a == 0 && 0 * b == 0) by (nonlinear_arith);
    assert((i - 1) * a == i * a - a && (o - 1) * b == o * b - b) by (nonlinear_arith);
    assert(i * a >= 0 && o * b >= 0) by (nonlinear_arith)
        requires
            i >= 0,
            o >= 0,
            a >= 0,
            b >= 0,
    ;
    if i > 0 {
        assert((i - 1) * a >= 0) by (nonlinear_arith)
            requires
                i > 0,
                a >= 0,
        ;
    }
    if o > 0 {
        assert((o - 1) * b >= 0) by (nonlinear_arith)
            requires
                o > 0,
                b >= 0,
        ;
    }
}

impl ModelPricing {
    /// The cost of `input` and `output` tokens.
    pub fn cost_usd(&self, input: u64, output: u64) -> (r: Usd)
        ensures
            r.pico == dispatch_cost(*self, input, output),
    {
        let (pi, po): (u64, u64) = (
            self.input_micros_per_million,
            self.output_micros_per_million,
        );
        assert(0 <= input * pi <= 0xffff_ffff_ffff_ffff * 0xffff_ffff_ffff_ffff) by (
        nonlinear_arith)
            requires
                0 <= input <= 0xffff_ffff_ffff_ffff,
                0 <= pi <= 0xffff_ffff_ffff_ffff,
        ;
        assert(0 <= output * po <= 0xffff_ffff_ffff_ffff * 0xffff_ffff_ffff_ffff) by (
        nonlinear_arith)
            requires
                0 <= output <= 0xffff_ffff_ffff_ffff,
                0 <= po <= 0xffff_ffff_ffff_ffff,
        ;
        let a: u128 = (input as u128) * (pi as u128);
        let b: u128 = (output as u128) * (po as u128);
        let sum: u128 = a.saturating_add(b);
        if sum > 0x7fff_ffff_ffff_ffff_ffff_ffff_ffff_ffff {
            Usd { pico: i128::MAX }
        } else {
            Usd { pico: sum as i128 }
        }
    }
}

/// Compute the cost of a single agent dispatch, from the price table keyed by
/// model. It is zero when the model is missing from the table — pitboss never
/// fabricates a price.
pub fn session_cost_usd(pricing: &Table<ModelPricing>, model: &str, input: u64, output: u64) -> (r:
    Usd)
    ensures
        r.pico == if pricing@.contains_key(model@) {
            dispatch_cost(pricing@[model@], input, output)
        } else {
            0
        },
{
    match pricing.get(model) {
        Some(p) => p.cost_usd(input, output),
        None => Usd::zero(),
    }
}

} // verus!
