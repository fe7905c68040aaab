//! The settings that the library's decisions read.

use vstd::prelude::*;

use crate::grind::budget::ModelPricing;
use crate::money::Usd;
use crate::table::Table;

verus! {

/// How terse the caveman directive asks the agent to be.
#[derive(Debug, Clone, Copy, PartialEq, Eq, Structural)]
pub enum CavemanIntensity {
    /// Drop filler only.
    Lite,
    /// Drop articles too.
    Full,
    /// Abbreviate everything that can be.
    Ultra,
}

/// Caveman-mode settings.
#[derive(Debug, Clone, Copy, PartialEq, Eq, Structural)]
pub struct CavemanConfig {
    /// Whether the directive is sent at all.
    pub enabled: bool,
    /// How terse it asks the agent to be.
    pub intensity: CavemanIntensity,
}

impl Default for CavemanConfig {
    fn default() -> (r: Self)
        ensures
            r == (CavemanConfig { enabled: false, intensity: CavemanIntensity::Full }),
    {
        CavemanConfig { enabled: false, intensity: CavemanIntensity::Full }
    }
}

/// The model of each role. Strings pass verbatim to the agent.
#[derive(Debug, PartialEq, Eq)]
pub struct ModelRoles {
    /// Model that drafts plans.
    pub planner: String,
    /// Model that implements phases and runs grind sessions.
    pub implementer: String,
    /// Model that reviews diffs.
    pub auditor: String,
    /// Model that repairs test failures.
    pub fixer: String,
}

/// Bounded retries.
#[derive(Debug, Clone, Copy, PartialEq, Eq, Structural)]
pub struct RetryBudgets {
    /// Fixer dispatches after a test failure; zero disables the fixer.
    pub fixer_max_attempts: u32,
}

/// Auditor pass settings.
#[derive(Debug, Clone, Copy, PartialEq, Eq, Structural)]
pub struct AuditConfig {
    /// Whether phases are audited before they are committed.
    pub enabled: bool,
    /// Line threshold separating "inline" from "defer".
    pub small_fix_line_limit: u32,
}

/// Deferred-sweep settings.
#[derive(Debug, Clone, Copy, PartialEq, Eq, Structural)]
pub struct SweepConfig {
    /// Master switch: whether sweeps run at all.
    pub enabled: bool,
    /// Unchecked items that arm a sweep between two phases.
    pub trigger_min_items: u32,
    /// Sweeps that may run in a row without a phase commit between them.
    pub max_consecutive: u32,
    /// Whether sweeps are audited before they are committed.
    pub audit_enabled: bool,
    /// Sweep attempts after which an unchecked item counts as stale.
    pub escalate_after: u32,
    /// Whether the backlog is drained after the final phase.
    pub final_sweep_enabled: bool,
    /// Sweeps that the final drain dispatches at most.
    pub final_sweep_max_iterations: u32,
}

/// Cost guard.
#[derive(Debug, PartialEq, Eq)]
pub struct Budgets {
    /// Cap on the tokens of a run.
    pub max_total_tokens: Option<u64>,
    /// Cap on the cost of a run.
    pub max_total_usd: Option<Usd>,
    /// What each model charges.
    pub pricing: Table<ModelPricing>,
}

/// The settings of a workspace.
#[derive(Debug, PartialEq, Eq)]
pub struct Config {
    /// Per-role models.
    pub models: ModelRoles,
    /// Retry budgets.
    pub retries: RetryBudgets,
    /// Auditor pass.
    pub audit: AuditConfig,
    /// Deferred sweeps.
    pub sweep: SweepConfig,
    /// Cost guard.
    pub budgets: Budgets,
    /// Caveman mode.
    pub caveman: CavemanConfig,
    /// Prefix of per-run branches.
    pub branch_prefix: String,
}

} // verus!
