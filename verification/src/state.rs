//! Runner-owned state stored at `.pitboss/play/state.json`.
//!
//! The on-disk form is an optional [`RunState`], so a freshly-initialized
//! workspace (no run started yet) holds JSON `null`. A blank file says the same
//! ([`is_blank`]).

use vstd::prelude::*;

use crate::paths;
use crate::plan::PhaseId;
use crate::table::Table;
use crate::text;
use crate::time::Timestamp;

verus! {

/// Path of the runner-owned state file inside a workspace
/// (`<workspace>/.pitboss/play/state.json`).
pub fn state_path(workspace: &str) -> (r: String)
    ensures
        r@ == paths::joined(workspace@, ".pitboss/play/state.json"@),
{
    paths::join(workspace, ".pitboss/play/state.json")
}

/// An ASCII whitespace byte: space, tab, newline, form feed or carriage return.
pub open spec fn is_blank_byte(b: u8) -> bool {
    b == 32 || b == 9 || b == 10 || b == 12 || b == 13
}

/// The bytes that count as blank are space, tab, newline, form feed and carriage
/// return.
pub proof fn five_bytes_are_blank(b: u8)
    ensures
        is_blank_byte(b) <==> (b as char == ' ' || b as char == '\t' || b as char == '\n' || b as char
            == '\u{c}' || b as char == '\r'),
{
}

/// Whether a state file holds nothing but whitespace, which says that no run
/// has started.
pub fn is_blank(bytes: &[u8]) -> (r: bool)
    ensures
        r == forall|i: int| 0 <= i < bytes@.len() ==> is_blank_byte(#[trigger] bytes@[i]),
{
    for i in 0..bytes.len()
        invariant
            forall|j: int| 0 <= j < i ==> is_blank_byte(#[trigger] bytes@[j]),
    {
        let b: u8 = bytes[i];
        if !(b == 32 || b == 9 || b == 10 || b == 12 || b == 13) {
            assert(!is_blank_byte(bytes@[i as int]));
            return false;
        }
    }
    true
}

/// Per-role token counters. Aggregated into [`TokenUsage::by_role`].
#[derive(Debug, Clone, Copy, PartialEq, Eq, Structural)]
pub struct RoleUsage {
    /// Total input tokens billed for this role.
    pub input: u64,
    /// Total output tokens billed for this role.
    pub output: u64,
}

/// Aggregated token usage for a run, broken down by agent role.
#[derive(Debug, PartialEq, Eq)]
pub struct TokenUsage {
    /// Total input tokens across all roles.
    pub input: u64,
    /// Total output tokens across all roles.
    pub output: u64,
    /// Per-role breakdown keyed by the role name (e.g., `"implementer"`).
    pub by_role: Table<RoleUsage>,
}

/// The sum of two counters, which stops at the largest value.
pub open spec fn capped(a: u64, b: u64) -> u64 {
    if a + b > u64::MAX {
        u64::MAX
    } else {
        (a + b) as u64
    }
}

/// The counters of `role`, zero where there are none.
pub open spec fn usage_of(by_role: Map<Seq<char>, RoleUsage>, role: Seq<char>) -> RoleUsage {
    if by_role.contains_key(role) {
        by_role[role]
    } else {
        RoleUsage { input: 0, output: 0 }
    }
}

/// `a` and `b` counted together, role by role.
pub open spec fn usage_sum(a: RoleUsage, b: RoleUsage) -> RoleUsage {
    RoleUsage { input: capped(a.input, b.input), output: capped(a.output, b.output) }
}

/// A [`TokenUsage`] as a mathematical value.
#[verifier::ext_equal]
pub struct UsageModel {
    pub input: u64,
    pub output: u64,
    pub by_role: Map<Seq<char>, RoleUsage>,
}

impl View for TokenUsage {
    type V = UsageModel;

    open spec fn view(&self) -> UsageModel {
        UsageModel { input: self.input, output: self.output, by_role: self.by_role@ }
    }
}

/// No tokens.
pub open spec fn no_usage() -> UsageModel {
    UsageModel { input: 0, output: 0, by_role: Map::empty() }
}

/// `a` and `b` counted together, in total and role by role.
pub open spec fn usage_total(a: UsageModel, b: UsageModel) -> UsageModel {
    UsageModel {
        input: capped(a.input, b.input),
        output: capped(a.output, b.output),
        by_role: Map::new(
            |role: Seq<char>| a.by_role.contains_key(role) || b.by_role.contains_key(role),
            |role: Seq<char>|
                usage_sum(usage_of(a.by_role, role), usage_of(b.by_role, role)),
        ),
    }
}

/// Counting usage together adds it up: the totals are the sums of the totals, a
/// role that both name has the sums of its counters, and a role that one of them
/// names has that one's. No counter goes beyond the largest value, and no other
/// role turns up.
pub proof fn usage_adds_up(a: UsageModel, b: UsageModel, role: Seq<char>)
    ensures
        ({
            let t = usage_total(a, b);
            &&& t.input == if a.input + b.input <= u64::MAX {
                a.input + b.input
            } else {
                u64::MAX as int
            }
            &&& t.output == if a.output + b.output <= u64::MAX {
                a.output + b.output
            } else {
                u64::MAX as int
            }
            &&& t.by_role.contains_key(role) <==> a.by_role.contains_key(role)
                || b.by_role.contains_key(role)
            &&& a.by_role.contains_key(role) && !b.by_role.contains_key(role) ==> t.by_role[role]
                == a.by_role[role]
            &&& !a.by_role.contains_key(role) && b.by_role.contains_key(role) ==> t.by_role[role]
                == b.by_role[role]
            &&& a.by_role.contains_key(role) && b.by_role.contains_key(role) ==> {
                let (x, y) = (a.by_role[role], b.by_role[role]);
                &&& x.input + y.input <= u64::MAX ==> t.by_role[role].input == x.input + y.input
                &&& x.input + y.input > u64::MAX ==> t.by_role[role].input == u64::MAX
                &&& x.output + y.output <= u64::MAX ==> t.by_role[role].output == x.output
                    + y.output
                &&& x.output + y.output > u64::MAX ==> t.by_role[role].output == u64::MAX
            }
        }),
        usage_total(a, b) == usage_total(b, a),
        usage_total(a, no_usage()) == a,
{
    assert(usage_total(a, b) =~= usage_total(b, a));
    assert(usage_total(a, no_usage()) =~= a);
}

impl RoleUsage {
    /// No tokens.
    pub fn zero() -> (r: Self)
        ensures
            r == (RoleUsage { input: 0, output: 0 }),
    {
        RoleUsage { input: 0, output: 0 }
    }

    /// The tokens of both, which stop at the largest value.
    pub fn plus(&self, other: &RoleUsage) -> (r: Self)
        ensures
            r == usage_sum(*self, *other),
    {
        RoleUsage {
            input: self.input.saturating_add(other.input),
            output: self.output.saturating_add(other.output),
        }
    }
}

impl TokenUsage {
    /// No tokens.
    pub fn zero() -> (r: Self)
        ensures
            r@ == no_usage(),
    {
        TokenUsage { input: 0, output: 0, by_role: Table::new() }
    }

    /// A copy of the counters.
    pub fn copy(&self) -> (r: Self)
        ensures
            r@ == self@,
    {
        TokenUsage { input: self.input, output: self.output, by_role: self.by_role.copy() }
    }

    /// Counts `more` in, in total and role by role. Every counter stops at the
    /// largest value.
    pub fn fold(&mut self, more: &TokenUsage)
        ensures
            final(self)@ == usage_total(old(self)@, more@),
    {
        self.input = self.input.saturating_add(more.input);
        self.output = self.output.saturating_add(more.output);
        let ghost before = self.by_role@;
        let n: usize = more.by_role.len();
        let ghost keys = more.by_role.keys();
        for i in 0..n
            invariant
                n == keys.len(),
                keys == more.by_role.keys(),
                crate::table::ascending(keys),
                self.input == capped(old(self).input, more.input),
                self.output == capped(old(self).output, more.output),
                before == old(self).by_role@,
                forall|k: Seq<char>| #[trigger]
                    self.by_role@.contains_key(k) <==> before.contains_key(k) || exists|j: int|
                        0 <= j < i && keys[j] == k,
                forall|k: Seq<char>|
                    (forall|j: int| 0 <= j < i ==> keys[j] != k) ==> #[trigger] usage_of(
                        self.by_role@,
                        k,
                    ) == usage_of(before, k),
                forall|j: int|
                    0 <= j < i ==> usage_of(self.by_role@, #[trigger] keys[j]) == usage_sum(
                        usage_of(before, keys[j]),
                        usage_of(more.by_role@, keys[j]),
                    ),
        {
            let (role, usage) = more.by_role.entry(i);
            let ghost now = self.by_role@;
            let ghost fresh = keys[i as int];
            proof {
                assert forall|j: int| 0 <= j < i implies #[trigger] keys[j] != fresh by {
                    assert(text::precedes(keys[j], keys[i as int]));
                    text::precedes_irreflexive(fresh);
                }
                assert(usage_of(now, fresh) == usage_of(before, fresh));
            }
            let had: RoleUsage = match self.by_role.get(role) {
                Some(u) => *u,
                None => RoleUsage::zero(),
            };
            self.by_role.insert(role, had.plus(usage));
            proof {
                assert forall|k: Seq<char>|
                    (forall|j: int| 0 <= j < i + 1 ==> keys[j] != k) implies #[trigger] usage_of(
                    self.by_role@,
                    k,
                ) == usage_of(before, k) by {
                    assert(keys[i as int] != k);
                    assert(usage_of(now, k) == usage_of(before, k));
                }
                assert forall|k: Seq<char>| #[trigger]
                    self.by_role@.contains_key(k) <==> before.contains_key(k) || exists|j: int|
                        0 <= j < i + 1 && keys[j] == k by {
                    if k == fresh {
                        assert(keys[i as int] == k);
                    } else {
                        assert(now.contains_key(k) <==> self.by_role@.contains_key(k));
                    }
                }
            }
        }
        proof {
            assert forall|role: Seq<char>| #[trigger]
                usage_of(self.by_role@, role) == usage_sum(
                    usage_of(before, role),
                    usage_of(more.by_role@, role),
                ) by {
                if more.by_role@.contains_key(role) {
                    assert(keys.contains(role));
                    let j = choose|j: int| 0 <= j < keys.len() && keys[j] == role;
                    assert(keys[j] == role);
                } else {
                    assert forall|j: int| 0 <= j < n implies keys[j] != role by {
                        assert(keys.contains(keys[j]));
                    }
                }
            }
            assert forall|role: Seq<char>| #[trigger]
                self.by_role@.contains_key(role) <==> before.contains_key(role)
                    || more.by_role@.contains_key(role) by {
                if more.by_role@.contains_key(role) {
                    assert(keys.contains(role));
                }
                if exists|j: int| 0 <= j < n && keys[j] == role {
                    let j = choose|j: int| 0 <= j < n && keys[j] == role;
                    assert(keys.contains(keys[j]));
                }
            }
            let total = usage_total(old(self)@, more@).by_role;
            assert forall|role: Seq<char>| #[trigger]
                self.by_role@.contains_key(role) implies self.by_role@[role] == total[role] by {
                assert(usage_of(self.by_role@, role) == self.by_role@[role]);
            }
            assert(self.by_role@ =~= total);
        }
    }
}

/// Persistent runner state stored at `.pitboss/play/state.json`.
#[derive(Debug, PartialEq, Eq)]
pub struct RunState {
    /// Stable identifier for this run (typically a UTC timestamp slug).
    pub run_id: String,
    /// Git branch the runner is committing to.
    pub branch: String,
    /// Branch that was checked out before the run started. `None` when the
    /// original branch could not be resolved (detached HEAD).
    pub original_branch: Option<String>,
    /// When the run was first started.
    pub started_at: Timestamp,
    /// The `current_phase` at the moment the run began.
    pub started_phase: PhaseId,
    /// Phases the runner has finished and committed.
    pub completed: Vec<PhaseId>,
    /// Number of attempts made per phase, summed across roles. Keyed by the raw
    /// form of the phase id.
    pub attempts: Table<u32>,
    /// Aggregated token usage so far.
    pub token_usage: TokenUsage,
    /// `true` once the run has been explicitly folded via `pitboss fold`.
    /// `pitboss play` and `pitboss rebuy` refuse to act on a folded run.
    pub aborted: bool,
    /// `true` when a deferred-sweep dispatch is owed before the next regular
    /// phase runs. Set at the end of a phase that left the deferred file above
    /// the configured threshold; cleared once the sweep dispatch resolves
    /// (success or trigger no longer fires). Persists across resumes so a halt
    /// during a sweep retries the sweep, not the phase that follows.
    pub pending_sweep: bool,
    /// Number of sweep dispatches the runner has chained without an
    /// intervening real phase commit. Resets to zero on every successful phase
    /// commit.
    pub consecutive_sweeps: u32,
    /// Per-item sweep-attempt counter, keyed on the raw `## Deferred items`
    /// text. Keying on raw text means rephrasing an item resets its counter — a
    /// rewritten item is effectively new work.
    pub deferred_item_attempts: Table<u32>,
    /// `true` once the final regular phase has committed. A resume that finds
    /// this flag set re-enters the final-sweep drain loop directly instead of
    /// dispatching the final phase a second time.
    pub post_final_phase: bool,
}

/// A [`RunState`] as a mathematical value.
#[verifier::ext_equal]
pub struct PlayModel {
    pub run_id: Seq<char>,
    pub branch: Seq<char>,
    pub original_branch: Option<Seq<char>>,
    pub started_at: Timestamp,
    pub started_phase: Seq<char>,
    pub completed: Seq<Seq<char>>,
    pub attempts: Map<Seq<char>, u32>,
    pub token_usage: UsageModel,
    pub aborted: bool,
    pub pending_sweep: bool,
    pub consecutive_sweeps: u32,
    pub deferred_item_attempts: Map<Seq<char>, u32>,
    pub post_final_phase: bool,
}

/// The phase ids as texts.
pub open spec fn id_views(ids: Seq<PhaseId>) -> Seq<Seq<char>> {
    ids.map_values(|id: PhaseId| id@)
}

impl View for RunState {
    type V = PlayModel;

    open spec fn view(&self) -> PlayModel {
        PlayModel {
            run_id: self.run_id@,
            branch: self.branch@,
            original_branch: text::view_of(self.original_branch),
            started_at: self.started_at,
            started_phase: self.started_phase@,
            completed: id_views(self.completed@),
            attempts: self.attempts@,
            token_usage: self.token_usage@,
            aborted: self.aborted,
            pending_sweep: self.pending_sweep,
            consecutive_sweeps: self.consecutive_sweeps,
            deferred_item_attempts: self.deferred_item_attempts@,
            post_final_phase: self.post_final_phase,
        }
    }
}

/// The state of a run that has just started.
pub open spec fn fresh_state(
    run_id: Seq<char>,
    branch: Seq<char>,
    started_phase: Seq<char>,
    now: Timestamp,
) -> PlayModel {
    PlayModel {
        run_id,
        branch,
        original_branch: None,
        started_at: now,
        started_phase,
        completed: Seq::empty(),
        attempts: Map::empty(),
        token_usage: no_usage(),
        aborted: false,
        pending_sweep: false,
        consecutive_sweeps: 0,
        deferred_item_attempts: Map::empty(),
        post_final_phase: false,
    }
}

impl RunState {
    /// Build a fresh `RunState` with no completed phases and zero usage, that
    /// starts at the instant that the system clock shows.
    pub fn new(run_id: &str, branch: &str, started_phase: PhaseId) -> (r: Self)
        ensures
            exists|now: Timestamp|
                now.seconds() >= 0 && r@ == #[trigger] fresh_state(
                    run_id@,
                    branch@,
                    started_phase@,
                    now,
                ),
    {
        RunState::starting_at(run_id, branch, started_phase, Timestamp::now())
    }

    /// Build a fresh `RunState` with no completed phases and zero usage, that
    /// started at `now`.
    pub fn starting_at(run_id: &str, branch: &str, started_phase: PhaseId, now: Timestamp) -> (r:
        Self)
        ensures
            r@ == fresh_state(run_id@, branch@, started_phase@, now),
    {
        let r = RunState {
            run_id: text::owned(run_id),
            branch: text::owned(branch),
            original_branch: None,
            started_at: now,
            started_phase,
            completed: Vec::new(),
            attempts: Table::new(),
            token_usage: TokenUsage::zero(),
            aborted: false,
            pending_sweep: false,
            consecutive_sweeps: 0,
            deferred_item_attempts: Table::new(),
            post_final_phase: false,
        };
        assert(r@ =~= fresh_state(run_id@, branch@, started_phase@, now));
        r
    }
}

} // verus!
