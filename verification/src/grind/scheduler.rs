//! Pure rotation scheduler.
//!
//! Given a [`GrindPlan`], a lookup of [`PromptDoc`]s, and a
//! [`SchedulerState`], decide which prompt the runner should dispatch next.
//! The scheduler does no IO — every call is a deterministic function of its
//! inputs.
//!
//! The selection algorithm is weighted round-robin by deficit. Each rotation:
//!
//! 1. `state.rotation` is incremented before any picking happens.
//! 2. The candidate set is the plan's prompts that pass two gates: the every
//!    gate (`rotation % effective_every == 0`) and the max-runs gate
//!    (`runs[name] < effective_max_runs`).
//! 3. Among the candidates, the prompt with the highest score wins, where
//!    `score(i) = weight[i] * total_runs - runs[i] * total_weight` summed only
//!    over the candidate set. Ties break alphabetically by name. The score is
//!    proportional to "how far prompt `i` is below its weighted fair-share
//!    today", so over a long run, runs converge to the configured weight ratio.
//! 4. If the candidate set is empty (all gated out, or the plan is empty),
//!    [`Scheduler::next`] returns `None`.
//!
//! [`Scheduler::record_run`] is the way the runner reports a successful (or
//! attempted) dispatch back into the scheduler. It is intentionally separate
//! from [`Scheduler::next`] so the runner can decide not to count a session
//! that never made it past the pre-session hook.

use vstd::prelude::*;

use super::plan::{GrindPlan, PlanPromptRef};
use super::prompt::PromptDoc;
use crate::table::Table;
use crate::text;

verus! {

/// Mutable scheduler state. Persisted between rotations so a run can be
/// checkpointed to disk and resumed.
#[derive(Debug, PartialEq, Eq)]
pub struct SchedulerState {
    /// 1-based rotation counter. Incremented at the top of every
    /// [`Scheduler::next`] call (whether or not a prompt is picked), so
    /// `every`-gated prompts advance even on rotations that produce `None`.
    pub rotation: u64,
    /// How many times each prompt has been recorded as run. Keyed by prompt
    /// name. A missing entry means zero runs.
    pub runs_per_prompt: Table<u32>,
}

/// Pure rotation scheduler. See the module docs for the selection algorithm.
#[derive(Debug)]
pub struct Scheduler {
    plan: GrindPlan,
    prompts: Table<PromptDoc>,
    state: SchedulerState,
}

/// The most entries that a plan can have for its scores to fit their type. No
/// vector that fits in memory is longer.
pub const MAX_ENTRIES: u64 = 0x3fff_ffff_ffff_ffff;

// ---------------------------------------------------------------------------
// Candidates
// ---------------------------------------------------------------------------

/// A prompt that may be picked in a rotation.
pub struct Offer {
    pub name: Seq<char>,
    pub weight: nat,
    pub runs: nat,
}

/// The runs recorded for `name`.
pub open spec fn runs_of(runs: Map<Seq<char>, u32>, name: Seq<char>) -> nat {
    if runs.contains_key(name) {
        runs[name] as nat
    } else {
        0
    }
}

/// The weight that the entry gives its prompt.
pub open spec fn effective_weight(entry: PlanPromptRef, doc: PromptDoc) -> u32 {
    match entry.weight_override {
        Some(w) => w,
        None => doc.meta.weight,
    }
}

/// The cadence that the entry gives its prompt.
pub open spec fn effective_every(entry: PlanPromptRef, doc: PromptDoc) -> u32 {
    match entry.every_override {
        Some(n) => n,
        None => doc.meta.every,
    }
}

/// The run cap that the entry gives its prompt.
pub open spec fn effective_max_runs(entry: PlanPromptRef, doc: PromptDoc) -> Option<u32> {
    match entry.max_runs_override {
        Some(n) => Some(n),
        None => doc.meta.max_runs,
    }
}

/// The entry passes both gates in the rotation `rotation`.
pub open spec fn passes(
    entry: PlanPromptRef,
    prompts: Map<Seq<char>, PromptDoc>,
    rotation: nat,
    runs: Map<Seq<char>, u32>,
) -> bool {
    &&& prompts.contains_key(entry.name@)
    &&& {
        let doc = prompts[entry.name@];
        let every = effective_every(entry, doc);
        &&& every != 0 && rotation % (every as nat) == 0
        &&& (effective_max_runs(entry, doc) matches Some(cap) ==> runs_of(runs, entry.name@) < cap)
    }
}

/// The candidates of a rotation, in plan order.
pub open spec fn offers(
    entries: Seq<PlanPromptRef>,
    prompts: Map<Seq<char>, PromptDoc>,
    rotation: nat,
    runs: Map<Seq<char>, u32>,
) -> Seq<Offer>
    decreases entries.len(),
{
    if entries.len() == 0 {
        Seq::empty()
    } else {
        let front = offers(entries.drop_last(), prompts, rotation, runs);
        let entry = entries.last();
        if passes(entry, prompts, rotation, runs) {
            front.push(
                Offer {
                    name: entry.name@,
                    weight: effective_weight(entry, prompts[entry.name@]) as nat,
                    runs: runs_of(runs, entry.name@),
                },
            )
        } else {
            front
        }
    }
}

/// The weights of `o` added up.
pub open spec fn total_weight(o: Seq<Offer>) -> nat
    decreases o.len(),
{
    if o.len() == 0 {
        0
    } else {
        total_weight(o.drop_last()) + o.last().weight
    }
}

/// The runs of `o` added up.
pub open spec fn total_runs(o: Seq<Offer>) -> nat
    decreases o.len(),
{
    if o.len() == 0 {
        0
    } else {
        total_runs(o.drop_last()) + o.last().runs
    }
}

/// How far candidate `i` is below its fair share.
pub open spec fn score(o: Seq<Offer>, i: int) -> int {
    o[i].weight * total_runs(o) - o[i].runs * total_weight(o)
}

/// Candidate `i` is preferred over candidate `j`.
pub open spec fn beats(o: Seq<Offer>, i: int, j: int) -> bool {
    score(o, i) > score(o, j) || score(o, i) == score(o, j) && text::precedes(o[i].name, o[j].name)
}

/// Candidate `k` is the one to pick: it beats those before it, and none behind
/// it beats it.
pub open spec fn chosen(o: Seq<Offer>, k: int) -> bool {
    &&& 0 <= k < o.len()
    &&& forall|i: int| 0 <= i < k ==> #[trigger] beats(o, k, i)
    &&& forall|i: int| k < i < o.len() ==> !#[trigger] beats(o, i, k)
}

/// The result of a rotation over the candidates `o`.
pub open spec fn picked(
    o: Seq<Offer>,
    prompts: Map<Seq<char>, PromptDoc>,
    r: Option<PromptDoc>,
) -> bool {
    match r {
        None => o.len() == 0,
        Some(doc) => exists|k: int| #[trigger]
            chosen(o, k) && prompts.contains_key(o[k].name) && doc@ == prompts[o[k].name]@,
    }
}

/// A rotation picks nothing exactly where there is no candidate; what it picks is the
/// prompt of the one candidate that is to be picked.
pub proof fn a_candidate_is_always_picked(
    o: Seq<Offer>,
    prompts: Map<Seq<char>, PromptDoc>,
    r: Option<PromptDoc>,
)
    requires
        picked(o, prompts, r),
    ensures
        r is None <==> o.len() == 0,
        r matches Some(doc) ==> exists|k: int|
            0 <= k < o.len() && #[trigger] chosen(o, k) && prompts.contains_key(o[k].name) && doc@
                == prompts[o[k].name]@,
{
}

// ---------------------------------------------------------------------------
// Laws of a pick
// ---------------------------------------------------------------------------

/// At most one candidate is the one to pick, so equal inputs give equal picks.
pub proof fn pick_is_unique(o: Seq<Offer>, a: int, b: int)
    requires
        chosen(o, a),
        chosen(o, b),
    ensures
        a == b,
{
    if a < b {
        assert(beats(o, b, a));
    } else if b < a {
        assert(beats(o, a, b));
    }
}

/// The pick has the highest score, and of those with the highest score none
/// comes alphabetically before it.
pub proof fn pick_is_best(o: Seq<Offer>, k: int, i: int)
    requires
        chosen(o, k),
        0 <= i < o.len(),
    ensures
        score(o, i) <= score(o, k),
        score(o, i) == score(o, k) ==> !text::precedes(o[i].name, o[k].name),
{
    if i < k {
        assert(beats(o, k, i));
        text::precedes_total(o[k].name, o[i].name);
    } else if i > k {
        assert(!beats(o, i, k));
    } else {
        text::precedes_irreflexive(o[k].name);
    }
}

/// Every candidate is an entry of the plan that passes both gates: its prompt
/// exists, its cadence divides the rotation, and it has a run left under its
/// cap, so that recording one more run keeps within the cap.
pub proof fn candidates_pass_gates(
    entries: Seq<PlanPromptRef>,
    prompts: Map<Seq<char>, PromptDoc>,
    rotation: nat,
    runs: Map<Seq<char>, u32>,
    k: int,
)
    requires
        0 <= k < offers(entries, prompts, rotation, runs).len(),
    ensures
        exists|i: int|
            {
                &&& 0 <= i < entries.len()
                &&& passes(#[trigger] entries[i], prompts, rotation, runs)
                &&& entries[i].name@ == offers(entries, prompts, rotation, runs)[k].name
                &&& (effective_max_runs(entries[i], prompts[entries[i].name@]) matches Some(cap)
                    ==> offers(entries, prompts, rotation, runs)[k].runs + 1 <= cap)
            },
    decreases entries.len(),
{
    let front = entries.drop_last();
    let o = offers(front, prompts, rotation, runs);
    if k < o.len() {
        candidates_pass_gates(front, prompts, rotation, runs, k);
        let i = choose|i: int|
            {
                &&& 0 <= i < front.len()
                &&& passes(#[trigger] front[i], prompts, rotation, runs)
                &&& front[i].name@ == o[k].name
                &&& (effective_max_runs(front[i], prompts[front[i].name@]) matches Some(cap)
                    ==> o[k].runs + 1 <= cap)
            };
        assert(entries[i] == front[i]);
    } else {
        let i = entries.len() - 1;
        assert(passes(entries[i], prompts, rotation, runs));
    }
}

/// No entry that passes both gates is left out: it is one of the candidates.
pub proof fn passing_entries_are_candidates(
    entries: Seq<PlanPromptRef>,
    prompts: Map<Seq<char>, PromptDoc>,
    rotation: nat,
    runs: Map<Seq<char>, u32>,
    i: int,
)
    requires
        0 <= i < entries.len(),
        passes(entries[i], prompts, rotation, runs),
    ensures
        exists|k: int|
            0 <= k < offers(entries, prompts, rotation, runs).len() && #[trigger] offers(
                entries,
                prompts,
                rotation,
                runs,
            )[k].name == entries[i].name@,
    decreases entries.len(),
{
    let front = entries.drop_last();
    let o = offers(front, prompts, rotation, runs);
    let all = offers(entries, prompts, rotation, runs);
    if i < front.len() {
        passing_entries_are_candidates(front, prompts, rotation, runs, i);
        let k = choose|k: int| 0 <= k < o.len() && #[trigger] o[k].name == front[i].name@;
        assert(all[k].name == entries[i].name@);
    } else {
        assert(all[all.len() - 1].name == entries[i].name@);
    }
}

/// The override of a plan entry always wins. A candidate is made of a plan
/// entry whose prompt exists. Its weight is the entry's override where the entry
/// has one, whatever the frontmatter says, and else the frontmatter's. Likewise
/// the override of the cadence, and else the frontmatter's cadence, is what
/// divides the rotation, and the override of the run cap, and else the
/// frontmatter's, is what the runs stay below. Its runs are those recorded under
/// its name.
pub proof fn overrides_win(
    entries: Seq<PlanPromptRef>,
    prompts: Map<Seq<char>, PromptDoc>,
    rotation: nat,
    runs: Map<Seq<char>, u32>,
    k: int,
)
    requires
        0 <= k < offers(entries, prompts, rotation, runs).len(),
    ensures
        exists|i: int|
            0 <= i < entries.len() && {
                let entry = #[trigger] entries[i];
                let offer = offers(entries, prompts, rotation, runs)[k];
                let meta = prompts[entry.name@].meta;
                &&& prompts.contains_key(entry.name@)
                &&& offer.name == entry.name@
                &&& entry.weight_override matches Some(w) ==> offer.weight == w
                &&& entry.weight_override is None ==> offer.weight == meta.weight
                &&& entry.every_override matches Some(n) ==> n > 0 && rotation % (n as nat) == 0
                &&& entry.every_override is None ==> meta.every > 0 && rotation % (
                meta.every as nat) == 0
                &&& entry.max_runs_override matches Some(cap) ==> offer.runs < cap
                &&& entry.max_runs_override is None ==> (meta.max_runs matches Some(cap)
                    ==> offer.runs < cap)
                &&& runs.contains_key(entry.name@) ==> offer.runs == runs[entry.name@]
                &&& !runs.contains_key(entry.name@) ==> offer.runs == 0
            },
    decreases entries.len(),
{
    let front = entries.drop_last();
    let o = offers(front, prompts, rotation, runs);
    let all = offers(entries, prompts, rotation, runs);
    if k < o.len() {
        overrides_win(front, prompts, rotation, runs, k);
        assert(all[k] == o[k]);
        assert forall|i: int| 0 <= i < front.len() implies #[trigger] front[i] == entries[i] by {}
        let i = choose|i: int|
            0 <= i < front.len() && {
                let entry = #[trigger] front[i];
                let offer = o[k];
                let meta = prompts[entry.name@].meta;
                &&& prompts.contains_key(entry.name@)
                &&& offer.name == entry.name@
                &&& entry.weight_override matches Some(w) ==> offer.weight == w
                &&& entry.weight_override is None ==> offer.weight == meta.weight
                &&& entry.every_override matches Some(n) ==> n > 0 && rotation % (n as nat) == 0
                &&& entry.every_override is None ==> meta.every > 0 && rotation % (
                meta.every as nat) == 0
                &&& entry.max_runs_override matches Some(cap) ==> offer.runs < cap
                &&& entry.max_runs_override is None ==> (meta.max_runs matches Some(cap)
                    ==> offer.runs < cap)
                &&& runs.contains_key(entry.name@) ==> offer.runs == runs[entry.name@]
                &&& !runs.contains_key(entry.name@) ==> offer.runs == 0
            };
        assert(front[i] == entries[i]);
    } else {
        assert(entries[entries.len() - 1] == entries.last());
    }
}

/// What one more plan entry adds. Where its prompt exists, its own cadence (the
/// override, else the frontmatter's) divides the rotation, and its own run cap
/// (the override, else the frontmatter's) is not used up, the entry is the last
/// candidate, with the weight of the override, else of the frontmatter. In every
/// other case it adds none. The candidates before it stay as they are, so the
/// candidates stand in plan order and no entry is one twice.
pub proof fn each_entry_is_judged_alone(
    entries: Seq<PlanPromptRef>,
    entry: PlanPromptRef,
    prompts: Map<Seq<char>, PromptDoc>,
    rotation: nat,
    runs: Map<Seq<char>, u32>,
    every: u32,
    cap: Option<u32>,
    weight: u32,
    count: u32,
)
    requires
        prompts.contains_key(entry.name@) ==> {
            let meta = prompts[entry.name@].meta;
            &&& entry.every_override == Some(every) || entry.every_override is None && every
                == meta.every
            &&& entry.max_runs_override is Some && cap == entry.max_runs_override
                || entry.max_runs_override is None && cap == meta.max_runs
            &&& entry.weight_override == Some(weight) || entry.weight_override is None && weight
                == meta.weight
        },
        runs.contains_key(entry.name@) && runs[entry.name@] == count || !runs.contains_key(
            entry.name@,
        ) && count == 0,
    ensures
        ({
            let before = offers(entries, prompts, rotation, runs);
            let after = offers(entries.push(entry), prompts, rotation, runs);
            let fits = prompts.contains_key(entry.name@) && every > 0 && rotation % (every as nat)
                == 0 && (cap is Some ==> count < cap->0);
            &&& fits ==> after == before.push(
                Offer { name: entry.name@, weight: weight as nat, runs: count as nat },
            )
            &&& !fits ==> after == before
        }),
        offers(Seq::empty(), prompts, rotation, runs).len() == 0,
{
    assert(entries.push(entry).drop_last() =~= entries);
}

// ---------------------------------------------------------------------------
// Fairness
// ---------------------------------------------------------------------------

/// `o` after one more run of candidate `k`.
pub open spec fn after_run(o: Seq<Offer>, k: int) -> Seq<Offer> {
    o.update(k, Offer { name: o[k].name, weight: o[k].weight, runs: o[k].runs + 1 })
}

/// No candidate is a whole run ahead of its fair share:
/// `runs[i] < weight[i] * total_runs / total_weight + 1`.
pub open spec fn fair(o: Seq<Offer>) -> bool {
    forall|i: int| 0 <= i < o.len() ==> #[trigger] score(o, i) > -(total_weight(o) as int)
}

/// Every candidate has a weight.
pub open spec fn weighted(o: Seq<Offer>) -> bool {
    forall|i: int| 0 <= i < o.len() ==> (#[trigger] o[i]).weight >= 1
}

/// The scores of the first `n` candidates added up, in the totals of all.
spec fn score_sum(o: Seq<Offer>, n: int) -> int
    decreases n,
{
    if n <= 0 {
        0
    } else {
        score_sum(o, n - 1) + score(o, n - 1)
    }
}

proof fn score_sum_by_totals(o: Seq<Offer>, n: int)
    requires
        0 <= n <= o.len(),
    ensures
        score_sum(o, n) == total_weight(o.take(n)) * total_runs(o) - total_runs(o.take(n))
            * total_weight(o),
    decreases n,
{
    let (r, w) = (total_runs(o) as int, total_weight(o) as int);
    if n > 0 {
        score_sum_by_totals(o, n - 1);
        let front = o.take(n - 1);
        assert(o.take(n).drop_last() =~= front);
        let last = o[n - 1];
        let (a, b) = (total_weight(front) as int, last.weight as int);
        let (c, d) = (total_runs(front) as int, last.runs as int);
        assert((a + b) * r == a * r + b * r) by (nonlinear_arith);
        assert((c + d) * w == c * w + d * w) by (nonlinear_arith);
    } else {
        assert(total_weight(o.take(0)) == 0 && total_runs(o.take(0)) == 0);
    }
}

proof fn scores_cancel(o: Seq<Offer>)
    ensures
        score_sum(o, o.len() as int) == 0,
{
    score_sum_by_totals(o, o.len() as int);
    assert(o.take(o.len() as int) =~= o);
    let (r, w) = (total_runs(o) as int, total_weight(o) as int);
    assert(w * r == r * w) by (nonlinear_arith);
}

proof fn score_sum_below(o: Seq<Offer>, n: int, top: int)
    requires
        0 <= n <= o.len(),
        top < 0,
        forall|i: int| 0 <= i < o.len() ==> #[trigger] score(o, i) <= top,
    ensures
        n > 0 ==> score_sum(o, n) < 0,
        n == 0 ==> score_sum(o, n) == 0,
    decreases n,
{
    if n > 0 {
        score_sum_below(o, n - 1, top);
        assert(score(o, n - 1) <= top);
    }
}

proof fn score_sum_above(o: Seq<Offer>, n: int, skip: int, floor: int)
    requires
        0 <= n <= o.len(),
        floor <= 0,
        0 <= skip < o.len(),
        forall|i: int| 0 <= i < o.len() ==> #[trigger] score(o, i) >= floor,
    ensures
        n <= skip ==> score_sum(o, n) >= n * floor,
        n > skip ==> score_sum(o, n) >= score(o, skip) + (n - 1) * floor,
    decreases n,
{
    if n > 0 {
        score_sum_above(o, n - 1, skip, floor);
        assert(score(o, n - 1) >= floor);
        assert(n * floor == (n - 1) * floor + floor) by (nonlinear_arith);
        assert((n - 1) * floor == (n - 2) * floor + floor) by (nonlinear_arith);
    } else {
        assert(0 * floor == 0) by (nonlinear_arith);
    }
}

proof fn totals_after_run(o: Seq<Offer>, k: int)
    requires
        0 <= k < o.len(),
    ensures
        total_weight(after_run(o, k)) == total_weight(o),
        total_runs(after_run(o, k)) == total_runs(o) + 1,
    decreases o.len(),
{
    let p = after_run(o, k);
    if k == o.len() - 1 {
        assert(p.drop_last() =~= o.drop_last());
    } else {
        assert(p.drop_last() =~= after_run(o.drop_last(), k));
        totals_after_run(o.drop_last(), k);
    }
}

/// Before any run, no candidate is ahead of its share.
pub proof fn fair_at_start(o: Seq<Offer>)
    requires
        weighted(o),
        forall|i: int| 0 <= i < o.len() ==> (#[trigger] o[i]).runs == 0,
    ensures
        fair(o),
{
    no_runs_yet(o);
    assert forall|i: int| 0 <= i < o.len() implies #[trigger] score(o, i) > -(total_weight(
        o,
    ) as int) by {
        let w = total_weight(o) as int;
        assert(o[i].runs == 0 && o[i].weight >= 1);
        assert(0 * w == 0) by (nonlinear_arith);
        weight_is_part(o, i);
    }
}

proof fn no_runs_yet(o: Seq<Offer>)
    requires
        forall|i: int| 0 <= i < o.len() ==> (#[trigger] o[i]).runs == 0,
    ensures
        total_runs(o) == 0,
    decreases o.len(),
{
    if o.len() > 0 {
        assert forall|i: int| 0 <= i < o.drop_last().len() implies (#[trigger] o.drop_last()[i]).runs
            == 0 by {
            assert(o.drop_last()[i] == o[i]);
        }
        no_runs_yet(o.drop_last());
    }
}

proof fn weight_is_part(o: Seq<Offer>, i: int)
    requires
        0 <= i < o.len(),
    ensures
        o[i].weight <= total_weight(o),
    decreases o.len(),
{
    if i < o.len() - 1 {
        weight_is_part(o.drop_last(), i);
    }
}

/// Picking by score keeps every candidate within a whole run of its fair
/// share: where no candidate was a run ahead before the pick, none is after it.
pub proof fn picking_stays_fair(o: Seq<Offer>, k: int)
    requires
        weighted(o),
        fair(o),
        chosen(o, k),
    ensures
        fair(after_run(o, k)),
{
    let p = after_run(o, k);
    totals_after_run(o, k);
    let (r, w) = (total_runs(o) as int, total_weight(o) as int);
    assert(score(o, k) >= 0) by {
        if score(o, k) < 0 {
            scores_cancel(o);
            assert forall|i: int| 0 <= i < o.len() implies #[trigger] score(o, i) <= score(o, k) by {
                pick_is_best(o, k, i);
            }
            score_sum_below(o, o.len() as int, score(o, k));
        }
    }
    assert forall|i: int| 0 <= i < p.len() implies #[trigger] score(p, i) > -(total_weight(
        p,
    ) as int) by {
        let (a, b) = (o[i].weight as int, o[i].runs as int);
        assert(o[i].weight >= 1);
        assert(score(o, i) > -w);
        assert(a * (r + 1) == a * r + a) by (nonlinear_arith);
        assert((b + 1) * w == b * w + w) by (nonlinear_arith);
    }
}

/// What fairness means for a candidate: it is less than one run ahead of its
/// share, and no further behind it than the others together can be ahead. With
/// two candidates both bounds are less than one run.
pub proof fn fair_share(o: Seq<Offer>, i: int)
    requires
        fair(o),
        0 <= i < o.len(),
        total_weight(o) >= 1,
    ensures
        o[i].runs * total_weight(o) < o[i].weight * total_runs(o) + total_weight(o),
        o[i].weight * total_runs(o) <= o[i].runs * total_weight(o) + (o.len() - 1) * (total_weight(
            o,
        ) - 1),
{
    let w = total_weight(o) as int;
    assert(score(o, i) > -w);
    assert forall|j: int| 0 <= j < o.len() implies #[trigger] score(o, j) >= -(w - 1) by {
        assert(score(o, j) > -w);
    }
    scores_cancel(o);
    score_sum_above(o, o.len() as int, i, -(w - 1));
    assert((o.len() - 1) * (-(w - 1)) == -((o.len() - 1) * (w - 1))) by (nonlinear_arith);
}

// ---------------------------------------------------------------------------
// Operations
// ---------------------------------------------------------------------------

struct Candidate {
    index: usize,
    weight: u32,
    runs: u32,
}

spec fn candidate_offers(entries: Seq<PlanPromptRef>, c: Seq<Candidate>) -> Seq<Offer> {
    c.map_values(
        |c: Candidate|
            Offer {
                name: entries[c.index as int].name@,
                weight: c.weight as nat,
                runs: c.runs as nat,
            },
    )
}

impl SchedulerState {
    /// Rotation zero with no recorded runs.
    pub fn new() -> (r: Self)
        ensures
            r.rotation == 0,
            r.runs_per_prompt@ == Map::<Seq<char>, u32>::empty(),
    {
        SchedulerState { rotation: 0, runs_per_prompt: Table::new() }
    }

    /// A copy of the state.
    pub fn copy(&self) -> (r: Self)
        ensures
            r.rotation == self.rotation,
            r.runs_per_prompt@ == self.runs_per_prompt@,
    {
        SchedulerState { rotation: self.rotation, runs_per_prompt: self.runs_per_prompt.copy() }
    }
}

/// `runs` with one more run of `name`.
pub open spec fn counted(runs: Map<Seq<char>, u32>, name: Seq<char>) -> Map<Seq<char>, u32> {
    let n = runs_of(runs, name);
    runs.insert(
        name,
        if n < u32::MAX {
            (n + 1) as u32
        } else {
            u32::MAX
        },
    )
}

/// Recording a run of one prompt leaves the counts of all others as they were.
pub proof fn counting_touches_one(runs: Map<Seq<char>, u32>, name: Seq<char>, other: Seq<char>)
    ensures
        other != name ==> runs_of(counted(runs, name), other) == runs_of(runs, other),
        runs_of(runs, name) < u32::MAX ==> runs_of(counted(runs, name), name) == runs_of(runs, name)
            + 1,
        runs_of(runs, name) == u32::MAX ==> runs_of(counted(runs, name), name) == u32::MAX,
        counted(runs, name).contains_key(name),
        counted(runs, name).contains_key(other) <==> other == name || runs.contains_key(other),
        other != name && runs.contains_key(other) ==> counted(runs, name)[other] == runs[other],
{
}

impl Scheduler {
    #[verifier::type_invariant]
    spec fn bounded(self) -> bool {
        self.plan.prompts@.len() <= MAX_ENTRIES
    }

    /// The plan that is scheduled.
    pub closed spec fn the_plan(self) -> GrindPlan {
        self.plan
    }

    /// The prompts by name.
    pub closed spec fn the_prompts(self) -> Map<Seq<char>, PromptDoc> {
        self.prompts@
    }

    /// The rotation counter.
    pub closed spec fn the_rotation(self) -> u64 {
        self.state.rotation
    }

    /// The recorded runs.
    pub closed spec fn the_runs(self) -> Map<Seq<char>, u32> {
        self.state.runs_per_prompt@
    }

    /// The candidates of the rotation `rotation`.
    pub open spec fn candidates(self, rotation: nat) -> Seq<Offer> {
        offers(self.the_plan().prompts@, self.the_prompts(), rotation, self.the_runs())
    }

    /// Build a scheduler at rotation 0 with no recorded runs.
    pub fn new(plan: GrindPlan, prompts: Table<PromptDoc>) -> (r: Self)
        requires
            plan.prompts@.len() <= MAX_ENTRIES,
        ensures
            r.the_plan() == plan,
            r.the_prompts() == prompts@,
            r.the_rotation() == 0,
            r.the_runs() == Map::<Seq<char>, u32>::empty(),
    {
        Scheduler { plan, prompts, state: SchedulerState::new() }
    }

    /// Build a scheduler from a previously-persisted state.
    pub fn with_state(plan: GrindPlan, prompts: Table<PromptDoc>, state: SchedulerState) -> (r: Self)
        requires
            plan.prompts@.len() <= MAX_ENTRIES,
        ensures
            r.the_plan() == plan,
            r.the_prompts() == prompts@,
            r.the_rotation() == state.rotation,
            r.the_runs() == state.runs_per_prompt@,
    {
        Scheduler { plan, prompts, state }
    }

    /// Read-only access to the underlying plan.
    pub fn plan(&self) -> (r: &GrindPlan)
        ensures
            *r == self.the_plan(),
    {
        &self.plan
    }

    /// Read-only access to the prompts by name.
    pub fn prompts(&self) -> (r: &Table<PromptDoc>)
        ensures
            r@ == self.the_prompts(),
    {
        &self.prompts
    }

    /// Read-only access to the current scheduler state.
    pub fn state(&self) -> (r: &SchedulerState)
        ensures
            r.rotation == self.the_rotation(),
            r.runs_per_prompt@ == self.the_runs(),
    {
        &self.state
    }

    /// Record that `name` was just dispatched. Bumps `runs_per_prompt[name]`.
    /// Saturates at `u32::MAX`; in practice rotation counts are far below that.
    pub fn record_run(&mut self, name: &str)
        ensures
            final(self).the_plan() == old(self).the_plan(),
            final(self).the_prompts() == old(self).the_prompts(),
            final(self).the_rotation() == old(self).the_rotation(),
            final(self).the_runs() == counted(old(self).the_runs(), name@),
    {
        proof {
            use_type_invariant(&*self);
        }
        let now: u32 = match self.state.runs_per_prompt.get(name) {
            Some(n) => n.saturating_add(1),
            None => 1,
        };
        let mut runs: Table<u32> = Table::new();
        std::mem::swap(&mut runs, &mut self.state.runs_per_prompt);
        runs.insert(name, now);
        self.state.runs_per_prompt = runs;
    }

    /// Advance the rotation and return the next prompt to dispatch, if any.
    ///
    /// Always increments `state.rotation`, even when no prompt is eligible —
    /// otherwise an `every`-gated prompt that the caller polls for could never
    /// reach its rotation.
    pub fn next(&mut self) -> (r: Option<PromptDoc>)
        ensures
            final(self).the_plan() == old(self).the_plan(),
            final(self).the_prompts() == old(self).the_prompts(),
            final(self).the_runs() == old(self).the_runs(),
            final(self).the_rotation() == if old(self).the_rotation() < u64::MAX {
                (old(self).the_rotation() + 1) as u64
            } else {
                u64::MAX
            },
            picked(
                final(self).candidates(final(self).the_rotation() as nat),
                final(self).the_prompts(),
                r,
            ),
    {
        proof {
            use_type_invariant(&*self);
        }
        let rotation: u64 = self.state.rotation.saturating_add(1);
        self.state.rotation = rotation;
        let ghost entries = self.plan.prompts@;
        let ghost all = self.prompts@;
        let ghost runs = self.state.runs_per_prompt@;
        let cands = self.gather(rotation);
        let ghost o = candidate_offers(entries, cands@);
        if cands.len() == 0 {
            return None;
        }
        let best = choose_candidate(&self.plan.prompts, &cands);
        proof {
            assert(chosen(o, best as int));
            candidates_pass_gates(entries, all, rotation as nat, runs, best as int);
        }
        let name = &self.plan.prompts[cands[best].index].name;
        match self.prompts.get(name.as_str()) {
            Some(doc) => Some(doc.copy()),
            None => None,
        }
    }

    fn gather(&self, rotation: u64) -> (r: Vec<Candidate>)
        ensures
            candidate_offers(self.plan.prompts@, r@) == offers(
                self.plan.prompts@,
                self.prompts@,
                rotation as nat,
                self.state.runs_per_prompt@,
            ),
            forall|i: int|
                0 <= i < r@.len() ==> (#[trigger] r@[i]).index < self.plan.prompts@.len(),
            r@.len() <= self.plan.prompts@.len(),
    {
        let ghost entries = self.plan.prompts@;
        let ghost all = self.prompts@;
        let ghost runs = self.state.runs_per_prompt@;
        let mut out: Vec<Candidate> = Vec::new();
        for i in 0..self.plan.prompts.len()
            invariant
                entries == self.plan.prompts@,
                all == self.prompts@,
                runs == self.state.runs_per_prompt@,
                candidate_offers(entries, out@) == offers(
                    entries.take(i as int),
                    all,
                    rotation as nat,
                    runs,
                ),
                forall|k: int| 0 <= k < out@.len() ==> (#[trigger] out@[k]).index < entries.len(),
                out@.len() <= i,
        {
            let entry = &self.plan.prompts[i];
            proof {
                assert(entries.take(i + 1).drop_last() =~= entries.take(i as int));
                assert(entries.take(i + 1).last() == entry);
            }
            if let Some(doc) = self.prompts.get(entry.name.as_str()) {
                let weight: u32 = entry.weight_override.unwrap_or(doc.meta.weight);
                let every: u32 = entry.every_override.unwrap_or(doc.meta.every);
                let cap: Option<u32> = match entry.max_runs_override {
                    Some(n) => Some(n),
                    None => doc.meta.max_runs,
                };
                let count: u32 = match self.state.runs_per_prompt.get(entry.name.as_str()) {
                    Some(n) => *n,
                    None => 0,
                };
                let due: bool = every != 0 && rotation % (every as u64) == 0;
                let spent: bool = match cap {
                    Some(n) => count >= n,
                    None => false,
                };
                if due && !spent {
                    let ghost before = out@;
                    let c = Candidate { index: i, weight, runs: count };
                    out.push(c);
                    proof {
                        assert(candidate_offers(entries, out@) =~= candidate_offers(
                            entries,
                            before,
                        ).push(
                            Offer {
                                name: entry.name@,
                                weight: weight as nat,
                                runs: count as nat,
                            },
                        ));
                    }
                }
            }
        }
        assert(entries.take(entries.len() as int) =~= entries);
        out
    }
}

fn choose_candidate(entries: &Vec<PlanPromptRef>, cands: &Vec<Candidate>) -> (r: usize)
    requires
        0 < cands@.len() <= MAX_ENTRIES,
        forall|i: int| 0 <= i < cands@.len() ==> (#[trigger] cands@[i]).index < entries@.len(),
    ensures
        chosen(candidate_offers(entries@, cands@), r as int),
{
    let ghost o = candidate_offers(entries@, cands@);
    let n: usize = cands.len();
    let mut weight: i128 = 0;
    let mut runs: i128 = 0;
    for i in 0..n
        invariant
            n == cands@.len(),
            n <= MAX_ENTRIES,
            o == candidate_offers(entries@, cands@),
            weight == total_weight(o.take(i as int)),
            runs == total_runs(o.take(i as int)),
            0 <= weight <= i * 0xffff_ffff,
            0 <= runs <= i * 0xffff_ffff,
    {
        proof {
            assert(o.take(i + 1).drop_last() =~= o.take(i as int));
            assert(o.take(i + 1).last() == o[i as int]);
        }
        weight = weight + cands[i].weight as i128;
        runs = runs + cands[i].runs as i128;
    }
    assert(o.take(n as int) =~= o);
    let mut best: usize = 0;
    let mut best_score: i128 = candidate_score(&cands[0], weight, runs);
    for i in 1..n
        invariant
            n == cands@.len(),
            n <= MAX_ENTRIES,
            o == candidate_offers(entries@, cands@),
            forall|i: int| 0 <= i < cands@.len() ==> (#[trigger] cands@[i]).index < entries@.len(),
            weight == total_weight(o),
            runs == total_runs(o),
            0 <= weight <= n * 0xffff_ffff,
            0 <= runs <= n * 0xffff_ffff,
            best < i,
            best_score == score(o, best as int),
            forall|j: int| 0 <= j < best ==> #[trigger] beats(o, best as int, j),
            forall|j: int| best < j < i ==> !#[trigger] beats(o, j, best as int),
    {
        let s: i128 = candidate_score(&cands[i], weight, runs);
        let name = &entries[cands[i].index].name;
        let rival = &entries[cands[best].index].name;
        assert(s == score(o, i as int));
        assert(name@ == o[i as int].name && rival@ == o[best as int].name);
        let take: bool = s > best_score || (s == best_score && text::before(
            name.as_str(),
            rival.as_str(),
        ));
        if take {
            proof {
                assert(beats(o, i as int, best as int));
                assert forall|j: int| 0 <= j < i implies #[trigger] beats(o, i as int, j) by {
                    if j < best {
                        assert(beats(o, best as int, j));
                        beats_transitive(o, i as int, best as int, j);
                    } else if j > best {
                        assert(!beats(o, j, best as int));
                        beats_over(o, i as int, best as int, j);
                    }
                }
            }
            best = i;
            best_score = s;
        } else {
            assert(!beats(o, i as int, best as int));
        }
    }
    best
}

fn candidate_score(c: &Candidate, weight: i128, runs: i128) -> (r: i128)
    requires
        0 <= weight <= MAX_ENTRIES * 0xffff_ffff,
        0 <= runs <= MAX_ENTRIES * 0xffff_ffff,
    ensures
        r == c.weight * runs - c.runs * weight,
{
    let (w, n) = (c.weight as i128, c.runs as i128);
    assert(0 <= w * runs <= 0xffff_ffff * (0x3fff_ffff_ffff_ffff * 0xffff_ffff)) by (nonlinear_arith)
        requires
            0 <= w <= 0xffff_ffff,
            0 <= runs <= 0x3fff_ffff_ffff_ffff * 0xffff_ffff,
    ;
    assert(0 <= n * weight <= 0xffff_ffff * (0x3fff_ffff_ffff_ffff * 0xffff_ffff)) by (
    nonlinear_arith)
        requires
            0 <= n <= 0xffff_ffff,
            0 <= weight <= 0x3fff_ffff_ffff_ffff * 0xffff_ffff,
    ;
    w * runs - n * weight
}

proof fn beats_transitive(o: Seq<Offer>, a: int, b: int, c: int)
    requires
        beats(o, a, b),
        beats(o, b, c),
    ensures
        beats(o, a, c),
{
    if score(o, a) == score(o, b) && score(o, b) == score(o, c) {
        text::precedes_transitive(o[a].name, o[b].name, o[c].name);
    }
}

/// What beats `b` beats everything that does not beat `b`.
proof fn beats_over(o: Seq<Offer>, a: int, b: int, c: int)
    requires
        beats(o, a, b),
        !beats(o, c, b),
    ensures
        beats(o, a, c),
{
    if score(o, a) == score(o, b) && score(o, b) == score(o, c) {
        text::precedes_total(o[b].name, o[c].name);
        if o[b].name != o[c].name {
            text::precedes_transitive(o[a].name, o[b].name, o[c].name);
        }
    }
}

} // verus!
