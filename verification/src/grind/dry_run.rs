//! Pure rendering for `pitboss grind --dry-run`.
//!
//! `--dry-run` lets users verify the resolved configuration — discovered
//! prompts and their sources, the selected (or synthesized) plan, the layered
//! budgets, the active hooks, the parallelism cap — and preview which prompts
//! the scheduler will dispatch first, all without touching git, the agent, or
//! any on-disk run directory.
//!
//! The report is split into a deterministic machine-readable header (a
//! single `=== pitboss grind --dry-run ===` line followed by a `version: 1`
//! key so external scrapers can skip-detect), then a human report. Both halves
//! come out of [`render_dry_run_report`] as one string, so the CLI layer just
//! prints whatever this returns.

use vstd::prelude::*;
use vstd::string::StringExecFns;

use super::budget;
use super::budget::BudgetSnapshot;
use super::plan::{GrindPlan, Hooks, PlanBudgets, PlanPromptRef};
use super::prompt::{PromptDoc, PromptSource};
use super::scheduler;
use super::scheduler::{Scheduler, SchedulerState};
use super::state;
use crate::money;
use crate::money::Usd;
use crate::table::Table;
use crate::text;
use crate::time::Timestamp;

verus! {

/// Stable header line at the top of every dry-run report. Intentionally a
/// single literal so a wrapping script can match on it deterministically.
pub const DRY_RUN_HEADER: &'static str = "=== pitboss grind --dry-run ===";

/// Schema version for the dry-run report. Bumped if the section layout below
/// changes in a breaking way; keep it as the second line of the report so
/// scrapers can branch on it.
pub const DRY_RUN_VERSION: &'static str = "1";

/// How many scheduler picks to preview in the dry-run report.
pub const PREVIEW_PICK_COUNT: usize = 10;

/// Inputs to [`render_dry_run_report`]. Everything is borrowed; the caller
/// owns the originals and we never mutate.
pub struct DryRunInputs<'a> {
    /// Workspace root path for display only.
    pub workspace: &'a str,
    /// Resolved agent backend label for display. `None` collapses to
    /// `(default)` so the report tells the user explicitly that no override
    /// was set rather than silently omitting the line.
    pub agent_backend: Option<&'a str>,
    /// All prompts that survived discovery, in discovery order.
    pub prompts: &'a [PromptDoc],
    /// The selected plan, after defaulting / file load and validation.
    pub plan: &'a GrindPlan,
    /// Run-level budgets after layering config.toml `[grind.budgets]`, the
    /// plan's `PlanBudgets`, and any CLI overrides.
    pub budgets: &'a PlanBudgets,
    /// Maximum number of consecutive failed sessions before the
    /// consecutive-failure escape valve fires.
    pub consecutive_failure_limit: u32,
    /// Resume target if `--resume` is set. `None` for a fresh dry-run.
    pub resume_target: Option<&'a str>,
    /// Persisted scheduler state when `--resume` is set. Seeds the preview
    /// scheduler so the picks reflect where the resumed loop would actually
    /// land instead of a fresh rotation. `None` for a fresh dry-run.
    pub resume_scheduler_state: Option<&'a SchedulerState>,
    /// Persisted cumulative budget consumption when `--resume` is set. Shown
    /// in the `## Resume` section so the report surfaces what's already been
    /// spent. `None` for a fresh dry-run.
    pub resume_budget_consumed: Option<&'a BudgetSnapshot>,
    /// Sequence number of the last session recorded for the resumed run, so
    /// the user can see at a glance where the resumed loop will pick up.
    /// `None` for a fresh dry-run.
    pub resume_last_session_seq: Option<u32>,
}

// ---------------------------------------------------------------------------
// The preview
// ---------------------------------------------------------------------------

/// The prompts by name: of those with one name, the last.
pub open spec fn lookup(prompts: Seq<PromptDoc>) -> Map<Seq<char>, PromptDoc>
    decreases prompts.len(),
{
    if prompts.len() == 0 {
        Map::empty()
    } else {
        lookup(prompts.drop_last()).insert(prompts.last().meta.name@, prompts.last())
    }
}

/// A number of rotations: what each picked, and where they leave the
/// scheduler.
pub struct Preview {
    pub picks: Seq<Option<Seq<char>>>,
    pub rotation: u64,
    pub runs: Map<Seq<char>, u32>,
}

/// `n` rotations from a scheduler state on, each pick recorded as a run.
pub open spec fn preview(
    entries: Seq<PlanPromptRef>,
    prompts: Map<Seq<char>, PromptDoc>,
    rotation: u64,
    runs: Map<Seq<char>, u32>,
    n: nat,
) -> Preview
    decreases n,
{
    if n == 0 {
        Preview { picks: Seq::empty(), rotation, runs }
    } else {
        let p = preview(entries, prompts, rotation, runs, (n - 1) as nat);
        let now = state::next_rotation(p.rotation);
        let pick = state::pick_name(entries, prompts, now, p.runs);
        Preview {
            picks: p.picks.push(pick),
            rotation: now,
            runs: match pick {
                Some(name) => scheduler::counted(p.runs, name),
                None => p.runs,
            },
        }
    }
}

/// A preview is the rotation that would run: as many picks as were asked for, each
/// what the scheduler picks in the next rotation with the picks before it counted
/// as runs. A longer preview begins with the shorter one.
pub proof fn a_preview_is_the_rotation_to_come(
    entries: Seq<PlanPromptRef>,
    prompts: Map<Seq<char>, PromptDoc>,
    rotation: u64,
    runs: Map<Seq<char>, u32>,
    n: nat,
    i: int,
)
    requires
        rotation + n <= u64::MAX,
        0 <= i < n,
    ensures
        ({
            let all = preview(entries, prompts, rotation, runs, n);
            let some = preview(entries, prompts, rotation, runs, i as nat);
            &&& all.picks.len() == n && all.rotation == rotation + n
            &&& some.picks.len() == i && all.picks.take(i) == some.picks
            &&& all.picks[i] == state::pick_name(
                entries,
                prompts,
                (rotation + i + 1) as u64,
                some.runs,
            )
        }),
    decreases n,
{
    let less = (n - 1) as nat;
    let all = preview(entries, prompts, rotation, runs, n);
    let p = preview(entries, prompts, rotation, runs, less);
    if less > 0 {
        a_preview_is_the_rotation_to_come(entries, prompts, rotation, runs, less, less - 1);
    }
    if i < less {
        a_preview_is_the_rotation_to_come(entries, prompts, rotation, runs, less, i);
        assert(all.picks.take(i) =~= p.picks.take(i));
    } else {
        assert(all.picks.take(i) =~= p.picks);
    }
}

/// Every pick of a preview is counted as one run of its own prompt: behind the
/// preview a prompt has as many runs more as it was picked.
pub proof fn previewed_picks_count_as_runs(
    entries: Seq<PlanPromptRef>,
    prompts: Map<Seq<char>, PromptDoc>,
    rotation: u64,
    runs: Map<Seq<char>, u32>,
    n: nat,
    name: Seq<char>,
)
    requires
        scheduler::runs_of(runs, name) + n <= u32::MAX,
    ensures
        ({
            let p = preview(entries, prompts, rotation, runs, n);
            let picked = p.picks.filter(|q: Option<Seq<char>>| q == Some(name)).len();
            &&& scheduler::runs_of(p.runs, name) == scheduler::runs_of(runs, name) + picked
            &&& picked <= n
        }),
    decreases n,
{
    reveal(Seq::filter);
    if n > 0 {
        let less = (n - 1) as nat;
        previewed_picks_count_as_runs(entries, prompts, rotation, runs, less, name);
        let p = preview(entries, prompts, rotation, runs, less);
        let all = preview(entries, prompts, rotation, runs, n);
        assert(all.picks.drop_last() =~= p.picks);
    }
}

/// The prompt under a name is the last that was given with it, and one is there
/// exactly where one was given.
pub proof fn the_last_of_a_name_is_looked_up(prompts: Seq<PromptDoc>, name: Seq<char>)
    ensures
        match lookup(prompts).contains_key(name) {
            true => exists|k: int|
                0 <= k < prompts.len() && #[trigger] prompts[k] == lookup(prompts)[name]
                    && prompts[k].meta.name@ == name && forall|j: int|
                    k < j < prompts.len() ==> (#[trigger] prompts[j]).meta.name@ != name,
            false => forall|j: int|
                0 <= j < prompts.len() ==> (#[trigger] prompts[j]).meta.name@ != name,
        },
    decreases prompts.len(),
{
    if prompts.len() > 0 {
        let front = prompts.drop_last();
        the_last_of_a_name_is_looked_up(front, name);
        let n = prompts.len() - 1;
        if prompts.last().meta.name@ == name {
            assert(prompts[n] == prompts.last());
        } else if lookup(front).contains_key(name) {
            let k = choose|k: int|
                0 <= k < front.len() && #[trigger] front[k] == lookup(front)[name]
                    && front[k].meta.name@ == name && forall|j: int|
                    k < j < front.len() ==> (#[trigger] front[j]).meta.name@ != name;
            assert(prompts[k] == front[k]);
            assert forall|j: int| k < j < prompts.len() implies (#[trigger] prompts[j]).meta.name@
                != name by {
                if j < n {
                    assert(front[j] == prompts[j]);
                }
            }
        } else {
            assert forall|j: int| 0 <= j < prompts.len() implies (#[trigger] prompts[j]).meta.name@
                != name by {
                if j < n {
                    assert(front[j] == prompts[j]);
                }
            }
        }
    }
}

/// A preview starts where the run that is resumed stands, and else at the very
/// start.
pub proof fn previews_start_where_the_run_stands(seed: Option<&SchedulerState>)
    ensures
        seed matches Some(s) ==> seed_rotation(seed) == s.rotation && seed_runs(seed)
            == s.runs_per_prompt@,
        seed is None ==> seed_rotation(seed) == 0 && seed_runs(seed) == Map::<
            Seq<char>,
            u32,
        >::empty(),
{
}

/// The scheduler state that a preview starts from.
pub open spec fn seed_rotation(seed: Option<&SchedulerState>) -> u64 {
    match seed {
        Some(s) => s.rotation,
        None => 0,
    }
}

/// The runs that a preview starts from.
pub open spec fn seed_runs(seed: Option<&SchedulerState>) -> Map<Seq<char>, u32> {
    match seed {
        Some(s) => s.runs_per_prompt@,
        None => Map::empty(),
    }
}

/// The picks as texts.
pub open spec fn pick_views(picks: Seq<Option<String>>) -> Seq<Option<Seq<char>>> {
    picks.map_values(
        |p: Option<String>|
            match p {
                Some(name) => Some(name@),
                None => None,
            },
    )
}

/// Two lookups that hold equal prompts under equal names.
spec fn alike(a: Map<Seq<char>, PromptDoc>, b: Map<Seq<char>, PromptDoc>) -> bool {
    forall|k: Seq<char>|
        #![trigger a.contains_key(k)]
        #![trigger b.contains_key(k)]
        a.contains_key(k) == b.contains_key(k) && (a.contains_key(k) ==> a[k]@ == b[k]@)
}

proof fn alike_offers(
    entries: Seq<PlanPromptRef>,
    a: Map<Seq<char>, PromptDoc>,
    b: Map<Seq<char>, PromptDoc>,
    rotation: nat,
    runs: Map<Seq<char>, u32>,
)
    requires
        alike(a, b),
    ensures
        scheduler::offers(entries, a, rotation, runs) == scheduler::offers(
            entries,
            b,
            rotation,
            runs,
        ),
    decreases entries.len(),
{
    if entries.len() > 0 {
        alike_offers(entries.drop_last(), a, b, rotation, runs);
        let name = entries.last().name@;
        assert(a.contains_key(name) == b.contains_key(name));
        if a.contains_key(name) {
            assert(a[name]@ == b[name]@);
            assert(a[name]@.every == a[name].meta.every && b[name]@.every == b[name].meta.every);
            assert(a[name]@.weight == a[name].meta.weight);
            assert(b[name]@.weight == b[name].meta.weight);
            assert(a[name]@.max_runs == a[name].meta.max_runs);
            assert(b[name]@.max_runs == b[name].meta.max_runs);
        }
    }
}

proof fn alike_pick(
    entries: Seq<PlanPromptRef>,
    a: Map<Seq<char>, PromptDoc>,
    b: Map<Seq<char>, PromptDoc>,
    rotation: u64,
    runs: Map<Seq<char>, u32>,
    r: Option<PromptDoc>,
)
    requires
        alike(a, b),
        scheduler::picked(scheduler::offers(entries, a, rotation as nat, runs), a, r),
    ensures
        match r {
            Some(doc) => state::pick_name(entries, b, rotation, runs) == Some(doc.meta.name@),
            None => state::pick_name(entries, b, rotation, runs) is None,
        },
{
    alike_offers(entries, a, b, rotation as nat, runs);
    let o = scheduler::offers(entries, b, rotation as nat, runs);
    if let Some(doc) = r {
        let k = choose|k: int| #[trigger]
            scheduler::chosen(o, k) && a.contains_key(o[k].name) && doc@ == a[o[k].name]@;
        assert(scheduler::chosen(o, k) && b.contains_key(o[k].name) && doc@ == b[o[k].name]@);
    }
    state::pick_is_pick_name(entries, b, rotation, runs, r);
}

fn build_lookup(prompts: &[PromptDoc]) -> (r: Table<PromptDoc>)
    ensures
        alike(r@, lookup(prompts@)),
{
    let mut out: Table<PromptDoc> = Table::new();
    for i in 0..prompts.len()
        invariant
            alike(out@, lookup(prompts@.take(i as int))),
    {
        assert(prompts@.take(i + 1).drop_last() =~= prompts@.take(i as int));
        assert(prompts@.take(i + 1).last() == prompts@[i as int]);
        out.insert(prompts[i].meta.name.as_str(), prompts[i].copy());
    }
    assert(prompts@.take(prompts@.len() as int) =~= prompts@);
    out
}

/// Run the scheduler `count` times against a fresh state and return the
/// picked prompt name (or `None` for a rotation that yields nothing). Used by
/// the dry-run report and by tests that want to introspect the rotation.
pub fn preview_picks(plan: &GrindPlan, prompts: &[PromptDoc], count: usize) -> (r: Vec<
    Option<String>,
>)
    requires
        plan.prompts@.len() <= scheduler::MAX_ENTRIES,
    ensures
        pick_views(r@) == preview(
            plan.prompts@,
            lookup(prompts@),
            0,
            Map::empty(),
            count as nat,
        ).picks,
{
    preview_picks_from_state(plan, prompts, None, count)
}

/// Variant of [`preview_picks`] that seeds the scheduler from an explicit
/// [`SchedulerState`] when `seed` is `Some`. Used by `--dry-run --resume` so
/// the preview reflects the resumed loop's actual starting position.
pub fn preview_picks_from_state(
    plan: &GrindPlan,
    prompts: &[PromptDoc],
    seed: Option<&SchedulerState>,
    count: usize,
) -> (r: Vec<Option<String>>)
    requires
        plan.prompts@.len() <= scheduler::MAX_ENTRIES,
    ensures
        pick_views(r@) == preview(
            plan.prompts@,
            lookup(prompts@),
            seed_rotation(seed),
            seed_runs(seed),
            count as nat,
        ).picks,
{
    let ghost entries = plan.prompts@;
    let ghost docs = lookup(prompts@);
    let ghost rotation = seed_rotation(seed);
    let ghost runs = seed_runs(seed);
    let built = build_lookup(prompts);
    let mut sched = match seed {
        Some(s) => Scheduler::with_state(plan.copy(), built, s.copy()),
        None => Scheduler::new(plan.copy(), built),
    };
    let mut out: Vec<Option<String>> = Vec::new();
    assert(pick_views(out@) =~= Seq::empty());
    for i in 0..count
        invariant
            alike(sched.the_prompts(), docs),
            sched.the_plan().prompts@ == entries,
            sched.the_rotation() == preview(entries, docs, rotation, runs, i as nat).rotation,
            sched.the_runs() == preview(entries, docs, rotation, runs, i as nat).runs,
            pick_views(out@) == preview(entries, docs, rotation, runs, i as nat).picks,
    {
        let ghost before = pick_views(out@);
        let picked = sched.next();
        proof {
            alike_pick(
                entries,
                sched.the_prompts(),
                docs,
                sched.the_rotation(),
                sched.the_runs(),
                picked,
            );
        }
        let name = match &picked {
            Some(p) => Some(p.meta.name.clone()),
            None => None,
        };
        if let Some(p) = &picked {
            sched.record_run(p.meta.name.as_str());
        }
        out.push(name);
        assert(pick_views(out@) =~= before.push(
            match name {
                Some(n) => Some(n@),
                None => None,
            },
        ));
    }
    out
}

// ---------------------------------------------------------------------------
// Values
// ---------------------------------------------------------------------------

/// The label of a prompt source.
pub open spec fn source_text(s: PromptSource) -> Seq<char> {
    match s {
        PromptSource::Project => "project"@,
        PromptSource::Global => "global"@,
        PromptSource::Override => "override"@,
    }
}

fn source_label(s: PromptSource) -> (r: &'static str)
    ensures
        r@ == source_text(s),
{
    match s {
        PromptSource::Project => "project",
        PromptSource::Global => "global",
        PromptSource::Override => "override",
    }
}

/// A flag as text.
pub open spec fn yes_no(b: bool) -> Seq<char> {
    if b {
        "true"@
    } else {
        "false"@
    }
}

fn yes_no_str(b: bool) -> (r: &'static str)
    ensures
        r@ == yes_no(b),
{
    if b {
        "true"
    } else {
        "false"
    }
}

/// A number, or the placeholder for none.
pub open spec fn opt_u32_text(v: Option<u32>) -> Seq<char> {
    match v {
        Some(n) => text::decimal(n as nat),
        None => "(unset)"@,
    }
}

fn opt_u32(v: Option<u32>) -> (r: String)
    ensures
        r@ == opt_u32_text(v),
{
    match v {
        Some(n) => text::decimal_u32(n),
        None => text::owned("(unset)"),
    }
}

/// A number, or the placeholder for none.
pub open spec fn opt_u64_text(v: Option<u64>) -> Seq<char> {
    match v {
        Some(n) => text::decimal(n as nat),
        None => "(unset)"@,
    }
}

fn opt_u64(v: Option<u64>) -> (r: String)
    ensures
        r@ == opt_u64_text(v),
{
    match v {
        Some(n) => text::decimal_u64(n),
        None => text::owned("(unset)"),
    }
}

/// An amount, or the placeholder for none.
pub open spec fn opt_usd_text(v: Option<Usd>) -> Seq<char> {
    match v {
        Some(n) => "$"@ + money::dollars_text(n.pico as int),
        None => "(unset)"@,
    }
}

fn opt_usd(v: Option<Usd>) -> (r: String)
    ensures
        r@ == opt_usd_text(v),
{
    match v {
        Some(n) => {
            let mut out = text::owned("$");
            out.append(n.to_dollars().as_str());
            out
        },
        None => text::owned("(unset)"),
    }
}

/// A moment, or the placeholder for none.
pub open spec fn opt_until_text(v: Option<Timestamp>) -> Seq<char> {
    match v {
        Some(d) => d.rfc3339(),
        None => "(unset)"@,
    }
}

fn opt_until(v: Option<Timestamp>) -> (r: String)
    ensures
        r@ == opt_until_text(v),
{
    match v {
        Some(d) => d.to_rfc3339(),
        None => text::owned("(unset)"),
    }
}

/// A command in backticks, or the placeholder for none.
pub open spec fn opt_str_text(v: Option<String>) -> Seq<char> {
    match v {
        Some(s) => "`"@ + s@ + "`"@,
        None => "(unset)"@,
    }
}

fn opt_str(v: &Option<String>) -> (r: String)
    ensures
        r@ == opt_str_text(*v),
{
    match v {
        Some(s) => {
            let mut out = text::owned("`");
            out.append(s.as_str());
            out.append("`");
            out
        },
        None => text::owned("(unset)"),
    }
}

// ---------------------------------------------------------------------------
// Sections
// ---------------------------------------------------------------------------

/// The line of a discovered prompt.
pub open spec fn prompt_line_text(p: PromptDoc) -> Seq<char> {
    "- "@ + p.meta.name@ + " (source="@ + source_text(p.source_kind) + ", weight="@
        + text::decimal(p.meta.weight as nat) + ", every="@ + text::decimal(p.meta.every as nat)
        + ", max_runs="@ + opt_u32_text(p.meta.max_runs) + ", verify="@ + yes_no(p.meta.verify)
        + ", parallel_safe="@ + yes_no(p.meta.parallel_safe) + ")\n"@
}

fn prompt_line(p: &PromptDoc) -> (r: String)
    ensures
        r@ == prompt_line_text(*p),
{
    let mut out = text::owned("- ");
    out.append(p.meta.name.as_str());
    out.append(" (source=");
    out.append(source_label(p.source_kind));
    out.append(", weight=");
    out.append(text::decimal_u32(p.meta.weight).as_str());
    out.append(", every=");
    out.append(text::decimal_u32(p.meta.every).as_str());
    out.append(", max_runs=");
    out.append(opt_u32(p.meta.max_runs).as_str());
    out.append(", verify=");
    out.append(yes_no_str(p.meta.verify));
    out.append(", parallel_safe=");
    out.append(yes_no_str(p.meta.parallel_safe));
    out.append(")\n");
    out
}

/// The line of a plan entry.
pub open spec fn entry_line_text(e: PlanPromptRef) -> Seq<char> {
    "  - "@ + e.name@ + " (weight_override="@ + opt_u32_text(e.weight_override)
        + ", every_override="@ + opt_u32_text(e.every_override) + ", max_runs_override="@
        + opt_u32_text(e.max_runs_override) + ")\n"@
}

fn entry_line(e: &PlanPromptRef) -> (r: String)
    ensures
        r@ == entry_line_text(*e),
{
    let mut out = text::owned("  - ");
    out.append(e.name.as_str());
    out.append(" (weight_override=");
    out.append(opt_u32(e.weight_override).as_str());
    out.append(", every_override=");
    out.append(opt_u32(e.every_override).as_str());
    out.append(", max_runs_override=");
    out.append(opt_u32(e.max_runs_override).as_str());
    out.append(")\n");
    out
}

/// The lines of the plan section before its entries.
pub open spec fn plan_head_text(plan: GrindPlan, limit: u32) -> Seq<char> {
    "## Plan\n\n- name: "@ + plan.name@ + "\n- max_parallel: "@
        + text::decimal(plan.max_parallel as nat) + "\n- consecutive_failure_limit: "@
        + text::decimal(limit as nat) + "\n- entries: "@ + text::decimal(plan.prompts@.len())
        + "\n"@
}

fn plan_head(plan: &GrindPlan, limit: u32) -> (r: String)
    ensures
        r@ == plan_head_text(*plan, limit),
{
    let mut out = text::owned("## Plan\n\n- name: ");
    out.append(plan.name.as_str());
    out.append("\n- max_parallel: ");
    out.append(text::decimal_u32(plan.max_parallel).as_str());
    out.append("\n- consecutive_failure_limit: ");
    out.append(text::decimal_u32(limit).as_str());
    out.append("\n- entries: ");
    out.append(text::decimal_usize(plan.prompts.len()).as_str());
    out.append("\n");
    out
}

/// The budgets section.
pub open spec fn budgets_section_text(b: PlanBudgets) -> Seq<char> {
    "## Budgets\n\n- max_iterations: "@ + opt_u32_text(b.max_iterations) + "\n- until: "@
        + opt_until_text(b.until) + "\n- max_tokens: "@ + opt_u64_text(b.max_tokens)
        + "\n- max_cost_usd: "@ + opt_usd_text(b.max_cost_usd) + "\n\n"@
}

fn budgets_section(b: &PlanBudgets) -> (r: String)
    ensures
        r@ == budgets_section_text(*b),
{
    let mut out = text::owned("## Budgets\n\n- max_iterations: ");
    out.append(opt_u32(b.max_iterations).as_str());
    out.append("\n- until: ");
    out.append(opt_until(b.until).as_str());
    out.append("\n- max_tokens: ");
    out.append(opt_u64(b.max_tokens).as_str());
    out.append("\n- max_cost_usd: ");
    out.append(opt_usd(b.max_cost_usd).as_str());
    out.append("\n\n");
    out
}

/// The hooks section.
pub open spec fn hooks_section_text(h: Hooks) -> Seq<char> {
    "## Hooks\n\n- pre_session: "@ + opt_str_text(h.pre_session) + "\n- post_session: "@
        + opt_str_text(h.post_session) + "\n- on_failure: "@ + opt_str_text(h.on_failure) + "\n\n"@
}

fn hooks_section(h: &Hooks) -> (r: String)
    ensures
        r@ == hooks_section_text(*h),
{
    let mut out = text::owned("## Hooks\n\n- pre_session: ");
    out.append(opt_str(&h.pre_session).as_str());
    out.append("\n- post_session: ");
    out.append(opt_str(&h.post_session).as_str());
    out.append("\n- on_failure: ");
    out.append(opt_str(&h.on_failure).as_str());
    out.append("\n\n");
    out
}

/// The lines on what a resumed run has consumed.
pub open spec fn consumed_text(s: BudgetSnapshot) -> Seq<char> {
    "- iterations_consumed: "@ + text::decimal(s.iterations as nat) + "\n- tokens_consumed: "@
        + text::decimal(budget::tokens_of(s) as nat) + " (input="@
        + text::decimal(s.tokens_input as nat) + ", output="@
        + text::decimal(s.tokens_output as nat) + ")\n- cost_consumed_usd: $"@
        + money::dollars_text(s.cost_usd.pico as int) + "\n- consecutive_failures: "@
        + text::decimal(s.consecutive_failures as nat) + "\n\n"@
}

fn consumed(s: &BudgetSnapshot) -> (r: String)
    ensures
        r@ == consumed_text(*s),
{
    let mut out = text::owned("- iterations_consumed: ");
    out.append(text::decimal_u32(s.iterations).as_str());
    out.append("\n- tokens_consumed: ");
    out.append(text::decimal_u64(s.tokens_input.saturating_add(s.tokens_output)).as_str());
    out.append(" (input=");
    out.append(text::decimal_u64(s.tokens_input).as_str());
    out.append(", output=");
    out.append(text::decimal_u64(s.tokens_output).as_str());
    out.append(")\n- cost_consumed_usd: $");
    out.append(s.cost_usd.to_dollars().as_str());
    out.append("\n- consecutive_failures: ");
    out.append(text::decimal_u32(s.consecutive_failures).as_str());
    out.append("\n\n");
    out
}

/// The line of a prompt shows its name, and its source, weight, cadence, run cap and
/// flags, each behind its own label.
pub proof fn prompt_lines_label_every_value(p: PromptDoc)
    ensures
        text::contains(prompt_line_text(p), "- "@ + p.meta.name@),
        text::contains(prompt_line_text(p), " (source="@ + source_text(p.source_kind)),
        text::contains(prompt_line_text(p), ", weight="@ + text::decimal(p.meta.weight as nat)),
        text::contains(prompt_line_text(p), ", every="@ + text::decimal(p.meta.every as nat)),
        text::contains(prompt_line_text(p), ", max_runs="@ + opt_u32_text(p.meta.max_runs)),
        text::contains(prompt_line_text(p), ", verify="@ + yes_no(p.meta.verify)),
        text::contains(prompt_line_text(p), ", parallel_safe="@ + yes_no(p.meta.parallel_safe)),
{
    let none = Seq::<char>::empty();
    let name = "- "@ + p.meta.name@;
    let source = " (source="@ + source_text(p.source_kind);
    let weight = ", weight="@ + text::decimal(p.meta.weight as nat);
    let every = ", every="@ + text::decimal(p.meta.every as nat);
    let max_runs = ", max_runs="@ + opt_u32_text(p.meta.max_runs);
    let verify = ", verify="@ + yes_no(p.meta.verify);
    let parallel = ", parallel_safe="@ + yes_no(p.meta.parallel_safe);
    let head = name + source + weight + every;
    let tail = max_runs + verify + parallel + ")\n"@;
    let whole = prompt_line_text(p);
    assert(whole =~= head + tail);
    text::parts_are_held(none, name, source + weight + every, head);
    text::parts_are_held(name, source, weight + every, head);
    text::parts_are_held(name + source, weight, every, head);
    text::parts_are_held(name + source + weight, every, none, head);
    text::parts_are_held(none, max_runs, verify + parallel + ")\n"@, tail);
    text::parts_are_held(max_runs, verify, parallel + ")\n"@, tail);
    text::parts_are_held(max_runs + verify, parallel, ")\n"@, tail);
    text::held_in_a_part(none, head, tail, whole, name);
    text::held_in_a_part(none, head, tail, whole, source);
    text::held_in_a_part(none, head, tail, whole, weight);
    text::held_in_a_part(none, head, tail, whole, every);
    text::held_in_a_part(head, tail, none, whole, max_runs);
    text::held_in_a_part(head, tail, none, whole, verify);
    text::held_in_a_part(head, tail, none, whole, parallel);
}

/// The line of a plan entry shows its name, and each override behind its own label.
pub proof fn entry_lines_label_every_override(e: PlanPromptRef)
    ensures
        text::contains(entry_line_text(e), "  - "@ + e.name@),
        text::contains(entry_line_text(e), " (weight_override="@ + opt_u32_text(e.weight_override)),
        text::contains(entry_line_text(e), ", every_override="@ + opt_u32_text(e.every_override)),
        text::contains(
            entry_line_text(e),
            ", max_runs_override="@ + opt_u32_text(e.max_runs_override),
        ),
{
    text::parts_are_held(
        Seq::<char>::empty(),
        "  - "@ + e.name@,
        " (weight_override="@ + opt_u32_text(e.weight_override) + ", every_override="@
            + opt_u32_text(e.every_override) + ", max_runs_override="@
            + opt_u32_text(e.max_runs_override) + ")\n"@,
        entry_line_text(e),
    );
    text::parts_are_held(
        "  - "@ + e.name@,
        " (weight_override="@ + opt_u32_text(e.weight_override),
        ", every_override="@ + opt_u32_text(e.every_override) + ", max_runs_override="@
            + opt_u32_text(e.max_runs_override) + ")\n"@,
        entry_line_text(e),
    );
    text::parts_are_held(
        "  - "@ + e.name@ + " (weight_override="@ + opt_u32_text(e.weight_override),
        ", every_override="@ + opt_u32_text(e.every_override),
        ", max_runs_override="@ + opt_u32_text(e.max_runs_override) + ")\n"@,
        entry_line_text(e),
    );
    text::parts_are_held(
        "  - "@ + e.name@ + " (weight_override="@ + opt_u32_text(e.weight_override)
            + ", every_override="@ + opt_u32_text(e.every_override),
        ", max_runs_override="@ + opt_u32_text(e.max_runs_override),
        ")\n"@,
        entry_line_text(e),
    );
}

/// The plan section shows the name, the ceiling, the failure limit and how many
/// entries there are, each behind its own label.
pub proof fn the_plan_section_labels_every_value(plan: GrindPlan, limit: u32)
    ensures
        text::contains(plan_head_text(plan, limit), "## Plan\n\n- name: "@ + plan.name@),
        text::contains(
            plan_head_text(plan, limit),
            "\n- max_parallel: "@ + text::decimal(plan.max_parallel as nat),
        ),
        text::contains(
            plan_head_text(plan, limit),
            "\n- consecutive_failure_limit: "@ + text::decimal(limit as nat),
        ),
        text::contains(
            plan_head_text(plan, limit),
            "\n- entries: "@ + text::decimal(plan.prompts@.len()),
        ),
{
    text::parts_are_held(
        Seq::<char>::empty(),
        "## Plan\n\n- name: "@ + plan.name@,
        "\n- max_parallel: "@ + text::decimal(plan.max_parallel as nat)
            + "\n- consecutive_failure_limit: "@ + text::decimal(limit as nat) + "\n- entries: "@
            + text::decimal(plan.prompts@.len()) + "\n"@,
        plan_head_text(plan, limit),
    );
    text::parts_are_held(
        "## Plan\n\n- name: "@ + plan.name@,
        "\n- max_parallel: "@ + text::decimal(plan.max_parallel as nat),
        "\n- consecutive_failure_limit: "@ + text::decimal(limit as nat) + "\n- entries: "@
            + text::decimal(plan.prompts@.len()) + "\n"@,
        plan_head_text(plan, limit),
    );
    text::parts_are_held(
        "## Plan\n\n- name: "@ + plan.name@ + "\n- max_parallel: "@
            + text::decimal(plan.max_parallel as nat),
        "\n- consecutive_failure_limit: "@ + text::decimal(limit as nat),
        "\n- entries: "@ + text::decimal(plan.prompts@.len()) + "\n"@,
        plan_head_text(plan, limit),
    );
    text::parts_are_held(
        "## Plan\n\n- name: "@ + plan.name@ + "\n- max_parallel: "@
            + text::decimal(plan.max_parallel as nat) + "\n- consecutive_failure_limit: "@
            + text::decimal(limit as nat),
        "\n- entries: "@ + text::decimal(plan.prompts@.len()),
        "\n"@,
        plan_head_text(plan, limit),
    );
}

/// The budgets section shows each budget behind its own label.
pub proof fn the_budgets_section_labels_every_budget(b: PlanBudgets)
    ensures
        text::contains(
            budgets_section_text(b),
            "## Budgets\n\n- max_iterations: "@ + opt_u32_text(b.max_iterations),
        ),
        text::contains(budgets_section_text(b), "\n- until: "@ + opt_until_text(b.until)),
        text::contains(budgets_section_text(b), "\n- max_tokens: "@ + opt_u64_text(b.max_tokens)),
        text::contains(
            budgets_section_text(b),
            "\n- max_cost_usd: "@ + opt_usd_text(b.max_cost_usd),
        ),
{
    text::parts_are_held(
        Seq::<char>::empty(),
        "## Budgets\n\n- max_iterations: "@ + opt_u32_text(b.max_iterations),
        "\n- until: "@ + opt_until_text(b.until) + "\n- max_tokens: "@ + opt_u64_text(b.max_tokens)
            + "\n- max_cost_usd: "@ + opt_usd_text(b.max_cost_usd) + "\n\n"@,
        budgets_section_text(b),
    );
    text::parts_are_held(
        "## Budgets\n\n- max_iterations: "@ + opt_u32_text(b.max_iterations),
        "\n- until: "@ + opt_until_text(b.until),
        "\n- max_tokens: "@ + opt_u64_text(b.max_tokens) + "\n- max_cost_usd: "@
            + opt_usd_text(b.max_cost_usd) + "\n\n"@,
        budgets_section_text(b),
    );
    text::parts_are_held(
        "## Budgets\n\n- max_iterations: "@ + opt_u32_text(b.max_iterations) + "\n- until: "@
            + opt_until_text(b.until),
        "\n- max_tokens: "@ + opt_u64_text(b.max_tokens),
        "\n- max_cost_usd: "@ + opt_usd_text(b.max_cost_usd) + "\n\n"@,
        budgets_section_text(b),
    );
    text::parts_are_held(
        "## Budgets\n\n- max_iterations: "@ + opt_u32_text(b.max_iterations) + "\n- until: "@
            + opt_until_text(b.until) + "\n- max_tokens: "@ + opt_u64_text(b.max_tokens),
        "\n- max_cost_usd: "@ + opt_usd_text(b.max_cost_usd),
        "\n\n"@,
        budgets_section_text(b),
    );
}

/// The hooks section shows each hook behind its own label.
pub proof fn the_hooks_section_labels_every_hook(h: Hooks)
    ensures
        text::contains(
            hooks_section_text(h),
            "## Hooks\n\n- pre_session: "@ + opt_str_text(h.pre_session),
        ),
        text::contains(hooks_section_text(h), "\n- post_session: "@ + opt_str_text(h.post_session)),
        text::contains(hooks_section_text(h), "\n- on_failure: "@ + opt_str_text(h.on_failure)),
{
    text::parts_are_held(
        Seq::<char>::empty(),
        "## Hooks\n\n- pre_session: "@ + opt_str_text(h.pre_session),
        "\n- post_session: "@ + opt_str_text(h.post_session) + "\n- on_failure: "@
            + opt_str_text(h.on_failure) + "\n\n"@,
        hooks_section_text(h),
    );
    text::parts_are_held(
        "## Hooks\n\n- pre_session: "@ + opt_str_text(h.pre_session),
        "\n- post_session: "@ + opt_str_text(h.post_session),
        "\n- on_failure: "@ + opt_str_text(h.on_failure) + "\n\n"@,
        hooks_section_text(h),
    );
    text::parts_are_held(
        "## Hooks\n\n- pre_session: "@ + opt_str_text(h.pre_session) + "\n- post_session: "@
            + opt_str_text(h.post_session),
        "\n- on_failure: "@ + opt_str_text(h.on_failure),
        "\n\n"@,
        hooks_section_text(h),
    );
}

/// Of a resumed run every total is shown behind its own label: the sessions, the
/// tokens with their two halves, the cost and the failures in a row.
pub proof fn what_was_consumed_is_labelled(s: BudgetSnapshot)
    ensures
        text::contains(
            consumed_text(s),
            "- iterations_consumed: "@ + text::decimal(s.iterations as nat),
        ),
        text::contains(
            consumed_text(s),
            "\n- tokens_consumed: "@ + text::decimal(budget::tokens_of(s) as nat),
        ),
        text::contains(consumed_text(s), " (input="@ + text::decimal(s.tokens_input as nat)),
        text::contains(consumed_text(s), ", output="@ + text::decimal(s.tokens_output as nat)),
        text::contains(
            consumed_text(s),
            ")\n- cost_consumed_usd: $"@ + money::dollars_text(s.cost_usd.pico as int),
        ),
        text::contains(
            consumed_text(s),
            "\n- consecutive_failures: "@ + text::decimal(s.consecutive_failures as nat),
        ),
{
    text::parts_are_held(
        Seq::<char>::empty(),
        "- iterations_consumed: "@ + text::decimal(s.iterations as nat),
        "\n- tokens_consumed: "@ + text::decimal(budget::tokens_of(s) as nat) + " (input="@
            + text::decimal(s.tokens_input as nat) + ", output="@
            + text::decimal(s.tokens_output as nat) + ")\n- cost_consumed_usd: $"@
            + money::dollars_text(s.cost_usd.pico as int) + "\n- consecutive_failures: "@
            + text::decimal(s.consecutive_failures as nat) + "\n\n"@,
        consumed_text(s),
    );
    text::parts_are_held(
        "- iterations_consumed: "@ + text::decimal(s.iterations as nat),
        "\n- tokens_consumed: "@ + text::decimal(budget::tokens_of(s) as nat),
        " (input="@ + text::decimal(s.tokens_input as nat) + ", output="@
            + text::decimal(s.tokens_output as nat) + ")\n- cost_consumed_usd: $"@
            + money::dollars_text(s.cost_usd.pico as int) + "\n- consecutive_failures: "@
            + text::decimal(s.consecutive_failures as nat) + "\n\n"@,
        consumed_text(s),
    );
    text::parts_are_held(
        "- iterations_consumed: "@ + text::decimal(s.iterations as nat) + "\n- tokens_consumed: "@
            + text::decimal(budget::tokens_of(s) as nat),
        " (input="@ + text::decimal(s.tokens_input as nat),
        ", output="@ + text::decimal(s.tokens_output as nat) + ")\n- cost_consumed_usd: $"@
            + money::dollars_text(s.cost_usd.pico as int) + "\n- consecutive_failures: "@
            + text::decimal(s.consecutive_failures as nat) + "\n\n"@,
        consumed_text(s),
    );
    text::parts_are_held(
        "- iterations_consumed: "@ + text::decimal(s.iterations as nat) + "\n- tokens_consumed: "@
            + text::decimal(budget::tokens_of(s) as nat) + " (input="@
            + text::decimal(s.tokens_input as nat),
        ", output="@ + text::decimal(s.tokens_output as nat),
        ")\n- cost_consumed_usd: $"@ + money::dollars_text(s.cost_usd.pico as int)
            + "\n- consecutive_failures: "@ + text::decimal(s.consecutive_failures as nat)
            + "\n\n"@,
        consumed_text(s),
    );
    text::parts_are_held(
        "- iterations_consumed: "@ + text::decimal(s.iterations as nat) + "\n- tokens_consumed: "@
            + text::decimal(budget::tokens_of(s) as nat) + " (input="@
            + text::decimal(s.tokens_input as nat) + ", output="@
            + text::decimal(s.tokens_output as nat),
        ")\n- cost_consumed_usd: $"@ + money::dollars_text(s.cost_usd.pico as int),
        "\n- consecutive_failures: "@ + text::decimal(s.consecutive_failures as nat) + "\n\n"@,
        consumed_text(s),
    );
    text::parts_are_held(
        "- iterations_consumed: "@ + text::decimal(s.iterations as nat) + "\n- tokens_consumed: "@
            + text::decimal(budget::tokens_of(s) as nat) + " (input="@
            + text::decimal(s.tokens_input as nat) + ", output="@
            + text::decimal(s.tokens_output as nat) + ")\n- cost_consumed_usd: $"@
            + money::dollars_text(s.cost_usd.pico as int),
        "\n- consecutive_failures: "@ + text::decimal(s.consecutive_failures as nat),
        "\n\n"@,
        consumed_text(s),
    );
}

/// A value is shown as it is, and one that is not set as such.
pub proof fn what_is_not_set_is_shown_so(
    n: Option<u32>,
    m: Option<u64>,
    c: Option<Usd>,
    d: Option<Timestamp>,
    t: Option<String>,
)
    ensures
        n matches Some(x) ==> opt_u32_text(n) == text::decimal(x as nat),
        m matches Some(x) ==> opt_u64_text(m) == text::decimal(x as nat),
        c matches Some(x) ==> opt_usd_text(c) == "$"@ + money::dollars_text(x.pico as int),
        d matches Some(x) ==> opt_until_text(d) == x.rfc3339(),
        t matches Some(x) ==> opt_str_text(t) == "`"@ + x@ + "`"@,
        n is None ==> opt_u32_text(n) == "(unset)"@,
        m is None ==> opt_u64_text(m) == "(unset)"@,
        c is None ==> opt_usd_text(c) == "(unset)"@,
        d is None ==> opt_until_text(d) == "(unset)"@,
        t is None ==> opt_str_text(t) == "(unset)"@,
        yes_no(true) == "true"@ && yes_no(false) == "false"@,
{
}

/// The text of an optional number under a label, or nothing.
pub open spec fn labelled_text(label: Seq<char>, n: Option<nat>) -> Seq<char> {
    match n {
        Some(n) => label + text::decimal(n) + "\n"@,
        None => Seq::empty(),
    }
}

/// The workspace section.
pub open spec fn workspace_text(
    workspace: Seq<char>,
    backend: Option<&str>,
    target: Option<&str>,
) -> Seq<char> {
    "## Workspace\n\n- path: "@ + workspace + "\n- agent backend: "@ + (match backend {
        Some(b) => b@,
        None => "(default)"@,
    }) + "\n"@ + (match target {
        Some(t) => "- resume target: "@ + (if t@.len() == 0 {
            "(latest)"@
        } else {
            t@
        }) + "\n"@,
        None => Seq::empty(),
    }) + "\n"@
}

/// The workspace section shows the path and the backend, or that it is the default,
/// and of a resumed run its target, or that it is the latest.
pub proof fn the_workspace_is_shown(
    workspace: Seq<char>,
    backend: Option<&str>,
    target: Option<&str>,
)
    ensures
        text::contains(workspace_text(workspace, backend, target), "\n- path: "@ + workspace),
        backend matches Some(b) ==> text::contains(
            workspace_text(workspace, backend, target),
            "\n- agent backend: "@ + b@,
        ),
        backend is None ==> text::contains(
            workspace_text(workspace, backend, target),
            "\n- agent backend: "@ + "(default)"@,
        ),
        target matches Some(t) ==> (t@.len() > 0 ==> text::contains(
            workspace_text(workspace, backend, target),
            "- resume target: "@ + t@,
        )),
        target matches Some(t) ==> (t@.len() == 0 ==> text::contains(
            workspace_text(workspace, backend, target),
            "- resume target: "@ + "(latest)"@,
        )),
{
    let whole = workspace_text(workspace, backend, target);
    let head = "## Workspace\n\n- path: "@;
    let agent = "\n- agent backend: "@ + (match backend {
        Some(b) => b@,
        None => "(default)"@,
    });
    let goal = match target {
        Some(t) => "- resume target: "@ + (if t@.len() == 0 {
            "(latest)"@
        } else {
            t@
        }),
        None => Seq::empty(),
    };
    let close = match target {
        Some(_) => "\n"@,
        None => Seq::empty(),
    };
    reveal_strlit("## Workspace\n\n- path: ");
    reveal_strlit("\n- path: ");
    let front = head.take(13);
    assert(head =~= front + "\n- path: "@);
    let base = front + ("\n- path: "@ + workspace);
    let rest = goal + close + "\n"@;
    assert(whole =~= base + agent + "\n"@ + rest);
    text::parts_are_held(
        front,
        "\n- path: "@ + workspace,
        agent + "\n"@ + rest,
        base + agent + "\n"@ + rest,
    );
    text::parts_are_held(base, agent, "\n"@ + rest, whole);
    text::parts_are_held(base + agent + "\n"@, goal, close + "\n"@, whole);
}

fn workspace_section(inputs: &DryRunInputs) -> (r: String)
    ensures
        r@ == workspace_text(inputs.workspace@, inputs.agent_backend, inputs.resume_target),
{
    let mut out = text::owned("## Workspace\n\n- path: ");
    out.append(inputs.workspace);
    out.append("\n- agent backend: ");
    out.append(
        match inputs.agent_backend {
            Some(b) => b,
            None => "(default)",
        },
    );
    out.append("\n");
    let ghost so_far = out@;
    let mut line = String::new();
    if let Some(target) = inputs.resume_target {
        line.append("- resume target: ");
        line.append(
            if target.is_empty() {
                "(latest)"
            } else {
                target
            },
        );
        line.append("\n");
        assert(line@ =~= "- resume target: "@ + (if target@.len() == 0 {
            "(latest)"@
        } else {
            target@
        }) + "\n"@);
    }
    out.append(line.as_str());
    out.append("\n");
    out
}

/// The section on a resumed run, or nothing for a fresh one.
pub open spec fn resume_text(
    consumed: Option<&BudgetSnapshot>,
    seq: Option<u32>,
    position: Option<&SchedulerState>,
) -> Seq<char> {
    match consumed {
        Some(s) => "## Resume\n\n"@ + labelled_text(
            "- last_session_seq: "@,
            match seq {
                Some(n) => Some(n as nat),
                None => None,
            },
        ) + labelled_text(
            "- scheduler_rotation: "@,
            match position {
                Some(p) => Some(p.rotation as nat),
                None => None,
            },
        ) + consumed_text(*s),
        None => Seq::empty(),
    }
}

/// A fresh run has no such section. That of a resumed one shows the last session and
/// the rotation where they are known, and ends with what was consumed.
pub proof fn a_resumed_run_shows_where_it_stands(
    s: BudgetSnapshot,
    seq: Option<u32>,
    position: Option<&SchedulerState>,
)
    ensures
        resume_text(None, seq, position).len() == 0,
        seq matches Some(n) ==> text::contains(
            resume_text(Some(&s), seq, position),
            "- last_session_seq: "@ + text::decimal(n as nat) + "\n"@,
        ),
        position matches Some(p) ==> text::contains(
            resume_text(Some(&s), seq, position),
            "- scheduler_rotation: "@ + text::decimal(p.rotation as nat) + "\n"@,
        ),
        text::contains(resume_text(Some(&s), seq, position), consumed_text(s)),
{
    let whole = resume_text(Some(&s), seq, position);
    let head = "## Resume\n\n"@;
    let last = match seq {
        Some(n) => "- last_session_seq: "@ + text::decimal(n as nat) + "\n"@,
        None => Seq::empty(),
    };
    let rotation = match position {
        Some(p) => "- scheduler_rotation: "@ + text::decimal(p.rotation as nat) + "\n"@,
        None => Seq::empty(),
    };
    text::parts_are_held(head, last, rotation + consumed_text(s), whole);
    text::parts_are_held(head + last, rotation, consumed_text(s), whole);
    text::parts_are_held(head + last + rotation, consumed_text(s), Seq::empty(), whole);
}

fn labelled(label: &str, n: Option<u64>) -> (r: String)
    ensures
        r@ == labelled_text(
            label@,
            match n {
                Some(n) => Some(n as nat),
                None => None,
            },
        ),
{
    match n {
        Some(n) => {
            let mut out = text::owned(label);
            out.append(text::decimal_u64(n).as_str());
            out.append("\n");
            out
        },
        None => String::new(),
    }
}

fn resume_section(inputs: &DryRunInputs) -> (r: String)
    ensures
        r@ == resume_text(
            inputs.resume_budget_consumed,
            inputs.resume_last_session_seq,
            inputs.resume_scheduler_state,
        ),
{
    match inputs.resume_budget_consumed {
        Some(s) => {
            let seq: Option<u64> = match inputs.resume_last_session_seq {
                Some(n) => Some(n as u64),
                None => None,
            };
            let rotation: Option<u64> = match inputs.resume_scheduler_state {
                Some(p) => Some(p.rotation),
                None => None,
            };
            let mut out = text::owned("## Resume\n\n");
            out.append(labelled("- last_session_seq: ", seq).as_str());
            out.append(labelled("- scheduler_rotation: ", rotation).as_str());
            out.append(consumed(s).as_str());
            out
        },
        None => String::new(),
    }
}

/// The lines of the discovered prompts.
pub open spec fn prompt_lines_text(prompts: Seq<PromptDoc>) -> Seq<char>
    decreases prompts.len(),
{
    if prompts.len() == 0 {
        Seq::empty()
    } else {
        prompt_lines_text(prompts.drop_last()) + prompt_line_text(prompts.last())
    }
}

/// The prompts section.
pub open spec fn prompts_text(prompts: Seq<PromptDoc>) -> Seq<char> {
    "## Prompts\n\n"@ + (if prompts.len() == 0 {
        "_No prompts discovered._\n"@
    } else {
        prompt_lines_text(prompts)
    }) + "\n"@
}

/// The prompts stand one to a line in the order of their discovery; without any the
/// section says so.
pub proof fn every_prompt_has_its_line(prompts: Seq<PromptDoc>, p: PromptDoc)
    ensures
        prompt_lines_text(prompts.push(p)) == prompt_lines_text(prompts) + prompt_line_text(p),
        prompt_lines_text(Seq::empty()).len() == 0,
        text::contains(prompts_text(Seq::empty()), "_No prompts discovered._"@),
        prompts.len() > 0 ==> text::contains(prompts_text(prompts), prompt_lines_text(prompts)),
        "## Prompts\n\n"@.is_prefix_of(prompts_text(prompts)),
{
    let head = "## Prompts\n\n"@;
    assert(prompts.push(p).drop_last() =~= prompts);
    reveal_strlit("_No prompts discovered._\n");
    reveal_strlit("_No prompts discovered._");
    reveal_strlit("\n");
    assert("_No prompts discovered._\n"@ =~= "_No prompts discovered._"@ + "\n"@);
    text::parts_are_held(
        head,
        "_No prompts discovered._"@,
        "\n"@ + "\n"@,
        prompts_text(Seq::empty()),
    );
    if prompts.len() > 0 {
        text::parts_are_held(head, prompt_lines_text(prompts), "\n"@, prompts_text(prompts));
    }
}

fn prompts_section(prompts: &[PromptDoc]) -> (r: String)
    ensures
        r@ == prompts_text(prompts@),
{
    let mut lines = String::new();
    assert(lines@ =~= prompt_lines_text(prompts@.take(0)));
    for i in 0..prompts.len()
        invariant
            lines@ == prompt_lines_text(prompts@.take(i as int)),
    {
        assert(prompts@.take(i + 1).drop_last() =~= prompts@.take(i as int));
        assert(prompts@.take(i + 1).last() == prompts@[i as int]);
        lines.append(prompt_line(&prompts[i]).as_str());
    }
    assert(prompts@.take(prompts@.len() as int) =~= prompts@);
    let mut out = text::owned("## Prompts\n\n");
    if prompts.len() == 0 {
        out.append("_No prompts discovered._\n");
    } else {
        out.append(lines.as_str());
    }
    out.append("\n");
    out
}

/// The lines of the plan entries.
pub open spec fn entry_lines_text(entries: Seq<PlanPromptRef>) -> Seq<char>
    decreases entries.len(),
{
    if entries.len() == 0 {
        Seq::empty()
    } else {
        entry_lines_text(entries.drop_last()) + entry_line_text(entries.last())
    }
}

/// The plan section.
pub open spec fn plan_text(plan: GrindPlan, limit: u32) -> Seq<char> {
    plan_head_text(plan, limit) + entry_lines_text(plan.prompts@) + "\n"@
}

/// The entries of the plan stand one to a line in the order of the plan, behind the
/// head of its section.
pub proof fn every_entry_has_its_line(
    plan: GrindPlan,
    limit: u32,
    entries: Seq<PlanPromptRef>,
    e: PlanPromptRef,
)
    ensures
        entry_lines_text(entries.push(e)) == entry_lines_text(entries) + entry_line_text(e),
        entry_lines_text(Seq::empty()).len() == 0,
        plan_head_text(plan, limit).is_prefix_of(plan_text(plan, limit)),
        text::contains(plan_text(plan, limit), entry_lines_text(plan.prompts@)),
{
    assert(entries.push(e).drop_last() =~= entries);
    text::parts_are_held(
        plan_head_text(plan, limit),
        entry_lines_text(plan.prompts@),
        "\n"@,
        plan_text(plan, limit),
    );
}

fn plan_section(plan: &GrindPlan, limit: u32) -> (r: String)
    ensures
        r@ == plan_text(*plan, limit),
{
    let ghost entries = plan.prompts@;
    let mut lines = String::new();
    assert(lines@ =~= entry_lines_text(entries.take(0)));
    for i in 0..plan.prompts.len()
        invariant
            entries == plan.prompts@,
            lines@ == entry_lines_text(entries.take(i as int)),
    {
        assert(entries.take(i + 1).drop_last() =~= entries.take(i as int));
        assert(entries.take(i + 1).last() == entries[i as int]);
        lines.append(entry_line(&plan.prompts[i]).as_str());
    }
    assert(entries.take(entries.len() as int) =~= entries);
    let mut out = plan_head(plan, limit);
    out.append(lines.as_str());
    out.append("\n");
    out
}

/// The numbered lines of the picks.
pub open spec fn pick_lines_text(picks: Seq<Option<Seq<char>>>) -> Seq<char>
    decreases picks.len(),
{
    if picks.len() == 0 {
        Seq::empty()
    } else {
        pick_lines_text(picks.drop_last()) + "  "@ + text::pad_left(
            text::decimal(picks.len()),
            ' ',
            2,
        ) + ". "@ + (match picks.last() {
            Some(name) => name,
            None => "(no eligible prompt this rotation)"@,
        }) + "\n"@
    }
}

/// The picks of a preview stand one to a line, numbered from one, in the order of
/// the rotations; a rotation that picks nothing says so.
pub proof fn picks_are_numbered_in_order(picks: Seq<Option<Seq<char>>>, pick: Option<Seq<char>>)
    ensures
        pick_lines_text(picks.push(pick)) == pick_lines_text(picks) + "  "@ + text::pad_left(
            text::decimal(picks.len() + 1),
            ' ',
            2,
        ) + ". "@ + (if pick is Some {
            pick->0
        } else {
            "(no eligible prompt this rotation)"@
        }) + "\n"@,
        pick_lines_text(Seq::<Option<Seq<char>>>::empty()).len() == 0,
{
    assert(picks.push(pick).drop_last() =~= picks);
}

/// The scheduler section.
pub open spec fn preview_text(picks: Seq<Option<Seq<char>>>, resumed: bool) -> Seq<char> {
    "## Scheduler preview\n\n"@ + "Next "@ + text::decimal(PREVIEW_PICK_COUNT as nat)
        + (if resumed {
        " picks (resumed scheduler state):\n"@
    } else {
        " picks (frontmatter rules + plan overrides):\n"@
    }) + pick_lines_text(picks) + "\n"@
}

/// The preview shows its picks, and whether they go on from a resumed run.
pub proof fn the_preview_shows_its_picks(picks: Seq<Option<Seq<char>>>)
    ensures
        text::contains(preview_text(picks, true), "picks (resumed scheduler state):"@),
        text::contains(
            preview_text(picks, false),
            "picks (frontmatter rules + plan overrides):"@,
        ),
        text::contains(preview_text(picks, true), pick_lines_text(picks)),
        text::contains(preview_text(picks, false), pick_lines_text(picks)),
{
    let lines = pick_lines_text(picks);
    let head = "## Scheduler preview\n\n"@ + "Next "@ + text::decimal(PREVIEW_PICK_COUNT as nat);
    let resumed = " picks (resumed scheduler state):\n"@;
    let fresh = " picks (frontmatter rules + plan overrides):\n"@;
    reveal_strlit(" picks (resumed scheduler state):\n");
    reveal_strlit("picks (resumed scheduler state):");
    reveal_strlit(" picks (frontmatter rules + plan overrides):\n");
    reveal_strlit("picks (frontmatter rules + plan overrides):");
    assert(resumed =~= seq![' '] + "picks (resumed scheduler state):"@ + seq!['\n']);
    assert(fresh =~= seq![' '] + "picks (frontmatter rules + plan overrides):"@ + seq!['\n']);
    text::parts_are_held(
        seq![' '],
        "picks (resumed scheduler state):"@,
        seq!['\n'],
        resumed,
    );
    text::parts_are_held(
        seq![' '],
        "picks (frontmatter rules + plan overrides):"@,
        seq!['\n'],
        fresh,
    );
    let whole = preview_text(picks, true);
    text::parts_are_held(head, resumed, lines + "\n"@, whole);
    text::held_in_a_part(
        head,
        resumed,
        lines + "\n"@,
        whole,
        "picks (resumed scheduler state):"@,
    );
    text::parts_are_held(head + resumed, lines, "\n"@, whole);
    let other = preview_text(picks, false);
    text::held_in_a_part(
        head,
        fresh,
        lines + "\n"@,
        other,
        "picks (frontmatter rules + plan overrides):"@,
    );
    text::parts_are_held(head + fresh, lines, "\n"@, other);
}

fn pick_lines(picks: &Vec<Option<String>>) -> (r: String)
    ensures
        r@ == pick_lines_text(pick_views(picks@)),
{
    let ghost all = pick_views(picks@);
    let mut lines = String::new();
    assert(lines@ =~= pick_lines_text(all.take(0)));
    for i in 0..picks.len()
        invariant
            all == pick_views(picks@),
            lines@ == pick_lines_text(all.take(i as int)),
    {
        proof {
            assert(all.take(i + 1).drop_last() =~= all.take(i as int));
            assert(all.take(i + 1).last() == all[i as int]);
        }
        lines.append("  ");
        lines.append(text::padded(text::decimal_usize(i + 1).as_str(), ' ', 2).as_str());
        lines.append(". ");
        match &picks[i] {
            Some(name) => {
                lines.append(name.as_str());
            },
            None => {
                lines.append("(no eligible prompt this rotation)");
            },
        }
        lines.append("\n");
    }
    assert(all.take(all.len() as int) =~= all);
    lines
}

fn preview_section(picks: &Vec<Option<String>>, resumed: bool) -> (r: String)
    ensures
        r@ == preview_text(pick_views(picks@), resumed),
{
    let mut out = text::owned("## Scheduler preview\n\n");
    out.append("Next ");
    out.append(text::decimal_usize(PREVIEW_PICK_COUNT).as_str());
    out.append(
        if resumed {
            " picks (resumed scheduler state):\n"
        } else {
            " picks (frontmatter rules + plan overrides):\n"
        },
    );
    out.append(pick_lines(picks).as_str());
    out.append("\n");
    out
}

// ---------------------------------------------------------------------------
// The report
// ---------------------------------------------------------------------------

/// The picks that the report of `inputs` previews.
pub open spec fn report_picks(inputs: DryRunInputs) -> Seq<Option<Seq<char>>> {
    preview(
        inputs.plan.prompts@,
        lookup(inputs.prompts@),
        seed_rotation(inputs.resume_scheduler_state),
        seed_runs(inputs.resume_scheduler_state),
        PREVIEW_PICK_COUNT as nat,
    ).picks
}

/// The report of `inputs`: the header, then one section after the other.
pub open spec fn report_text(inputs: DryRunInputs) -> Seq<char> {
    DRY_RUN_HEADER@ + "\nversion: "@ + DRY_RUN_VERSION@ + "\n\n"@ + workspace_text(
        inputs.workspace@,
        inputs.agent_backend,
        inputs.resume_target,
    ) + resume_text(
        inputs.resume_budget_consumed,
        inputs.resume_last_session_seq,
        inputs.resume_scheduler_state,
    ) + prompts_text(inputs.prompts@) + plan_text(
        *inputs.plan,
        inputs.consecutive_failure_limit,
    ) + budgets_section_text(*inputs.budgets) + hooks_section_text(inputs.plan.hooks)
        + preview_text(report_picks(inputs), inputs.resume_scheduler_state is Some)
}

/// The report starts with its header and holds every section in full: that on the
/// workspace, on what is resumed, on the prompts, the plan, the budgets, the hooks of
/// the plan, and the preview.
pub proof fn reports_hold_every_section(inputs: DryRunInputs)
    ensures
        DRY_RUN_HEADER@.is_prefix_of(report_text(inputs)),
        text::contains(
            report_text(inputs),
            workspace_text(inputs.workspace@, inputs.agent_backend, inputs.resume_target),
        ),
        text::contains(
            report_text(inputs),
            resume_text(
                inputs.resume_budget_consumed,
                inputs.resume_last_session_seq,
                inputs.resume_scheduler_state,
            ),
        ),
        text::contains(report_text(inputs), prompts_text(inputs.prompts@)),
        text::contains(
            report_text(inputs),
            plan_text(*inputs.plan, inputs.consecutive_failure_limit),
        ),
        text::contains(report_text(inputs), budgets_section_text(*inputs.budgets)),
        text::contains(report_text(inputs), hooks_section_text(inputs.plan.hooks)),
        text::contains(
            report_text(inputs),
            preview_text(report_picks(inputs), inputs.resume_scheduler_state is Some),
        ),
{
    let whole = report_text(inputs);
    let start = DRY_RUN_HEADER@ + "\nversion: "@ + DRY_RUN_VERSION@ + "\n\n"@;
    let workspace = workspace_text(inputs.workspace@, inputs.agent_backend, inputs.resume_target);
    let resume = resume_text(
        inputs.resume_budget_consumed,
        inputs.resume_last_session_seq,
        inputs.resume_scheduler_state,
    );
    let prompts = prompts_text(inputs.prompts@);
    let plan = plan_text(*inputs.plan, inputs.consecutive_failure_limit);
    let budgets = budgets_section_text(*inputs.budgets);
    let hooks = hooks_section_text(inputs.plan.hooks);
    let preview = preview_text(report_picks(inputs), inputs.resume_scheduler_state is Some);
    sections_are_held(start, workspace, resume, prompts, plan, budgets, hooks, preview);
    assert(DRY_RUN_HEADER@ =~= whole.take(DRY_RUN_HEADER@.len() as int));
}

proof fn sections_are_held(
    start: Seq<char>,
    a: Seq<char>,
    b: Seq<char>,
    c: Seq<char>,
    d: Seq<char>,
    e: Seq<char>,
    f: Seq<char>,
    g: Seq<char>,
)
    ensures
        text::contains(start + a + b + c + d + e + f + g, a),
        text::contains(start + a + b + c + d + e + f + g, b),
        text::contains(start + a + b + c + d + e + f + g, c),
        text::contains(start + a + b + c + d + e + f + g, d),
        text::contains(start + a + b + c + d + e + f + g, e),
        text::contains(start + a + b + c + d + e + f + g, f),
        text::contains(start + a + b + c + d + e + f + g, g),
{
    let none = Seq::<char>::empty();
    let whole = start + a + b + c + d + e + f + g;
    let head = start + a + b + c;
    let tail = d + e + f + g;
    assert(whole =~= head + tail);
    text::parts_are_held(start, a, b + c, head);
    text::parts_are_held(start + a, b, c, head);
    text::parts_are_held(start + a + b, c, none, head);
    text::parts_are_held(none, d, e + f + g, tail);
    text::parts_are_held(d, e, f + g, tail);
    text::parts_are_held(d + e, f, g, tail);
    text::parts_are_held(d + e + f, g, none, tail);
    text::held_in_a_part(none, head, tail, whole, a);
    text::held_in_a_part(none, head, tail, whole, b);
    text::held_in_a_part(none, head, tail, whole, c);
    text::held_in_a_part(head, tail, none, whole, d);
    text::held_in_a_part(head, tail, none, whole, e);
    text::held_in_a_part(head, tail, none, whole, f);
    text::held_in_a_part(head, tail, none, whole, g);
}

/// Render the full dry-run report. Pure: depends only on `inputs`.
///
/// Layout:
/// 1. `=== pitboss grind --dry-run ===` and the line `version: 1`.
/// 2. `## Workspace` — paths and agent backend.
/// 3. `## Resume` — what a resumed run has consumed; left out for a fresh one.
/// 4. `## Prompts` — every discovered prompt with source and frontmatter
///    summary.
/// 5. `## Plan` — name, parallelism cap, plan-level prompt entries.
/// 6. `## Budgets` — every cap that resolved (or `(unset)` placeholders).
/// 7. `## Hooks` — every hook command (or `(unset)` placeholders).
/// 8. `## Scheduler preview` — the next [`PREVIEW_PICK_COUNT`] picks the
///    scheduler would emit on the first `next()` call cycle.
pub fn render_dry_run_report(inputs: &DryRunInputs) -> (r: String)
    requires
        inputs.plan.prompts@.len() <= scheduler::MAX_ENTRIES,
    ensures
        r@ == report_text(*inputs),
{
    let picks = preview_picks_from_state(
        inputs.plan,
        inputs.prompts,
        inputs.resume_scheduler_state,
        PREVIEW_PICK_COUNT,
    );
    let resumed = inputs.resume_scheduler_state.is_some();
    let mut out = text::owned(DRY_RUN_HEADER);
    out.append("\nversion: ");
    out.append(DRY_RUN_VERSION);
    out.append("\n\n");
    out.append(workspace_section(inputs).as_str());
    out.append(resume_section(inputs).as_str());
    out.append(prompts_section(inputs.prompts).as_str());
    out.append(plan_section(inputs.plan, inputs.consecutive_failure_limit).as_str());
    out.append(budgets_section(inputs.budgets).as_str());
    out.append(hooks_section(&inputs.plan.hooks).as_str());
    out.append(preview_section(&picks, resumed).as_str());
    out
}

} // verus!
