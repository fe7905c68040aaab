//! Persisted resume state for a `pitboss grind` run.
//!
//! A run's `state.json` caches everything `pitboss grind --resume` needs to
//! pick up where the original loop left off:
//!
//! - the scheduler position (rotation count + per-prompt run counts),
//! - the budget tracker's cumulative spend,
//! - the run's branch and rotation name,
//! - the prompt-name list at run start, used as a "did the prompt set change"
//!   fingerprint, and
//! - the run's lifecycle status ([`RunStatus`]).
//!
//! `sessions.jsonl` remains the source of truth for the per-session record
//! stream; this file is a small derived cache so the resume path doesn't have
//! to re-aggregate every JSONL line on startup.

use vstd::prelude::*;
use vstd::string::StringExecFns;

use super::budget;
use super::budget::BudgetSnapshot;
use super::plan::{GrindPlan, PlanPromptRef};
use super::prompt::PromptDoc;
use super::run_dir::{SessionRecord, STATE_FILENAME};
use super::scheduler;
use super::scheduler::{Scheduler, SchedulerState};
use crate::paths;
use crate::table;
use crate::table::Table;
use crate::text;
use crate::time::Timestamp;

verus! {

/// Lifecycle status persisted with [`RunState`]. The resume entry-point picks
/// the most-recent run whose status is [`RunStatus::Active`] (still running
/// when its host process died) or [`RunStatus::Aborted`] (Ctrl-C drained the
/// loop).
#[derive(Debug, Clone, Copy, PartialEq, Eq, Structural)]
pub enum RunStatus {
    /// The run is mid-execution, or its host process died before writing a
    /// terminal status. Resumable.
    Active,
    /// The scheduler exhausted naturally (or all configured caps held). Not
    /// resumable.
    Completed,
    /// The user aborted the run (`Ctrl-C` drain or explicit abort). Resumable.
    Aborted,
    /// A budget tripped or the consecutive-failure escape valve fired. Not
    /// resumable.
    Failed,
}

/// `--resume` may pick up a run with this status.
pub open spec fn resumable(s: RunStatus) -> bool {
    s == RunStatus::Active || s == RunStatus::Aborted
}

impl RunStatus {
    /// Whether `--resume` is allowed to pick this run up.
    pub fn is_resumable(self) -> (r: bool)
        ensures
            r == resumable(self),
    {
        match self {
            RunStatus::Active | RunStatus::Aborted => true,
            RunStatus::Completed | RunStatus::Failed => false,
        }
    }

    /// The name of the status in an error.
    pub fn as_str(self) -> (r: &'static str)
        ensures
            r@ == run_status_text(self),
    {
        match self {
            RunStatus::Active => "Active",
            RunStatus::Completed => "Completed",
            RunStatus::Aborted => "Aborted",
            RunStatus::Failed => "Failed",
        }
    }
}

/// The name of a status in an error.
pub open spec fn run_status_text(s: RunStatus) -> Seq<char> {
    match s {
        RunStatus::Active => "Active"@,
        RunStatus::Completed => "Completed"@,
        RunStatus::Aborted => "Aborted"@,
        RunStatus::Failed => "Failed"@,
    }
}

/// Source-of-truth resume snapshot for a single grind run. Written atomically
/// after every session and on every terminal exit; a missing or malformed
/// file refuses resume rather than silently producing stale results.
#[derive(Debug, PartialEq, Eq)]
pub struct RunState {
    /// Run id this snapshot belongs to. Mirrors the directory name; carried
    /// inside the file so a misplaced state.json still self-identifies.
    pub run_id: String,
    /// Branch the runner committed onto. Re-checked-out on resume.
    pub branch: String,
    /// Plan name in effect for the run. Compared against the resolved plan
    /// on resume; a mismatch refuses to continue.
    pub plan_name: String,
    /// Sorted list of prompt names the original plan referenced. Used as a
    /// fingerprint so a removed (or renamed) prompt rejects the resume.
    pub prompt_names: Vec<String>,
    /// Scheduler state captured after the last recorded session.
    pub scheduler_state: SchedulerState,
    /// Budget tracker snapshot captured after the last recorded session.
    pub budget_consumed: BudgetSnapshot,
    /// Sequence number of the last session written to `sessions.jsonl`. The
    /// resumed runner dispatches `last_session_seq + 1` next.
    pub last_session_seq: u32,
    /// Wall-clock time the run was originally started.
    pub started_at: Timestamp,
    /// Wall-clock time of the most recent state write.
    pub last_updated_at: Timestamp,
    /// Lifecycle status. See [`RunStatus`].
    pub status: RunStatus,
}

/// One run that has a readable `state.json`. The `state_path` is the file, so
/// errors that happen later (resume failed, validation rejected) can point
/// users at it.
#[derive(Debug, PartialEq, Eq)]
pub struct RunListing {
    /// Run id (the name of the run's directory).
    pub run_id: String,
    /// Path to the `state.json` file.
    pub state_path: String,
    /// Parsed state.
    pub state: RunState,
}

/// Errors a resume validation can produce. Each variant maps onto a clear
/// CLI diagnostic; none of them leave the run in a partially resumed state.
#[derive(Debug, PartialEq, Eq)]
pub enum ResumeError {
    /// No resumable run exists.
    NoResumableRun {
        /// Directory searched.
        dir: String,
    },
    /// The named run does not exist on disk.
    RunNotFound {
        /// Requested run id.
        run_id: String,
        /// The directory that the run would have.
        dir: String,
    },
    /// The run's `state.json` is missing or malformed.
    StateUnreadable {
        /// Requested run id.
        run_id: String,
        /// What reading or decoding it said.
        source: String,
    },
    /// The run already exited terminally and cannot be resumed.
    NotResumable {
        /// Requested run id.
        run_id: String,
        /// Persisted status that disqualified the run.
        status: RunStatus,
    },
    /// The plan name in `config.toml`/CLI no longer matches the run's
    /// recorded plan.
    PlanRenamed {
        /// Requested run id.
        run_id: String,
        /// Original plan name persisted at run start.
        original: String,
        /// Plan name resolved on the resume invocation.
        current: String,
    },
    /// The plan's prompt-name list differs from the original.
    PromptSetChanged {
        /// Requested run id.
        run_id: String,
        /// Prompts present now that were not at run start.
        added: Vec<String>,
        /// Prompts present at run start but not now.
        removed: Vec<String>,
    },
    /// `state.json`'s `last_session_seq` disagrees with the actual tail of
    /// `sessions.jsonl` in a way that replaying the log cannot repair. Refusing
    /// keeps the run repairable by hand instead of silently doubling a session
    /// record.
    StateOutOfSync {
        /// Requested run id.
        run_id: String,
        /// `last_session_seq` from the cached `state.json`.
        state_seq: u32,
        /// Highest seq actually present in `sessions.jsonl` (`0` when empty).
        jsonl_seq: u32,
    },
}

// ---------------------------------------------------------------------------
// Listing runs
// ---------------------------------------------------------------------------

/// How many leading runs of `runs` were updated no earlier than `at`, `runs`
/// being sorted from the newest on.
pub open spec fn newest_slot(runs: Seq<RunListing>, at: Timestamp) -> int
    decreases runs.len(),
{
    if runs.len() > 0 && runs.last().state.last_updated_at.earlier(at) {
        newest_slot(runs.drop_last(), at)
    } else {
        runs.len() as int
    }
}

/// `runs` sorted from the most recently updated on; runs that were updated at
/// the same instant keep their order.
pub open spec fn newest_first(runs: Seq<RunListing>) -> Seq<RunListing>
    decreases runs.len(),
{
    if runs.len() == 0 {
        Seq::empty()
    } else {
        let rest = newest_first(runs.drop_last());
        rest.insert(newest_slot(rest, runs.last().state.last_updated_at), runs.last())
    }
}

/// No run of `runs` was updated later than one that stands before it.
pub open spec fn newest_on_top(runs: Seq<RunListing>) -> bool {
    forall|i: int, j: int|
        0 <= i < j < runs.len() ==> !(#[trigger] runs[i]).state.last_updated_at.earlier(
            (#[trigger] runs[j]).state.last_updated_at,
        )
}

proof fn newest_slot_bounds(runs: Seq<RunListing>, at: Timestamp)
    ensures
        0 <= newest_slot(runs, at) <= runs.len(),
        forall|j: int|
            newest_slot(runs, at) <= j < runs.len() ==> (
            #[trigger] runs[j]).state.last_updated_at.earlier(at),
        newest_slot(runs, at) > 0 ==> !runs[newest_slot(runs, at)
            - 1].state.last_updated_at.earlier(at),
    decreases runs.len(),
{
    if runs.len() > 0 && runs.last().state.last_updated_at.earlier(at) {
        newest_slot_bounds(runs.drop_last(), at);
        assert forall|j: int| newest_slot(runs, at) <= j < runs.len() implies (
        #[trigger] runs[j]).state.last_updated_at.earlier(at) by {
            if j < runs.len() - 1 {
                assert(runs.drop_last()[j] == runs[j]);
            }
        }
    }
}

/// [`newest_first`] puts the newest run on top, and neither drops, adds nor
/// changes one.
pub proof fn newest_first_is_ordered_permutation(runs: Seq<RunListing>)
    ensures
        newest_on_top(newest_first(runs)),
        newest_first(runs).len() == runs.len(),
        newest_first(runs).to_multiset() == runs.to_multiset(),
    decreases runs.len(),
{
    broadcast use vstd::seq_lib::group_to_multiset_ensures;

    if runs.len() > 0 {
        let front = runs.drop_last();
        let rest = newest_first(front);
        let x = runs.last();
        let at = x.state.last_updated_at;
        let k = newest_slot(rest, at);
        newest_first_is_ordered_permutation(front);
        newest_slot_bounds(rest, at);
        let out = rest.insert(k, x);
        assert(front.push(x) =~= runs);
        assert(out.to_multiset() =~= rest.to_multiset().insert(x));
        assert forall|i: int, j: int| 0 <= i < j < out.len() implies !(
        #[trigger] out[i]).state.last_updated_at.earlier(
            (#[trigger] out[j]).state.last_updated_at,
        ) by {
            if j < k {
                assert(out[i] == rest[i] && out[j] == rest[j]);
            } else if i > k {
                assert(out[i] == rest[i - 1] && out[j] == rest[j - 1]);
            } else if i < k && j > k {
                assert(out[i] == rest[i] && out[j] == rest[j - 1]);
            } else if i < k && j == k {
                assert(out[i] == rest[i]);
                if i < k - 1 {
                    assert(!rest[i].state.last_updated_at.earlier(
                        rest[k - 1].state.last_updated_at,
                    ));
                }
            } else {
                assert(out[j] == rest[j - 1]);
                assert(rest[j - 1].state.last_updated_at.earlier(at));
            }
        }
    } else {
        assert(newest_first(runs) =~= runs);
    }
}

/// Runs that were updated at one instant are listed in the order in which they
/// were found.
pub proof fn equally_new_runs_keep_their_order(runs: Seq<RunListing>, at: Timestamp)
    ensures
        newest_first(runs).filter(|x: RunListing| same_instant(x, at)) == runs.filter(
            |x: RunListing| same_instant(x, at),
        ),
    decreases runs.len(),
{
    let p = |x: RunListing| same_instant(x, at);
    reveal(Seq::filter);
    if runs.len() > 0 {
        let front = runs.drop_last();
        let rest = newest_first(front);
        let x = runs.last();
        let k = newest_slot(rest, x.state.last_updated_at);
        equally_new_runs_keep_their_order(front, at);
        newest_slot_bounds(rest, x.state.last_updated_at);
        let (a, b) = (rest.take(k), rest.skip(k));
        assert(rest =~= a + b);
        assert(rest.insert(k, x) =~= a + (seq![x] + b));
        Seq::filter_distributes_over_add(a, b, p);
        Seq::filter_distributes_over_add(a, seq![x] + b, p);
        Seq::filter_distributes_over_add(seq![x], b, p);
        assert(seq![x].drop_last() =~= Seq::<RunListing>::empty());
        if p(x) {
            assert forall|j: int| 0 <= j < b.len() implies !p(#[trigger] b[j]) by {
                assert(b[j] == rest[k + j]);
            }
            none_pass(b, p);
            assert(seq![x].filter(p) =~= seq![x]);
            assert(rest.insert(k, x).filter(p) =~= rest.filter(p).push(x));
        } else {
            none_pass(seq![x], p);
            assert(rest.insert(k, x).filter(p) =~= rest.filter(p));
        }
    }
}

/// The run was updated at the instant `at`.
pub open spec fn same_instant(run: RunListing, at: Timestamp) -> bool {
    !run.state.last_updated_at.earlier(at) && !at.earlier(run.state.last_updated_at)
}

proof fn none_pass<T>(s: Seq<T>, p: spec_fn(T) -> bool)
    requires
        forall|j: int| 0 <= j < s.len() ==> !p(#[trigger] s[j]),
    ensures
        s.filter(p) == Seq::<T>::empty(),
    decreases s.len(),
{
    reveal(Seq::filter);
    if s.len() > 0 {
        assert forall|j: int| 0 <= j < s.drop_last().len() implies !p(#[trigger] s.drop_last()[j]) by {
            assert(s.drop_last()[j] == s[j]);
        }
        none_pass(s.drop_last(), p);
        assert(!p(s[s.len() - 1]));
    }
}

fn insert_newest(out: &mut Vec<RunListing>, x: RunListing)
    ensures
        final(out)@ == old(out)@.insert(newest_slot(old(out)@, x.state.last_updated_at), x),
{
    let mut k: usize = out.len();
    assert(out@.take(k as int) =~= out@);
    while k > 0 && out[k - 1].state.last_updated_at.is_before(&x.state.last_updated_at)
        invariant
            k <= out@.len(),
            out@ == old(out)@,
            newest_slot(out@, x.state.last_updated_at) == newest_slot(
                out@.take(k as int),
                x.state.last_updated_at,
            ),
        decreases k,
    {
        assert(out@.take(k as int).drop_last() =~= out@.take(k - 1));
        k = k - 1;
    }
    out.insert(k, x);
}

/// Sorts the runs that were found on disk from the most recently updated on.
pub fn list_runs(found: Vec<RunListing>) -> (r: Vec<RunListing>)
    ensures
        r@ == newest_first(found@),
        newest_on_top(r@),
{
    let ghost given = found@;
    let mut rest = found;
    let mut out: Vec<RunListing> = Vec::new();
    while rest.len() > 0
        invariant
            given.len() == out@.len() + rest@.len(),
            rest@ == given.skip(out@.len() as int),
            out@ == newest_first(given.take(out@.len() as int)),
        decreases rest@.len(),
    {
        let ghost done = out@.len() as int;
        let x = rest.remove(0);
        insert_newest(&mut out, x);
        proof {
            let more = given.take(done + 1);
            assert(more.drop_last() =~= given.take(done));
            assert(more.last() == x);
            newest_slot_bounds(newest_first(given.take(done)), x.state.last_updated_at);
            assert(rest@ =~= given.skip(done + 1));
        }
    }
    assert(given.take(given.len() as int) =~= given);
    proof {
        newest_first_is_ordered_permutation(given);
    }
    out
}

/// The first index at or after `from` whose run can be resumed.
pub open spec fn first_resumable(runs: Seq<RunListing>, from: int) -> Option<int>
    decreases runs.len() - from,
{
    if from >= runs.len() {
        None
    } else if resumable(runs[from].state.status) {
        Some(from)
    } else {
        first_resumable(runs, from + 1)
    }
}

/// The most recently updated of the runs found on disk whose persisted status
/// is [`RunStatus::Active`] or [`RunStatus::Aborted`]. The default target for
/// `--resume` with no argument.
pub fn most_recent_resumable(found: Vec<RunListing>) -> (r: Option<RunListing>)
    ensures
        match (r, first_resumable(newest_first(found@), 0)) {
            (Some(run), Some(i)) => run == newest_first(found@)[i],
            (None, None) => true,
            _ => false,
        },
{
    let mut runs = list_runs(found);
    let ghost all = runs@;
    let n: usize = runs.len();
    let mut i: usize = 0;
    while i < n && !runs[i].state.status.is_resumable()
        invariant
            runs@ == all,
            n == all.len(),
            i <= n,
            first_resumable(all, 0) == first_resumable(all, i as int),
        decreases n - i,
    {
        i = i + 1;
    }
    if i < n {
        Some(runs.remove(i))
    } else {
        None
    }
}

// ---------------------------------------------------------------------------
// Picking the run to resume
// ---------------------------------------------------------------------------

/// Where the runs of a repository lie (`<repo>/.pitboss/grind`).
pub open spec fn runs_dir(repo_root: Seq<char>) -> Seq<char> {
    paths::joined(paths::joined(repo_root, ".pitboss"@), "grind"@)
}

/// Where the runs of a repository lie (`<repo>/.pitboss/grind`).
pub fn grind_runs_dir(repo_root: &str) -> (r: String)
    ensures
        r@ == runs_dir(repo_root@),
{
    paths::join(paths::join(repo_root, ".pitboss").as_str(), "grind")
}

/// A `--resume [<run-id>]` invocation, with what was found on disk for it.
pub enum ResumeRequest {
    /// The run with this id: whether its directory is there, and what reading
    /// its `state.json` gave.
    Named { run_id: String, is_dir: bool, state: Result<RunState, String> },
    /// The most recent resumable one of these runs.
    MostRecent { found: Vec<RunListing> },
}

/// What a `--resume` invocation resolves to.
pub open spec fn resolves(
    repo_root: Seq<char>,
    request: ResumeRequest,
    r: Result<RunListing, ResumeError>,
) -> bool {
    match request {
        ResumeRequest::Named { run_id, is_dir, state } => {
            let home = paths::joined(runs_dir(repo_root), run_id@);
            if !is_dir {
                r matches Err(ResumeError::RunNotFound { run_id: id, dir }) && id@ == run_id@
                    && dir@ == home
            } else {
                match state {
                    Err(why) => r matches Err(ResumeError::StateUnreadable { run_id: id, source })
                        && id@ == run_id@ && source@ == why@,
                    Ok(s) => {
                        &&& r matches Ok(run)
                        &&& run.run_id@ == run_id@
                        &&& run.state_path@ == paths::joined(home, STATE_FILENAME@)
                        &&& run.state == s
                    },
                }
            }
        },
        ResumeRequest::MostRecent { found } => match first_resumable(newest_first(found@), 0) {
            Some(i) => r matches Ok(run) && run == newest_first(found@)[i],
            None => r matches Err(ResumeError::NoResumableRun { dir }) && dir@ == runs_dir(
                repo_root,
            ),
        },
    }
}

/// Without a name, a resume picks a run that was found and that is active or was
/// aborted, and no other such run was updated later. It finds none only where no
/// run that was found is active or was aborted.
pub proof fn the_newest_resumable_run_is_picked(
    repo_root: Seq<char>,
    found: Vec<RunListing>,
    r: Result<RunListing, ResumeError>,
    other: RunListing,
)
    requires
        resolves(repo_root, ResumeRequest::MostRecent { found }, r),
        found@.contains(other),
        other.state.status == RunStatus::Active || other.state.status == RunStatus::Aborted,
    ensures
        r matches Ok(run) && found@.contains(run) && (run.state.status == RunStatus::Active
            || run.state.status == RunStatus::Aborted)
            && !run.state.last_updated_at.earlier(other.state.last_updated_at),
{
    broadcast use vstd::seq_lib::group_to_multiset_ensures;

    let all = newest_first(found@);
    newest_first_is_ordered_permutation(found@);
    assert(all.to_multiset().count(other) > 0);
    assert(all.contains(other));
    first_resumable_is_first(all, 0);
    let j = choose|j: int| 0 <= j < all.len() && all[j] == other;
    let i = first_resumable(all, 0)->0;
    assert(resumable(all[j].state.status));
    assert(found@.to_multiset().count(all[i]) > 0) by {
        assert(all.contains(all[i]));
    }
}

/// Where no run that was found is active or was aborted, a resume without a name
/// is refused.
pub proof fn ended_runs_are_not_resumed(
    repo_root: Seq<char>,
    found: Vec<RunListing>,
    r: Result<RunListing, ResumeError>,
)
    requires
        resolves(repo_root, ResumeRequest::MostRecent { found }, r),
        forall|i: int|
            0 <= i < found@.len() ==> (#[trigger] found@[i]).state.status == RunStatus::Completed
                || found@[i].state.status == RunStatus::Failed,
    ensures
        r matches Err(ResumeError::NoResumableRun { dir }),
{
    broadcast use vstd::seq_lib::group_to_multiset_ensures;

    let all = newest_first(found@);
    newest_first_is_ordered_permutation(found@);
    first_resumable_is_first(all, 0);
    if let Some(i) = first_resumable(all, 0) {
        assert(all.contains(all[i]));
        assert(found@.to_multiset().count(all[i]) > 0);
        assert(found@.contains(all[i]));
    }
}

proof fn first_resumable_is_first(runs: Seq<RunListing>, from: int)
    requires
        0 <= from <= runs.len(),
    ensures
        match first_resumable(runs, from) {
            Some(i) => from <= i < runs.len() && resumable(runs[i].state.status) && forall|j: int|
                from <= j < i ==> !resumable((#[trigger] runs[j]).state.status),
            None => forall|j: int|
                from <= j < runs.len() ==> !resumable((#[trigger] runs[j]).state.status),
        },
    decreases runs.len() - from,
{
    if from < runs.len() && !resumable(runs[from].state.status) {
        first_resumable_is_first(runs, from + 1);
    }
}

/// A run that is named is that very run: it is taken as its own state file says
/// where its directory is there and the file can be read, and else refused for
/// the one or the other.
pub proof fn a_named_run_is_the_one_resumed(
    repo_root: Seq<char>,
    run_id: String,
    is_dir: bool,
    state: Result<RunState, String>,
    r: Result<RunListing, ResumeError>,
)
    requires
        resolves(repo_root, ResumeRequest::Named { run_id, is_dir, state }, r),
    ensures
        r is Ok <==> is_dir && state is Ok,
        r is Ok ==> r->Ok_0.run_id@ == run_id@ && r->Ok_0.state == state->Ok_0,
        !is_dir ==> (r matches Err(ResumeError::RunNotFound { run_id: id, dir }) && id@ == run_id@),
        is_dir && state is Err ==> (r matches Err(ResumeError::StateUnreadable {
            run_id: id,
            source,
        }) && id@ == run_id@ && source@ == state->Err_0@),
{
}

/// Resolve a `--resume [<run-id>]` invocation to a run on disk. A named run
/// must exist; without a name the most recent run whose status is `Active` or
/// `Aborted` is picked.
pub fn resolve_target(repo_root: &str, request: ResumeRequest) -> (r: Result<
    RunListing,
    ResumeError,
>)
    ensures
        resolves(repo_root@, request, r),
{
    let root = grind_runs_dir(repo_root);
    match request {
        ResumeRequest::Named { run_id, is_dir, state } => {
            let dir = paths::join(root.as_str(), run_id.as_str());
            if !is_dir {
                return Err(ResumeError::RunNotFound { run_id, dir });
            }
            match state {
                Err(source) => Err(ResumeError::StateUnreadable { run_id, source }),
                Ok(state) => {
                    let state_path = paths::join(dir.as_str(), STATE_FILENAME);
                    Ok(RunListing { run_id, state_path, state })
                },
            }
        },
        ResumeRequest::MostRecent { found } => {
            match most_recent_resumable(found) {
                Some(run) => Ok(run),
                None => Err(ResumeError::NoResumableRun { dir: root }),
            }
        },
    }
}

// ---------------------------------------------------------------------------
// Validating a resume
// ---------------------------------------------------------------------------

/// `names` are exactly the names that `a` has and `b` has not, in order and
/// without repetition.
pub open spec fn is_difference(names: Seq<Seq<char>>, a: Seq<Seq<char>>, b: Seq<Seq<char>>) -> bool {
    &&& table::ascending(names)
    &&& forall|n: Seq<char>| #[trigger] names.contains(n) <==> a.contains(n) && !b.contains(n)
}

/// `a` and `b` hold the same names.
pub open spec fn same_names(a: Seq<Seq<char>>, b: Seq<Seq<char>>) -> bool {
    forall|n: Seq<char>| #![trigger a.contains(n)] a.contains(n) <==> b.contains(n)
}

/// Whether `names` holds `name`.
fn holds(names: &[String], name: &str) -> (r: bool)
    ensures
        r == text::views(names@).contains(name@),
{
    let ghost all = text::views(names@);
    for i in 0..names.len()
        invariant
            all == text::views(names@),
            forall|j: int| 0 <= j < i ==> #[trigger] all[j] != name@,
    {
        assert(all[i as int] == names@[i as int]@);
        if text::same(names[i].as_str(), name) {
            return true;
        }
    }
    false
}

/// The names of `a` in order, each once.
fn in_order(a: &[String]) -> (r: Table<bool>)
    ensures
        forall|n: Seq<char>| #[trigger]
            r@.contains_key(n) <==> text::views(a@).contains(n),
{
    let ghost all = text::views(a@);
    let mut out: Table<bool> = Table::new();
    for i in 0..a.len()
        invariant
            all == text::views(a@),
            forall|n: Seq<char>| #[trigger]
                out@.contains_key(n) <==> exists|j: int| 0 <= j < i && all[j] == n,
    {
        let ghost before = out@;
        assert(all[i as int] == a@[i as int]@);
        out.insert(a[i].as_str(), true);
        assert forall|n: Seq<char>| #[trigger]
            out@.contains_key(n) <==> exists|j: int| 0 <= j < i + 1 && all[j] == n by {
            if n == all[i as int] {
            } else {
                assert(before.contains_key(n) <==> out@.contains_key(n));
            }
        }
    }
    assert forall|n: Seq<char>| #[trigger] out@.contains_key(n) <==> all.contains(n) by {
        if all.contains(n) {
            let j = choose|j: int| 0 <= j < all.len() && all[j] == n;
            assert(0 <= j < a@.len() && all[j] == n);
        }
    }
    out
}

/// The names that `a` has and `b` has not, in order.
fn difference(a: &[String], b: &[String]) -> (r: Vec<String>)
    ensures
        is_difference(text::views(r@), text::views(a@), text::views(b@)),
{
    let sorted = in_order(a);
    let n: usize = sorted.len();
    let ghost keys = sorted.keys();
    let ghost (x, y) = (text::views(a@), text::views(b@));
    let mut out: Vec<String> = Vec::new();
    for i in 0..n
        invariant
            n == keys.len(),
            keys == sorted.keys(),
            table::ascending(keys),
            y == text::views(b@),
            table::ascending(text::views(out@)),
            forall|m: Seq<char>| #[trigger]
                text::views(out@).contains(m) <==> (exists|j: int| 0 <= j < i && keys[j] == m)
                    && !y.contains(m),
    {
        let (name, _) = sorted.entry(i);
        if !holds(b, name) {
            let ghost before = text::views(out@);
            out.push(text::owned(name));
            proof {
                let now = text::views(out@);
                assert(now =~= before.push(keys[i as int]));
                assert forall|p: int, q: int| 0 <= p < q < now.len() implies text::precedes(
                    #[trigger] now[p],
                    #[trigger] now[q],
                ) by {
                    if q < before.len() {
                        assert(text::precedes(before[p], before[q]));
                    } else {
                        assert(before[p] == now[p]);
                        assert(before.contains(before[p]));
                        let j = choose|j: int| 0 <= j < i && keys[j] == before[p];
                        assert(text::precedes(keys[j], keys[i as int]));
                    }
                }
                assert forall|m: Seq<char>| #[trigger]
                    now.contains(m) <==> (exists|j: int| 0 <= j < i + 1 && keys[j] == m)
                        && !y.contains(m) by {
                    if before.contains(m) {
                        let k = choose|k: int| 0 <= k < before.len() && before[k] == m;
                        assert(now[k] == m);
                    }
                    if m == keys[i as int] {
                        assert(now[before.len() as int] == m);
                    }
                    if now.contains(m) && m != keys[i as int] {
                        let k = choose|k: int| 0 <= k < now.len() && now[k] == m;
                        assert(before[k] == m);
                        assert(before.contains(m));
                    }
                }
            }
        }
    }
    proof {
        let names = text::views(out@);
        assert forall|m: Seq<char>| #[trigger]
            names.contains(m) <==> x.contains(m) && !y.contains(m) by {
            if x.contains(m) {
                assert(sorted@.contains_key(m));
                assert(keys.contains(m));
                let j = choose|j: int| 0 <= j < keys.len() && keys[j] == m;
                assert(0 <= j < n && keys[j] == m);
            }
            if names.contains(m) {
                let j = choose|j: int| 0 <= j < n && keys[j] == m;
                assert(keys.contains(keys[j]));
                assert(sorted@.contains_key(m));
            }
        }
    }
    out
}

/// Compare the persisted `prompt_names` against the current plan's prompt
/// list. Returns the (added, removed) split when they differ.
pub fn diff_prompt_names(original: &[String], current: &[String]) -> (r: Option<
    (Vec<String>, Vec<String>),
>)
    ensures
        match r {
            None => same_names(text::views(original@), text::views(current@)),
            Some((added, removed)) => {
                &&& !same_names(text::views(original@), text::views(current@))
                &&& is_difference(
                    text::views(added@),
                    text::views(current@),
                    text::views(original@),
                )
                &&& is_difference(
                    text::views(removed@),
                    text::views(original@),
                    text::views(current@),
                )
            },
        },
{
    let added = difference(current, original);
    let removed = difference(original, current);
    let ghost (a, b) = (text::views(original@), text::views(current@));
    if added.len() == 0 && removed.len() == 0 {
        proof {
            assert forall|n: Seq<char>| #![trigger a.contains(n)]
                a.contains(n) <==> b.contains(n) by {
                assert(!text::views(added@).contains(n));
                assert(!text::views(removed@).contains(n));
            }
        }
        None
    } else {
        proof {
            if added@.len() > 0 {
                let n = text::views(added@)[0];
                assert(text::views(added@).contains(n));
                assert(b.contains(n) && !a.contains(n));
            } else {
                let n = text::views(removed@)[0];
                assert(text::views(removed@).contains(n));
                assert(a.contains(n) && !b.contains(n));
            }
        }
        Some((added, removed))
    }
}

/// What validating a resume gives. The mismatches are looked for in this
/// order: the status, the plan's name, the prompt set.
pub open spec fn validates(
    run: RunListing,
    plan_name: Seq<char>,
    names: Seq<Seq<char>>,
    r: Result<RunListing, ResumeError>,
) -> bool {
    if !resumable(run.state.status) {
        r matches Err(ResumeError::NotResumable { run_id, status }) && run_id == run.run_id
            && status == run.state.status
    } else if run.state.plan_name@ != plan_name {
        r matches Err(ResumeError::PlanRenamed { run_id, original, current }) && run_id
            == run.run_id && original == run.state.plan_name && current@ == plan_name
    } else if !same_names(text::views(run.state.prompt_names@), names) {
        r matches Err(ResumeError::PromptSetChanged { run_id, added, removed }) && run_id
            == run.run_id && is_difference(
            text::views(added@),
            names,
            text::views(run.state.prompt_names@),
        ) && is_difference(text::views(removed@), text::views(run.state.prompt_names@), names)
    } else {
        r matches Ok(same) && same == run
    }
}

/// A run may go on exactly where it is active or was aborted, its plan has the
/// name that it had, and the plan names the prompts that it named, no more and no
/// fewer. It is handed on as it is. A run that has ended is refused before its
/// plan is looked at, and a renamed plan before its prompts are.
pub proof fn only_the_same_plan_goes_on(
    run: RunListing,
    plan_name: Seq<char>,
    names: Seq<Seq<char>>,
    r: Result<RunListing, ResumeError>,
    name: Seq<char>,
)
    requires
        validates(run, plan_name, names, r),
    ensures
        ({
            let had = text::views(run.state.prompt_names@);
            let alive = run.state.status == RunStatus::Active || run.state.status
                == RunStatus::Aborted;
            let named = run.state.plan_name@ == plan_name;
            &&& r is Ok ==> alive && named && (had.contains(name) <==> names.contains(name))
            &&& r is Ok ==> r->Ok_0 == run
            &&& !alive ==> (r matches Err(ResumeError::NotResumable { run_id, status }) && status
                == run.state.status)
            &&& alive && !named ==> (r matches Err(ResumeError::PlanRenamed { run_id, original, current })
                && original@ == run.state.plan_name@ && current@ == plan_name)
            &&& alive && named && had.contains(name) && !names.contains(name) ==> (r matches Err(
                ResumeError::PromptSetChanged { run_id, added, removed },
            ) && text::views(removed@).contains(name) && !text::views(added@).contains(name))
            &&& alive && named && !had.contains(name) && names.contains(name) ==> (r matches Err(
                ResumeError::PromptSetChanged { run_id, added, removed },
            ) && text::views(added@).contains(name) && !text::views(removed@).contains(name))
            &&& alive && named && had == names ==> r is Ok
        }),
{
}

/// Cross-check a resume target against the current plan. Returns the
/// validated [`RunListing`] when everything lines up, or a [`ResumeError`]
/// describing the first mismatch.
pub fn validate_resume(
    listing: RunListing,
    current_plan_name: &str,
    current_prompt_names: &[String],
) -> (r: Result<RunListing, ResumeError>)
    ensures
        validates(listing, current_plan_name@, text::views(current_prompt_names@), r),
{
    if !listing.state.status.is_resumable() {
        return Err(
            ResumeError::NotResumable { run_id: listing.run_id, status: listing.state.status },
        );
    }
    if !text::same(listing.state.plan_name.as_str(), current_plan_name) {
        return Err(
            ResumeError::PlanRenamed {
                run_id: listing.run_id,
                original: listing.state.plan_name,
                current: text::owned(current_plan_name),
            },
        );
    }
    match diff_prompt_names(listing.state.prompt_names.as_slice(), current_prompt_names) {
        Some((added, removed)) => Err(
            ResumeError::PromptSetChanged { run_id: listing.run_id, added, removed },
        ),
        None => Ok(listing),
    }
}

// ---------------------------------------------------------------------------
// Messages
// ---------------------------------------------------------------------------

/// What `{:?}` prints of a list of texts.
pub open spec fn debug_list(names: Seq<Seq<char>>) -> Seq<char> {
    "["@ + text::join(names.map_values(|n: Seq<char>| text::debug_text(n)), ", "@) + "]"@
}

fn quoted_list(names: &Vec<String>) -> (r: String)
    ensures
        r@ == debug_list(text::views(names@)),
{
    let ghost all = text::views(names@).map_values(|n: Seq<char>| text::debug_text(n));
    let mut parts: Vec<String> = Vec::new();
    for i in 0..names.len()
        invariant
            all == text::views(names@).map_values(|n: Seq<char>| text::debug_text(n)),
            text::views(parts@) == all.take(i as int),
    {
        let ghost before = text::views(parts@);
        let part = text::quoted(names[i].as_str());
        parts.push(part);
        proof {
            assert(text::views(parts@) =~= before.push(part@));
            assert(all.take(i + 1) =~= all.take(i as int).push(all[i as int]));
        }
    }
    assert(all.take(all.len() as int) =~= all);
    let mut out = text::owned("[");
    out.append(text::joined(&parts, ", ").as_str());
    out.append("]");
    out
}

/// The sentence that reports why a run cannot be resumed.
pub open spec fn resume_message(e: ResumeError) -> Seq<char> {
    match e {
        ResumeError::NoResumableRun { dir } => "no resumable grind run found under "@ + dir@,
        ResumeError::RunNotFound { run_id, dir } => "grind run "@ + text::debug_text(run_id@)
            + " not found at "@ + dir@,
        ResumeError::StateUnreadable { run_id, source } => "grind run "@ + text::debug_text(
            run_id@,
        ) + ": failed to read state: "@ + source@,
        ResumeError::NotResumable { run_id, status } => "grind run "@ + text::debug_text(run_id@)
            + " is "@ + run_status_text(status)
            + " and cannot be resumed; start a new run with `pitboss grind`"@,
        ResumeError::PlanRenamed { run_id, original, current } => "grind run "@ + text::debug_text(
            run_id@,
        ) + ": plan name changed (was "@ + text::debug_text(original@) + ", now "@
            + text::debug_text(current@) + "); start a new run with `pitboss grind`"@,
        ResumeError::PromptSetChanged { run_id, added, removed } => "grind run "@
            + text::debug_text(run_id@) + ": prompt set changed (added: "@ + debug_list(
            text::views(added@),
        ) + ", removed: "@ + debug_list(text::views(removed@))
            + "); start a new run with `pitboss grind`"@,
        ResumeError::StateOutOfSync { run_id, state_seq, jsonl_seq } => "grind run "@
            + text::debug_text(run_id@)
            + ": state.json out of sync with sessions.jsonl (state says last_session_seq="@
            + text::decimal(state_seq as nat) + ", log tail has "@ + text::decimal(
            jsonl_seq as nat,
        ) + "); start a new run or repair state.json by hand"@,
    }
}

/// The sentence of a refused resume carries the run, and what stands in its way:
/// its directory, what could not be read, its status, both names of the plan, the
/// prompts that came and went, or both session numbers.
pub proof fn refusals_carry_what_is_in_the_way(e: ResumeError)
    ensures
        e matches ResumeError::NoResumableRun { dir } ==> text::contains(resume_message(e), dir@),
        e matches ResumeError::RunNotFound { run_id, dir } ==> {
            &&& text::contains(resume_message(e), "grind run "@ + text::debug_text(run_id@))
            &&& text::contains(resume_message(e), " not found at "@ + dir@)
        },
        e matches ResumeError::StateUnreadable { run_id, source } ==> {
            &&& text::contains(resume_message(e), "grind run "@ + text::debug_text(run_id@))
            &&& text::contains(resume_message(e), ": failed to read state: "@ + source@)
        },
        e matches ResumeError::NotResumable { run_id, status } ==> {
            &&& text::contains(resume_message(e), "grind run "@ + text::debug_text(run_id@))
            &&& text::contains(resume_message(e), " is "@ + run_status_text(status))
        },
        e matches ResumeError::PlanRenamed { run_id, original, current } ==> {
            &&& text::contains(resume_message(e), "grind run "@ + text::debug_text(run_id@))
            &&& text::contains(
                resume_message(e),
                ": plan name changed (was "@ + text::debug_text(original@),
            )
            &&& text::contains(resume_message(e), ", now "@ + text::debug_text(current@))
        },
        e matches ResumeError::PromptSetChanged { run_id, added, removed } ==> {
            &&& text::contains(resume_message(e), "grind run "@ + text::debug_text(run_id@))
            &&& text::contains(
                resume_message(e),
                ": prompt set changed (added: "@ + debug_list(text::views(added@)),
            )
            &&& text::contains(
                resume_message(e),
                ", removed: "@ + debug_list(text::views(removed@)),
            )
        },
        e matches ResumeError::StateOutOfSync { run_id, state_seq, jsonl_seq } ==> {
            &&& text::contains(resume_message(e), "grind run "@ + text::debug_text(run_id@))
            &&& text::contains(
                resume_message(e),
                ": state.json out of sync with sessions.jsonl (state says last_session_seq="@
                    + text::decimal(state_seq as nat),
            )
            &&& text::contains(
                resume_message(e),
                ", log tail has "@ + text::decimal(jsonl_seq as nat),
            )
        },
{
    match e {
        ResumeError::NoResumableRun { dir } => {
            text::parts_are_held(
                "no resumable grind run found under "@,
                dir@,
                Seq::<char>::empty(),
                resume_message(e),
            );
        },
        ResumeError::RunNotFound { run_id, dir } => {
            text::parts_are_held(
                Seq::<char>::empty(),
                "grind run "@ + text::debug_text(run_id@),
                " not found at "@ + dir@,
                resume_message(e),
            );
            text::parts_are_held(
                "grind run "@ + text::debug_text(run_id@),
                " not found at "@ + dir@,
                Seq::<char>::empty(),
                resume_message(e),
            );
        },
        ResumeError::StateUnreadable { run_id, source } => {
            text::parts_are_held(
                Seq::<char>::empty(),
                "grind run "@ + text::debug_text(run_id@),
                ": failed to read state: "@ + source@,
                resume_message(e),
            );
            text::parts_are_held(
                "grind run "@ + text::debug_text(run_id@),
                ": failed to read state: "@ + source@,
                Seq::<char>::empty(),
                resume_message(e),
            );
        },
        ResumeError::NotResumable { run_id, status } => {
            text::parts_are_held(
                Seq::<char>::empty(),
                "grind run "@ + text::debug_text(run_id@),
                " is "@ + run_status_text(status)
                    + " and cannot be resumed; start a new run with `pitboss grind`"@,
                resume_message(e),
            );
            text::parts_are_held(
                "grind run "@ + text::debug_text(run_id@),
                " is "@ + run_status_text(status),
                " and cannot be resumed; start a new run with `pitboss grind`"@,
                resume_message(e),
            );
        },
        ResumeError::PlanRenamed { run_id, original, current } => {
            text::parts_are_held(
                Seq::<char>::empty(),
                "grind run "@ + text::debug_text(run_id@),
                ": plan name changed (was "@ + text::debug_text(original@) + ", now "@
                    + text::debug_text(current@) + "); start a new run with `pitboss grind`"@,
                resume_message(e),
            );
            text::parts_are_held(
                "grind run "@ + text::debug_text(run_id@),
                ": plan name changed (was "@ + text::debug_text(original@),
                ", now "@ + text::debug_text(current@) + "); start a new run with `pitboss grind`"@,
                resume_message(e),
            );
            text::parts_are_held(
                "grind run "@ + text::debug_text(run_id@) + ": plan name changed (was "@
                    + text::debug_text(original@),
                ", now "@ + text::debug_text(current@),
                "); start a new run with `pitboss grind`"@,
                resume_message(e),
            );
        },
        ResumeError::PromptSetChanged { run_id, added, removed } => {
            text::parts_are_held(
                Seq::<char>::empty(),
                "grind run "@ + text::debug_text(run_id@),
                ": prompt set changed (added: "@ + debug_list(text::views(added@)) + ", removed: "@
                    + debug_list(text::views(removed@))
                    + "); start a new run with `pitboss grind`"@,
                resume_message(e),
            );
            text::parts_are_held(
                "grind run "@ + text::debug_text(run_id@),
                ": prompt set changed (added: "@ + debug_list(text::views(added@)),
                ", removed: "@ + debug_list(text::views(removed@))
                    + "); start a new run with `pitboss grind`"@,
                resume_message(e),
            );
            text::parts_are_held(
                "grind run "@ + text::debug_text(run_id@) + ": prompt set changed (added: "@
                    + debug_list(text::views(added@)),
                ", removed: "@ + debug_list(text::views(removed@)),
                "); start a new run with `pitboss grind`"@,
                resume_message(e),
            );
        },
        ResumeError::StateOutOfSync { run_id, state_seq, jsonl_seq } => {
            text::parts_are_held(
                Seq::<char>::empty(),
                "grind run "@ + text::debug_text(run_id@),
                ": state.json out of sync with sessions.jsonl (state says last_session_seq="@
                    + text::decimal(state_seq as nat) + ", log tail has "@
                    + text::decimal(jsonl_seq as nat)
                    + "); start a new run or repair state.json by hand"@,
                resume_message(e),
            );
            text::parts_are_held(
                "grind run "@ + text::debug_text(run_id@),
                ": state.json out of sync with sessions.jsonl (state says last_session_seq="@
                    + text::decimal(state_seq as nat),
                ", log tail has "@ + text::decimal(jsonl_seq as nat)
                    + "); start a new run or repair state.json by hand"@,
                resume_message(e),
            );
            text::parts_are_held(
                "grind run "@ + text::debug_text(run_id@)
                    + ": state.json out of sync with sessions.jsonl (state says last_session_seq="@
                    + text::decimal(state_seq as nat),
                ", log tail has "@ + text::decimal(jsonl_seq as nat),
                "); start a new run or repair state.json by hand"@,
                resume_message(e),
            );
        },
    }
}

impl ResumeError {
    /// The error as a sentence.
    pub fn message(&self) -> (r: String)
        ensures
            r@ == resume_message(*self),
    {
        match self {
            ResumeError::NoResumableRun { dir } => {
                let mut out = text::owned("no resumable grind run found under ");
                out.append(dir.as_str());
                out
            },
            ResumeError::RunNotFound { run_id, dir } => {
                let mut out = text::owned("grind run ");
                out.append(text::quoted(run_id.as_str()).as_str());
                out.append(" not found at ");
                out.append(dir.as_str());
                out
            },
            ResumeError::StateUnreadable { run_id, source } => {
                let mut out = text::owned("grind run ");
                out.append(text::quoted(run_id.as_str()).as_str());
                out.append(": failed to read state: ");
                out.append(source.as_str());
                out
            },
            ResumeError::NotResumable { run_id, status } => {
                let mut out = text::owned("grind run ");
                out.append(text::quoted(run_id.as_str()).as_str());
                out.append(" is ");
                out.append(status.as_str());
                out.append(" and cannot be resumed; start a new run with `pitboss grind`");
                out
            },
            ResumeError::PlanRenamed { run_id, original, current } => {
                let mut out = text::owned("grind run ");
                out.append(text::quoted(run_id.as_str()).as_str());
                out.append(": plan name changed (was ");
                out.append(text::quoted(original.as_str()).as_str());
                out.append(", now ");
                out.append(text::quoted(current.as_str()).as_str());
                out.append("); start a new run with `pitboss grind`");
                out
            },
            ResumeError::PromptSetChanged { run_id, added, removed } => {
                let mut out = text::owned("grind run ");
                out.append(text::quoted(run_id.as_str()).as_str());
                out.append(": prompt set changed (added: ");
                out.append(quoted_list(added).as_str());
                out.append(", removed: ");
                out.append(quoted_list(removed).as_str());
                out.append("); start a new run with `pitboss grind`");
                out
            },
            ResumeError::StateOutOfSync { run_id, state_seq, jsonl_seq } => {
                let mut out = text::owned("grind run ");
                out.append(text::quoted(run_id.as_str()).as_str());
                out.append(": state.json out of sync with sessions.jsonl (state says last_session_seq=");
                out.append(text::decimal_u32(*state_seq).as_str());
                out.append(", log tail has ");
                out.append(text::decimal_u32(*jsonl_seq).as_str());
                out.append("); start a new run or repair state.json by hand");
                out
            },
        }
    }
}

// ---------------------------------------------------------------------------
// Reconciling the state with the log
// ---------------------------------------------------------------------------

/// Outcome of [`reconstruct_state_from_log`]. Carries the scheduler /
/// budget snapshot the resumed runner should use plus the highest seq
/// observed in `sessions.jsonl`. `records_replayed` is `0` when the cached
/// `state.json` was already aligned with the log; `> 0` means the host
/// process died between a JSONL append and the matching `state.json` write
/// and the missing records were replayed through the scheduler.
#[derive(Debug, PartialEq, Eq)]
pub struct ReconciledState {
    /// Scheduler state to seed [`Scheduler::with_state`] with.
    pub scheduler_state: SchedulerState,
    /// Budget snapshot to seed the budget tracker with.
    pub budget_consumed: BudgetSnapshot,
    /// Highest seq actually present in `sessions.jsonl`. Used as the new
    /// `last_session_seq` so the resumed runner dispatches `last + 1` next.
    pub last_session_seq: u32,
    /// Number of session records replayed past the cached `state.json`. `0` for
    /// the perfectly-aligned case.
    pub records_replayed: usize,
}

/// The highest sequence number of `records`, zero where there are none.
pub open spec fn top_seq(records: Seq<SessionRecord>) -> u32
    decreases records.len(),
{
    if records.len() == 0 {
        0
    } else if top_seq(records.drop_last()) > records.last().seq {
        top_seq(records.drop_last())
    } else {
        records.last().seq
    }
}

/// How many leading records of the sorted `records` do not come after `seq`.
pub open spec fn seq_slot(records: Seq<SessionRecord>, seq: u32) -> int
    decreases records.len(),
{
    if records.len() > 0 && seq < records.last().seq {
        seq_slot(records.drop_last(), seq)
    } else {
        records.len() as int
    }
}

/// The records with a sequence number above `last`, sorted by it; records with
/// the same number keep their order.
pub open spec fn missing(records: Seq<SessionRecord>, last: u32) -> Seq<SessionRecord>
    decreases records.len(),
{
    if records.len() == 0 {
        Seq::empty()
    } else {
        let rest = missing(records.drop_last(), last);
        let r = records.last();
        if r.seq > last {
            rest.insert(seq_slot(rest, r.seq), r)
        } else {
            rest
        }
    }
}

/// The highest number of a log is the number of one of its records, and no record
/// has a higher one.
pub proof fn no_record_is_above_the_top(records: Seq<SessionRecord>, i: int)
    requires
        0 <= i < records.len(),
    ensures
        records[i].seq <= top_seq(records),
        exists|k: int| 0 <= k < records.len() && (#[trigger] records[k]).seq == top_seq(records),
    decreases records.len(),
{
    let front = records.drop_last();
    if front.len() > 0 {
        let j = if i < front.len() {
            i
        } else {
            0
        };
        no_record_is_above_the_top(front, j);
        let k = choose|k: int| 0 <= k < front.len() && (#[trigger] front[k]).seq == top_seq(front);
        assert(records[k] == front[k]);
        if i < front.len() {
            assert(front[i] == records[i]);
        }
    } else {
        assert(top_seq(front) == 0);
    }
    assert(records[records.len() - 1] == records.last());
}

/// What a cached state lacks are exactly the records of the log behind its last
/// session, each as often as it stands there, in the order of their numbers; those
/// of one number keep the order of the log.
pub proof fn the_missing_are_the_later_ones(records: Seq<SessionRecord>, last: u32)
    ensures
        missing(records, last).to_multiset() == records.filter(
            |r: SessionRecord| r.seq > last,
        ).to_multiset(),
        missing(records, last).len() == records.filter(|r: SessionRecord| r.seq > last).len(),
        forall|i: int, j: int|
            0 <= i < j < missing(records, last).len() ==> (#[trigger] missing(records, last)[i]).seq
                <= (#[trigger] missing(records, last)[j]).seq,
    decreases records.len(),
{
    broadcast use vstd::seq_lib::group_to_multiset_ensures;

    reveal(Seq::filter);
    let p = |r: SessionRecord| r.seq > last;
    if records.len() > 0 {
        let front = records.drop_last();
        let x = records.last();
        the_missing_are_the_later_ones(front, last);
        if x.seq > last {
            let rest = missing(front, last);
            let k = seq_slot(rest, x.seq);
            seq_slot_bounds(rest, x.seq);
            let out = rest.insert(k, x);
            assert(out.to_multiset() =~= rest.to_multiset().insert(x));
            assert(records.filter(p) == front.filter(p).push(x));
            assert forall|i: int, j: int| 0 <= i < j < out.len() implies (#[trigger] out[i]).seq <= (
            #[trigger] out[j]).seq by {
                if j < k {
                    assert(out[i] == rest[i] && out[j] == rest[j]);
                } else if i > k {
                    assert(out[i] == rest[i - 1] && out[j] == rest[j - 1]);
                } else if i < k && j > k {
                    assert(out[i] == rest[i] && out[j] == rest[j - 1]);
                } else if i < k && j == k {
                    assert(out[i] == rest[i]);
                    assert(rest[i].seq <= rest[k - 1].seq);
                } else {
                    assert(out[j] == rest[j - 1]);
                }
            }
        }
    }
}

/// Records of one number are replayed in the order of the log.
pub proof fn equal_numbers_keep_their_order(records: Seq<SessionRecord>, last: u32, seq: u32)
    requires
        seq > last,
    ensures
        missing(records, last).filter(|r: SessionRecord| r.seq == seq) == records.filter(
            |r: SessionRecord| r.seq == seq,
        ),
    decreases records.len(),
{
    reveal(Seq::filter);
    let p = |r: SessionRecord| r.seq == seq;
    if records.len() > 0 {
        let front = records.drop_last();
        let x = records.last();
        equal_numbers_keep_their_order(front, last, seq);
        if x.seq > last {
            let rest = missing(front, last);
            let k = seq_slot(rest, x.seq);
            seq_slot_bounds(rest, x.seq);
            let (a, b) = (rest.take(k), rest.skip(k));
            assert(rest =~= a + b);
            assert(rest.insert(k, x) =~= a + (seq![x] + b));
            Seq::filter_distributes_over_add(a, b, p);
            Seq::filter_distributes_over_add(a, seq![x] + b, p);
            Seq::filter_distributes_over_add(seq![x], b, p);
            assert(seq![x].drop_last() =~= Seq::<SessionRecord>::empty());
            if p(x) {
                assert forall|j: int| 0 <= j < b.len() implies !p(#[trigger] b[j]) by {
                    assert(b[j] == rest[k + j]);
                }
                none_pass(b, p);
                assert(seq![x].filter(p) =~= seq![x]);
                assert(rest.insert(k, x).filter(p) =~= rest.filter(p).push(x));
            } else {
                none_pass(seq![x], p);
                assert(rest.insert(k, x).filter(p) =~= rest.filter(p));
            }
        }
    }
}

proof fn seq_slot_bounds(records: Seq<SessionRecord>, seq: u32)
    ensures
        0 <= seq_slot(records, seq) <= records.len(),
        forall|j: int|
            seq_slot(records, seq) <= j < records.len() ==> seq < (#[trigger] records[j]).seq,
        seq_slot(records, seq) > 0 ==> records[seq_slot(records, seq) - 1].seq <= seq,
    decreases records.len(),
{
    if records.len() > 0 && seq < records.last().seq {
        let front = records.drop_last();
        seq_slot_bounds(front, seq);
        assert forall|j: int| seq_slot(records, seq) <= j < records.len() implies seq < (
        #[trigger] records[j]).seq by {
            if j < front.len() {
                assert(front[j] == records[j]);
            }
        }
    }
}

/// What a scheduler holds, and what has been spent.
pub struct Position {
    pub rotation: u64,
    pub runs: Map<Seq<char>, u32>,
    pub spent: BudgetSnapshot,
}

/// The name of the prompt that the rotation `rotation` picks.
pub open spec fn pick_name(
    entries: Seq<PlanPromptRef>,
    prompts: Map<Seq<char>, PromptDoc>,
    rotation: u64,
    runs: Map<Seq<char>, u32>,
) -> Option<Seq<char>> {
    let o = scheduler::offers(entries, prompts, rotation as nat, runs);
    if o.len() == 0 {
        None
    } else {
        let k = choose|k: int| scheduler::chosen(o, k);
        Some(prompts[o[k].name].meta.name@)
    }
}

/// The next rotation.
pub open spec fn next_rotation(rotation: u64) -> u64 {
    if rotation < u64::MAX {
        (rotation + 1) as u64
    } else {
        u64::MAX
    }
}

/// Where a run stands after the session `r`, which the scheduler must have
/// picked: what the live loop makes of `next`, `record_run` and
/// `record_session`.
pub open spec fn step(
    entries: Seq<PlanPromptRef>,
    prompts: Map<Seq<char>, PromptDoc>,
    at: Position,
    r: SessionRecord,
) -> Option<Position> {
    let rotation = next_rotation(at.rotation);
    if pick_name(entries, prompts, rotation, at.runs) == Some(r.prompt@) {
        Some(
            Position {
                rotation,
                runs: scheduler::counted(at.runs, r.prompt@),
                spent: budget::recorded(at.spent, r),
            },
        )
    } else {
        None
    }
}

/// Where a run stands after the sessions `records`.
pub open spec fn replayed(
    entries: Seq<PlanPromptRef>,
    prompts: Map<Seq<char>, PromptDoc>,
    at: Position,
    records: Seq<SessionRecord>,
) -> Option<Position>
    decreases records.len(),
{
    if records.len() == 0 {
        Some(at)
    } else {
        match replayed(entries, prompts, at, records.drop_last()) {
            Some(now) => step(entries, prompts, now, records.last()),
            None => None,
        }
    }
}

/// Replaying a log in two parts is replaying it at once, so it does not matter
/// after which session the cached state was written.
pub proof fn replay_composes(
    entries: Seq<PlanPromptRef>,
    prompts: Map<Seq<char>, PromptDoc>,
    at: Position,
    a: Seq<SessionRecord>,
    b: Seq<SessionRecord>,
)
    ensures
        replayed(entries, prompts, at, a + b) == match replayed(entries, prompts, at, a) {
            Some(mid) => replayed(entries, prompts, mid, b),
            None => None,
        },
    decreases b.len(),
{
    if b.len() == 0 {
        assert(a + b =~= a);
    } else {
        assert((a + b).drop_last() =~= a + b.drop_last());
        replay_composes(entries, prompts, at, a, b.drop_last());
    }
}

/// A session is replayed only where the scheduler picks its very prompt in the
/// next rotation. Replaying it turns the rotation by one, counts one run of that
/// prompt and of no other, and takes the session into the counters.
pub proof fn a_replayed_session_was_picked(
    entries: Seq<PlanPromptRef>,
    prompts: Map<Seq<char>, PromptDoc>,
    at: Position,
    r: SessionRecord,
    other: Seq<char>,
)
    requires
        at.rotation < u64::MAX,
    ensures
        step(entries, prompts, at, r) is Some <==> pick_name(
            entries,
            prompts,
            (at.rotation + 1) as u64,
            at.runs,
        ) == Some(r.prompt@),
        step(entries, prompts, at, r) matches Some(n) ==> {
            &&& n.rotation == at.rotation + 1
            &&& scheduler::runs_of(at.runs, r.prompt@) < u32::MAX ==> scheduler::runs_of(
                n.runs,
                r.prompt@,
            ) == scheduler::runs_of(at.runs, r.prompt@) + 1
            &&& other != r.prompt@ ==> scheduler::runs_of(n.runs, other) == scheduler::runs_of(
                at.runs,
                other,
            )
            &&& n.spent == budget::recorded(at.spent, r)
        },
{
}

/// What the scheduler picks in a rotation is the prompt of the candidate that it
/// prefers over all others, and nothing only where there is no candidate.
pub proof fn picks_name_the_preferred_candidate(
    entries: Seq<PlanPromptRef>,
    prompts: Map<Seq<char>, PromptDoc>,
    rotation: u64,
    runs: Map<Seq<char>, u32>,
    k: int,
)
    ensures
        ({
            let o = scheduler::offers(entries, prompts, rotation as nat, runs);
            &&& o.len() == 0 <==> pick_name(entries, prompts, rotation, runs) is None
            &&& scheduler::chosen(o, k) ==> pick_name(entries, prompts, rotation, runs) == Some(
                prompts[o[k].name].meta.name@,
            )
        }),
{
    let o = scheduler::offers(entries, prompts, rotation as nat, runs);
    if scheduler::chosen(o, k) {
        let c = choose|c: int| scheduler::chosen(o, c);
        scheduler::pick_is_unique(o, c, k);
    }
}

/// Where the cached state says that the run stands.
pub open spec fn cached_position(state: RunState) -> Position {
    Position {
        rotation: state.scheduler_state.rotation,
        runs: state.scheduler_state.runs_per_prompt@,
        spent: state.budget_consumed,
    }
}

/// Where the reconciled state says that the run stands.
pub open spec fn reconciled_position(r: ReconciledState) -> Position {
    Position {
        rotation: r.scheduler_state.rotation,
        runs: r.scheduler_state.runs_per_prompt@,
        spent: r.budget_consumed,
    }
}

/// The error for a log that the cached state cannot be reconciled with.
pub open spec fn out_of_sync(state: RunState, top: u32, e: ResumeError) -> bool {
    e matches ResumeError::StateOutOfSync { run_id, state_seq, jsonl_seq } && run_id@
        == state.run_id@ && state_seq == state.last_session_seq && jsonl_seq == top
}

/// What reconciling a cached state with a log gives.
pub open spec fn reconciles(
    state: RunState,
    records: Seq<SessionRecord>,
    entries: Seq<PlanPromptRef>,
    prompts: Map<Seq<char>, PromptDoc>,
    r: Result<ReconciledState, ResumeError>,
) -> bool {
    let top = top_seq(records);
    let late = missing(records, state.last_session_seq);
    let at = cached_position(state);
    if top == state.last_session_seq {
        r matches Ok(s) && reconciled_position(s) == at && s.last_session_seq == top
            && s.records_replayed == 0
    } else if top < state.last_session_seq {
        r matches Err(e) && out_of_sync(state, top, e)
    } else {
        match replayed(entries, prompts, at, late) {
            Some(now) => r matches Ok(s) && reconciled_position(s) == now && s.last_session_seq
                == top && s.records_replayed == late.len(),
            None => r matches Err(e) && out_of_sync(state, top, e),
        }
    }
}

/// The log is what counts. A cached state that knows the last session of the log
/// is taken as it is. One that claims a session that the log does not hold is
/// refused. One that is behind is brought up to the last session of the log by
/// replaying exactly the sessions that it lacks, from where it stands, and is
/// refused where the scheduler would not have picked them.
pub proof fn the_log_is_what_counts(
    state: RunState,
    records: Seq<SessionRecord>,
    entries: Seq<PlanPromptRef>,
    prompts: Map<Seq<char>, PromptDoc>,
    r: Result<ReconciledState, ResumeError>,
    i: int,
)
    requires
        reconciles(state, records, entries, prompts, r),
        records.len() == 0 || 0 <= i < records.len(),
    ensures
        ({
            let last = state.last_session_seq;
            let later = records.filter(|x: SessionRecord| x.seq > last);
            &&& r matches Ok(s) ==> s.records_replayed == later.len()
            &&& r matches Ok(s) ==> (records.len() > 0 ==> records[i].seq <= s.last_session_seq)
            &&& r matches Ok(s) ==> last <= s.last_session_seq
            &&& r matches Ok(s) ==> (later.len() == 0 ==> s.last_session_seq == last
                && s.scheduler_state.rotation == state.scheduler_state.rotation
                && s.scheduler_state.runs_per_prompt@ == state.scheduler_state.runs_per_prompt@
                && s.budget_consumed == state.budget_consumed)
            &&& records.len() == 0 && last > 0 ==> r is Err
            &&& (forall|j: int| 0 <= j < records.len() ==> (#[trigger] records[j]).seq < last)
                && last > 0 ==> r is Err
            &&& later.len() == 0 && (exists|j: int|
                0 <= j < records.len() && (#[trigger] records[j]).seq == last) ==> r is Ok
            &&& r matches Err(e) ==> (e matches ResumeError::StateOutOfSync {
                run_id,
                state_seq,
                jsonl_seq,
            } && run_id@ == state.run_id@ && state_seq == last)
        }),
{
    let last = state.last_session_seq;
    let p = |x: SessionRecord| x.seq > last;
    the_missing_are_the_later_ones(records, last);
    if records.len() > 0 {
        no_record_is_above_the_top(records, i);
        let k = choose|k: int|
            0 <= k < records.len() && (#[trigger] records[k]).seq == top_seq(records);
        if records[k].seq > last {
            records.lemma_filter_contains(p, k);
        } else {
            assert forall|j: int| 0 <= j < records.len() implies !p(#[trigger] records[j]) by {
                no_record_is_above_the_top(records, j);
            }
            none_pass(records, p);
        }
        if exists|j: int| 0 <= j < records.len() && (#[trigger] records[j]).seq == last {
            let j = choose|j: int| 0 <= j < records.len() && (#[trigger] records[j]).seq == last;
            no_record_is_above_the_top(records, j);
        }
    } else {
        none_pass(records, p);
    }
}

fn insert_by_seq(out: &mut Vec<usize>, records: &[SessionRecord], i: usize)
    requires
        i < records@.len(),
        forall|k: int| 0 <= k < old(out)@.len() ==> (#[trigger] old(out)@[k]) < records@.len(),
    ensures
        forall|k: int| 0 <= k < final(out)@.len() ==> (#[trigger] final(out)@[k]) < records@.len(),
        final(out)@.len() == old(out)@.len() + 1,
        selected(records@, final(out)@) == selected(records@, old(out)@).insert(
            seq_slot(selected(records@, old(out)@), records@[i as int].seq),
            records@[i as int],
        ),
{
    let ghost chosen = selected(records@, out@);
    let mut k: usize = out.len();
    assert(chosen.take(k as int) =~= chosen);
    while k > 0 && records[i].seq < records[out[k - 1]].seq
        invariant
            k <= out@.len(),
            out@ == old(out)@,
            i < records@.len(),
            chosen == selected(records@, out@),
            forall|k: int| 0 <= k < out@.len() ==> (#[trigger] out@[k]) < records@.len(),
            seq_slot(chosen, records@[i as int].seq) == seq_slot(
                chosen.take(k as int),
                records@[i as int].seq,
            ),
        decreases k,
    {
        assert(chosen.take(k as int).drop_last() =~= chosen.take(k - 1));
        k = k - 1;
    }
    out.insert(k, i);
    assert(selected(records@, out@) =~= chosen.insert(k as int, records@[i as int]));
}

/// The records that stand at the indices `at`.
spec fn selected(records: Seq<SessionRecord>, at: Seq<usize>) -> Seq<SessionRecord> {
    at.map_values(|i: usize| records[i as int])
}

/// The indices of the records above `last`, in the order of their numbers.
fn find_missing(records: &[SessionRecord], last: u32) -> (r: Vec<usize>)
    ensures
        selected(records@, r@) == missing(records@, last),
        forall|k: int| 0 <= k < r@.len() ==> (#[trigger] r@[k]) < records@.len(),
{
    let mut out: Vec<usize> = Vec::new();
    assert(selected(records@, out@) =~= missing(records@.take(0), last));
    for i in 0..records.len()
        invariant
            selected(records@, out@) == missing(records@.take(i as int), last),
            forall|k: int| 0 <= k < out@.len() ==> (#[trigger] out@[k]) < records@.len(),
    {
        assert(records@.take(i + 1).drop_last() =~= records@.take(i as int));
        assert(records@.take(i + 1).last() == records@[i as int]);
        if records[i].seq > last {
            insert_by_seq(&mut out, records, i);
        }
    }
    assert(records@.take(records@.len() as int) =~= records@);
    out
}

fn highest_seq(records: &[SessionRecord]) -> (r: u32)
    ensures
        r == top_seq(records@),
{
    let mut top: u32 = 0;
    for i in 0..records.len()
        invariant
            top == top_seq(records@.take(i as int)),
    {
        assert(records@.take(i + 1).drop_last() =~= records@.take(i as int));
        assert(records@.take(i + 1).last() == records@[i as int]);
        if top <= records[i].seq {
            top = records[i].seq;
        }
    }
    assert(records@.take(records@.len() as int) =~= records@);
    top
}

/// What the scheduler picks in a rotation is what [`pick_name`] names.
pub proof fn pick_is_pick_name(
    entries: Seq<PlanPromptRef>,
    prompts: Map<Seq<char>, PromptDoc>,
    rotation: u64,
    runs: Map<Seq<char>, u32>,
    r: Option<PromptDoc>,
)
    requires
        scheduler::picked(
            scheduler::offers(entries, prompts, rotation as nat, runs),
            prompts,
            r,
        ),
    ensures
        match r {
            Some(doc) => pick_name(entries, prompts, rotation, runs) == Some(doc.meta.name@),
            None => pick_name(entries, prompts, rotation, runs) is None,
        },
{
    let o = scheduler::offers(entries, prompts, rotation as nat, runs);
    if let Some(doc) = r {
        let a = choose|k: int| #[trigger]
            scheduler::chosen(o, k) && prompts.contains_key(o[k].name) && doc@
                == prompts[o[k].name]@;
        let b = choose|k: int| scheduler::chosen(o, k);
        scheduler::pick_is_unique(o, a, b);
    }
}

/// Once a replay has gone wrong it stays wrong.
proof fn replay_stops(
    entries: Seq<PlanPromptRef>,
    prompts: Map<Seq<char>, PromptDoc>,
    at: Position,
    records: Seq<SessionRecord>,
    n: int,
)
    requires
        0 <= n <= records.len(),
        replayed(entries, prompts, at, records.take(n)) is None,
    ensures
        replayed(entries, prompts, at, records) is None,
    decreases records.len(),
{
    if n == records.len() {
        assert(records.take(n) =~= records);
    } else {
        assert(records.drop_last().take(n) =~= records.take(n));
        replay_stops(entries, prompts, at, records.drop_last(), n);
    }
}

/// Reconcile the cached `state.json` snapshot with the source-of-truth
/// `sessions.jsonl` tail.
///
/// `sessions.jsonl` is appended to before `state.json` is written, so a host
/// process that dies between the two produces a JSONL log that is one or more
/// records ahead of `state.last_session_seq`. The missing records are replayed
/// through the scheduler so a single dropped `state.json` write doesn't strand
/// the run. The reverse — `state.last_session_seq` claims more records than
/// `sessions.jsonl` actually has — is genuinely broken and refuses with
/// [`ResumeError::StateOutOfSync`].
///
/// Replay is conservative: each missing record is matched against the
/// scheduler's next pick, and a divergence (different prompt name or scheduler
/// exhaustion) refuses rather than silently producing a state that doesn't
/// match what the original loop dispatched.
pub fn reconstruct_state_from_log(
    state: &RunState,
    log_records: &[SessionRecord],
    plan: GrindPlan,
    prompts: Table<PromptDoc>,
) -> (r: Result<ReconciledState, ResumeError>)
    requires
        plan.prompts@.len() <= scheduler::MAX_ENTRIES,
    ensures
        reconciles(*state, log_records@, plan.prompts@, prompts@, r),
{
    let ghost entries = plan.prompts@;
    let ghost docs = prompts@;
    let ghost late = missing(log_records@, state.last_session_seq);
    let ghost at = cached_position(*state);
    let top: u32 = highest_seq(log_records);
    if top == state.last_session_seq {
        return Ok(
            ReconciledState {
                scheduler_state: state.scheduler_state.copy(),
                budget_consumed: state.budget_consumed,
                last_session_seq: state.last_session_seq,
                records_replayed: 0,
            },
        );
    }
    if top < state.last_session_seq {
        return Err(
            ResumeError::StateOutOfSync {
                run_id: state.run_id.clone(),
                state_seq: state.last_session_seq,
                jsonl_seq: top,
            },
        );
    }
    let order = find_missing(log_records, state.last_session_seq);
    let mut sched = Scheduler::with_state(plan, prompts, state.scheduler_state.copy());
    let mut spent = state.budget_consumed;
    assert(late.take(0) =~= Seq::<SessionRecord>::empty());
    for i in 0..order.len()
        invariant
            late == missing(log_records@, state.last_session_seq),
            late == selected(log_records@, order@),
            forall|k: int| 0 <= k < order@.len() ==> (#[trigger] order@[k]) < log_records@.len(),
            at == cached_position(*state),
            top == top_seq(log_records@),
            top > state.last_session_seq,
            plan.prompts@ == entries,
            prompts@ == docs,
            sched.the_plan().prompts@ == entries,
            sched.the_prompts() == docs,
            replayed(entries, docs, at, late.take(i as int)) == Some(
                Position {
                    rotation: sched.the_rotation(),
                    runs: sched.the_runs(),
                    spent,
                },
            ),
    {
        let rec = &log_records[order[i]];
        let ghost before = Position {
            rotation: sched.the_rotation(),
            runs: sched.the_runs(),
            spent,
        };
        let pick = sched.next();
        proof {
            assert(late[i as int] == *rec);
            assert(late.take(i + 1).drop_last() =~= late.take(i as int));
            assert(late.take(i + 1).last() == *rec);
            pick_is_pick_name(entries, docs, sched.the_rotation(), sched.the_runs(), pick);
        }
        let agrees: bool = match &pick {
            Some(p) => text::same(p.meta.name.as_str(), rec.prompt.as_str()),
            None => false,
        };
        if !agrees {
            proof {
                assert(step(entries, docs, before, *rec) is None);
                replay_stops(entries, docs, at, late, i + 1);
            }
            return Err(
                ResumeError::StateOutOfSync {
                    run_id: state.run_id.clone(),
                    state_seq: state.last_session_seq,
                    jsonl_seq: top,
                },
            );
        }
        sched.record_run(rec.prompt.as_str());
        spent = spent.after(rec);
    }
    assert(late.take(late.len() as int) =~= late);
    Ok(
        ReconciledState {
            scheduler_state: sched.state().copy(),
            budget_consumed: spent,
            last_session_seq: top,
            records_replayed: order.len(),
        },
    )
}

// ---------------------------------------------------------------------------
// Building the state
// ---------------------------------------------------------------------------

/// Helper used by both initial-write and per-session-write paths. Builds a
/// fresh [`RunState`] from the parts the runner has on hand and stamps
/// `last_updated_at` with what the system clock shows.
pub fn build_state(
    run_id: String,
    branch: String,
    plan_name: String,
    prompt_names: Vec<String>,
    scheduler_state: SchedulerState,
    budget_consumed: BudgetSnapshot,
    last_session_seq: u32,
    started_at: Timestamp,
    status: RunStatus,
) -> (r: RunState)
    ensures
        r.last_updated_at.seconds() >= 0,
        r == (RunState {
            run_id,
            branch,
            plan_name,
            prompt_names,
            scheduler_state,
            budget_consumed,
            last_session_seq,
            started_at,
            last_updated_at: r.last_updated_at,
            status,
        }),
{
    build_state_at(
        run_id,
        branch,
        plan_name,
        prompt_names,
        scheduler_state,
        budget_consumed,
        last_session_seq,
        started_at,
        status,
        Timestamp::now(),
    )
}

/// [`build_state`] at the instant `now`, with which `last_updated_at` is
/// stamped.
pub fn build_state_at(
    run_id: String,
    branch: String,
    plan_name: String,
    prompt_names: Vec<String>,
    scheduler_state: SchedulerState,
    budget_consumed: BudgetSnapshot,
    last_session_seq: u32,
    started_at: Timestamp,
    status: RunStatus,
    now: Timestamp,
) -> (r: RunState)
    ensures
        r == (RunState {
            run_id,
            branch,
            plan_name,
            prompt_names,
            scheduler_state,
            budget_consumed,
            last_session_seq,
            started_at,
            last_updated_at: now,
            status,
        }),
{
    RunState {
        run_id,
        branch,
        plan_name,
        prompt_names,
        scheduler_state,
        budget_consumed,
        last_session_seq,
        started_at,
        last_updated_at: now,
        status,
    }
}

/// The names that a plan refers to, in order and each once: the fingerprint
/// that a resume compares.
pub fn fingerprint(plan: &GrindPlan) -> (r: Vec<String>)
    ensures
        table::ascending(text::views(r@)),
        forall|n: Seq<char>| #[trigger]
            text::views(r@).contains(n) <==> super::plan::entry_names(plan.prompts@).contains(n),
{
    let mut names: Vec<String> = Vec::new();
    for i in 0..plan.prompts.len()
        invariant
            text::views(names@) == super::plan::entry_names(plan.prompts@.take(i as int)),
    {
        let ghost before = text::views(names@);
        names.push(plan.prompts[i].name.clone());
        proof {
            assert(text::views(names@) =~= before.push(plan.prompts@[i as int].name@));
            assert(super::plan::entry_names(plan.prompts@.take(i + 1))
                =~= super::plan::entry_names(plan.prompts@.take(i as int)).push(
                plan.prompts@[i as int].name@,
            ));
        }
    }
    assert(plan.prompts@.take(plan.prompts@.len() as int) =~= plan.prompts@);
    let none: Vec<String> = Vec::new();
    let r = difference(names.as_slice(), none.as_slice());
    assert forall|n: Seq<char>| #[trigger]
        text::views(r@).contains(n) <==> super::plan::entry_names(plan.prompts@).contains(n) by {
        assert(!text::views(none@).contains(n));
    }
    r
}

} // verus!
