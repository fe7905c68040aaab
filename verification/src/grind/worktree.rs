//! Per-session git worktrees for parallel grind sessions.
//!
//! When a prompt declares `parallel_safe: true` and `max_parallel > 1`, the
//! runner dispatches each session into its own worktree under
//! `<run-root>/worktrees/session-NNNN/` so concurrent sessions can stage,
//! commit, and diff against a clean tree without colliding on the main
//! workspace's index.
//!
//! Each worktree carries an ephemeral branch
//! `pitboss/grind/<run-id>-session-NNNN` cut from the run branch (note the
//! hyphen rather than a slash before `session-NNNN` — see
//! [`session_branch_name`] for why git's ref store forces this). The agent
//! commits land on the ephemeral branch; on session completion the runner
//! fast-forwards the run branch to the ephemeral tip and deletes the branch.
//! A non-fast-forward at merge time means the prompt violated its
//! `parallel_safe` claim — the session record gets `Error` status with a
//! verbatim contract-violation summary.
//!
//! The git commands themselves are the caller's: [`SessionMerge`] says which
//! one is due and takes in what came of it.

use vstd::prelude::*;
use vstd::string::StringExecFns;

use super::run_dir;
use super::run_dir::{RunPaths, SessionStatus};
use crate::paths;
use crate::plan::id;
use crate::text;

verus! {

/// Filename used for the per-session scratchpad copy inside each worktree.
pub const PER_SESSION_SCRATCHPAD: &'static str = "scratchpad.md";

// ---------------------------------------------------------------------------
// Names
// ---------------------------------------------------------------------------

/// The name of a session's directory.
pub open spec fn session_dir(seq: u32) -> Seq<char> {
    "session-"@ + run_dir::seq_text(seq)
}

/// The branch of a session.
pub open spec fn session_branch(run_id: Seq<char>, seq: u32) -> Seq<char> {
    "pitboss/grind/"@ + run_id + "-session-"@ + run_dir::seq_text(seq)
}

fn session_dir_name(seq: u32) -> (r: String)
    ensures
        r@ == session_dir(seq),
{
    let mut out = text::owned("session-");
    out.append(run_dir::format_seq(seq).as_str());
    out
}

/// Compose the per-session branch name. Stable so resume / forensics tooling
/// can pattern-match on it.
///
/// Note the `-session-NNNN` suffix instead of `/session-NNNN`: git's
/// filesystem-backed ref store refuses to create `pitboss/grind/<run-id>/x`
/// when `pitboss/grind/<run-id>` already exists as a branch ref (`<run-id>`
/// can't be both a file and a directory under `refs/heads/`). The hyphen
/// keeps the run-id prefix grep-able while side-stepping the collision.
pub fn session_branch_name(run_id: &str, seq: u32) -> (r: String)
    ensures
        r@ == session_branch(run_id@, seq),
{
    let mut out = text::owned("pitboss/grind/");
    out.append(run_id);
    out.append("-session-");
    out.append(run_dir::format_seq(seq).as_str());
    out
}

/// The label under which a session's leftover edits are stashed.
pub open spec fn stash_text(run_id: Seq<char>, seq: u32) -> Seq<char> {
    "grind/"@ + run_id + "/session-"@ + run_dir::seq_text(seq) + "-leftover"@
}

/// The label under which a session's leftover edits are stashed.
pub fn stash_label(run_id: &str, seq: u32) -> (r: String)
    ensures
        r@ == stash_text(run_id@, seq),
{
    let mut out = text::owned("grind/");
    out.append(run_id);
    out.append("/session-");
    out.append(run_dir::format_seq(seq).as_str());
    out.append("-leftover");
    out
}

/// The message of a session's commit.
pub open spec fn commit_text(prompt_name: Seq<char>, seq: u32, run_id: Seq<char>) -> Seq<char> {
    "[pitboss/grind] "@ + prompt_name + " session-"@ + run_dir::seq_text(seq) + " ("@ + run_id
        + ")"@
}

/// The commit of a session names its prompt, its number and its run.
pub proof fn session_commits_name_their_session(prompt_name: Seq<char>, seq: u32, run_id: Seq<char>)
    ensures
        text::contains(commit_text(prompt_name, seq, run_id), "[pitboss/grind] "@ + prompt_name),
        text::contains(
            commit_text(prompt_name, seq, run_id),
            " session-"@ + run_dir::seq_text(seq),
        ),
        text::contains(commit_text(prompt_name, seq, run_id), " ("@ + run_id + ")"@),
{
    text::parts_are_held(
        Seq::<char>::empty(),
        "[pitboss/grind] "@ + prompt_name,
        " session-"@ + run_dir::seq_text(seq) + " ("@ + run_id + ")"@,
        commit_text(prompt_name, seq, run_id),
    );
    text::parts_are_held(
        "[pitboss/grind] "@ + prompt_name,
        " session-"@ + run_dir::seq_text(seq),
        " ("@ + run_id + ")"@,
        commit_text(prompt_name, seq, run_id),
    );
    text::parts_are_held(
        "[pitboss/grind] "@ + prompt_name + " session-"@ + run_dir::seq_text(seq),
        " ("@ + run_id + ")"@,
        Seq::<char>::empty(),
        commit_text(prompt_name, seq, run_id),
    );
}

/// The commit that a session's staged changes call for: its message, or `None`
/// if there was nothing code-side to commit (e.g., the agent only edited
/// `.pitboss/`).
pub fn try_commit_session(has_staged: bool, seq: u32, prompt_name: &str, run_id: &str) -> (r:
    Option<String>)
    ensures
        match r {
            Some(message) => has_staged && message@ == commit_text(prompt_name@, seq, run_id@),
            None => !has_staged,
        },
{
    if !has_staged {
        return None;
    }
    let mut out = text::owned("[pitboss/grind] ");
    out.append(prompt_name);
    out.append(" session-");
    out.append(run_dir::format_seq(seq).as_str());
    out.append(" (");
    out.append(run_id);
    out.append(")");
    Some(out)
}

/// The paths that never enter a session's commit or stash: `.pitboss/`, and
/// for a parallel session the per-session scratchpad too, which lives at the
/// worktree root but outside git's history.
pub fn excluded_paths(parallel: bool) -> (r: Vec<&'static str>)
    ensures
        r@.len() == if parallel {
            2nat
        } else {
            1nat
        },
        r@[0]@ == ".pitboss"@,
        parallel ==> r@[1]@ == PER_SESSION_SCRATCHPAD@,
{
    let mut out: Vec<&'static str> = Vec::new();
    out.push(".pitboss");
    if parallel {
        out.push(PER_SESSION_SCRATCHPAD);
    }
    out
}

// ---------------------------------------------------------------------------
// The worktree
// ---------------------------------------------------------------------------

/// One live worktree owned by a single in-flight parallel session.
///
/// Cleanup is **not** automatic: the runner explicitly chooses between
/// dropping the directory and the ephemeral branch, and moving the directory
/// to [`SessionWorktree::quarantine_path`] for forensics, so failed sessions
/// stay inspectable and successful ones don't balloon the run dir.
#[derive(Debug, PartialEq, Eq)]
pub struct SessionWorktree {
    seq: u32,
    path: String,
    branch: String,
    failed_root: String,
    scratchpad_path: String,
    seed_scratchpad: String,
}

/// A [`SessionWorktree`] as a mathematical value.
pub struct WorktreeModel {
    pub seq: u32,
    pub path: Seq<char>,
    pub branch: Seq<char>,
    pub failed_root: Seq<char>,
    pub scratchpad_path: Seq<char>,
    pub seed_scratchpad: Seq<char>,
}

impl View for SessionWorktree {
    type V = WorktreeModel;

    closed spec fn view(&self) -> WorktreeModel {
        WorktreeModel {
            seq: self.seq,
            path: self.path@,
            branch: self.branch@,
            failed_root: self.failed_root@,
            scratchpad_path: self.scratchpad_path@,
            seed_scratchpad: self.seed_scratchpad@,
        }
    }
}

/// The worktree of the session `seq` of a run.
pub open spec fn worktree_of(
    worktrees: Seq<char>,
    run_id: Seq<char>,
    seq: u32,
    seed: Seq<char>,
) -> WorktreeModel {
    let path = paths::joined(worktrees, session_dir(seq));
    WorktreeModel {
        seq,
        path,
        branch: session_branch(run_id, seq),
        failed_root: paths::joined(worktrees, "failed"@),
        scratchpad_path: paths::joined(path, PER_SESSION_SCRATCHPAD@),
        seed_scratchpad: seed,
    }
}

/// The worktree of a session lies below the run's worktrees under the session's
/// name, with its scratchpad in it; what failed is put below the same directory.
/// It carries the number of the session, its branch and the text it starts with.
pub proof fn worktrees_lie_below_their_run(
    worktrees: Seq<char>,
    run_id: Seq<char>,
    seq: u32,
    seed: Seq<char>,
)
    ensures
        ({
            let w = worktree_of(worktrees, run_id, seq, seed);
            &&& w.seq == seq
            &&& w.seed_scratchpad == seed
            &&& worktrees.is_prefix_of(w.path)
            &&& text::contains(w.path, "session-"@ + run_dir::seq_text(seq))
            &&& worktrees.is_prefix_of(w.failed_root)
            &&& text::contains(w.failed_root, "failed"@)
            &&& w.path.is_prefix_of(w.scratchpad_path)
            &&& text::contains(w.scratchpad_path, "scratchpad.md"@)
            &&& text::contains(w.branch, run_id)
            &&& text::contains(w.branch, "-session-"@ + run_dir::seq_text(seq))
        }),
{
    let w = worktree_of(worktrees, run_id, seq, seed);
    let name = run_dir::seq_text(seq);
    reveal_strlit("session-");
    reveal_strlit("failed");
    reveal_strlit("scratchpad.md");
    assert(session_dir(seq)[0] == 's');
    paths::joining_shows_both(worktrees, session_dir(seq), worktrees);
    paths::joining_shows_both(worktrees, "failed"@, worktrees);
    paths::joining_shows_both(w.path, "scratchpad.md"@, worktrees);
    text::parts_are_held("pitboss/grind/"@, run_id, "-session-"@ + name, w.branch);
    text::parts_are_held(
        "pitboss/grind/"@ + run_id,
        "-session-"@ + name,
        Seq::empty(),
        w.branch,
    );
}

impl SessionWorktree {
    /// The worktree, the ephemeral branch, and the per-session scratchpad view
    /// of the session `seq`, which starts out as `scratchpad_seed`. Nothing is
    /// made on disk yet.
    pub fn create(run_paths: &RunPaths, run_id: &str, seq: u32, scratchpad_seed: &str) -> (r: Self)
        ensures
            r@ == worktree_of(run_paths.worktrees@, run_id@, seq, scratchpad_seed@),
    {
        let path = paths::join(run_paths.worktrees.as_str(), session_dir_name(seq).as_str());
        SessionWorktree {
            seq,
            branch: session_branch_name(run_id, seq),
            failed_root: paths::join(run_paths.worktrees.as_str(), "failed"),
            scratchpad_path: paths::join(path.as_str(), PER_SESSION_SCRATCHPAD),
            seed_scratchpad: text::owned(scratchpad_seed),
            path,
        }
    }

    /// 1-based session sequence.
    pub fn seq(&self) -> (r: u32)
        ensures
            r == self@.seq,
    {
        self.seq
    }

    /// Filesystem path of the worktree.
    pub fn path(&self) -> (r: &str)
        ensures
            r@ == self@.path,
    {
        self.path.as_str()
    }

    /// Ephemeral branch name (`pitboss/grind/<run-id>-session-NNNN`; see
    /// [`session_branch_name`] for the hyphen-vs-slash rationale).
    pub fn branch(&self) -> (r: &str)
        ensures
            r@ == self@.branch,
    {
        self.branch.as_str()
    }

    /// Per-session scratchpad path the agent should be told about via
    /// `PITBOSS_SCRATCHPAD`.
    pub fn scratchpad_path(&self) -> (r: &str)
        ensures
            r@ == self@.scratchpad_path,
    {
        self.scratchpad_path.as_str()
    }

    /// Snapshot of the run-level scratchpad at session start, retained so the
    /// merge step can detect whether the agent actually wrote to its view.
    pub fn scratchpad_seed(&self) -> (r: &str)
        ensures
            r@ == self@.seed_scratchpad,
    {
        self.seed_scratchpad.as_str()
    }

    /// The directory that quarantined worktrees are moved into.
    pub fn failed_root(&self) -> (r: &str)
        ensures
            r@ == self@.failed_root,
    {
        self.failed_root.as_str()
    }

    /// Where the worktree directory goes when its session did not resolve as
    /// `Okay`: `worktrees/failed/session-NNNN/`.
    pub fn quarantine_path(&self) -> (r: String)
        ensures
            r@ == paths::joined(self@.failed_root, session_dir(self@.seq)),
    {
        paths::join(self.failed_root.as_str(), session_dir_name(self.seq).as_str())
    }
}

// ---------------------------------------------------------------------------
// Summaries
// ---------------------------------------------------------------------------

/// Which step of the merge dance produced a `parallel_safe` contract violation.
///
/// The runner enforces `parallel_safe: true` at two distinct sites:
///
/// - [`Self::WorktreeSync`]: bringing the current run-branch tip into the
///   session worktree refused, meaning the agent's uncommitted edits would have
///   been overwritten by another parallel session's commit.
/// - [`Self::RunBranchMerge`]: fast-forwarding the run branch to the session
///   tip refused. The run-branch lock prevents this from racing in normal
///   operation, so it should only fire when an external writer advanced the
///   run branch out of band.
///
/// Both kinds get the same `SessionStatus::Error` outcome; the labeled summary
/// just lets users tell the two cases apart when triaging a failed run.
#[derive(Debug, Clone, Copy, PartialEq, Eq, Structural)]
pub enum ParallelSafeViolationSite {
    /// `git merge --ff-only <run_branch>` inside the session worktree refused.
    WorktreeSync,
    /// `git merge --ff-only <session_branch>` against the run branch refused.
    RunBranchMerge,
}

/// The label of a site.
pub open spec fn site_text(site: ParallelSafeViolationSite) -> Seq<char> {
    match site {
        ParallelSafeViolationSite::WorktreeSync => "worktree sync"@,
        ParallelSafeViolationSite::RunBranchMerge => "run-branch merge"@,
    }
}

impl ParallelSafeViolationSite {
    /// The label of the site.
    pub fn label(self) -> (r: &'static str)
        ensures
            r@ == site_text(self),
    {
        match self {
            ParallelSafeViolationSite::WorktreeSync => "worktree sync",
            ParallelSafeViolationSite::RunBranchMerge => "run-branch merge",
        }
    }
}

/// The summary of a `parallel_safe` contract violation.
pub open spec fn violation_text(prompt_name: Seq<char>, site: ParallelSafeViolationSite) -> Seq<
    char,
> {
    "parallel_safe contract violated by prompt "@ + prompt_name + " ("@ + site_text(site) + ")"@
}

/// The summary of a violation names the prompt and tells where the conflict was.
pub proof fn violations_name_their_prompt_and_site(
    prompt_name: Seq<char>,
    site: ParallelSafeViolationSite,
)
    ensures
        text::contains(violation_text(prompt_name, site), " by prompt "@ + prompt_name),
        site is WorktreeSync ==> text::contains(
            violation_text(prompt_name, site),
            "(worktree sync)"@,
        ),
        site is RunBranchMerge ==> text::contains(
            violation_text(prompt_name, site),
            "(run-branch merge)"@,
        ),
{
    let whole = violation_text(prompt_name, site);
    let none = Seq::<char>::empty();
    let head = "parallel_safe contract violated by prompt "@;
    let end = " ("@ + site_text(site) + ")"@;
    reveal_strlit("parallel_safe contract violated by prompt ");
    reveal_strlit(" by prompt ");
    let front = head.take(31);
    assert(head =~= front + " by prompt "@);
    text::parts_are_held(front, " by prompt "@ + prompt_name, end, whole);
    reveal_strlit(" (");
    reveal_strlit(")");
    let named = match site {
        ParallelSafeViolationSite::WorktreeSync => "(worktree sync)"@,
        ParallelSafeViolationSite::RunBranchMerge => "(run-branch merge)"@,
    };
    reveal_strlit("(worktree sync)");
    reveal_strlit("worktree sync");
    reveal_strlit("(run-branch merge)");
    reveal_strlit("run-branch merge");
    assert(end =~= seq![' '] + named);
    text::parts_are_held(head + prompt_name + seq![' '], named, none, whole);
}

/// Formatted error message used when one of the two `merge --ff-only` steps
/// in the parallel-session dance fails. The runner records a
/// `SessionStatus::Error` with this text as the session summary so
/// `pitboss grind` users can grep for the contract violation and tell the two
/// failure sites apart.
pub fn parallel_safe_violation_summary(prompt_name: &str, site: ParallelSafeViolationSite) -> (r:
    String)
    ensures
        r@ == violation_text(prompt_name@, site),
{
    let mut out = text::owned("parallel_safe contract violated by prompt ");
    out.append(prompt_name);
    out.append(" (");
    out.append(site.label());
    out.append(")");
    out
}

/// The summary of an unresolved merge conflict.
pub open spec fn conflict_text(prompt_name: Seq<char>, err: Seq<char>) -> Seq<char> {
    let line = text::first_line_trimmed(err);
    "merge conflict at session end (prompt "@ + prompt_name + ")"@ + (if line.len() == 0 {
        Seq::empty()
    } else {
        ": "@ + line
    })
}

/// The summary of a conflict names the prompt, and ends with the first line of the
/// error where that has text.
pub proof fn conflicts_name_their_prompt(prompt_name: Seq<char>, err: Seq<char>)
    ensures
        text::contains(conflict_text(prompt_name, err), "(prompt "@ + prompt_name + ")"@),
        text::first_line_trimmed(err).len() > 0 ==> text::contains(
            conflict_text(prompt_name, err),
            ": "@ + text::first_line_trimmed(err),
        ),
        text::first_line_trimmed(err).len() == 0 ==> conflict_text(prompt_name, err).last() == ')',
{
    let whole = conflict_text(prompt_name, err);
    let line = text::first_line_trimmed(err);
    let head = "merge conflict at session end (prompt "@;
    let end = if line.len() == 0 {
        Seq::empty()
    } else {
        ": "@ + line
    };
    reveal_strlit("merge conflict at session end (prompt ");
    reveal_strlit("(prompt ");
    reveal_strlit(")");
    let front = head.take(30);
    assert(head =~= front + "(prompt "@);
    text::parts_are_held(front, "(prompt "@ + prompt_name + ")"@, end, whole);
    text::parts_are_held(head + prompt_name + ")"@, end, Seq::empty(), whole);
}

/// Summary text recorded when a session ends with a working-tree state that
/// `git stash push` cannot capture (most commonly an unresolved merge / index
/// conflict the agent left behind). `err` is the error's text, of which the
/// first line is shown. Kept short so it renders cleanly in `sessions.md`.
pub fn merge_conflict_summary(prompt_name: &str, err: &str) -> (r: String)
    ensures
        r@ == conflict_text(prompt_name@, err@),
{
    let line = text::one_line(err);
    let mut out = text::owned("merge conflict at session end (prompt ");
    out.append(prompt_name);
    out.append(")");
    if !line.as_str().is_empty() {
        let mut tail = text::owned(": ");
        tail.append(line.as_str());
        out.append(tail.as_str());
    } else {
        assert(out@ =~= conflict_text(prompt_name@, err@));
    }
    out
}

// ---------------------------------------------------------------------------
// The merge dance
// ---------------------------------------------------------------------------

/// Result of the parallel-session merge dance.
#[derive(Debug, PartialEq, Eq)]
pub struct MergeOutcome {
    /// Final session status after sync → commit → ff-merge → stash.
    pub status: SessionStatus,
    /// Final summary text. Carries the `parallel_safe` violation label or the
    /// merge-conflict diagnostic when the dance promoted the status to
    /// `Error`; otherwise the caller's starting summary is returned verbatim.
    pub summary: String,
    /// Commit produced by the session (if any). `None` when the agent made no
    /// code changes, when the dance promoted the status to a terminal failure
    /// before the commit step, or when the run-branch ff-merge refused.
    pub commit: Option<String>,
    /// `true` when the worktree-sync step succeeded — i.e., the run-branch tip
    /// was successfully replayed into the session worktree. `false`
    /// short-circuits the remaining steps and tells the runner to quarantine
    /// the worktree without further git churn.
    pub sync_ok: bool,
}

/// The git command that the merge dance waits for.
#[derive(Debug, Clone, Copy, PartialEq, Eq, Structural)]
pub enum MergeStep {
    /// Fast-forward the worktree's session branch to the current run-branch
    /// tip. When the session was created the run branch was at commit A;
    /// another parallel session may have advanced it since. Replaying that
    /// fast-forward inside the worktree is what makes the eventual run-branch
    /// merge possible.
    Sync,
    /// Commit on top of the synced HEAD.
    Commit,
    /// Fast-forward the run branch to the session tip.
    Forward,
    /// Stash any leftover edits the agent left behind in the worktree so the
    /// directory is clean before teardown.
    Stash,
    /// Nothing is left to do.
    Done,
}

/// What came of a git command.
#[derive(Debug, PartialEq, Eq)]
pub enum MergeEvent {
    /// The worktree took the run-branch tip, or refused it.
    Synced(bool),
    /// A commit was made, or there was nothing to commit.
    Committed(Option<String>),
    /// The run branch took the session tip, or refused it.
    Forwarded(bool),
    /// Edits were stashed, or there were none; or the stash failed.
    Stashed(Result<bool, String>),
}

/// A [`MergeEvent`] as a mathematical value.
pub enum MergeEventModel {
    Synced(bool),
    Committed(Option<Seq<char>>),
    Forwarded(bool),
    Stashed(Result<bool, Seq<char>>),
}

impl View for MergeEvent {
    type V = MergeEventModel;

    open spec fn view(&self) -> MergeEventModel {
        match self {
            MergeEvent::Synced(fine) => MergeEventModel::Synced(*fine),
            MergeEvent::Committed(id) => MergeEventModel::Committed(text::view_of(*id)),
            MergeEvent::Forwarded(fine) => MergeEventModel::Forwarded(*fine),
            MergeEvent::Stashed(r) => MergeEventModel::Stashed(
                match r {
                    Ok(any) => Ok(*any),
                    Err(e) => Err(e@),
                },
            ),
        }
    }
}

/// Where the merge dance stands.
pub struct MergeModel {
    pub at: MergeStep,
    pub status: SessionStatus,
    pub summary: Seq<char>,
    pub commit: Option<Seq<char>>,
    pub sync_ok: bool,
}

/// The start of the dance for a session that ended as `status`. Only `Okay` and
/// `Error` sessions are merged; any other goes straight to teardown without
/// touching git state.
pub open spec fn merge_start(status: SessionStatus, summary: Seq<char>) -> MergeModel {
    MergeModel {
        at: if status == SessionStatus::Okay || status == SessionStatus::Error {
            MergeStep::Sync
        } else {
            MergeStep::Done
        },
        status,
        summary,
        commit: None,
        sync_ok: true,
    }
}

/// The status of a session after its leftover edits were stashed.
pub open spec fn stashed_status(status: SessionStatus, stashed: Result<bool, Seq<char>>) ->
    SessionStatus {
    match stashed {
        Ok(any) => if any && status == SessionStatus::Okay {
            SessionStatus::Dirty
        } else {
            status
        },
        Err(_) => if status == SessionStatus::Okay || status == SessionStatus::Dirty {
            SessionStatus::Error
        } else {
            status
        },
    }
}

/// The summary of a session after its leftover edits were stashed.
pub open spec fn stashed_summary(
    prompt_name: Seq<char>,
    status: SessionStatus,
    summary: Seq<char>,
    stashed: Result<bool, Seq<char>>,
) -> Seq<char> {
    match stashed {
        Err(e) if status == SessionStatus::Okay || status == SessionStatus::Dirty => conflict_text(
            prompt_name,
            e,
        ),
        _ => summary,
    }
}

/// The dance after the event `e`. An event of a command that is not due changes
/// nothing.
pub open spec fn merge_next(prompt_name: Seq<char>, m: MergeModel, e: MergeEventModel) ->
    MergeModel {
    match (m.at, e) {
        (MergeStep::Sync, MergeEventModel::Synced(true)) => MergeModel { at: MergeStep::Commit, ..m },
        (MergeStep::Sync, MergeEventModel::Synced(false)) => MergeModel {
            at: MergeStep::Done,
            status: SessionStatus::Error,
            summary: violation_text(prompt_name, ParallelSafeViolationSite::WorktreeSync),
            commit: m.commit,
            sync_ok: false,
        },
        (MergeStep::Commit, MergeEventModel::Committed(Some(id))) => MergeModel {
            at: MergeStep::Forward,
            commit: Some(id),
            ..m
        },
        (MergeStep::Commit, MergeEventModel::Committed(None)) => MergeModel {
            at: MergeStep::Stash,
            ..m
        },
        (MergeStep::Forward, MergeEventModel::Forwarded(true)) => MergeModel {
            at: MergeStep::Stash,
            ..m
        },
        (MergeStep::Forward, MergeEventModel::Forwarded(false)) => MergeModel {
            at: MergeStep::Stash,
            status: SessionStatus::Error,
            summary: violation_text(prompt_name, ParallelSafeViolationSite::RunBranchMerge),
            commit: None,
            sync_ok: m.sync_ok,
        },
        (MergeStep::Stash, MergeEventModel::Stashed(r)) => MergeModel {
            at: MergeStep::Done,
            status: stashed_status(m.status, r),
            summary: stashed_summary(prompt_name, m.status, m.summary, r),
            ..m
        },
        _ => m,
    }
}

/// The dance after the events `events`.
pub open spec fn merge_after(
    prompt_name: Seq<char>,
    m: MergeModel,
    events: Seq<MergeEventModel>,
) -> MergeModel
    decreases events.len(),
{
    if events.len() == 0 {
        m
    } else {
        merge_next(prompt_name, merge_after(prompt_name, m, events.drop_last()), events.last())
    }
}

/// Whatever git answers, the dance never improves on a session: it ends as
/// `Okay` only if it started so, with its summary untouched; and a commit is
/// reported only for a session that ended as `Okay` or `Error` and whose
/// worktree took the run-branch tip.
pub proof fn merge_never_improves(
    prompt_name: Seq<char>,
    status: SessionStatus,
    summary: Seq<char>,
    events: Seq<MergeEventModel>,
)
    ensures
        ({
            let m = merge_after(prompt_name, merge_start(status, summary), events);
            &&& m.status == SessionStatus::Okay ==> status == SessionStatus::Okay && m.summary
                == summary
            &&& m.commit is Some ==> m.sync_ok && (status == SessionStatus::Okay || status
                == SessionStatus::Error)
            &&& !m.sync_ok ==> m.at == MergeStep::Done && m.status == SessionStatus::Error
                && m.commit is None
        }),
    decreases events.len(),
{
    if events.len() > 0 {
        merge_never_improves(prompt_name, status, summary, events.drop_last());
        merge_keeps(prompt_name, status, summary, events.drop_last());
    }
}

proof fn merge_keeps(
    prompt_name: Seq<char>,
    status: SessionStatus,
    summary: Seq<char>,
    events: Seq<MergeEventModel>,
)
    ensures
        ({
            let m = merge_after(prompt_name, merge_start(status, summary), events);
            &&& m.at == MergeStep::Sync ==> m == merge_start(status, summary)
            &&& m.at == MergeStep::Commit || m.at == MergeStep::Forward ==> m.sync_ok && (status
                == SessionStatus::Okay || status == SessionStatus::Error)
            &&& m.at == MergeStep::Commit ==> m.commit is None
            &&& m.at == MergeStep::Stash ==> m.sync_ok
        }),
    decreases events.len(),
{
    if events.len() > 0 {
        merge_keeps(prompt_name, status, summary, events.drop_last());
    }
}

/// A session that did not end as `Okay` or `Error` touches no git state: no
/// command is ever due, nothing is committed, and its status and summary stay
/// as they are.
pub proof fn unmerged_stays_as_it_is(
    prompt_name: Seq<char>,
    status: SessionStatus,
    summary: Seq<char>,
    events: Seq<MergeEventModel>,
)
    requires
        status != SessionStatus::Okay,
        status != SessionStatus::Error,
    ensures
        merge_after(prompt_name, merge_start(status, summary), events) == merge_start(
            status,
            summary,
        ),
        merge_start(status, summary).at == MergeStep::Done,
        merge_start(status, summary).commit is None,
    decreases events.len(),
{
    if events.len() > 0 {
        unmerged_stays_as_it_is(prompt_name, status, summary, events.drop_last());
    }
}

/// How the merge dance goes. A worktree that does not take the run-branch tip
/// ends it as an error, with nothing committed. Else the changes are committed;
/// where there was a commit, the run branch is to take it, and where there was
/// none that is skipped. A run branch that refuses makes the session an error and
/// its commit is not reported; the leftover edits are stashed all the same. What
/// the stash comes to is what the session ends with.
pub proof fn merges_go_step_by_step(
    prompt_name: Seq<char>,
    m: MergeModel,
    id: Seq<char>,
    r: Result<bool, Seq<char>>,
)
    ensures
        m.at == MergeStep::Sync ==> {
            let yes = merge_next(prompt_name, m, MergeEventModel::Synced(true));
            let no = merge_next(prompt_name, m, MergeEventModel::Synced(false));
            &&& yes.at == MergeStep::Commit && yes.status == m.status && yes.summary == m.summary
                && yes.sync_ok == m.sync_ok
            &&& no.at == MergeStep::Done && no.status == SessionStatus::Error && !no.sync_ok
                && no.commit == m.commit
            &&& no.summary == "parallel_safe contract violated by prompt "@ + prompt_name + " ("@
                + "worktree sync"@ + ")"@
        },
        m.at == MergeStep::Commit ==> {
            let made = merge_next(prompt_name, m, MergeEventModel::Committed(Some(id)));
            let none = merge_next(prompt_name, m, MergeEventModel::Committed(None));
            &&& made.at == MergeStep::Forward && made.commit == Some(id) && made.status == m.status
            &&& none.at == MergeStep::Stash && none.commit == m.commit && none.status == m.status
        },
        m.at == MergeStep::Forward ==> {
            let yes = merge_next(prompt_name, m, MergeEventModel::Forwarded(true));
            let no = merge_next(prompt_name, m, MergeEventModel::Forwarded(false));
            &&& yes.at == MergeStep::Stash && yes.commit == m.commit && yes.status == m.status
                && yes.summary == m.summary
            &&& no.at == MergeStep::Stash && no.commit is None && no.status == SessionStatus::Error
            &&& no.summary == "parallel_safe contract violated by prompt "@ + prompt_name + " ("@
                + "run-branch merge"@ + ")"@
        },
        m.at == MergeStep::Stash ==> {
            let n = merge_next(prompt_name, m, MergeEventModel::Stashed(r));
            n.at == MergeStep::Done && n.commit == m.commit && n.sync_ok == m.sync_ok
        },
        m.at == MergeStep::Done ==> merge_next(prompt_name, m, MergeEventModel::Stashed(r)) == m,
{
}

/// What stashing the leftover edits does to a session. Edits that were left make
/// a session that went well a dirty one. A stash that fails makes a session that
/// had not failed yet an error, and its summary says so. A session that had
/// failed keeps its status and its summary, and one with nothing left over does.
pub proof fn leftovers_make_a_session_dirty(
    prompt_name: Seq<char>,
    status: SessionStatus,
    summary: Seq<char>,
    err: Seq<char>,
)
    ensures
        stashed_status(status, Ok(false)) == status,
        stashed_status(SessionStatus::Okay, Ok(true)) == SessionStatus::Dirty,
        status != SessionStatus::Okay ==> stashed_status(status, Ok(true)) == status,
        stashed_status(SessionStatus::Okay, Err(err)) == SessionStatus::Error,
        stashed_status(SessionStatus::Dirty, Err(err)) == SessionStatus::Error,
        status != SessionStatus::Okay && status != SessionStatus::Dirty ==> stashed_status(
            status,
            Err(err),
        ) == status && stashed_summary(prompt_name, status, summary, Err(err)) == summary,
        stashed_summary(prompt_name, status, summary, Ok(true)) == summary,
        stashed_summary(prompt_name, status, summary, Ok(false)) == summary,
        stashed_summary(prompt_name, SessionStatus::Okay, summary, Err(err)) == conflict_text(
            prompt_name,
            err,
        ),
{
}

/// The start of the dance keeps what the session ended as, and has committed
/// nothing. Sessions that went well or failed are merged, and no others.
pub proof fn only_okay_and_error_are_merged(status: SessionStatus, summary: Seq<char>)
    ensures
        ({
            let m = merge_start(status, summary);
            &&& m.status == status && m.summary == summary && m.commit is None && m.sync_ok
            &&& m.at == MergeStep::Sync <==> status == SessionStatus::Okay || status
                == SessionStatus::Error
            &&& m.at == MergeStep::Sync || m.at == MergeStep::Done
        }),
{
}

/// The parallel-session merge dance: sync the worktree to the run-branch tip,
/// commit the agent's changes, fast-forward the run branch, then stash any
/// leftover edits. To be run under the run-branch lock, so that a sibling
/// parallel session cannot interleave between sync and ff-merge.
#[derive(Debug, PartialEq, Eq)]
pub struct SessionMerge {
    prompt_name: String,
    at: MergeStep,
    outcome: MergeOutcome,
}

impl View for SessionMerge {
    type V = MergeModel;

    closed spec fn view(&self) -> MergeModel {
        MergeModel {
            at: self.at,
            status: self.outcome.status,
            summary: self.outcome.summary@,
            commit: text::view_of(self.outcome.commit),
            sync_ok: self.outcome.sync_ok,
        }
    }
}

impl SessionMerge {
    /// The prompt whose session is merged.
    pub closed spec fn name(self) -> Seq<char> {
        self.prompt_name@
    }

    /// The dance for a session that ended as `status` with `summary`.
    pub fn new(prompt_name: &str, status: SessionStatus, summary: String) -> (r: Self)
        ensures
            r.name() == prompt_name@,
            r@ == merge_start(status, summary@),
    {
        let at = match status {
            SessionStatus::Okay => MergeStep::Sync,
            SessionStatus::Error => MergeStep::Sync,
            _ => MergeStep::Done,
        };
        SessionMerge {
            prompt_name: text::owned(prompt_name),
            at,
            outcome: MergeOutcome { status, summary, commit: None, sync_ok: true },
        }
    }

    /// The git command that is due.
    pub fn step(&self) -> (r: MergeStep)
        ensures
            r == self@.at,
    {
        self.at
    }

    /// Takes in what came of the command that was due.
    pub fn advance(self, event: MergeEvent) -> (r: Self)
        ensures
            r.name() == self.name(),
            r@ == merge_next(self.name(), self@, event@),
    {
        let prompt_name = self.prompt_name;
        let mut at = self.at;
        let mut outcome = self.outcome;
        match (at, event) {
            (MergeStep::Sync, MergeEvent::Synced(fine)) => {
                if fine {
                    at = MergeStep::Commit;
                } else {
                    at = MergeStep::Done;
                    outcome.status = SessionStatus::Error;
                    outcome.summary =
                    parallel_safe_violation_summary(
                        prompt_name.as_str(),
                        ParallelSafeViolationSite::WorktreeSync,
                    );
                    outcome.sync_ok = false;
                }
            },
            (MergeStep::Commit, MergeEvent::Committed(id)) => {
                if id.is_some() {
                    at = MergeStep::Forward;
                    outcome.commit = id;
                } else {
                    at = MergeStep::Stash;
                }
            },
            (MergeStep::Forward, MergeEvent::Forwarded(fine)) => {
                at = MergeStep::Stash;
                if !fine {
                    outcome.status = SessionStatus::Error;
                    outcome.summary =
                    parallel_safe_violation_summary(
                        prompt_name.as_str(),
                        ParallelSafeViolationSite::RunBranchMerge,
                    );
                    outcome.commit = None;
                }
            },
            (MergeStep::Stash, MergeEvent::Stashed(r)) => {
                at = MergeStep::Done;
                let (status, summary) = after_stash(
                    prompt_name.as_str(),
                    outcome.status,
                    outcome.summary,
                    r,
                );
                outcome =
                MergeOutcome {
                    status,
                    summary,
                    commit: outcome.commit,
                    sync_ok: outcome.sync_ok,
                };
            },
            _ => {},
        }
        SessionMerge { prompt_name, at, outcome }
    }

    /// What the dance came to.
    pub fn finish(self) -> (r: MergeOutcome)
        ensures
            r.status == self@.status,
            r.summary@ == self@.summary,
            text::view_of(r.commit) == self@.commit,
            r.sync_ok == self@.sync_ok,
    {
        self.outcome
    }
}

/// The status and summary of a session after its leftover edits were stashed.
pub fn after_stash(
    prompt_name: &str,
    status: SessionStatus,
    summary: String,
    stashed: Result<bool, String>,
) -> (r: (SessionStatus, String))
    ensures
        ({
            let came = match stashed {
                Ok(any) => Ok(any),
                Err(e) => Err(e@),
            };
            &&& r.0 == stashed_status(status, came)
            &&& r.1@ == stashed_summary(prompt_name@, status, summary@, came)
        }),
{
    match stashed {
        Ok(any) => {
            if any && status == SessionStatus::Okay {
                (SessionStatus::Dirty, summary)
            } else {
                (status, summary)
            }
        },
        Err(e) => {
            if status == SessionStatus::Okay || status == SessionStatus::Dirty {
                (SessionStatus::Error, merge_conflict_summary(prompt_name, e.as_str()))
            } else {
                (status, summary)
            }
        },
    }
}

// ---------------------------------------------------------------------------
// Sweeping stale worktrees
// ---------------------------------------------------------------------------

/// `s` without a leading `+`.
pub open spec fn unsigned(s: Seq<char>) -> Seq<char> {
    if s.len() > 0 && s[0] == '+' {
        s.skip(1)
    } else {
        s
    }
}

/// `s` is one or more decimal digits.
pub open spec fn is_numeral(s: Seq<char>) -> bool {
    s.len() > 0 && forall|i: int| 0 <= i < s.len() ==> id::is_digit(#[trigger] s[i])
}

/// The number that `s` writes: decimal digits, which a `+` may precede, whose
/// value fits in 32 bits.
pub open spec fn u32_of(s: Seq<char>) -> Option<u32> {
    let digits = unsigned(s);
    if is_numeral(digits) && id::number(digits) <= u32::MAX {
        Some(id::number(digits) as u32)
    } else {
        None
    }
}

proof fn numeral_grows(s: Seq<char>, n: int)
    requires
        0 <= n <= s.len(),
        forall|i: int| 0 <= i < s.len() ==> id::is_digit(#[trigger] s[i]),
    ensures
        id::number(s.take(n)) <= id::number(s),
    decreases s.len() - n,
{
    if n < s.len() {
        let more = s.take(n + 1);
        assert(more.drop_last() =~= s.take(n));
        assert(id::is_digit(s[n]));
        assert(id::number(more) >= id::number(s.take(n)));
        numeral_grows(s, n + 1);
    } else {
        assert(s.take(n) =~= s);
    }
}

fn parse_u32(v: &[char], from: usize) -> (r: Option<u32>)
    requires
        from <= v@.len(),
    ensures
        r == u32_of(v@.skip(from as int)),
{
    let ghost whole = v@.skip(from as int);
    let mut start: usize = from;
    if from < v.len() && v[from] == '+' {
        start = from + 1;
        assert(whole[0] == '+');
        assert(whole.skip(1) =~= v@.skip(start as int));
    }
    let ghost digits = unsigned(whole);
    assert(digits =~= v@.skip(start as int));
    if start == v.len() {
        return None;
    }
    let mut value: u64 = 0;
    for i in start..v.len()
        invariant
            start <= i <= v@.len(),
            digits == v@.skip(start as int),
            value == id::number(digits.take(i - start)),
            value <= u32::MAX,
            forall|j: int| 0 <= j < i - start ==> id::is_digit(#[trigger] digits[j]),
            digits.len() > 0,
            digits == unsigned(whole),
            whole == v@.skip(from as int),
    {
        let c: char = v[i];
        assert(digits[i - start] == c);
        if c < '0' || '9' < c {
            assert(!id::is_digit(digits[i - start]));
            return None;
        }
        let d: u64 = (text::rank(c) - 48) as u64;
        proof {
            assert(digits.take(i - start + 1).drop_last() =~= digits.take(i - start));
            assert(digits.take(i - start + 1).last() == c);
        }
        value = value * 10 + d;
        assert(value == id::number(digits.take(i - start + 1)));
        if value > u32::MAX as u64 {
            proof {
                if is_numeral(digits) {
                    numeral_grows(digits, i - start + 1);
                }
            }
            return None;
        }
    }
    assert(digits.take(digits.len() as int) =~= digits);
    Some(value as u32)
}

/// The sequence number in the directory name `name`, if it names a session.
pub open spec fn seq_in_name(name: Seq<char>) -> Option<u32> {
    if text::occurs_at(name, "session-"@, 0) {
        u32_of(name.skip("session-"@.len() as int))
    } else {
        None
    }
}

/// The sequence number in the directory name `name`, if it names a session.
pub fn session_seq(name: &str) -> (r: Option<u32>)
    ensures
        r == seq_in_name(name@),
{
    if text::starts_with(name, "session-") {
        proof {
            reveal_strlit("session-");
        }
        let v = text::chars_of(name);
        parse_u32(v.as_slice(), 8)
    } else {
        None
    }
}

/// The directory of a session names its number, so no two sessions share a
/// directory, and none shares its branch with another of its run.
pub proof fn session_names_give_their_numbers(a: u32, b: u32, run_id: Seq<char>)
    ensures
        seq_in_name(session_dir(a)) == Some(a),
        a != b ==> session_dir(a) != session_dir(b),
        a != b ==> session_branch(run_id, a) != session_branch(run_id, b),
        a != b ==> stash_text(run_id, a) != stash_text(run_id, b),
{
    dir_gives_number(a);
    dir_gives_number(b);
    let (s, t) = (run_dir::seq_text(a), run_dir::seq_text(b));
    let head = "pitboss/grind/"@ + run_id + "-session-"@;
    if session_branch(run_id, a) == session_branch(run_id, b) {
        assert((head + s).skip(head.len() as int) =~= s);
        assert((head + t).skip(head.len() as int) =~= t);
        assert(session_branch(run_id, a) =~= head + s);
        assert(session_branch(run_id, b) =~= head + t);
        assert(session_dir(a) == session_dir(b));
    }
    if stash_text(run_id, a) == stash_text(run_id, b) {
        let (front, end) = ("grind/"@ + run_id + "/session-"@, "-leftover"@);
        let (x, y) = (front + s + end, front + t + end);
        assert(stash_text(run_id, a) =~= x);
        assert(stash_text(run_id, b) =~= y);
        assert(x.subrange(front.len() as int, x.len() - end.len()) =~= s);
        assert(y.subrange(front.len() as int, y.len() - end.len()) =~= t);
        assert(session_dir(a) == session_dir(b));
    }
}

proof fn dir_gives_number(seq: u32)
    ensures
        seq_in_name(session_dir(seq)) == Some(seq),
{
    reveal_strlit("session-");
    let digits = run_dir::seq_text(seq);
    id::decimal_reads_back(seq as nat, 4);
    let name = session_dir(seq);
    assert(name.skip("session-"@.len() as int) =~= digits);
    assert(name.take(8) =~= "session-"@);
    assert(id::is_digit(digits[0]));
    assert(unsigned(digits) == digits);
}

/// A worktree to drop: the index of its entry, its number and its branch.
#[derive(Debug, PartialEq, Eq)]
pub struct StaleWorktree {
    /// Index of the directory entry.
    pub index: usize,
    /// Number of the session.
    pub seq: u32,
    /// The session's ephemeral branch.
    pub branch: String,
}

/// The entry names the worktree of a session after the session `last`.
pub open spec fn is_stale(entry: (String, bool), last: u32) -> bool {
    entry.1 && (seq_in_name(entry.0@) matches Some(seq) && seq > last)
}

/// The stale entries of a listing, by index, in its order.
pub open spec fn stale_entries(entries: Seq<(String, bool)>, last: u32) -> Seq<int>
    decreases entries.len(),
{
    if entries.len() == 0 {
        Seq::empty()
    } else {
        let front = stale_entries(entries.drop_last(), last);
        if is_stale(entries.last(), last) {
            front.push(entries.len() - 1)
        } else {
            front
        }
    }
}

/// A resume drops exactly the directories of sessions behind the last one that
/// was recorded, each once and in the order of the listing. Whatever is no
/// directory, names no session, or names one that was recorded, stays.
pub proof fn only_unrecorded_sessions_are_dropped(
    entries: Seq<(String, bool)>,
    last: u32,
    k: int,
)
    ensures
        stale_entries(entries, last).contains(k) <==> 0 <= k < entries.len() && entries[k].1 && (
        seq_in_name(entries[k].0@) matches Some(seq) && seq > last),
        forall|i: int, j: int|
            0 <= i < j < stale_entries(entries, last).len() ==> #[trigger] stale_entries(
                entries,
                last,
            )[i] < #[trigger] stale_entries(entries, last)[j],
        forall|i: int|
            0 <= i < stale_entries(entries, last).len() ==> #[trigger] stale_entries(
                entries,
                last,
            )[i] < entries.len(),
    decreases entries.len(),
{
    if entries.len() > 0 {
        let front = entries.drop_last();
        only_unrecorded_sessions_are_dropped(front, last, k);
        let (all, less) = (stale_entries(entries, last), stale_entries(front, last));
        if 0 <= k < front.len() {
            assert(front[k] == entries[k]);
        }
        if all.len() > less.len() {
            assert(all[less.len() as int] == entries.len() - 1);
            if less.contains(k) {
                let i = choose|i: int| 0 <= i < less.len() && less[i] == k;
                assert(all[i] == k);
            }
            if all.contains(k) && k != entries.len() - 1 {
                let i = choose|i: int| 0 <= i < all.len() && all[i] == k;
                assert(less[i] == k);
            }
        }
    }
}

/// Picks the stale parallel-session worktrees left behind by an interrupted
/// run. Used by `pitboss grind --resume` to clean up before any new session is
/// dispatched.
///
/// `entries` are the immediate children of `<run_paths.worktrees>/` by name,
/// each with whether it is a directory. The `failed/` subdirectory is not a
/// session's — it holds quarantined forensics copies that must survive a
/// resume. Every `session-NNNN` directory whose number is strictly greater than
/// `last_session_seq` is stale.
pub fn sweep_stale_session_worktrees(
    entries: &[(String, bool)],
    run_id: &str,
    last_session_seq: u32,
) -> (r: Vec<StaleWorktree>)
    ensures
        r@.map_values(|w: StaleWorktree| w.index as int) == stale_entries(
            entries@,
            last_session_seq,
        ),
        forall|i: int|
            0 <= i < r@.len() ==> {
                let w = #[trigger] r@[i];
                &&& w.index < entries@.len()
                &&& seq_in_name(entries@[w.index as int].0@) == Some(w.seq)
                &&& w.branch@ == session_branch(run_id@, w.seq)
            },
{
    let mut out: Vec<StaleWorktree> = Vec::new();
    assert(out@.map_values(|w: StaleWorktree| w.index as int) =~= stale_entries(
        entries@.take(0),
        last_session_seq,
    ));
    for i in 0..entries.len()
        invariant
            out@.map_values(|w: StaleWorktree| w.index as int) == stale_entries(
                entries@.take(i as int),
                last_session_seq,
            ),
            forall|j: int|
                0 <= j < out@.len() ==> {
                    let w = #[trigger] out@[j];
                    &&& w.index < entries@.len()
                    &&& seq_in_name(entries@[w.index as int].0@) == Some(w.seq)
                    &&& w.branch@ == session_branch(run_id@, w.seq)
                },
    {
        let ghost before = out@.map_values(|w: StaleWorktree| w.index as int);
        assert(entries@.take(i + 1).drop_last() =~= entries@.take(i as int));
        assert(entries@.take(i + 1).last() == entries@[i as int]);
        let (name, is_dir) = &entries[i];
        if *is_dir {
            if let Some(seq) = session_seq(name.as_str()) {
                if seq > last_session_seq {
                    out.push(
                        StaleWorktree { index: i, seq, branch: session_branch_name(run_id, seq) },
                    );
                    assert(out@.map_values(|w: StaleWorktree| w.index as int) =~= before.push(
                        i as int,
                    ));
                }
            }
        }
    }
    assert(entries@.take(entries@.len() as int) =~= entries@);
    out
}

// ---------------------------------------------------------------------------
// Merging the scratchpad
// ---------------------------------------------------------------------------

/// The scratchpad of the run after a session whose view of it is `view` and
/// started out as `seed`; `None` where it stays as it is.
pub open spec fn merged_scratchpad(
    current: Seq<char>,
    view: Seq<char>,
    seed: Seq<char>,
    seq: u32,
) -> Option<Seq<char>> {
    if view == seed {
        None
    } else if current == seed {
        Some(view)
    } else {
        Some(
            text::closed_line(current) + "<!-- pitboss:session-"@ + run_dir::seq_text(seq) + " -->\n"@
                + text::closed_line(view) + "<!-- /pitboss:session-"@ + run_dir::seq_text(seq)
                + " -->\n"@,
        )
    }
}

/// What another session wrote to the run-level scratchpad is never lost: it
/// stays at the front of what is written.
pub proof fn scratchpad_keeps_other_sessions(
    current: Seq<char>,
    view: Seq<char>,
    seed: Seq<char>,
    seq: u32,
)
    requires
        current != seed,
    ensures
        match merged_scratchpad(current, view, seed, seq) {
            Some(text) => current.len() <= text.len() && text.take(current.len() as int) == current,
            None => true,
        },
{
    if view != seed {
        let text = merged_scratchpad(current, view, seed, seq)->0;
        assert(text.take(current.len() as int) =~= current);
    }
}

/// What a session wrote to its own view is not lost either. A view that it did
/// not touch changes nothing. An edited one replaces a scratchpad that nobody else
/// changed, and else stands behind it, whole, between markers that carry the
/// number of the session.
pub proof fn scratchpad_keeps_the_session_too(
    current: Seq<char>,
    view: Seq<char>,
    seed: Seq<char>,
    seq: u32,
)
    ensures
        merged_scratchpad(current, view, seed, seq) is None <==> view == seed,
        view != seed && current == seed ==> merged_scratchpad(current, view, seed, seq) == Some(
            view,
        ),
        view != seed && current != seed ==> exists|before: Seq<char>, after: Seq<char>|
            #![trigger before + view + after]
            merged_scratchpad(current, view, seed, seq) == Some(before + view + after)
                && current.len() <= before.len() && before.take(current.len() as int) == current,
{
    if view != seed && current != seed {
        let number = run_dir::seq_text(seq);
        let before = text::closed_line(current) + "<!-- pitboss:session-"@ + number + " -->\n"@;
        let end = "<!-- /pitboss:session-"@ + number + " -->\n"@;
        let after = text::closed_line(view).skip(view.len() as int) + end;
        let whole = merged_scratchpad(current, view, seed, seq)->0;
        assert(text::closed_line(view).take(view.len() as int) =~= view);
        assert(whole =~= before + view + after);
        assert(before.take(current.len() as int) =~= current);
    }
}

/// Merge the per-session scratchpad view back into the run-level scratchpad,
/// whose text is `current_run`. Returns its new text, or `None` if nothing is
/// to be written.
///
/// Three-way comparison:
///
/// - Session view == seed → no merge needed (the agent didn't touch it).
/// - Session view != seed AND run-level == seed → fast-merge: write the
///   session view as-is.
/// - Session view != seed AND run-level != seed → another session has
///   already merged a change. Append the session view under labeled
///   `<!-- pitboss:session-NNNN -->` markers rather than attempting a
///   3-way text merge that would silently drop content.
pub fn merge_scratchpad_into_run(current_run: &str, session_view: &str, seed: &str, seq: u32) -> (r:
    Option<String>)
    ensures
        text::view_of(r) == merged_scratchpad(current_run@, session_view@, seed@, seq),
{
    if text::same(session_view, seed) {
        return None;
    }
    if text::same(current_run, seed) {
        return Some(text::owned(session_view));
    }
    let mut out = text::owned(current_run);
    if !text::ends_line(current_run) {
        out.push('\n');
    }
    assert(out@ == text::closed_line(current_run@));
    out.append("<!-- pitboss:session-");
    out.append(run_dir::format_seq(seq).as_str());
    out.append(" -->\n");
    let mut view = text::owned(session_view);
    if !text::ends_line(session_view) {
        view.push('\n');
    }
    assert(view@ == text::closed_line(session_view@));
    out.append(view.as_str());
    out.append("<!-- /pitboss:session-");
    out.append(run_dir::format_seq(seq).as_str());
    out.append(" -->\n");
    Some(out)
}

} // verus!
