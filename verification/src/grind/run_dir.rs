//! On-disk layout for a single grind run, plus the texts that its log is made
//! of.
//!
//! A run lives at `.pitboss/grind/<run-id>/` and owns:
//!
//! - `state.json` — scheduler/budget snapshot.
//! - `sessions.jsonl` — append-only source of truth for session records.
//! - `sessions.md` — markdown projection re-rendered after every append.
//! - `scratchpad.md` — agent-owned freeform notes; pitboss only reads it.
//! - `transcripts/session-NNNN.log` — per-session agent output.
//! - `worktrees/` — per-session worktrees for parallel sessions.
//!
//! `sessions.jsonl` is the single source of truth. `sessions.md` is rebuilt
//! from the full JSONL stream on every append, so the markdown projection
//! cannot drift from the log.

use vstd::prelude::*;
use vstd::string::StringExecFns;

use crate::money;
use crate::money::Usd;
use crate::paths;
use crate::state::{TokenUsage, UsageModel};
use crate::text;
use crate::time;
use crate::time::Timestamp;

verus! {

/// File and directory names that make up a run directory. Centralized so the
/// layout is described in exactly one place.
pub const STATE_FILENAME: &'static str = "state.json";

pub const SESSIONS_JSONL: &'static str = "sessions.jsonl";

pub const SESSIONS_MD: &'static str = "sessions.md";

pub const SCRATCHPAD_MD: &'static str = "scratchpad.md";

pub const TRANSCRIPTS_DIR: &'static str = "transcripts";

pub const WORKTREES_DIR: &'static str = "worktrees";

// ---------------------------------------------------------------------------
// Paths
// ---------------------------------------------------------------------------

/// Resolved on-disk paths for a run.
#[derive(Debug, PartialEq, Eq)]
pub struct RunPaths {
    /// `<repo>/.pitboss/grind/<run-id>/`.
    pub root: String,
    /// `<root>/state.json`.
    pub state: String,
    /// `<root>/sessions.jsonl`.
    pub sessions_jsonl: String,
    /// `<root>/sessions.md`.
    pub sessions_md: String,
    /// `<root>/scratchpad.md`.
    pub scratchpad: String,
    /// `<root>/transcripts/`.
    pub transcripts: String,
    /// `<root>/worktrees/`.
    pub worktrees: String,
}

/// The directory of a run.
pub open spec fn run_root(repo_root: Seq<char>, run_id: Seq<char>) -> Seq<char> {
    paths::joined(paths::joined(paths::joined(repo_root, ".pitboss"@), "grind"@), run_id)
}

/// The directory of a run lies in the repository, among the grind runs, under the
/// run's id.
pub proof fn runs_lie_in_the_repository(repo_root: Seq<char>, run_id: Seq<char>)
    requires
        run_id.len() > 0,
        run_id[0] != '/',
    ensures
        text::contains(run_root(repo_root, run_id), repo_root),
        text::contains(run_root(repo_root, run_id), ".pitboss"@),
        text::contains(run_root(repo_root, run_id), run_id),
        run_root(repo_root, run_id) == paths::joined(super::state::runs_dir(repo_root), run_id),
{
    let none = Seq::<char>::empty();
    let first = paths::joined(repo_root, ".pitboss"@);
    let second = paths::joined(first, "grind"@);
    reveal_strlit(".pitboss");
    reveal_strlit("grind");
    text::parts_are_held(none, repo_root, none, repo_root);
    paths::joining_shows_both(repo_root, ".pitboss"@, repo_root);
    paths::joining_shows_both(first, "grind"@, repo_root);
    paths::joining_shows_both(first, "grind"@, ".pitboss"@);
    paths::joining_shows_both(second, run_id, repo_root);
    paths::joining_shows_both(second, run_id, ".pitboss"@);
}

/// `p` are the paths below the directory `root`.
pub open spec fn laid_out(p: RunPaths, root: Seq<char>) -> bool {
    &&& p.root@ == root
    &&& p.state@ == paths::joined(root, STATE_FILENAME@)
    &&& p.sessions_jsonl@ == paths::joined(root, SESSIONS_JSONL@)
    &&& p.sessions_md@ == paths::joined(root, SESSIONS_MD@)
    &&& p.scratchpad@ == paths::joined(root, SCRATCHPAD_MD@)
    &&& p.transcripts@ == paths::joined(root, TRANSCRIPTS_DIR@)
    &&& p.worktrees@ == paths::joined(root, WORKTREES_DIR@)
}

/// Every file of a run lies in the directory of the run, under its own name.
pub proof fn files_lie_in_the_run(p: RunPaths, root: Seq<char>)
    requires
        laid_out(p, root),
    ensures
        p.root@ == root,
        root.is_prefix_of(p.state@) && text::contains(p.state@, "state.json"@),
        root.is_prefix_of(p.sessions_jsonl@) && text::contains(
            p.sessions_jsonl@,
            "sessions.jsonl"@,
        ),
        root.is_prefix_of(p.sessions_md@) && text::contains(p.sessions_md@, "sessions.md"@),
        root.is_prefix_of(p.scratchpad@) && text::contains(p.scratchpad@, "scratchpad.md"@),
        root.is_prefix_of(p.transcripts@) && text::contains(p.transcripts@, "transcripts"@),
        root.is_prefix_of(p.worktrees@) && text::contains(p.worktrees@, "worktrees"@),
{
    reveal_strlit("state.json");
    reveal_strlit("sessions.jsonl");
    reveal_strlit("sessions.md");
    reveal_strlit("scratchpad.md");
    reveal_strlit("transcripts");
    reveal_strlit("worktrees");
    paths::joining_shows_both(root, "state.json"@, root);
    paths::joining_shows_both(root, "sessions.jsonl"@, root);
    paths::joining_shows_both(root, "sessions.md"@, root);
    paths::joining_shows_both(root, "scratchpad.md"@, root);
    paths::joining_shows_both(root, "transcripts"@, root);
    paths::joining_shows_both(root, "worktrees"@, root);
}

/// A sequence number with at least four digits.
pub open spec fn seq_text(seq: u32) -> Seq<char> {
    text::pad_left(text::decimal(seq as nat), '0', 4)
}

/// A sequence number with at least four digits.
pub fn format_seq(seq: u32) -> (r: String)
    ensures
        r@ == seq_text(seq),
{
    text::padded(text::decimal_u32(seq).as_str(), '0', 4)
}

impl RunPaths {
    /// Build the path set for a run id under `repo_root`. Performs no IO.
    pub fn for_run(repo_root: &str, run_id: &str) -> (r: Self)
        ensures
            laid_out(r, run_root(repo_root@, run_id@)),
    {
        let grind = paths::join(paths::join(repo_root, ".pitboss").as_str(), "grind");
        let root = paths::join(grind.as_str(), run_id);
        RunPaths {
            state: paths::join(root.as_str(), STATE_FILENAME),
            sessions_jsonl: paths::join(root.as_str(), SESSIONS_JSONL),
            sessions_md: paths::join(root.as_str(), SESSIONS_MD),
            scratchpad: paths::join(root.as_str(), SCRATCHPAD_MD),
            transcripts: paths::join(root.as_str(), TRANSCRIPTS_DIR),
            worktrees: paths::join(root.as_str(), WORKTREES_DIR),
            root,
        }
    }

    /// Conventional transcript path for a session sequence number, e.g.
    /// `transcripts/session-0001.log` for `seq = 1`.
    pub fn transcript_for(&self, seq: u32) -> (r: String)
        ensures
            r@ == paths::joined(self.transcripts@, "session-"@ + seq_text(seq) + ".log"@),
    {
        let mut name = text::owned("session-");
        name.append(format_seq(seq).as_str());
        name.append(".log");
        paths::join(self.transcripts.as_str(), name.as_str())
    }

    /// Where the session with sequence number `seq` leaves its summary.
    pub fn summary_for(&self, seq: u32) -> (r: String)
        ensures
            r@ == paths::joined(self.root@, ".pitboss-summary-"@ + seq_text(seq) + ".txt"@),
    {
        let mut name = text::owned(".pitboss-summary-");
        name.append(format_seq(seq).as_str());
        name.append(".txt");
        paths::join(self.root.as_str(), name.as_str())
    }

    /// A copy of the paths.
    pub fn copy(&self) -> (r: Self)
        ensures
            r == *self,
    {
        RunPaths {
            root: self.root.clone(),
            state: self.state.clone(),
            sessions_jsonl: self.sessions_jsonl.clone(),
            sessions_md: self.sessions_md.clone(),
            scratchpad: self.scratchpad.clone(),
            transcripts: self.transcripts.clone(),
            worktrees: self.worktrees.clone(),
        }
    }
}

// ---------------------------------------------------------------------------
// Session records
// ---------------------------------------------------------------------------

/// Resolved status of a finished session.
#[derive(Debug, Clone, Copy, PartialEq, Eq, Structural)]
pub enum SessionStatus {
    /// Agent exited cleanly and any per-prompt verify step passed.
    Okay,
    /// Agent reported an error or post-hoc verification failed.
    Error,
    /// The session was killed by a timeout (per-prompt or budget).
    Timeout,
    /// User-driven abort (e.g., second Ctrl-C).
    Aborted,
    /// Agent left uncommitted leftovers in the working tree which pitboss
    /// stashed into a labeled stash for morning triage. The work itself was
    /// otherwise valid; the dirty status is a hint that triage is needed.
    Dirty,
    /// The user skipped the session; the run goes on with the next prompt.
    Skipped,
}

/// The name of a status.
pub open spec fn status_text(s: SessionStatus) -> Seq<char> {
    match s {
        SessionStatus::Okay => "ok"@,
        SessionStatus::Error => "error"@,
        SessionStatus::Timeout => "timeout"@,
        SessionStatus::Aborted => "aborted"@,
        SessionStatus::Dirty => "dirty"@,
        SessionStatus::Skipped => "skipped"@,
    }
}

impl SessionStatus {
    /// The name of the status.
    pub fn as_str(self) -> (r: &'static str)
        ensures
            r@ == status_text(self),
    {
        match self {
            SessionStatus::Okay => "ok",
            SessionStatus::Error => "error",
            SessionStatus::Timeout => "timeout",
            SessionStatus::Aborted => "aborted",
            SessionStatus::Dirty => "dirty",
            SessionStatus::Skipped => "skipped",
        }
    }
}

/// Different statuses have different names.
pub proof fn status_names_differ(a: SessionStatus, b: SessionStatus)
    requires
        status_text(a) == status_text(b),
    ensures
        a == b,
{
    reveal_strlit("ok");
    reveal_strlit("error");
    reveal_strlit("timeout");
    reveal_strlit("aborted");
    reveal_strlit("dirty");
    reveal_strlit("skipped");
    assert("timeout"@[0] != "aborted"@[0] && "timeout"@[0] != "skipped"@[0] && "aborted"@[0]
        != "skipped"@[0]);
    assert("error"@[0] != "dirty"@[0]);
}

/// Source-of-truth record for a single session, one JSON line of the log.
#[derive(Debug, PartialEq, Eq)]
pub struct SessionRecord {
    /// 1-based sequence number within the run.
    pub seq: u32,
    /// The owning run's id.
    pub run_id: String,
    /// Name of the prompt dispatched in this session.
    pub prompt: String,
    /// Wall-clock start time.
    pub started_at: Timestamp,
    /// Wall-clock end time.
    pub ended_at: Timestamp,
    /// Resolved outcome.
    pub status: SessionStatus,
    /// Captured agent summary (or [`None`] if the agent produced none).
    pub summary: Option<String>,
    /// Commit landed on the run branch by this session, when one was created.
    pub commit: Option<String>,
    /// Token usage attributed to this session.
    pub tokens: TokenUsage,
    /// Cost attributed to this session.
    pub cost_usd: Usd,
    /// Path to the session's transcript file. Stored as written by the caller
    /// — typically a path relative to the run root.
    pub transcript_path: String,
}

/// A [`SessionRecord`] as a mathematical value.
pub struct RecordModel {
    pub seq: u32,
    pub run_id: Seq<char>,
    pub prompt: Seq<char>,
    pub started_at: Timestamp,
    pub ended_at: Timestamp,
    pub status: SessionStatus,
    pub summary: Option<Seq<char>>,
    pub commit: Option<Seq<char>>,
    pub tokens: UsageModel,
    pub cost_usd: Usd,
    pub transcript_path: Seq<char>,
}

impl View for SessionRecord {
    type V = RecordModel;

    open spec fn view(&self) -> RecordModel {
        RecordModel {
            seq: self.seq,
            run_id: self.run_id@,
            prompt: self.prompt@,
            started_at: self.started_at,
            ended_at: self.ended_at,
            status: self.status,
            summary: text::view_of(self.summary),
            commit: text::view_of(self.commit),
            tokens: self.tokens@,
            cost_usd: self.cost_usd,
            transcript_path: self.transcript_path@,
        }
    }
}

impl SessionRecord {
    /// A copy of the record.
    pub fn copy(&self) -> (r: Self)
        ensures
            r@ == self@,
    {
        SessionRecord {
            seq: self.seq,
            run_id: self.run_id.clone(),
            prompt: self.prompt.clone(),
            started_at: self.started_at,
            ended_at: self.ended_at,
            status: self.status,
            summary: text::copy_option(&self.summary),
            commit: text::copy_option(&self.commit),
            tokens: self.tokens.copy(),
            cost_usd: self.cost_usd,
            transcript_path: self.transcript_path.clone(),
        }
    }
}

/// A record whose token counts add up to a `u64` and whose commit id can be cut
/// behind its seventh byte, if it has as many.
pub open spec fn printable(r: SessionRecord) -> bool {
    &&& r.tokens.input + r.tokens.output <= u64::MAX
    &&& (r.commit matches Some(c) ==> text::boundary_at(c@, 7))
}

// ---------------------------------------------------------------------------
// The markdown projection
// ---------------------------------------------------------------------------

/// The commit id as the projection shows it: its first seven bytes.
pub open spec fn short_commit(c: Option<String>) -> Seq<char> {
    match c {
        Some(id) => id@.take(text::chars_for_bytes(id@, 7, 0)),
        None => "(none)"@,
    }
}

/// `lines`, each indented by four spaces and ended by a newline.
pub open spec fn indented(lines: Seq<Seq<char>>) -> Seq<char>
    decreases lines.len(),
{
    if lines.len() == 0 {
        Seq::empty()
    } else {
        indented(lines.drop_last()) + ("    "@ + lines.last() + "\n"@)
    }
}

/// The summary of a record as the projection shows it.
pub open spec fn summary_block(s: Option<String>) -> Seq<char> {
    match s {
        Some(t) => if t@.len() > 0 {
            "- summary:\n\n"@ + indented(text::lines(t@)) + "\n"@
        } else {
            "- summary: (none)\n\n"@
        },
        None => "- summary: (none)\n\n"@,
    }
}

/// The heading of a record.
pub open spec fn record_heading(r: SessionRecord) -> Seq<char> {
    "## session-"@ + seq_text(r.seq) + " — "@ + r.prompt@ + " ("@ + status_text(r.status) + ")\n\n"@
}

/// The times of a record.
pub open spec fn record_times(r: SessionRecord) -> Seq<char> {
    "- started: "@ + r.started_at.rfc3339() + "\n- ended: "@ + r.ended_at.rfc3339()
        + "\n- duration: "@ + text::decimal(
        time::whole_seconds_between(r.started_at, r.ended_at) as nat,
    ) + "s\n"@
}

/// The commit, the tokens, the cost and the transcript of a record.
pub open spec fn record_facts(r: SessionRecord) -> Seq<char> {
    "- commit: "@ + short_commit(r.commit) + "\n- tokens: "@ + text::decimal(
        (r.tokens.input + r.tokens.output) as nat,
    ) + " (in "@ + text::decimal(r.tokens.input as nat) + " / out "@ + text::decimal(
        r.tokens.output as nat,
    ) + ")\n- cost: $"@ + money::dollars_text(r.cost_usd.pico as int) + "\n- transcript: "@
        + r.transcript_path@ + "\n"@
}

/// The heading of a record shows its number, its prompt and its status, and the lines
/// below it when it started and ended and how long it took.
pub proof fn records_show_what_ran_and_when(r: SessionRecord)
    ensures
        text::contains(record_heading(r), "## session-"@ + seq_text(r.seq)),
        text::contains(record_heading(r), " — "@ + r.prompt@),
        text::contains(record_heading(r), " ("@ + status_text(r.status)),
        text::contains(record_times(r), "- started: "@ + r.started_at.rfc3339()),
        text::contains(record_times(r), "\n- ended: "@ + r.ended_at.rfc3339()),
        text::contains(
            record_times(r),
            "\n- duration: "@ + text::decimal(
                time::whole_seconds_between(r.started_at, r.ended_at) as nat,
            ),
        ),
{
    let none = Seq::<char>::empty();
    let number = "## session-"@ + seq_text(r.seq);
    let prompt = " — "@ + r.prompt@;
    let status = " ("@ + status_text(r.status);
    text::parts_are_held(none, number, prompt + status + ")\n\n"@, record_heading(r));
    text::parts_are_held(number, prompt, status + ")\n\n"@, record_heading(r));
    text::parts_are_held(number + prompt, status, ")\n\n"@, record_heading(r));
    let started = "- started: "@ + r.started_at.rfc3339();
    let ended = "\n- ended: "@ + r.ended_at.rfc3339();
    let took = "\n- duration: "@ + text::decimal(
        time::whole_seconds_between(r.started_at, r.ended_at) as nat,
    );
    text::parts_are_held(none, started, ended + took + "s\n"@, record_times(r));
    text::parts_are_held(started, ended, took + "s\n"@, record_times(r));
    text::parts_are_held(started + ended, took, "s\n"@, record_times(r));
}

/// The facts of a record are its commit, its tokens in all, in and out, its cost and
/// its transcript, each behind its own label.
pub proof fn records_show_what_came_of_it(r: SessionRecord)
    ensures
        text::contains(record_facts(r), "- commit: "@ + short_commit(r.commit)),
        text::contains(
            record_facts(r),
            "\n- tokens: "@ + text::decimal((r.tokens.input + r.tokens.output) as nat),
        ),
        text::contains(record_facts(r), " (in "@ + text::decimal(r.tokens.input as nat)),
        text::contains(record_facts(r), " / out "@ + text::decimal(r.tokens.output as nat)),
        text::contains(
            record_facts(r),
            ")\n- cost: $"@ + money::dollars_text(r.cost_usd.pico as int),
        ),
        text::contains(record_facts(r), "\n- transcript: "@ + r.transcript_path@),
{
    let none = Seq::<char>::empty();
    let commit = "- commit: "@ + short_commit(r.commit);
    let tokens = "\n- tokens: "@ + text::decimal((r.tokens.input + r.tokens.output) as nat);
    let input = " (in "@ + text::decimal(r.tokens.input as nat);
    let output = " / out "@ + text::decimal(r.tokens.output as nat);
    let cost = ")\n- cost: $"@ + money::dollars_text(r.cost_usd.pico as int);
    let transcript = "\n- transcript: "@ + r.transcript_path@;
    let head = commit + tokens + input;
    let tail = output + cost + transcript + "\n"@;
    let whole = record_facts(r);
    assert(whole =~= head + tail);
    text::parts_are_held(none, commit, tokens + input, head);
    text::parts_are_held(commit, tokens, input, head);
    text::parts_are_held(commit + tokens, input, none, head);
    text::parts_are_held(none, output, cost + transcript + "\n"@, tail);
    text::parts_are_held(output, cost, transcript + "\n"@, tail);
    text::parts_are_held(output + cost, transcript, "\n"@, tail);
    text::held_in_a_part(none, head, tail, whole, commit);
    text::held_in_a_part(none, head, tail, whole, tokens);
    text::held_in_a_part(none, head, tail, whole, input);
    text::held_in_a_part(head, tail, none, whole, output);
    text::held_in_a_part(head, tail, none, whole, cost);
    text::held_in_a_part(head, tail, none, whole, transcript);
}

/// A commit is shown by its first seven bytes, and by all of it where it has no
/// more; a session without a commit shows none. A session without a summary, or
/// with an empty one, shows that.
pub proof fn commits_are_shown_short(id: String, summary: String)
    requires
        text::boundary_at(id@, 7),
    ensures
        short_commit(Some(id)).len() <= id@.len() && short_commit(Some(id)) == id@.take(
            short_commit(Some(id)).len() as int,
        ),
        text::utf8_len(id@) >= 7 ==> text::utf8_len(short_commit(Some(id))) == 7,
        text::utf8_len(id@) < 7 ==> short_commit(Some(id)) == id@,
        short_commit(None) == "(none)"@,
        summary@.len() == 0 ==> summary_block(Some(summary)) == summary_block(None),
{
    cut_stays_inside(id@, 7, 0);
    let k = text::chars_for_bytes(id@, 7, 0);
    if text::utf8_len(id@) < 7 {
        bytes_grow(id@, k);
        assert(id@.take(k) =~= id@);
    }
}

proof fn cut_stays_inside(s: Seq<char>, n: nat, k: int)
    requires
        0 <= k <= s.len(),
    ensures
        k <= text::chars_for_bytes(s, n, k) <= s.len(),
        text::chars_for_bytes(s, n, k) == s.len() || text::utf8_len(
            s.take(text::chars_for_bytes(s, n, k)),
        ) >= n,
    decreases s.len() - k,
{
    if k < s.len() && text::utf8_len(s.take(k)) < n {
        cut_stays_inside(s, n, k + 1);
    }
}

proof fn bytes_grow(s: Seq<char>, k: int)
    requires
        0 <= k <= s.len(),
    ensures
        text::utf8_len(s.take(k)) <= text::utf8_len(s),
    decreases s.len() - k,
{
    if k < s.len() {
        assert(s.take(k + 1).drop_last() =~= s.take(k));
        bytes_grow(s, k + 1);
    } else {
        assert(s.take(k) =~= s);
    }
}

/// The section of a record.
pub open spec fn record_section(r: SessionRecord) -> Seq<char> {
    record_heading(r) + record_times(r) + record_facts(r) + summary_block(r.summary)
}

/// The sections of `records`, in order.
pub open spec fn sections(records: Seq<SessionRecord>) -> Seq<char>
    decreases records.len(),
{
    if records.len() == 0 {
        Seq::empty()
    } else {
        sections(records.drop_last()) + record_section(records.last())
    }
}

/// The markdown projection of `records`.
pub open spec fn sessions_md(records: Seq<SessionRecord>) -> Seq<char> {
    "# Sessions\n\n"@ + if records.len() == 0 {
        "_No sessions recorded yet._\n"@
    } else {
        sections(records)
    }
}

/// The projection of a log that has a record more is the old projection with
/// the section of that record behind it.
pub proof fn projection_grows_by_a_section(records: Seq<SessionRecord>, r: SessionRecord)
    requires
        records.len() > 0,
    ensures
        sessions_md(records.push(r)) == sessions_md(records) + record_section(r),
{
    assert(records.push(r).drop_last() =~= records);
    assert("# Sessions\n\n"@ + (sections(records) + record_section(r)) =~= "# Sessions\n\n"@
        + sections(records) + record_section(r));
}

fn push_heading(out: &mut String, r: &SessionRecord)
    ensures
        final(out)@ == old(out)@ + record_heading(*r),
{
    let ghost before = out@;
    out.append("## session-");
    out.append(format_seq(r.seq).as_str());
    out.append(" — ");
    out.append(r.prompt.as_str());
    out.append(" (");
    out.append(r.status.as_str());
    out.append(")\n\n");
    assert(out@ =~= before + record_heading(*r));
}

fn push_times(out: &mut String, r: &SessionRecord)
    ensures
        final(out)@ == old(out)@ + record_times(*r),
{
    let ghost before = out@;
    out.append("- started: ");
    out.append(r.started_at.to_rfc3339().as_str());
    out.append("\n- ended: ");
    out.append(r.ended_at.to_rfc3339().as_str());
    out.append("\n- duration: ");
    let secs: u64 = r.ended_at.seconds_since(&r.started_at);
    out.append(text::decimal_u64(secs).as_str());
    out.append("s\n");
    assert(out@ =~= before + record_times(*r));
}

fn push_facts(out: &mut String, r: &SessionRecord)
    requires
        printable(*r),
    ensures
        final(out)@ == old(out)@ + record_facts(*r),
{
    let ghost before = out@;
    let commit = match &r.commit {
        Some(id) => text::first_seven_bytes(id.as_str()),
        None => text::owned("(none)"),
    };
    assert(commit@ == short_commit(r.commit));
    let total: u64 = r.tokens.input + r.tokens.output;
    out.append("- commit: ");
    out.append(commit.as_str());
    out.append("\n- tokens: ");
    out.append(text::decimal_u64(total).as_str());
    out.append(" (in ");
    out.append(text::decimal_u64(r.tokens.input).as_str());
    out.append(" / out ");
    out.append(text::decimal_u64(r.tokens.output).as_str());
    out.append(")\n- cost: $");
    out.append(r.cost_usd.to_dollars().as_str());
    out.append("\n- transcript: ");
    out.append(r.transcript_path.as_str());
    out.append("\n");
    assert(out@ =~= before + record_facts(*r));
}

fn push_summary(out: &mut String, s: &Option<String>)
    ensures
        final(out)@ == old(out)@ + summary_block(*s),
{
    let ghost before = out@;
    if let Some(t) = s {
        if !t.as_str().is_empty() {
            out.append("- summary:\n\n");
            let ghost lead = out@;
            let lines = text::lines_of(t.as_str());
            let ghost all = text::lines(t@);
            assert(lead + indented(all.take(0)) =~= lead);
            for i in 0..lines.len()
                invariant
                    all == text::views(lines@),
                    out@ == lead + indented(all.take(i as int)),
            {
                let ghost now = out@;
                out.append("    ");
                out.append(lines[i].as_str());
                out.append("\n");
                proof {
                    let more = all.take(i + 1);
                    assert(more.drop_last() =~= all.take(i as int));
                    assert(more.last() == lines@[i as int]@);
                    assert(out@ =~= lead + indented(more));
                }
            }
            assert(all.take(all.len() as int) =~= all);
            out.append("\n");
            assert(out@ =~= before + summary_block(*s));
            return ;
        }
    }
    out.append("- summary: (none)\n\n");
}

fn push_section(out: &mut String, r: &SessionRecord)
    requires
        printable(*r),
    ensures
        final(out)@ == old(out)@ + record_section(*r),
{
    let ghost before = out@;
    push_heading(out, r);
    push_times(out, r);
    push_facts(out, r);
    push_summary(out, &r.summary);
    proof {
        let (a, b, c, d) = (
            record_heading(*r),
            record_times(*r),
            record_facts(*r),
            summary_block(r.summary),
        );
        assert(before + a + b + c + d =~= before + (a + b + c + d));
    }
}

/// Render the markdown projection of `sessions.jsonl`.
pub fn render_sessions_md(records: &[SessionRecord]) -> (r: String)
    requires
        forall|i: int| 0 <= i < records@.len() ==> printable(#[trigger] records@[i]),
    ensures
        r@ == sessions_md(records@),
{
    let mut out = text::owned("# Sessions\n\n");
    if records.len() == 0 {
        out.append("_No sessions recorded yet._\n");
        return out;
    }
    let ghost lead = out@;
    assert(lead + sections(records@.take(0)) =~= lead);
    for i in 0..records.len()
        invariant
            forall|i: int| 0 <= i < records@.len() ==> printable(#[trigger] records@[i]),
            out@ == lead + sections(records@.take(i as int)),
    {
        push_section(&mut out, &records[i]);
        proof {
            let more = records@.take(i + 1);
            let done = sections(records@.take(i as int));
            let section = record_section(records@[i as int]);
            assert(more.drop_last() =~= records@.take(i as int));
            assert(more.last() == records@[i as int]);
            assert(lead + done + section =~= lead + (done + section));
        }
    }
    assert(records@.take(records@.len() as int) =~= records@);
    out
}

// ---------------------------------------------------------------------------
// The log
// ---------------------------------------------------------------------------

/// The log of a run: where its records and their projection lie.
#[derive(Debug, PartialEq, Eq)]
pub struct SessionLog {
    paths: RunPaths,
}

/// The lines of a log that hold a record, each with its 1-based number.
pub open spec fn record_lines(lines: Seq<Seq<char>>) -> Seq<(nat, Seq<char>)>
    decreases lines.len(),
{
    if lines.len() == 0 {
        Seq::empty()
    } else {
        let front = record_lines(lines.drop_last());
        if text::trim(lines.last()).len() == 0 {
            front
        } else {
            front.push((lines.len(), lines.last()))
        }
    }
}

/// The records of a log stand on its lines that are not blank: each such line is
/// given once, as it is and with its number counted from one, in the order of the
/// log, and no blank line is.
pub proof fn records_stand_on_lines_with_text(lines: Seq<Seq<char>>, i: int, a: int, b: int)
    ensures
        0 <= i < lines.len() ==> (record_lines(lines).contains(((i + 1) as nat, lines[i])) <==> text::trim(
            lines[i],
        ).len() > 0),
        0 <= a < b < record_lines(lines).len() ==> record_lines(lines)[a].0 < record_lines(
            lines,
        )[b].0,
        0 <= a < record_lines(lines).len() ==> {
            let r = record_lines(lines)[a];
            1 <= r.0 <= lines.len() && r.1 == lines[r.0 - 1] && text::trim(r.1).len() > 0
        },
    decreases lines.len(),
{
    if lines.len() > 0 {
        let front = lines.drop_last();
        let (all, less) = (record_lines(lines), record_lines(front));
        records_stand_on_lines_with_text(front, i, a, b);
        if 0 <= a < less.len() {
            assert(all[a] == less[a]);
        }
        if 0 <= b < less.len() {
            assert(all[b] == less[b]);
        }
        let n = lines.len() - 1;
        if 0 <= i < n {
            assert(front[i] == lines[i]);
            let r = ((i + 1) as nat, lines[i]);
            if less.contains(r) {
                let k = choose|k: int| 0 <= k < less.len() && less[k] == r;
                assert(all[k] == r);
            }
            if all.contains(r) {
                let k = choose|k: int| 0 <= k < all.len() && all[k] == r;
                assert(less[k] == r);
            }
        } else if i == n {
            let r = ((i + 1) as nat, lines[i]);
            if all.len() > less.len() {
                assert(all[less.len() as int] == r);
            }
            if all.contains(r) && all.len() == less.len() {
                let k = choose|k: int| 0 <= k < less.len() && less[k] == r;
                records_stand_on_lines_with_text(front, i, k, k);
            }
        }
    }
}

/// The numbers and the texts of a list of lines.
pub open spec fn line_views(lines: Seq<(usize, String)>) -> Seq<(nat, Seq<char>)> {
    lines.map_values(|l: (usize, String)| (l.0 as nat, l.1@))
}

impl SessionLog {
    /// The log of the run with the given paths.
    pub fn new(paths: RunPaths) -> (r: Self)
        ensures
            r.the_paths() == paths,
    {
        SessionLog { paths }
    }

    /// The paths of the run.
    pub closed spec fn the_paths(self) -> RunPaths {
        self.paths
    }

    /// Resolved paths for the run this log writes to.
    pub fn paths(&self) -> (r: &RunPaths)
        ensures
            *r == self.the_paths(),
    {
        &self.paths
    }

    /// The lines of `sessions.jsonl` that hold a record, with their 1-based
    /// numbers. Blank lines hold none.
    pub fn lines(raw: &str) -> (r: Vec<(usize, String)>)
        ensures
            line_views(r@) == record_lines(text::lines(raw@)),
    {
        let lines = text::lines_of(raw);
        let ghost all = text::lines(raw@);
        let mut out: Vec<(usize, String)> = Vec::new();
        for i in 0..lines.len()
            invariant
                all == text::views(lines@),
                line_views(out@) == record_lines(all.take(i as int)),
        {
            let ghost before = out@;
            proof {
                assert(all.take(i + 1).drop_last() =~= all.take(i as int));
                assert(all.take(i + 1).last() == lines@[i as int]@);
            }
            if !text::trimmed(lines[i].as_str()).as_str().is_empty() {
                out.push((i + 1, lines[i].clone()));
                assert(line_views(out@) =~= line_views(before).push(
                    ((i + 1) as nat, lines@[i as int]@),
                ));
            }
        }
        assert(all.take(all.len() as int) =~= all);
        out
    }
}

// ---------------------------------------------------------------------------
// The run directory
// ---------------------------------------------------------------------------

/// Read-only handle to the per-run scratchpad. The agent subprocess reads
/// and writes the file directly; pitboss never edits it from this side.
#[derive(Debug, PartialEq, Eq)]
pub struct Scratchpad {
    path: String,
}

impl Scratchpad {
    /// Build a handle pointing at `<run-root>/scratchpad.md`.
    pub fn new(path: String) -> (r: Self)
        ensures
            r.the_path() == path@,
    {
        Scratchpad { path }
    }

    /// The path of the file.
    pub closed spec fn the_path(self) -> Seq<char> {
        self.path@
    }

    /// Path the agent should be told to read or write. Pitboss exposes this
    /// to the agent via env var (`PITBOSS_SCRATCHPAD`).
    pub fn path_for_agent(&self) -> (r: &str)
        ensures
            r@ == self.the_path(),
    {
        self.path.as_str()
    }
}

/// Owning handle for an open run directory. Combines the resolved
/// [`RunPaths`], the [`SessionLog`], and the [`Scratchpad`] reader.
#[derive(Debug, PartialEq, Eq)]
pub struct RunDir {
    paths: RunPaths,
    log: SessionLog,
    scratchpad: Scratchpad,
}

/// What was found on disk of a run directory.
#[derive(Debug, Clone, Copy, PartialEq, Eq, Structural)]
pub struct RunDirProbe {
    /// `<root>` is a directory.
    pub root_is_dir: bool,
    /// `sessions.jsonl` exists.
    pub has_sessions_jsonl: bool,
    /// `sessions.md` exists.
    pub has_sessions_md: bool,
    /// `scratchpad.md` exists.
    pub has_scratchpad: bool,
    /// `transcripts/` is a directory.
    pub transcripts_is_dir: bool,
}

/// Why a run directory could not be created or opened.
#[derive(Debug, PartialEq, Eq)]
pub enum RunDirError {
    /// The directory to create is there already.
    AlreadyExists { root: String },
    /// The directory to open is not there.
    DoesNotExist { root: String },
    /// The directory lacks a file that every run has.
    MissingFile { root: String, file: String },
    /// The directory lacks `transcripts/`.
    MissingTranscripts { root: String },
}

/// The sentence that reports why a run directory could not be created or
/// opened.
pub open spec fn run_dir_message(e: RunDirError) -> Seq<char> {
    match e {
        RunDirError::AlreadyExists { root } => "grind run dir "@ + text::debug_text(root@)
            + " already exists"@,
        RunDirError::DoesNotExist { root } => "grind run dir "@ + text::debug_text(root@)
            + " does not exist"@,
        RunDirError::MissingFile { root, file } => "grind run dir "@ + text::debug_text(root@)
            + " is missing required file "@ + text::debug_text(file@),
        RunDirError::MissingTranscripts { root } => "grind run dir "@ + text::debug_text(root@)
            + " is missing transcripts/"@,
    }
}

/// The message of an error carries the directory, and of a missing file its path.
pub proof fn run_errors_carry_their_paths(e: RunDirError)
    ensures
        e matches RunDirError::AlreadyExists { root } ==> text::contains(
            run_dir_message(e),
            text::debug_text(root@),
        ),
        e matches RunDirError::DoesNotExist { root } ==> text::contains(
            run_dir_message(e),
            text::debug_text(root@),
        ),
        e matches RunDirError::MissingFile { root, file } ==> {
            &&& text::contains(run_dir_message(e), text::debug_text(root@))
            &&& text::contains(run_dir_message(e), text::debug_text(file@))
        },
        e matches RunDirError::MissingTranscripts { root } ==> text::contains(
            run_dir_message(e),
            text::debug_text(root@),
        ),
{
    let whole = run_dir_message(e);
    let head = "grind run dir "@;
    match e {
        RunDirError::AlreadyExists { root } => {
            text::parts_are_held(head, text::debug_text(root@), " already exists"@, whole);
        },
        RunDirError::DoesNotExist { root } => {
            text::parts_are_held(head, text::debug_text(root@), " does not exist"@, whole);
        },
        RunDirError::MissingFile { root, file } => {
            let dir = text::debug_text(root@);
            let name = text::debug_text(file@);
            let mid = " is missing required file "@;
            text::parts_are_held(head, dir, mid + name, whole);
            text::parts_are_held(head + dir + mid, name, Seq::empty(), whole);
        },
        RunDirError::MissingTranscripts { root } => {
            text::parts_are_held(
                head,
                text::debug_text(root@),
                " is missing transcripts/"@,
                whole,
            );
        },
    }
}

impl RunDirError {
    /// The error as a sentence.
    pub fn message(&self) -> (r: String)
        ensures
            r@ == run_dir_message(*self),
    {
        let mut out = text::owned("grind run dir ");
        match self {
            RunDirError::AlreadyExists { root } => {
                out.append(text::quoted(root.as_str()).as_str());
                out.append(" already exists");
            },
            RunDirError::DoesNotExist { root } => {
                out.append(text::quoted(root.as_str()).as_str());
                out.append(" does not exist");
            },
            RunDirError::MissingFile { root, file } => {
                out.append(text::quoted(root.as_str()).as_str());
                out.append(" is missing required file ");
                out.append(text::quoted(file.as_str()).as_str());
            },
            RunDirError::MissingTranscripts { root } => {
                out.append(text::quoted(root.as_str()).as_str());
                out.append(" is missing transcripts/");
            },
        }
        out
    }
}

impl RunDir {
    /// The paths of the run.
    pub closed spec fn the_paths(self) -> RunPaths {
        self.paths
    }

    /// The log of the run.
    pub closed spec fn the_log(self) -> SessionLog {
        self.log
    }

    /// The scratchpad of the run.
    pub closed spec fn the_scratchpad(self) -> Scratchpad {
        self.scratchpad
    }

    /// The parts of the handle belong to one run.
    pub open spec fn coherent(self) -> bool {
        &&& self.the_log().the_paths() == self.the_paths()
        &&& self.the_scratchpad().the_path() == self.the_paths().scratchpad@
    }

    /// The handle for a new run directory, `exists` saying whether the
    /// directory is there already. Runs are immutable once created, and a resume
    /// path goes through [`RunDir::open`].
    pub fn create(repo_root: &str, run_id: &str, exists: bool) -> (r: Result<Self, RunDirError>)
        ensures
            match r {
                Ok(dir) => {
                    &&& !exists
                    &&& laid_out(dir.the_paths(), run_root(repo_root@, run_id@))
                    &&& dir.coherent()
                },
                Err(RunDirError::AlreadyExists { root }) => exists && root@ == run_root(
                    repo_root@,
                    run_id@,
                ),
                Err(_) => false,
            },
    {
        let paths = RunPaths::for_run(repo_root, run_id);
        if exists {
            return Err(RunDirError::AlreadyExists { root: paths.root });
        }
        Ok(Self::from_paths(paths))
    }

    /// The handle for an existing run directory, `found` being what is on disk.
    /// Errors if the directory or any of the expected files are missing.
    pub fn open(repo_root: &str, run_id: &str, found: &RunDirProbe) -> (r: Result<
        Self,
        RunDirError,
    >)
        ensures
            match r {
                Ok(dir) => {
                    &&& found.root_is_dir && found.has_sessions_jsonl && found.has_sessions_md
                        && found.has_scratchpad && found.transcripts_is_dir
                    &&& laid_out(dir.the_paths(), run_root(repo_root@, run_id@))
                    &&& dir.coherent()
                },
                Err(e) => open_fault(e, *found, run_root(repo_root@, run_id@)),
            },
    {
        let paths = RunPaths::for_run(repo_root, run_id);
        if !found.root_is_dir {
            return Err(RunDirError::DoesNotExist { root: paths.root });
        }
        if !found.has_sessions_jsonl {
            return Err(RunDirError::MissingFile { root: paths.root, file: paths.sessions_jsonl });
        }
        if !found.has_sessions_md {
            return Err(RunDirError::MissingFile { root: paths.root, file: paths.sessions_md });
        }
        if !found.has_scratchpad {
            return Err(RunDirError::MissingFile { root: paths.root, file: paths.scratchpad });
        }
        if !found.transcripts_is_dir {
            return Err(RunDirError::MissingTranscripts { root: paths.root });
        }
        Ok(Self::from_paths(paths))
    }

    /// The handle for the run with the given paths.
    pub fn from_paths(paths: RunPaths) -> (r: Self)
        ensures
            r.the_paths() == paths,
            r.coherent(),
    {
        let log = SessionLog::new(paths.copy());
        let scratchpad = Scratchpad::new(paths.scratchpad.clone());
        RunDir { paths, log, scratchpad }
    }

    /// Resolved on-disk paths for this run.
    pub fn paths(&self) -> (r: &RunPaths)
        ensures
            *r == self.the_paths(),
    {
        &self.paths
    }

    /// The append-only session log.
    pub fn log(&self) -> (r: &SessionLog)
        ensures
            *r == self.the_log(),
    {
        &self.log
    }

    /// The agent-facing scratchpad handle.
    pub fn scratchpad(&self) -> (r: &Scratchpad)
        ensures
            *r == self.the_scratchpad(),
    {
        &self.scratchpad
    }
}

/// `e` is the first thing that `found` lacks.
pub open spec fn open_fault(e: RunDirError, found: RunDirProbe, dir: Seq<char>) -> bool {
    if !found.root_is_dir {
        e matches RunDirError::DoesNotExist { root } && root@ == dir
    } else if !found.has_sessions_jsonl {
        e matches RunDirError::MissingFile { root, file } && root@ == dir && file@ == paths::joined(
            dir,
            SESSIONS_JSONL@,
        )
    } else if !found.has_sessions_md {
        e matches RunDirError::MissingFile { root, file } && root@ == dir && file@ == paths::joined(
            dir,
            SESSIONS_MD@,
        )
    } else if !found.has_scratchpad {
        e matches RunDirError::MissingFile { root, file } && root@ == dir && file@ == paths::joined(
            dir,
            SCRATCHPAD_MD@,
        )
    } else {
        &&& !found.transcripts_is_dir
        &&& e matches RunDirError::MissingTranscripts { root } && root@ == dir
    }
}

/// What is missing first is what the error names: the directory itself, then the two
/// logs, the scratchpad and the transcripts, each with the directory.
pub proof fn the_first_missing_thing_is_named(e: RunDirError, found: RunDirProbe, dir: Seq<char>)
    requires
        open_fault(e, found, dir),
    ensures
        e is DoesNotExist <==> !found.root_is_dir,
        e is MissingTranscripts ==> {
            &&& found.root_is_dir && found.has_sessions_jsonl && found.has_sessions_md
            &&& found.has_scratchpad && !found.transcripts_is_dir
        },
        e matches RunDirError::MissingFile { root, file } ==> {
            &&& found.root_is_dir && root@ == dir && dir.is_prefix_of(file@)
            &&& !found.has_sessions_jsonl ==> text::contains(file@, "sessions.jsonl"@)
            &&& found.has_sessions_jsonl && !found.has_sessions_md ==> text::contains(
                file@,
                "sessions.md"@,
            )
            &&& found.has_sessions_jsonl && found.has_sessions_md ==> !found.has_scratchpad
                && text::contains(file@, "scratchpad.md"@)
        },
        e matches RunDirError::DoesNotExist { root } ==> root@ == dir,
        e matches RunDirError::MissingTranscripts { root } ==> root@ == dir,
        !(e is AlreadyExists),
{
    reveal_strlit("sessions.jsonl");
    reveal_strlit("sessions.md");
    reveal_strlit("scratchpad.md");
    paths::joining_shows_both(dir, "sessions.jsonl"@, dir);
    paths::joining_shows_both(dir, "sessions.md"@, dir);
    paths::joining_shows_both(dir, "scratchpad.md"@, dir);
}

// ---------------------------------------------------------------------------
// Run ids
// ---------------------------------------------------------------------------

/// Hands out run ids. The counter is seeded by the first call with the low 16
/// bits of the nanosecond clock, so the suffix is unpredictable across
/// processes; later calls simply count on.
#[derive(Debug, Clone, Copy, PartialEq, Eq, Structural)]
pub struct RunIds {
    counter: u32,
}

/// The suffix that is handed out when the counter stands at `counter`.
pub open spec fn suffix_of(counter: int, nanos: int) -> int {
    if counter == 0 {
        nanos % 65536
    } else {
        counter % 65536
    }
}

/// Where the counter stands after that.
pub open spec fn counter_after(counter: int, nanos: int) -> int {
    if counter == 0 {
        nanos % 65536 + 1
    } else {
        (counter + 1) % 0x1_0000_0000
    }
}

/// `n`, which is below 65536, in four lowercase hexadecimal digits.
pub open spec fn hex4(n: int) -> Seq<char> {
    seq![
        crate::plan::snapshot::hex_digit(n / 4096),
        crate::plan::snapshot::hex_digit(n / 256 % 16),
        crate::plan::snapshot::hex_digit(n / 16 % 16),
        crate::plan::snapshot::hex_digit(n % 16),
    ]
}

/// The run id for an instant and a suffix, e.g. `20260430T180522Z-1a2b`.
pub open spec fn run_id_text(now: Timestamp, suffix: int) -> Seq<char> {
    now.compact() + "-"@ + hex4(suffix)
}

/// A run id starts with the instant and ends with four hexadecimal digits.
pub proof fn run_ids_start_with_the_instant(now: Timestamp, suffix: int)
    ensures
        now.compact().is_prefix_of(run_id_text(now, suffix)),
        run_id_text(now, suffix).len() == now.compact().len() + 5,
        run_id_text(now, suffix)[now.compact().len() as int] == '-',
        run_id_text(now, suffix).skip(now.compact().len() as int + 1) == hex4(suffix),
{
    reveal_strlit("-");
    assert(run_id_text(now, suffix).skip(now.compact().len() as int + 1) =~= hex4(suffix));
}

proof fn hex_digit_injective(x: int, y: int)
    requires
        0 <= x < 16,
        0 <= y < 16,
        crate::plan::snapshot::hex_digit(x) == crate::plan::snapshot::hex_digit(y),
    ensures
        x == y,
{
}

proof fn nibbles(n: int)
    requires
        0 <= n < 65536,
    ensures
        0 <= n / 4096 < 16,
        n == 4096 * (n / 4096) + 256 * (n / 256 % 16) + 16 * (n / 16 % 16) + n % 16,
{
    assert(n == 16 * (n / 16) + n % 16);
    assert(n / 16 == 16 * (n / 256) + n / 16 % 16);
    assert(n / 256 == 16 * (n / 4096) + n / 256 % 16);
}

/// How run ids are counted: the first takes its suffix from the clock, the low
/// sixteen bits of it, and each later one is the next of the one before, whatever
/// the clock says; behind the last suffix comes the first.
pub proof fn suffixes_count_on(counter: int, nanos: int)
    requires
        0 <= nanos,
        0 <= counter < 0xffff_ffff,
    ensures
        suffix_of(0, nanos) == nanos % 65536,
        suffix_of(counter_after(0, nanos), 0) == (suffix_of(0, nanos) + 1) % 65536,
        counter > 0 ==> suffix_of(counter, nanos) == counter % 65536,
        counter > 0 ==> suffix_of(counter_after(counter, nanos), nanos) == (suffix_of(
            counter,
            nanos,
        ) + 1) % 65536,
        0 <= suffix_of(counter, nanos) < 65536,
{
}

/// Two suffixes that differ have different hexadecimal texts.
pub proof fn hex4_injective(a: int, b: int)
    requires
        0 <= a < 65536,
        0 <= b < 65536,
        hex4(a) == hex4(b),
    ensures
        a == b,
{
    let (s, t) = (hex4(a), hex4(b));
    nibbles(a);
    nibbles(b);
    assert(s[0] == t[0] && s[1] == t[1] && s[2] == t[2] && s[3] == t[3]);
    hex_digit_injective(a / 4096, b / 4096);
    hex_digit_injective(a / 256 % 16, b / 256 % 16);
    hex_digit_injective(a / 16 % 16, b / 16 % 16);
    hex_digit_injective(a % 16, b % 16);
}

/// Where the counter stands `n` calls after it stood at `counter`, which was
/// not zero.
pub open spec fn counter_after_calls(counter: int, n: nat) -> int
    decreases n,
{
    if n == 0 {
        counter
    } else {
        counter_after(counter_after_calls(counter, (n - 1) as nat), 0)
    }
}

proof fn counter_counts(counter: int, n: nat)
    requires
        0 < counter,
        counter + n < 0x1_0000_0000,
    ensures
        counter_after_calls(counter, n) == counter + n,
    decreases n,
{
    if n > 0 {
        counter_counts(counter, (n - 1) as nat);
    }
}

/// Ids handed out in one process differ: of any 65536 calls in a row no two
/// have the same suffix, whatever the clock says. Left out are the calls at
/// which the 32-bit counter wraps around to be seeded again.
pub proof fn suffixes_do_not_repeat(counter: int, i: nat, j: nat)
    requires
        0 < counter,
        i < j < i + 65536,
        counter + j < 0x1_0000_0000,
    ensures
        suffix_of(counter_after_calls(counter, i), 0) != suffix_of(
            counter_after_calls(counter, j),
            0,
        ),
{
    counter_counts(counter, i);
    counter_counts(counter, j);
}

/// The id that seeds the counter differs from those after it: none of the 65535
/// calls that follow has its suffix, whatever the clock said.
pub proof fn seed_does_not_repeat(nanos: int, j: nat)
    requires
        0 <= nanos,
        j < 65535,
    ensures
        suffix_of(0, nanos) != suffix_of(counter_after_calls(counter_after(0, nanos), j), 0),
{
    counter_counts(counter_after(0, nanos), j);
}

impl RunIds {
    /// A counter that has not been seeded.
    pub fn new() -> (r: Self)
        ensures
            r.position() == 0,
    {
        RunIds { counter: 0 }
    }

    /// Where the counter stands.
    pub closed spec fn position(self) -> int {
        self.counter as int
    }

    /// Generate a fresh run id of the form `<utc-timestamp>-<4-hex>` for the
    /// instant that the system clock shows.
    pub fn generate_run_id(&mut self) -> (r: String)
        ensures
            exists|now: Timestamp|
                now.seconds() >= 0 && r@ == #[trigger] run_id_text(
                    now,
                    suffix_of(old(self).position(), now.nanoseconds()),
                ) && final(self).position() == counter_after(
                    old(self).position(),
                    now.nanoseconds(),
                ),
    {
        self.run_id_at(Timestamp::now())
    }

    /// Generate a fresh run id of the form `<utc-timestamp>-<4-hex>` for the
    /// instant `now`.
    pub fn run_id_at(&mut self, now: Timestamp) -> (r: String)
        ensures
            r@ == run_id_text(now, suffix_of(old(self).position(), now.nanoseconds())),
            final(self).position() == counter_after(old(self).position(), now.nanoseconds()),
    {
        let raw: u32 = self.counter;
        let suffix: u32 = if raw == 0 {
            let seed: u32 = now.subsec_nanos() % 65536;
            self.counter = seed + 1;
            seed
        } else {
            self.counter = if raw == u32::MAX {
                0
            } else {
                raw + 1
            };
            raw % 65536
        };
        let mut out = now.to_compact();
        out.append("-");
        out.push(hex_char(suffix / 4096));
        out.push(hex_char(suffix / 256 % 16));
        out.push(hex_char(suffix / 16 % 16));
        out.push(hex_char(suffix % 16));
        assert(out@ =~= run_id_text(now, suffix as int));
        out
    }
}

fn hex_char(d: u32) -> (r: char)
    requires
        d < 16,
    ensures
        r == crate::plan::snapshot::hex_digit(d as int),
{
    if d < 10 {
        (48 + d as u8) as char
    } else {
        (87 + d as u8) as char
    }
}

} // verus!
