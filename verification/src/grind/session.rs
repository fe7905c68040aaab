//! One dispatched grind session.
//!
//! A session runs its pre-session hook, dispatches the agent, reads the
//! summary the agent left, verifies, lands its changes, tears its worktree
//! down, and runs its closing hooks. All of that work is the caller's:
//! [`SessionTask`] says what is due and takes in what came of it.

use vstd::prelude::*;
use vstd::string::StringExecFns;

use super::budget::ModelPricing;
use super::events;
use super::events::{GrindEvent, GrindEventModel};
use super::hooks;
use super::hooks::{HookKind, HookOutcome};
use super::plan::Hooks;
use super::prompt::PromptDoc;
use super::run_dir::{SessionRecord, SessionStatus};
use super::verify;
use super::verify::{VerifyOutcome, VerifyOutcomeModel};
use super::worktree;
use super::worktree::MergeOutcome;
use crate::agent::{AgentRequest, Role, StopModel, StopReason};
use crate::money;
use crate::money::Usd;
use crate::paths;
use crate::state;
use crate::state::{TokenUsage, UsageModel};
use crate::table;
use crate::table::Table;
use crate::text;
use crate::time::Timestamp;

verus! {

/// Default per-session wall-clock cap in seconds, applied when the prompt
/// frontmatter leaves `max_session_seconds` unset.
pub const DEFAULT_SESSION_TIMEOUT: u64 = 1800;

/// The wall-clock cap of a prompt's sessions in seconds.
pub open spec fn timeout_of(prompt: PromptDoc) -> u64 {
    match prompt.meta.max_session_seconds {
        Some(n) => n,
        None => DEFAULT_SESSION_TIMEOUT,
    }
}

/// The wall-clock cap of a prompt's sessions in seconds.
pub fn session_timeout(prompt: &PromptDoc) -> (r: u64)
    ensures
        r == timeout_of(*prompt),
{
    match prompt.meta.max_session_seconds {
        Some(n) => n,
        None => DEFAULT_SESSION_TIMEOUT,
    }
}

// ---------------------------------------------------------------------------
// The environment of a session
// ---------------------------------------------------------------------------

/// The variables that the agent of a session sees.
pub open spec fn base_env(
    run_id: Seq<char>,
    prompt_name: Seq<char>,
    summary_path: Seq<char>,
    seq: u32,
    workspace: Seq<char>,
    scratchpad_path: Seq<char>,
    workdir: Seq<char>,
    parallel: bool,
) -> Map<Seq<char>, Seq<char>> {
    let env = Map::empty().insert("PITBOSS_RUN_ID"@, run_id).insert(
        "PITBOSS_PROMPT_NAME"@,
        prompt_name,
    ).insert("PITBOSS_SUMMARY_FILE"@, summary_path).insert(
        "PITBOSS_SESSION_SEQ"@,
        text::decimal(seq as nat),
    ).insert("PITBOSS_SKIP_FILE"@, paths::joined(workspace, ".pitboss/skip"@)).insert(
        "PITBOSS_SCRATCHPAD"@,
        scratchpad_path,
    ).insert("PITBOSS_WORKTREE"@, workdir);
    if parallel {
        env.insert("CARGO_TARGET_DIR"@, paths::joined(workspace, "target"@))
    } else {
        env
    }
}

/// What the agent of a session finds in its environment: the run, the prompt, the
/// number of the session and its own paths, each under its own name. A session in
/// a worktree of its own is pointed at the target directory of the workspace, and
/// no other is. There is nothing else.
pub proof fn agents_find_their_session(
    run_id: Seq<char>,
    prompt_name: Seq<char>,
    summary_path: Seq<char>,
    seq: u32,
    workspace: Seq<char>,
    scratchpad_path: Seq<char>,
    workdir: Seq<char>,
    parallel: bool,
    key: Seq<char>,
)
    ensures
        ({
            let env = base_env(
                run_id,
                prompt_name,
                summary_path,
                seq,
                workspace,
                scratchpad_path,
                workdir,
                parallel,
            );
            &&& env.contains_key("PITBOSS_RUN_ID"@) && env["PITBOSS_RUN_ID"@] == run_id
            &&& env.contains_key("PITBOSS_PROMPT_NAME"@) && env["PITBOSS_PROMPT_NAME"@]
                == prompt_name
            &&& env.contains_key("PITBOSS_SUMMARY_FILE"@) && env["PITBOSS_SUMMARY_FILE"@]
                == summary_path
            &&& env.contains_key("PITBOSS_SESSION_SEQ"@) && env["PITBOSS_SESSION_SEQ"@]
                == text::decimal(seq as nat)
            &&& env.contains_key("PITBOSS_SKIP_FILE"@) && env["PITBOSS_SKIP_FILE"@]
                == paths::joined(workspace, ".pitboss/skip"@)
            &&& env.contains_key("PITBOSS_SCRATCHPAD"@) && env["PITBOSS_SCRATCHPAD"@]
                == scratchpad_path
            &&& env.contains_key("PITBOSS_WORKTREE"@) && env["PITBOSS_WORKTREE"@] == workdir
            &&& env.contains_key("CARGO_TARGET_DIR"@) <==> parallel
            &&& parallel ==> env["CARGO_TARGET_DIR"@] == paths::joined(workspace, "target"@)
            &&& env.contains_key(key) ==> key == "PITBOSS_RUN_ID"@ || key == "PITBOSS_PROMPT_NAME"@
                || key == "PITBOSS_SUMMARY_FILE"@ || key == "PITBOSS_SESSION_SEQ"@ || key
                == "PITBOSS_SKIP_FILE"@ || key == "PITBOSS_SCRATCHPAD"@ || key
                == "PITBOSS_WORKTREE"@ || key == "CARGO_TARGET_DIR"@
        }),
{
    reveal_strlit("PITBOSS_RUN_ID");
    reveal_strlit("PITBOSS_PROMPT_NAME");
    reveal_strlit("PITBOSS_SUMMARY_FILE");
    reveal_strlit("PITBOSS_SESSION_SEQ");
    reveal_strlit("PITBOSS_SKIP_FILE");
    reveal_strlit("PITBOSS_SCRATCHPAD");
    reveal_strlit("PITBOSS_WORKTREE");
    reveal_strlit("CARGO_TARGET_DIR");
    assert("PITBOSS_RUN_ID"@.len() == 14 && "PITBOSS_PROMPT_NAME"@.len() == 19);
    assert("PITBOSS_SUMMARY_FILE"@.len() == 20 && "PITBOSS_SESSION_SEQ"@.len() == 19);
    assert("PITBOSS_PROMPT_NAME"@[8] == 'P' && "PITBOSS_SESSION_SEQ"@[8] == 'S');
    assert("PITBOSS_SKIP_FILE"@.len() == 17 && "PITBOSS_SCRATCHPAD"@.len() == 18);
    assert("PITBOSS_WORKTREE"@.len() == 16 && "CARGO_TARGET_DIR"@.len() == 16);
    assert("PITBOSS_WORKTREE"@[0] == 'P' && "CARGO_TARGET_DIR"@[0] == 'C');
}

fn put(env: &mut Table<String>, key: &str, value: String)
    ensures
        hooks::text_map(final(env)@) == hooks::text_map(old(env)@).insert(key@, value@),
{
    let ghost before = env@;
    env.insert(key, value);
    assert(hooks::text_map(env@) =~= hooks::text_map(before).insert(key@, value@));
}

/// The variables that the agent of a session sees.
///
/// A parallel session works in a worktree: its cargo is pointed at the main
/// workspace's `target/` so its invocations share the incremental cache
/// instead of paying a full rebuild. Sequential sessions already run in the
/// main workspace so the override would be a no-op.
pub fn session_env(
    run_id: &str,
    prompt_name: &str,
    summary_path: &str,
    seq: u32,
    workspace: &str,
    scratchpad_path: &str,
    workdir: &str,
    parallel: bool,
) -> (r: Table<String>)
    ensures
        hooks::text_map(r@) == base_env(
            run_id@,
            prompt_name@,
            summary_path@,
            seq,
            workspace@,
            scratchpad_path@,
            workdir@,
            parallel,
        ),
{
    let mut env: Table<String> = Table::new();
    assert(hooks::text_map(env@) =~= Map::<Seq<char>, Seq<char>>::empty());
    put(&mut env, "PITBOSS_RUN_ID", text::owned(run_id));
    put(&mut env, "PITBOSS_PROMPT_NAME", text::owned(prompt_name));
    put(&mut env, "PITBOSS_SUMMARY_FILE", text::owned(summary_path));
    put(&mut env, "PITBOSS_SESSION_SEQ", text::decimal_u32(seq));
    put(&mut env, "PITBOSS_SKIP_FILE", paths::join(workspace, ".pitboss/skip"));
    put(&mut env, "PITBOSS_SCRATCHPAD", text::owned(scratchpad_path));
    put(&mut env, "PITBOSS_WORKTREE", text::owned(workdir));
    if parallel {
        put(&mut env, "CARGO_TARGET_DIR", paths::join(workspace, "target"));
    }
    env
}

/// The variables that the pre-session hook sees.
pub fn pre_hook_env(env: &Table<String>, prompt_name: &str) -> (r: Table<String>)
    ensures
        hooks::text_map(r@) == hooks::text_map(env@).insert(
            "PITBOSS_SESSION_PROMPT"@,
            prompt_name@,
        ),
{
    let mut out = table::copy_texts(env);
    put(&mut out, "PITBOSS_SESSION_PROMPT", text::owned(prompt_name));
    out
}

/// The variables that the closing hooks see.
pub fn closing_hook_env(
    env: &Table<String>,
    prompt_name: &str,
    status: SessionStatus,
    summary: &str,
) -> (r: Table<String>)
    ensures
        hooks::text_map(r@) == hooks::text_map(env@).insert(
            "PITBOSS_SESSION_PROMPT"@,
            prompt_name@,
        ).insert("PITBOSS_SESSION_STATUS"@, super::run_dir::status_text(status)).insert(
            "PITBOSS_SESSION_SUMMARY"@,
            summary@,
        ),
{
    let mut out = table::copy_texts(env);
    put(&mut out, "PITBOSS_SESSION_PROMPT", text::owned(prompt_name));
    put(&mut out, "PITBOSS_SESSION_STATUS", text::owned(status.as_str()));
    put(&mut out, "PITBOSS_SESSION_SUMMARY", text::owned(summary));
    out
}

/// The agent dispatch of a session. `user_prompt` is what
/// [`compose_user_prompt`](super::run::compose_user_prompt) gave.
pub fn session_request(
    model: &str,
    user_prompt: String,
    workdir: &str,
    transcript: &str,
    prompt: &PromptDoc,
    env: &Table<String>,
) -> (r: AgentRequest)
    ensures
        r.role == Role::Implementer,
        r.model@ == model@,
        r.system_prompt@.len() == 0,
        r.user_prompt == user_prompt,
        r.workdir@ == workdir@,
        r.log_path@ == transcript@,
        r.timeout_secs == timeout_of(*prompt),
        r.env@ == env@,
{
    AgentRequest {
        role: Role::Implementer,
        model: text::owned(model),
        system_prompt: String::new(),
        user_prompt,
        workdir: text::owned(workdir),
        log_path: text::owned(transcript),
        timeout_secs: session_timeout(prompt),
        env: table::copy_texts(env),
    }
}

/// The fixer dispatch of a session whose test run failed, for the attempt
/// `attempt`.
pub fn fixer_request(
    model: &str,
    workdir: &str,
    transcript: &str,
    attempt: u32,
    failure: &str,
    prompt: &PromptDoc,
    env: &Table<String>,
) -> (r: AgentRequest)
    ensures
        r.role == Role::Fixer,
        r.model@ == model@,
        r.system_prompt@.len() == 0,
        r.user_prompt@ == verify::fixer_prompt_text(prompt.meta.name@, prompt.body@, failure@),
        r.workdir@ == workdir@,
        r.log_path@ == paths::with_extension_text(
            transcript@,
            verify::attempt_extension("fix"@, attempt),
        ),
        r.timeout_secs == timeout_of(*prompt),
        r.env@ == env@,
{
    AgentRequest {
        role: Role::Fixer,
        model: text::owned(model),
        system_prompt: String::new(),
        user_prompt: verify::render_grind_fixer_prompt(
            prompt.meta.name.as_str(),
            prompt.body.as_str(),
            failure,
        ),
        workdir: text::owned(workdir),
        log_path: verify::fixer_log(transcript, attempt),
        timeout_secs: session_timeout(prompt),
        env: table::copy_texts(env),
    }
}

// ---------------------------------------------------------------------------
// The summary
// ---------------------------------------------------------------------------

/// The summary that the text of the summary file gives.
pub open spec fn summary_of(file: Option<Seq<char>>) -> Seq<char> {
    match file {
        Some(s) if text::trim(s).len() > 0 => text::trim(s),
        _ => "(no summary provided)"@,
    }
}

/// A summary with text is taken without its surrounding space; a blank one, or none,
/// is reported as missing.
pub proof fn only_a_summary_with_text_is_taken(s: Seq<char>)
    ensures
        summary_of(None) == "(no summary provided)"@,
        text::trim(s).len() == 0 ==> summary_of(Some(s)) == "(no summary provided)"@,
        text::trim(s).len() > 0 ==> summary_of(Some(s)) == text::trim(s),
{
}

/// The summary that the text of `$PITBOSS_SUMMARY_FILE` gives; `file` is
/// `None` where it could not be read. A missing or blank file falls back to a
/// fixed line.
pub fn read_summary_or_fallback(file: Option<&str>) -> (r: String)
    ensures
        r@ == summary_of(
            match file {
                Some(s) => Some(s@),
                None => None,
            },
        ),
{
    match file {
        Some(s) => {
            let trimmed = text::trimmed(s);
            if trimmed.as_str().is_empty() {
                text::owned("(no summary provided)")
            } else {
                trimmed
            }
        },
        None => text::owned("(no summary provided)"),
    }
}

// ---------------------------------------------------------------------------
// The session
// ---------------------------------------------------------------------------

/// What a session waits for.
#[derive(Debug, Clone, Copy, PartialEq, Eq, Structural)]
pub enum SessionStep {
    /// The pre-session hook.
    PreHook,
    /// The agent dispatch.
    Dispatch,
    /// Reading the summary file.
    ReadSummary,
    /// The verify cycle.
    Verify,
    /// The merge dance of a parallel session.
    Merge,
    /// Committing a sequential session's changes.
    Commit,
    /// Stashing what a sequential session left behind.
    Stash,
    /// Folding a parallel session's scratchpad view back.
    Scratchpad,
    /// Dropping or quarantining a parallel session's worktree.
    Teardown,
    /// The post-session hook.
    PostHook,
    /// The failure hook.
    FailureHook,
    /// Nothing is left to do.
    Done,
}

/// What came of a step of a session.
#[derive(Debug, PartialEq, Eq)]
pub enum SessionEvent {
    /// A hook resolved at the moment `now`.
    HookRan {
        /// How it resolved.
        outcome: HookOutcome,
        /// When.
        now: Timestamp,
    },
    /// The agent's dispatch ended at the moment `now`.
    Dispatched {
        /// Why it ended.
        stop: StopReason,
        /// What it consumed.
        tokens: TokenUsage,
        /// Whether this session was asked to be skipped.
        skipped: bool,
        /// When.
        now: Timestamp,
    },
    /// The wall-clock cap of the session fired at the moment `now`.
    TimedOut {
        /// When.
        now: Timestamp,
    },
    /// The summary file was read; `None` where it could not be.
    SummaryRead(Option<String>),
    /// The verify cycle ended.
    Verified(VerifyOutcome),
    /// The merge dance ended.
    Merged(MergeOutcome),
    /// A commit was made, or there was nothing to commit.
    Committed(Option<String>),
    /// Edits were stashed, or there were none; or the stash failed.
    Stashed(Result<bool, String>),
    /// The scratchpad was folded back.
    ScratchpadMerged,
    /// The worktree was torn down.
    TornDown,
}

/// A [`SessionEvent`] as a mathematical value.
pub enum SessionEventModel {
    HookRan { success: bool, description: Seq<char>, now: Timestamp },
    Dispatched { stop: StopModel, tokens: UsageModel, skipped: bool, now: Timestamp },
    TimedOut { now: Timestamp },
    SummaryRead(Option<Seq<char>>),
    Verified(VerifyOutcomeModel),
    Merged { status: SessionStatus, summary: Seq<char>, commit: Option<Seq<char>> },
    Committed(Option<Seq<char>>),
    Stashed(Result<bool, Seq<char>>),
    ScratchpadMerged,
    TornDown,
}

impl View for SessionEvent {
    type V = SessionEventModel;

    open spec fn view(&self) -> SessionEventModel {
        match self {
            SessionEvent::HookRan { outcome, now } => SessionEventModel::HookRan {
                success: *outcome is Success,
                description: hooks::outcome_text(*outcome),
                now: *now,
            },
            SessionEvent::Dispatched { stop, tokens, skipped, now } =>
                SessionEventModel::Dispatched {
                stop: stop@,
                tokens: tokens@,
                skipped: *skipped,
                now: *now,
            },
            SessionEvent::TimedOut { now } => SessionEventModel::TimedOut { now: *now },
            SessionEvent::SummaryRead(file) => SessionEventModel::SummaryRead(text::view_of(*file)),
            SessionEvent::Verified(v) => SessionEventModel::Verified(v@),
            SessionEvent::Merged(o) => SessionEventModel::Merged {
                status: o.status,
                summary: o.summary@,
                commit: text::view_of(o.commit),
            },
            SessionEvent::Committed(id) => SessionEventModel::Committed(text::view_of(*id)),
            SessionEvent::Stashed(r) => SessionEventModel::Stashed(
                match r {
                    Ok(any) => Ok(*any),
                    Err(e) => Err(e@),
                },
            ),
            SessionEvent::ScratchpadMerged => SessionEventModel::ScratchpadMerged,
            SessionEvent::TornDown => SessionEventModel::TornDown,
        }
    }
}

/// What a session knows from its start.
pub struct SessionFacts {
    pub seq: u32,
    pub run_id: Seq<char>,
    pub prompt_name: Seq<char>,
    pub verify: bool,
    pub parallel: bool,
    pub timeout_secs: u64,
    pub cost_cap: Option<Usd>,
    pub has_pre_hook: bool,
    pub has_post_hook: bool,
    pub has_failure_hook: bool,
    pub price: Option<ModelPricing>,
    pub started_at: Timestamp,
}

/// Where a session stands.
#[verifier::ext_equal]
pub struct SessionModel {
    pub at: SessionStep,
    pub status: SessionStatus,
    pub summary: Seq<char>,
    pub commit: Option<Seq<char>>,
    pub tokens: UsageModel,
    pub cost: Usd,
    pub ended_at: Timestamp,
}

/// The start of a session.
pub open spec fn session_start(f: SessionFacts) -> SessionModel {
    SessionModel {
        at: if f.has_pre_hook {
            SessionStep::PreHook
        } else {
            SessionStep::Dispatch
        },
        status: SessionStatus::Okay,
        summary: Seq::empty(),
        commit: None,
        tokens: state::no_usage(),
        cost: Usd { pico: 0 },
        ended_at: f.started_at,
    }
}

/// The step of the failure hook, if it is due.
pub open spec fn after_post_hook(f: SessionFacts, status: SessionStatus) -> SessionStep {
    if status != SessionStatus::Okay && f.has_failure_hook {
        SessionStep::FailureHook
    } else {
        SessionStep::Done
    }
}

/// The first closing step of a session that resolved as `status`: the
/// post-session hook runs regardless of it, and the failure hook for every
/// status but `Okay`.
pub open spec fn closing_step(f: SessionFacts, status: SessionStatus) -> SessionStep {
    if f.has_post_hook {
        SessionStep::PostHook
    } else {
        after_post_hook(f, status)
    }
}

/// The step after the work of a session: a parallel one has its worktree to
/// tear down.
pub open spec fn after_work(f: SessionFacts, status: SessionStatus) -> SessionStep {
    if f.parallel {
        SessionStep::Scratchpad
    } else {
        closing_step(f, status)
    }
}

/// The step that lands a session's changes.
pub open spec fn landing_step(f: SessionFacts, status: SessionStatus) -> SessionStep {
    if f.parallel {
        SessionStep::Merge
    } else if status == SessionStatus::Okay || status == SessionStatus::Error || status
        == SessionStatus::Skipped {
        SessionStep::Commit
    } else {
        SessionStep::Stash
    }
}

/// The step after a session's summary is known.
pub open spec fn after_summary(f: SessionFacts, status: SessionStatus) -> SessionStep {
    if status == SessionStatus::Okay && f.verify {
        SessionStep::Verify
    } else {
        landing_step(f, status)
    }
}

/// The status that the end of the agent's dispatch gives.
pub open spec fn dispatch_status(stop: StopModel, skipped: bool) -> SessionStatus {
    match stop {
        StopModel::Completed => SessionStatus::Okay,
        StopModel::Timeout => SessionStatus::Timeout,
        StopModel::Cancelled => if skipped {
            SessionStatus::Skipped
        } else {
            SessionStatus::Aborted
        },
        StopModel::Error(_) => SessionStatus::Error,
    }
}

/// A session that completed at the cost `cost` went over its cost cap.
pub open spec fn over_cap(f: SessionFacts, status: SessionStatus, cost: Usd) -> bool {
    status == SessionStatus::Okay && (f.cost_cap matches Some(cap) && cost.pico > cap.pico)
}

/// The summary of a session that went over its cost cap.
pub open spec fn over_cap_text(cost: Usd, cap: Usd) -> Seq<char> {
    "session exceeded max_session_cost_usd: $"@ + money::dollars_text(cost.pico as int) + " > $"@
        + money::dollars_text(cap.pico as int)
}

/// The session after the agent's dispatch.
pub open spec fn session_dispatched(
    f: SessionFacts,
    m: SessionModel,
    stop: StopModel,
    tokens: UsageModel,
    skipped: bool,
    now: Timestamp,
) -> SessionModel {
    let status = dispatch_status(stop, skipped);
    let cost = verify::priced(f.price, tokens.input, tokens.output);
    if over_cap(f, status, cost) {
        SessionModel {
            at: after_summary(f, SessionStatus::Error),
            status: SessionStatus::Error,
            summary: over_cap_text(cost, f.cost_cap->0),
            commit: m.commit,
            tokens,
            cost,
            ended_at: now,
        }
    } else {
        SessionModel {
            at: SessionStep::ReadSummary,
            status,
            summary: m.summary,
            commit: m.commit,
            tokens,
            cost,
            ended_at: now,
        }
    }
}

/// The session after the event `e`. An event that is not due changes nothing.
pub open spec fn session_next(f: SessionFacts, m: SessionModel, e: SessionEventModel) ->
    SessionModel {
    match (m.at, e) {
        (SessionStep::PreHook, SessionEventModel::HookRan { success, description, now }) =>
            if success {
            SessionModel { at: SessionStep::Dispatch, ..m }
        } else {
            SessionModel {
                at: after_work(f, SessionStatus::Error),
                status: SessionStatus::Error,
                summary: "pre_session hook "@ + description,
                ended_at: now,
                ..m
            }
        },
        (
            SessionStep::Dispatch,
            SessionEventModel::Dispatched { stop, tokens, skipped, now },
        ) => session_dispatched(f, m, stop, tokens, skipped, now),
        (SessionStep::Dispatch, SessionEventModel::TimedOut { now }) => SessionModel {
            at: after_summary(f, SessionStatus::Timeout),
            status: SessionStatus::Timeout,
            summary: "session exceeded max_session_seconds ("@ + text::decimal(
                f.timeout_secs as nat,
            ) + "s)"@,
            ended_at: now,
            ..m
        },
        (SessionStep::ReadSummary, SessionEventModel::SummaryRead(file)) => SessionModel {
            at: after_summary(f, m.status),
            summary: summary_of(file),
            ..m
        },
        (SessionStep::Verify, SessionEventModel::Verified(v)) => SessionModel {
            at: landing_step(f, v.status),
            status: v.status,
            summary: match v.summary_override {
                Some(s) => s,
                None => m.summary,
            },
            tokens: state::usage_total(m.tokens, v.extra_tokens),
            cost: money::usd_sum(m.cost, v.extra_cost_usd),
            ..m
        },
        (SessionStep::Merge, SessionEventModel::Merged { status, summary, commit }) =>
            SessionModel { at: SessionStep::Scratchpad, status, summary, commit, ..m },
        (SessionStep::Commit, SessionEventModel::Committed(id)) => SessionModel {
            at: SessionStep::Stash,
            commit: id,
            ..m
        },
        (SessionStep::Stash, SessionEventModel::Stashed(r)) => SessionModel {
            at: closing_step(f, worktree::stashed_status(m.status, r)),
            status: worktree::stashed_status(m.status, r),
            summary: worktree::stashed_summary(f.prompt_name, m.status, m.summary, r),
            ..m
        },
        (SessionStep::Scratchpad, SessionEventModel::ScratchpadMerged) => SessionModel {
            at: SessionStep::Teardown,
            ..m
        },
        (SessionStep::Teardown, SessionEventModel::TornDown) => SessionModel {
            at: closing_step(f, m.status),
            ..m
        },
        (SessionStep::PostHook, SessionEventModel::HookRan { .. }) => SessionModel {
            at: after_post_hook(f, m.status),
            ..m
        },
        (SessionStep::FailureHook, SessionEventModel::HookRan { .. }) => SessionModel {
            at: SessionStep::Done,
            ..m
        },
        _ => m,
    }
}

/// What subscribers are told of the event `e`.
pub open spec fn session_tells(f: SessionFacts, m: SessionModel, e: SessionEventModel) -> Seq<
    GrindEventModel,
> {
    let captured = GrindEventModel::SummaryCaptured {
        seq: f.seq,
        summary: session_next(f, m, e).summary,
    };
    match (m.at, e) {
        (SessionStep::PreHook, SessionEventModel::HookRan { success, description, .. }) => seq![
            events::hook_event(f.seq, HookKind::PreSession, success, description),
        ],
        (SessionStep::PostHook, SessionEventModel::HookRan { success, description, .. }) => seq![
            events::hook_event(f.seq, HookKind::PostSession, success, description),
        ],
        (SessionStep::FailureHook, SessionEventModel::HookRan { success, description, .. }) => seq![
            events::hook_event(f.seq, HookKind::OnFailure, success, description),
        ],
        (SessionStep::Dispatch, SessionEventModel::Dispatched { stop, tokens, skipped, .. }) =>
            if over_cap(
            f,
            dispatch_status(stop, skipped),
            verify::priced(f.price, tokens.input, tokens.output),
        ) {
            seq![captured]
        } else {
            Seq::empty()
        },
        (SessionStep::Dispatch, SessionEventModel::TimedOut { .. }) => seq![captured],
        (SessionStep::ReadSummary, SessionEventModel::SummaryRead(_)) => seq![captured],
        _ => Seq::empty(),
    }
}

/// The session after the events `events`.
pub open spec fn session_after(f: SessionFacts, m: SessionModel, events: Seq<SessionEventModel>) ->
    SessionModel
    decreases events.len(),
{
    if events.len() == 0 {
        m
    } else {
        session_next(f, session_after(f, m, events.drop_last()), events.last())
    }
}

/// How many steps a session has before it at most.
pub open spec fn session_rank(at: SessionStep) -> nat {
    match at {
        SessionStep::PreHook => 11,
        SessionStep::Dispatch => 10,
        SessionStep::ReadSummary => 9,
        SessionStep::Verify => 8,
        SessionStep::Merge => 7,
        SessionStep::Commit => 7,
        SessionStep::Stash => 6,
        SessionStep::Scratchpad => 6,
        SessionStep::Teardown => 5,
        SessionStep::PostHook => 2,
        SessionStep::FailureHook => 1,
        SessionStep::Done => 0,
    }
}

/// Every event either is ignored or takes the session a step further, so a
/// session ends after at most eleven events that were due.
pub proof fn session_is_bounded(f: SessionFacts, m: SessionModel, e: SessionEventModel)
    ensures
        session_next(f, m, e) == m || session_rank(session_next(f, m, e).at) < session_rank(m.at),
{
}

/// Whatever happens in a session, its closing hooks run only where they are
/// due: the failure hook only for a session that did not end as `Okay`.
pub proof fn closing_hooks_only_when_due(f: SessionFacts, events: Seq<SessionEventModel>)
    ensures
        ({
            let m = session_after(f, session_start(f), events);
            &&& m.at == SessionStep::PostHook ==> f.has_post_hook
            &&& m.at == SessionStep::FailureHook ==> f.has_failure_hook && m.status
                != SessionStatus::Okay
        }),
    decreases events.len(),
{
    if events.len() > 0 {
        closing_hooks_only_when_due(f, events.drop_last());
    }
}

/// How many times the hook of the step `hook` ran.
pub open spec fn hook_runs(f: SessionFacts, events: Seq<SessionEventModel>, hook: SessionStep) ->
    nat
    decreases events.len(),
{
    if events.len() == 0 {
        0
    } else {
        let front = events.drop_last();
        hook_runs(f, front, hook) + if session_after(f, session_start(f), front).at == hook
            && events.last() is HookRan {
            1nat
        } else {
            0nat
        }
    }
}

/// Every session that has ended ran its closing hooks, whatever it ended as:
/// the post-session hook once where the plan has one, and the failure hook once
/// where the plan has one and the session did not end as `Okay`.
pub proof fn closing_hooks_always_run(f: SessionFacts, events: Seq<SessionEventModel>)
    ensures
        ({
            let m = session_after(f, session_start(f), events);
            m.at == SessionStep::Done ==> {
                &&& hook_runs(f, events, SessionStep::PostHook) == if f.has_post_hook {
                    1nat
                } else {
                    0
                }
                &&& hook_runs(f, events, SessionStep::FailureHook) == if f.has_failure_hook
                    && m.status != SessionStatus::Okay {
                    1nat
                } else {
                    0
                }
            }
        }),
{
    hooks_run_in_turn(f, events);
}

proof fn hooks_run_in_turn(f: SessionFacts, events: Seq<SessionEventModel>)
    ensures
        ({
            let m = session_after(f, session_start(f), events);
            let post = hook_runs(f, events, SessionStep::PostHook);
            let failure = hook_runs(f, events, SessionStep::FailureHook);
            let all: nat = if f.has_post_hook {
                1
            } else {
                0
            };
            &&& m.at == SessionStep::PostHook ==> f.has_post_hook
            &&& m.at == SessionStep::FailureHook ==> f.has_failure_hook && m.status
                != SessionStatus::Okay
            &&& if m.at == SessionStep::Done {
                post == all && failure == if f.has_failure_hook && m.status
                    != SessionStatus::Okay {
                    1nat
                } else {
                    0
                }
            } else if m.at == SessionStep::FailureHook {
                post == all && failure == 0
            } else {
                post == 0 && failure == 0
            }
        }),
    decreases events.len(),
{
    if events.len() > 0 {
        hooks_run_in_turn(f, events.drop_last());
    }
}

/// A pre-session hook that fails keeps the agent from being dispatched: the
/// session is an `Error` from there on, nothing is committed and no tokens are
/// spent.
pub proof fn failed_pre_hook_blocks_dispatch(
    f: SessionFacts,
    first: SessionEventModel,
    rest: Seq<SessionEventModel>,
)
    requires
        f.has_pre_hook,
        first matches SessionEventModel::HookRan { success, .. } && !success,
    ensures
        ({
            let m = session_after(f, session_next(f, session_start(f), first), rest);
            &&& m.at != SessionStep::PreHook && m.at != SessionStep::Dispatch
            &&& m.status == SessionStatus::Error
            &&& m.commit is None
            &&& m.tokens == state::no_usage()
            &&& m.cost.pico == 0
        }),
    decreases rest.len(),
{
    failed_pre_hook_skips_work(f, first, rest);
}

proof fn failed_pre_hook_skips_work(
    f: SessionFacts,
    first: SessionEventModel,
    rest: Seq<SessionEventModel>,
)
    requires
        f.has_pre_hook,
        first matches SessionEventModel::HookRan { success, .. } && !success,
    ensures
        ({
            let m = session_after(f, session_next(f, session_start(f), first), rest);
            &&& m.at == SessionStep::Scratchpad || m.at == SessionStep::Teardown || m.at
                == SessionStep::PostHook || m.at == SessionStep::FailureHook || m.at
                == SessionStep::Done
            &&& m.status == SessionStatus::Error
            &&& m.commit is None
            &&& m.tokens == state::no_usage()
            &&& m.cost.pico == 0
        }),
    decreases rest.len(),
{
    if rest.len() > 0 {
        failed_pre_hook_skips_work(f, first, rest.drop_last());
    }
}

/// What the end of the agent's dispatch makes of a session. One that completed
/// went well, unless it cost more than its cap: then it is an error, whose summary
/// says so. A dispatch that timed out or failed is recorded as that, and one that
/// was cancelled as skipped where it was skipped on purpose and else as aborted.
/// Its tokens and the instant of its end are recorded, and its cost is that of its
/// own tokens at the price of its model, none where that has no price.
pub proof fn the_dispatch_decides_the_status(
    f: SessionFacts,
    m: SessionModel,
    stop: StopModel,
    tokens: UsageModel,
    skipped: bool,
    now: Timestamp,
)
    requires
        m.at == SessionStep::Dispatch,
    ensures
        ({
            let e = SessionEventModel::Dispatched { stop, tokens, skipped, now };
            let n = session_next(f, m, e);
            let over = f.cost_cap matches Some(cap) && n.cost.pico > cap.pico;
            &&& n.tokens == tokens && n.ended_at == now && n.commit == m.commit
            &&& f.price is None ==> n.cost.pico == 0
            &&& f.price matches Some(p) ==> {
                let sum = tokens.input * p.input_micros_per_million + tokens.output
                    * p.output_micros_per_million;
                sum <= i128::MAX ==> n.cost.pico == sum
            }
            &&& stop is Completed && !over ==> n.status == SessionStatus::Okay && n.at
                == SessionStep::ReadSummary
            &&& stop is Completed && over ==> n.status == SessionStatus::Error && n.summary
                == over_cap_text(n.cost, f.cost_cap->0) && n.at == if f.parallel {
                SessionStep::Merge
            } else {
                SessionStep::Commit
            }
            &&& stop is Timeout ==> n.status == SessionStatus::Timeout
            &&& stop is Error ==> n.status == SessionStatus::Error
            &&& stop is Cancelled && skipped ==> n.status == SessionStatus::Skipped
            &&& stop is Cancelled && !skipped ==> n.status == SessionStatus::Aborted
            &&& !(stop is Completed) ==> n.at == SessionStep::ReadSummary && n.summary == m.summary
        }),
{
    if let Some(p) = f.price {
        super::budget::tokens_are_priced_one_by_one(p, tokens.input, tokens.output);
    }
}

/// A session that runs past its wall-clock cap is timed out, whatever it was
/// about to do: it is not verified, spends nothing more, and its summary names
/// the cap.
pub proof fn late_sessions_time_out(f: SessionFacts, m: SessionModel, now: Timestamp)
    requires
        m.at == SessionStep::Dispatch,
    ensures
        ({
            let n = session_next(f, m, SessionEventModel::TimedOut { now });
            &&& n.status == SessionStatus::Timeout && n.ended_at == now
            &&& n.tokens == m.tokens && n.cost == m.cost && n.commit == m.commit
            &&& n.at == if f.parallel {
                SessionStep::Merge
            } else {
                SessionStep::Stash
            }
            &&& n.summary == "session exceeded max_session_seconds ("@ + text::decimal(
                f.timeout_secs as nat,
            ) + "s)"@
        }),
{
}

/// A session is verified exactly where its prompt asks for it and its dispatch
/// went well. Its summary is what the agent wrote, without the white space around
/// it, and a fixed line where that is blank or missing.
pub proof fn good_sessions_are_verified_on_request(
    f: SessionFacts,
    m: SessionModel,
    file: Option<Seq<char>>,
)
    requires
        m.at == SessionStep::ReadSummary,
    ensures
        ({
            let n = session_next(f, m, SessionEventModel::SummaryRead(file));
            &&& n.at == SessionStep::Verify <==> f.verify && m.status == SessionStatus::Okay
            &&& n.status == m.status && n.cost == m.cost && n.tokens == m.tokens
            &&& file matches Some(s) ==> (text::trim(s).len() > 0 ==> n.summary == text::trim(s))
            &&& file matches Some(s) ==> (text::trim(s).len() == 0 ==> n.summary
                == "(no summary provided)"@)
            &&& file is None ==> n.summary == "(no summary provided)"@
            &&& session_tells(f, m, SessionEventModel::SummaryRead(file)) == seq![
                GrindEventModel::SummaryCaptured { seq: f.seq, summary: n.summary },
            ]
        }),
{
}

/// What verification found is what the session is: its status is the verdict, its
/// summary gives way only to one that the verdict brings, and the tokens and the
/// cost of the fixers come on top of its own.
pub proof fn the_verdict_is_taken_over(
    f: SessionFacts,
    m: SessionModel,
    v: verify::VerifyOutcomeModel,
)
    requires
        m.at == SessionStep::Verify,
    ensures
        ({
            let n = session_next(f, m, SessionEventModel::Verified(v));
            &&& n.status == v.status
            &&& v.summary_override is None ==> n.summary == m.summary
            &&& v.summary_override is Some ==> n.summary == v.summary_override->0
            &&& m.tokens.input + v.extra_tokens.input <= u64::MAX ==> n.tokens.input
                == m.tokens.input + v.extra_tokens.input
            &&& m.tokens.output + v.extra_tokens.output <= u64::MAX ==> n.tokens.output
                == m.tokens.output + v.extra_tokens.output
            &&& i128::MIN <= m.cost.pico + v.extra_cost_usd.pico <= i128::MAX ==> n.cost.pico
                == m.cost.pico + v.extra_cost_usd.pico
            &&& n.commit == m.commit && n.ended_at == m.ended_at
        }),
{
}

/// How the changes of a session land, once its status is settled. In a worktree
/// of its own they are merged, the scratchpad is merged back and the worktree is
/// torn down. In the main tree a session that went well, failed or was skipped is
/// committed, and then what is left over is stashed; any other is only stashed.
/// Nothing closes a session before that.
pub proof fn changes_land_before_the_session_closes(
    f: SessionFacts,
    m: SessionModel,
    file: Option<Seq<char>>,
    v: verify::VerifyOutcomeModel,
    id: Option<Seq<char>>,
)
    ensures
        m.at == SessionStep::ReadSummary && !(f.verify && m.status == SessionStatus::Okay) ==> {
            let at = session_next(f, m, SessionEventModel::SummaryRead(file)).at;
            lands(f, m.status, at)
        },
        m.at == SessionStep::Verify ==> lands(
            f,
            v.status,
            session_next(f, m, SessionEventModel::Verified(v)).at,
        ),
        m.at == SessionStep::Commit ==> {
            let n = session_next(f, m, SessionEventModel::Committed(id));
            n.at == SessionStep::Stash && n.commit == id && n.status == m.status && n.summary
                == m.summary
        },
        m.at == SessionStep::Scratchpad ==> session_next(
            f,
            m,
            SessionEventModel::ScratchpadMerged,
        ).at == SessionStep::Teardown,
{
}

/// `at` is the step that lands the changes of a session that ended as `status`.
pub open spec fn lands(f: SessionFacts, status: SessionStatus, at: SessionStep) -> bool {
    &&& f.parallel ==> at == SessionStep::Merge
    &&& !f.parallel && (status == SessionStatus::Okay || status == SessionStatus::Error || status
        == SessionStatus::Skipped) ==> at == SessionStep::Commit
    &&& !f.parallel && (status == SessionStatus::Dirty || status == SessionStatus::Timeout || status
        == SessionStatus::Aborted) ==> at == SessionStep::Stash
}

/// What the stash, or the merge of its worktree, found is taken over into the
/// session; then its hooks close it: the post-session hook first, where there is
/// one, and the failure hook behind it, where there is one and the session did not
/// go well.
pub proof fn hooks_close_the_session_in_order(
    f: SessionFacts,
    m: SessionModel,
    r: Result<bool, Seq<char>>,
    status: SessionStatus,
    summary: Seq<char>,
    commit: Option<Seq<char>>,
    hook: SessionEventModel,
)
    requires
        hook is HookRan,
    ensures
        m.at == SessionStep::Merge ==> {
            let n = session_next(f, m, SessionEventModel::Merged { status, summary, commit });
            n.at == SessionStep::Scratchpad && n.status == status && n.summary == summary
                && n.commit == commit && n.cost == m.cost
        },
        m.at == SessionStep::Stash ==> {
            let n = session_next(f, m, SessionEventModel::Stashed(r));
            &&& n.status == worktree::stashed_status(m.status, r) && n.commit == m.commit
            &&& closes(f, n.status, n.at)
        },
        m.at == SessionStep::Teardown ==> {
            let n = session_next(f, m, SessionEventModel::TornDown);
            n.status == m.status && closes(f, n.status, n.at)
        },
        m.at == SessionStep::PostHook ==> {
            let n = session_next(f, m, hook);
            &&& n.status == m.status && n.summary == m.summary
            &&& n.at == SessionStep::FailureHook <==> f.has_failure_hook && m.status
                != SessionStatus::Okay
            &&& n.at == SessionStep::FailureHook || n.at == SessionStep::Done
        },
        m.at == SessionStep::FailureHook ==> {
            let n = session_next(f, m, hook);
            n.at == SessionStep::Done && n.status == m.status && n.summary == m.summary
        },
{
}

/// `at` is the step that closes a session which ended as `status`.
pub open spec fn closes(f: SessionFacts, status: SessionStatus, at: SessionStep) -> bool {
    &&& f.has_post_hook ==> at == SessionStep::PostHook
    &&& !f.has_post_hook && f.has_failure_hook && status != SessionStatus::Okay ==> at
        == SessionStep::FailureHook
    &&& !f.has_post_hook && !(f.has_failure_hook && status != SessionStatus::Okay) ==> at
        == SessionStep::Done
}

/// How a session starts: with the pre-session hook where there is one, and else
/// with the dispatch, which a hook that succeeds leads to as well. It has spent
/// and committed nothing. A hook that fails makes the session an error that names
/// what the hook came to, and closes it.
pub proof fn sessions_start_with_their_hook(
    f: SessionFacts,
    success: bool,
    description: Seq<char>,
    now: Timestamp,
)
    ensures
        ({
            let m = session_start(f);
            &&& f.has_pre_hook ==> m.at == SessionStep::PreHook
            &&& !f.has_pre_hook ==> m.at == SessionStep::Dispatch
            &&& m.status == SessionStatus::Okay && m.commit is None && m.cost.pico == 0
            &&& m.tokens.input == 0 && m.tokens.output == 0
            &&& f.has_pre_hook ==> {
                let e = SessionEventModel::HookRan { success, description, now };
                let n = session_next(f, m, e);
                &&& success ==> n.at == SessionStep::Dispatch && n.status == m.status
                &&& !success ==> n.status == SessionStatus::Error && n.summary
                    == "pre_session hook "@ + description && n.ended_at == now
                &&& !success && f.parallel ==> n.at == SessionStep::Scratchpad
                &&& !success && !f.parallel ==> closes(f, SessionStatus::Error, n.at)
            }
        }),
{
}

/// The wall-clock cap of a prompt is its own where it has one, and half an hour
/// where it has none.
pub proof fn prompts_set_their_own_timeout(prompt: PromptDoc)
    ensures
        prompt.meta.max_session_seconds matches Some(n) ==> timeout_of(prompt) == n,
        prompt.meta.max_session_seconds is None ==> timeout_of(prompt) == 30 * 60,
{
}

/// One grind session.
#[derive(Debug, PartialEq, Eq)]
pub struct SessionTask {
    seq: u32,
    run_id: String,
    prompt: PromptDoc,
    hooks: Hooks,
    price: Option<ModelPricing>,
    started_at: Timestamp,
    at: SessionStep,
    status: SessionStatus,
    summary: String,
    commit: Option<String>,
    tokens: TokenUsage,
    cost: Usd,
    ended_at: Timestamp,
}

impl View for SessionTask {
    type V = SessionModel;

    closed spec fn view(&self) -> SessionModel {
        SessionModel {
            at: self.at,
            status: self.status,
            summary: self.summary@,
            commit: text::view_of(self.commit),
            tokens: self.tokens@,
            cost: self.cost,
            ended_at: self.ended_at,
        }
    }
}

/// What a session of `prompt` knows from its start.
pub open spec fn facts_of(
    seq: u32,
    run_id: Seq<char>,
    prompt: PromptDoc,
    hooks: Hooks,
    price: Option<ModelPricing>,
    started_at: Timestamp,
) -> SessionFacts {
    SessionFacts {
        seq,
        run_id,
        prompt_name: prompt.meta.name@,
        verify: prompt.meta.verify,
        parallel: prompt.meta.parallel_safe,
        timeout_secs: timeout_of(prompt),
        cost_cap: prompt.meta.max_session_cost_usd,
        has_pre_hook: hooks.pre_session is Some,
        has_post_hook: hooks.post_session is Some,
        has_failure_hook: hooks.on_failure is Some,
        price,
        started_at,
    }
}

/// A session knows the flags and the cap of its prompt, and of each hook whether it is
/// configured.
pub proof fn sessions_know_their_prompt_and_hooks(
    seq: u32,
    run_id: Seq<char>,
    prompt: PromptDoc,
    hooks: Hooks,
    price: Option<ModelPricing>,
    started_at: Timestamp,
)
    ensures
        ({
            let f = facts_of(seq, run_id, prompt, hooks, price, started_at);
            &&& f.seq == seq && f.run_id == run_id
            &&& f.prompt_name == prompt.meta.name@
            &&& f.verify <==> prompt.meta.verify
            &&& f.parallel <==> prompt.meta.parallel_safe
            &&& f.cost_cap == prompt.meta.max_session_cost_usd
            &&& f.has_pre_hook <==> hooks.pre_session is Some
            &&& f.has_post_hook <==> hooks.post_session is Some
            &&& f.has_failure_hook <==> hooks.on_failure is Some
            &&& f.price == price && f.started_at == started_at
        }),
{
}

impl SessionTask {
    /// What the session knows from its start.
    pub closed spec fn facts(self) -> SessionFacts {
        facts_of(self.seq, self.run_id@, self.prompt, self.hooks, self.price, self.started_at)
    }

    /// The prompt of the session.
    pub closed spec fn the_prompt(self) -> PromptDoc {
        self.prompt
    }

    /// A session of `prompt` with the number `seq`. `price` is what the
    /// implementer's model charges.
    pub fn new(
        seq: u32,
        run_id: &str,
        prompt: PromptDoc,
        hooks: Hooks,
        price: Option<ModelPricing>,
        started_at: Timestamp,
    ) -> (r: Self)
        ensures
            r.facts() == facts_of(seq, run_id@, prompt, hooks, price, started_at),
            r.the_prompt() == prompt,
            r@ == session_start(r.facts()),
    {
        let at = if hooks.pre_session.is_some() {
            SessionStep::PreHook
        } else {
            SessionStep::Dispatch
        };
        let r = SessionTask {
            seq,
            run_id: text::owned(run_id),
            prompt,
            hooks,
            price,
            started_at,
            at,
            status: SessionStatus::Okay,
            summary: String::new(),
            commit: None,
            tokens: TokenUsage::zero(),
            cost: Usd::zero(),
            ended_at: started_at,
        };
        assert(r@ =~= session_start(r.facts()));
        r
    }

    /// What is due.
    pub fn step(&self) -> (r: SessionStep)
        ensures
            r == self@.at,
    {
        self.at
    }

    /// The status so far.
    pub fn status(&self) -> (r: SessionStatus)
        ensures
            r == self@.status,
    {
        self.status
    }

    /// The summary so far.
    pub fn summary(&self) -> (r: &str)
        ensures
            r@ == self@.summary,
    {
        self.summary.as_str()
    }

    /// The prompt of the session.
    pub fn prompt(&self) -> (r: &PromptDoc)
        ensures
            *r == self.the_prompt(),
            r.meta.name@ == self.facts().prompt_name,
            r.meta.verify == self.facts().verify,
            r.meta.parallel_safe == self.facts().parallel,
            r.meta.max_session_cost_usd == self.facts().cost_cap,
            timeout_of(*r) == self.facts().timeout_secs,
    {
        &self.prompt
    }

    /// Whether the worktree of a parallel session is dropped. One whose session
    /// did not end as `Okay` is left behind for triage.
    pub fn drops_worktree(&self) -> (r: bool)
        ensures
            r == (self@.status == SessionStatus::Okay),
    {
        self.status == SessionStatus::Okay
    }

    fn closing(&self, status: SessionStatus) -> (r: SessionStep)
        ensures
            r == closing_step(self.facts(), status),
    {
        if self.hooks.post_session.is_some() {
            SessionStep::PostHook
        } else {
            self.failure_hook(status)
        }
    }

    fn failure_hook(&self, status: SessionStatus) -> (r: SessionStep)
        ensures
            r == after_post_hook(self.facts(), status),
    {
        if status != SessionStatus::Okay && self.hooks.on_failure.is_some() {
            SessionStep::FailureHook
        } else {
            SessionStep::Done
        }
    }

    fn landing(&self, status: SessionStatus) -> (r: SessionStep)
        ensures
            r == landing_step(self.facts(), status),
    {
        if self.prompt.meta.parallel_safe {
            SessionStep::Merge
        } else {
            match status {
                SessionStatus::Okay => SessionStep::Commit,
                SessionStatus::Error => SessionStep::Commit,
                SessionStatus::Skipped => SessionStep::Commit,
                _ => SessionStep::Stash,
            }
        }
    }

    fn summarized(&self, status: SessionStatus) -> (r: SessionStep)
        ensures
            r == after_summary(self.facts(), status),
    {
        if status == SessionStatus::Okay && self.prompt.meta.verify {
            SessionStep::Verify
        } else {
            self.landing(status)
        }
    }

    fn dispatched(self, stop: StopReason, tokens: TokenUsage, skipped: bool, now: Timestamp) -> (r:
        Self)
        ensures
            r.facts() == self.facts(),
            r.the_prompt() == self.the_prompt(),
            r@ == session_dispatched(self.facts(), self@, stop@, tokens@, skipped, now),
    {
        let mut m = self;
        let mut status = match stop {
            StopReason::Completed => SessionStatus::Okay,
            StopReason::Timeout => SessionStatus::Timeout,
            StopReason::Cancelled => {
                if skipped {
                    SessionStatus::Skipped
                } else {
                    SessionStatus::Aborted
                }
            },
            StopReason::Error(_) => SessionStatus::Error,
        };
        let cost = verify::price_of(m.price, tokens.input, tokens.output);
        m.at = SessionStep::ReadSummary;
        if status == SessionStatus::Okay {
            if let Some(cap) = m.prompt.meta.max_session_cost_usd {
                if cost.pico > cap.pico {
                    status = SessionStatus::Error;
                    let mut text = text::owned("session exceeded max_session_cost_usd: $");
                    text.append(cost.to_dollars().as_str());
                    text.append(" > $");
                    text.append(cap.to_dollars().as_str());
                    m.summary = text;
                    m.at = m.summarized(status);
                }
            }
        }
        m.status = status;
        m.tokens = tokens;
        m.cost = cost;
        m.ended_at = now;
        m
    }

    /// Takes in what came of the step that was due, and gives what to tell
    /// subscribers.
    pub fn advance(self, event: SessionEvent) -> (r: (Self, Vec<GrindEvent>))
        ensures
            r.0.facts() == self.facts(),
            r.0.the_prompt() == self.the_prompt(),
            r.0@ == session_next(self.facts(), self@, event@),
            events::event_views(r.1@) == session_tells(self.facts(), self@, event@),
    {
        let ghost f = self.facts();
        let ghost before = self@;
        let mut m = self;
        let mut told: Vec<GrindEvent> = Vec::new();
        match (m.at, event) {
            (SessionStep::PreHook, SessionEvent::HookRan { outcome, now }) => {
                told.push(events::emit_hook_event(m.seq, HookKind::PreSession, &outcome));
                if outcome.is_success() {
                    m.at = SessionStep::Dispatch;
                } else {
                    let mut text = text::owned("pre_session hook ");
                    text.append(outcome.description().as_str());
                    m.status = SessionStatus::Error;
                    m.summary = text;
                    m.ended_at = now;
                    m.at = if m.prompt.meta.parallel_safe {
                        SessionStep::Scratchpad
                    } else {
                        m.closing(SessionStatus::Error)
                    };
                }
            },
            (SessionStep::Dispatch, SessionEvent::Dispatched { stop, tokens, skipped, now }) => {
                m = m.dispatched(stop, tokens, skipped, now);
                if m.at != SessionStep::ReadSummary {
                    told.push(
                        GrindEvent::SummaryCaptured { seq: m.seq, summary: m.summary.clone() },
                    );
                }
            },
            (SessionStep::Dispatch, SessionEvent::TimedOut { now }) => {
                let mut text = text::owned("session exceeded max_session_seconds (");
                text.append(text::decimal_u64(session_timeout(&m.prompt)).as_str());
                text.append("s)");
                m.status = SessionStatus::Timeout;
                m.summary = text;
                m.ended_at = now;
                m.at = m.summarized(SessionStatus::Timeout);
                told.push(GrindEvent::SummaryCaptured { seq: m.seq, summary: m.summary.clone() });
            },
            (SessionStep::ReadSummary, SessionEvent::SummaryRead(file)) => {
                m.summary =
                read_summary_or_fallback(
                    match &file {
                        Some(s) => Some(s.as_str()),
                        None => None,
                    },
                );
                m.at = m.summarized(m.status);
                told.push(GrindEvent::SummaryCaptured { seq: m.seq, summary: m.summary.clone() });
            },
            (SessionStep::Verify, SessionEvent::Verified(v)) => {
                m.status = v.status;
                if let Some(s) = v.summary_override {
                    m.summary = s;
                }
                m.tokens.fold(&v.extra_tokens);
                m.cost = m.cost.plus(v.extra_cost_usd);
                m.at = m.landing(v.status);
            },
            (SessionStep::Merge, SessionEvent::Merged(o)) => {
                m.status = o.status;
                m.summary = o.summary;
                m.commit = o.commit;
                m.at = SessionStep::Scratchpad;
            },
            (SessionStep::Commit, SessionEvent::Committed(id)) => {
                m.commit = id;
                m.at = SessionStep::Stash;
            },
            (SessionStep::Stash, SessionEvent::Stashed(r)) => {
                let (status, summary) = worktree::after_stash(
                    m.prompt.meta.name.as_str(),
                    m.status,
                    m.summary,
                    r,
                );
                m =
                SessionTask {
                    seq: m.seq,
                    run_id: m.run_id,
                    prompt: m.prompt,
                    hooks: m.hooks,
                    price: m.price,
                    started_at: m.started_at,
                    at: m.at,
                    status,
                    summary,
                    commit: m.commit,
                    tokens: m.tokens,
                    cost: m.cost,
                    ended_at: m.ended_at,
                };
                m.at = m.closing(status);
            },
            (SessionStep::Scratchpad, SessionEvent::ScratchpadMerged) => {
                m.at = SessionStep::Teardown;
            },
            (SessionStep::Teardown, SessionEvent::TornDown) => {
                m.at = m.closing(m.status);
            },
            (SessionStep::PostHook, SessionEvent::HookRan { outcome, .. }) => {
                told.push(events::emit_hook_event(m.seq, HookKind::PostSession, &outcome));
                m.at = m.failure_hook(m.status);
            },
            (SessionStep::FailureHook, SessionEvent::HookRan { outcome, .. }) => {
                told.push(events::emit_hook_event(m.seq, HookKind::OnFailure, &outcome));
                m.at = SessionStep::Done;
            },
            _ => {},
        }
        proof {
            assert(m@ =~= session_next(f, before, event@));
            assert(events::event_views(told@) =~= session_tells(f, before, event@));
        }
        (m, told)
    }

    /// The record of the session. `transcript_path` is where its transcript
    /// stands, relative to the workspace.
    pub fn record(self, transcript_path: String) -> (r: SessionRecord)
        ensures
            r.seq == self.facts().seq,
            r.run_id@ == self.facts().run_id,
            r.prompt@ == self.facts().prompt_name,
            r.started_at == self.facts().started_at,
            r.ended_at == self@.ended_at,
            r.status == self@.status,
            text::view_of(r.summary) == Some(self@.summary),
            text::view_of(r.commit) == self@.commit,
            r.tokens@ == self@.tokens,
            r.cost_usd == self@.cost,
            r.transcript_path == transcript_path,
    {
        SessionRecord {
            seq: self.seq,
            run_id: self.run_id,
            prompt: self.prompt.meta.name,
            started_at: self.started_at,
            ended_at: self.ended_at,
            status: self.status,
            summary: Some(self.summary),
            commit: self.commit,
            tokens: self.tokens,
            cost_usd: self.cost,
            transcript_path,
        }
    }
}

} // verus!
