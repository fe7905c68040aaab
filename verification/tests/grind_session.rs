use pitboss::agent::StopReason;
use pitboss::grind::budget::ModelPricing;
use pitboss::grind::events::GrindEvent;
use pitboss::grind::hooks::HookOutcome;
use pitboss::grind::plan::Hooks;
use pitboss::grind::prompt::{PromptDoc, PromptMeta, PromptSource};
use pitboss::grind::run_dir::SessionStatus;
use pitboss::grind::session::{
    closing_hook_env, fixer_request, pre_hook_env, session_env, session_request, session_timeout,
    SessionEvent, SessionStep, SessionTask, DEFAULT_SESSION_TIMEOUT,
};
use pitboss::grind::verify::{
    fixer_log, retest_log, verify_log, VerifyEvent, VerifyLoop, VerifyOutcome, VerifyStep,
};
use pitboss::grind::worktree::{
    stash_label, try_commit_session, MergeEvent, MergeOutcome, MergeStep, SessionMerge,
};
use pitboss::money::Usd;
use pitboss::state::TokenUsage;
use pitboss::table::Table;
use pitboss::time::Timestamp;

fn at(text: &str) -> Timestamp {
    let t = chrono::DateTime::parse_from_rfc3339(text).unwrap();
    Timestamp::new(t.timestamp(), t.timestamp_subsec_nanos()).unwrap()
}

fn prompt(name: &str) -> PromptDoc {
    PromptDoc {
        meta: PromptMeta {
            name: name.to_string(),
            description: "desc".to_string(),
            weight: 1,
            every: 1,
            max_runs: None,
            verify: false,
            parallel_safe: false,
            tags: Vec::new(),
            max_session_seconds: None,
            max_session_cost_usd: None,
        },
        body: "body".to_string(),
        source_path: format!("/fixture/{name}.md"),
        source_kind: PromptSource::Project,
    }
}

fn hooks() -> Hooks {
    Hooks {
        pre_session: Some("pre".to_string()),
        post_session: Some("post".to_string()),
        on_failure: Some("fail".to_string()),
    }
}

fn start() -> Timestamp {
    at("2026-04-30T18:00:00Z")
}

fn end() -> Timestamp {
    at("2026-04-30T18:01:00Z")
}

fn usage(input: u64, output: u64) -> TokenUsage {
    TokenUsage { input, output, ..TokenUsage::zero() }
}

fn drive(mut task: SessionTask, events: Vec<SessionEvent>) -> (SessionTask, Vec<GrindEvent>) {
    let mut told = Vec::new();
    for event in events {
        let (next, more) = task.advance(event);
        task = next;
        told.extend(more);
    }
    (task, told)
}

fn ran(outcome: HookOutcome) -> SessionEvent {
    SessionEvent::HookRan { outcome, now: end() }
}

fn dispatched(stop: StopReason, tokens: TokenUsage) -> SessionEvent {
    SessionEvent::Dispatched { stop, tokens, skipped: false, now: end() }
}

#[test]
fn a_plain_session_commits_and_ends_okay() {
    let task = SessionTask::new(1, "rid", prompt("p"), Hooks::none(), None, start());
    assert_eq!(task.step(), SessionStep::Dispatch);
    let (task, told) = drive(
        task,
        vec![
            dispatched(StopReason::Completed, usage(10, 5)),
            SessionEvent::SummaryRead(Some("did it\n".to_string())),
            SessionEvent::Committed(Some("abc".to_string())),
            SessionEvent::Stashed(Ok(false)),
        ],
    );
    assert_eq!(task.step(), SessionStep::Done);
    assert_eq!(told, vec![GrindEvent::SummaryCaptured { seq: 1, summary: "did it".to_string() }]);
    let record = task.record("transcripts/session-0001.log".to_string());
    assert_eq!(record.status, SessionStatus::Okay);
    assert_eq!(record.summary.as_deref(), Some("did it"));
    assert_eq!(record.commit.as_deref(), Some("abc"));
    assert_eq!(record.tokens.input, 10);
    assert_eq!(record.started_at, start());
    assert_eq!(record.ended_at, end());
    assert_eq!(record.prompt, "p");
}

#[test]
fn a_failed_pre_hook_blocks_the_dispatch() {
    let task = SessionTask::new(2, "rid", prompt("p"), hooks(), None, start());
    assert_eq!(task.step(), SessionStep::PreHook);
    let (task, told) = drive(task, vec![ran(HookOutcome::Failed { exit_code: 3 })]);
    assert_ne!(task.step(), SessionStep::Dispatch);
    assert_eq!(task.status(), SessionStatus::Error);
    assert_eq!(task.summary(), "pre_session hook non-zero exit 3");
    assert!(matches!(told[0], GrindEvent::HookFired { success: false, .. }));
}

#[test]
fn closing_hooks_run_in_order_and_the_failure_hook_only_on_failure() {
    let okay = SessionTask::new(3, "rid", prompt("p"), hooks(), None, start());
    let (okay, _) = drive(
        okay,
        vec![
            ran(HookOutcome::Success),
            dispatched(StopReason::Completed, usage(0, 0)),
            SessionEvent::SummaryRead(None),
            SessionEvent::Committed(None),
            SessionEvent::Stashed(Ok(false)),
        ],
    );
    assert_eq!(okay.step(), SessionStep::PostHook);
    let (okay, _) = drive(okay, vec![ran(HookOutcome::Success)]);
    assert_eq!(okay.step(), SessionStep::Done);
    assert_eq!(okay.summary(), "(no summary provided)");

    let bad = SessionTask::new(4, "rid", prompt("p"), hooks(), None, start());
    let (bad, _) = drive(
        bad,
        vec![
            ran(HookOutcome::Success),
            dispatched(StopReason::Error("crash".to_string()), usage(0, 0)),
            SessionEvent::SummaryRead(None),
            SessionEvent::Committed(None),
            SessionEvent::Stashed(Ok(false)),
            ran(HookOutcome::Success),
        ],
    );
    assert_eq!(bad.step(), SessionStep::FailureHook);
    assert_eq!(bad.status(), SessionStatus::Error);
}

#[test]
fn an_aborted_session_runs_its_closing_hooks() {
    for skipped in [false, true] {
        let task = SessionTask::new(11, "rid", prompt("p"), hooks(), None, start());
        let (task, _) = drive(
            task,
            vec![
                ran(HookOutcome::Success),
                SessionEvent::Dispatched {
                    stop: StopReason::Cancelled,
                    tokens: usage(0, 0),
                    skipped,
                    now: end(),
                },
                SessionEvent::SummaryRead(None),
                SessionEvent::Committed(None),
                SessionEvent::Stashed(Ok(false)),
            ],
        );
        assert_eq!(task.step(), SessionStep::PostHook);
        let env = closing_hook_env(&Table::new(), "p", task.status(), task.summary());
        let wanted = if skipped { "skipped" } else { "aborted" };
        assert_eq!(env.get("PITBOSS_SESSION_STATUS").map(|s| s.as_str()), Some(wanted));
        let (task, _) = drive(task, vec![ran(HookOutcome::Success)]);
        assert_eq!(task.step(), SessionStep::FailureHook);
        let (task, _) = drive(task, vec![ran(HookOutcome::Success)]);
        assert_eq!(task.step(), SessionStep::Done);
    }
}

#[test]
fn a_session_past_its_deadline_times_out() {
    let mut doc = prompt("p");
    doc.meta.max_session_seconds = Some(600);
    assert_eq!(session_timeout(&doc), 600);
    assert_eq!(session_timeout(&prompt("p")), DEFAULT_SESSION_TIMEOUT);
    let task = SessionTask::new(5, "rid", doc, Hooks::none(), None, start());
    let (task, _) = drive(task, vec![SessionEvent::TimedOut { now: end() }]);
    assert_eq!(task.status(), SessionStatus::Timeout);
    assert_eq!(task.summary(), "session exceeded max_session_seconds (600s)");
}

#[test]
fn a_session_over_its_cost_cap_is_an_error() {
    let mut doc = prompt("p");
    doc.meta.max_session_cost_usd = Some(Usd::from_micros(1_000_000));
    let price = Some(ModelPricing {
        input_micros_per_million: 2_000_000,
        output_micros_per_million: 0,
    });
    let task = SessionTask::new(6, "rid", doc, Hooks::none(), price, start());
    let (task, told) = drive(task, vec![dispatched(StopReason::Completed, usage(1_000_000, 0))]);
    assert_eq!(task.status(), SessionStatus::Error);
    assert!(task.summary().contains("$2.0000"), "{}", task.summary());
    assert!(matches!(told[0], GrindEvent::SummaryCaptured { .. }));
}

#[test]
fn a_skipped_dispatch_is_recorded_as_skipped() {
    let task = SessionTask::new(7, "rid", prompt("p"), Hooks::none(), None, start());
    let (task, _) = drive(
        task,
        vec![SessionEvent::Dispatched {
            stop: StopReason::Cancelled,
            tokens: usage(0, 0),
            skipped: true,
            now: end(),
        }],
    );
    assert_eq!(task.status(), SessionStatus::Skipped);
}

#[test]
fn an_event_that_is_not_due_changes_nothing() {
    let task = SessionTask::new(8, "rid", prompt("p"), Hooks::none(), None, start());
    let (task, told) = drive(task, vec![SessionEvent::TornDown, SessionEvent::Stashed(Ok(true))]);
    assert_eq!(task.step(), SessionStep::Dispatch);
    assert!(told.is_empty());
}

#[test]
fn verified_and_parallel_sessions_take_their_extra_steps() {
    let mut doc = prompt("p");
    doc.meta.verify = true;
    doc.meta.parallel_safe = true;
    let task = SessionTask::new(9, "rid", doc, Hooks::none(), None, start());
    let (task, _) = drive(
        task,
        vec![
            dispatched(StopReason::Completed, usage(1, 1)),
            SessionEvent::SummaryRead(Some("s".to_string())),
        ],
    );
    assert_eq!(task.step(), SessionStep::Verify);
    let (task, _) = drive(
        task,
        vec![SessionEvent::Verified(VerifyOutcome {
            status: SessionStatus::Okay,
            summary_override: None,
            extra_tokens: usage(2, 3),
            extra_cost_usd: Usd::zero(),
        })],
    );
    assert_eq!(task.step(), SessionStep::Merge);
    let (task, _) = drive(
        task,
        vec![
            SessionEvent::Merged(MergeOutcome {
                status: SessionStatus::Okay,
                summary: "s".to_string(),
                commit: Some("c".to_string()),
                sync_ok: true,
            }),
            SessionEvent::ScratchpadMerged,
        ],
    );
    assert_eq!(task.step(), SessionStep::Teardown);
    assert!(task.drops_worktree());
    let (task, _) = drive(task, vec![SessionEvent::TornDown]);
    assert_eq!(task.step(), SessionStep::Done);
    let record = task.record(String::new());
    assert_eq!((record.tokens.input, record.tokens.output), (3, 4));
    assert_eq!(record.commit.as_deref(), Some("c"));
}

#[test]
fn verify_runs_at_most_its_budget_of_fixers() {
    let mut v = VerifyLoop::new(2, None);
    let mut fixers = 0;
    let mut events = 0;
    while v.step() != VerifyStep::Done {
        v = match v.step() {
            VerifyStep::Test | VerifyStep::Retest => v.advance(VerifyEvent::Tested {
                passed: false,
                summary: "1 failed".to_string(),
            }),
            VerifyStep::Poll => v.advance(VerifyEvent::Polled(false)),
            _ => {
                fixers += 1;
                assert_eq!(v.attempt(), fixers);
                assert_eq!(v.failure(), "1 failed");
                v.advance(VerifyEvent::Fixed { stop: StopReason::Completed, tokens: usage(1, 2) })
            }
        };
        events += 1;
    }
    assert_eq!(fixers, 2);
    assert_eq!(events, 7);
    let out = v.finish();
    assert_eq!(out.status, SessionStatus::Error);
    assert_eq!((out.extra_tokens.input, out.extra_tokens.output), (2, 4));
    assert!(out.summary_override.is_some());
}

#[test]
fn verify_is_okay_only_when_the_tests_pass() {
    let v = VerifyLoop::new(1, None)
        .advance(VerifyEvent::Tested { passed: false, summary: "x".to_string() })
        .advance(VerifyEvent::Polled(false))
        .advance(VerifyEvent::Fixed { stop: StopReason::Completed, tokens: usage(0, 0) })
        .advance(VerifyEvent::Tested { passed: true, summary: "ok".to_string() });
    assert_eq!(v.finish().status, SessionStatus::Okay);
    let aborted = VerifyLoop::new(1, None)
        .advance(VerifyEvent::Tested { passed: false, summary: "x".to_string() })
        .advance(VerifyEvent::Polled(true))
        .finish();
    assert_eq!(aborted.status, SessionStatus::Aborted);
    assert_eq!(aborted.summary_override.as_deref(), Some("verify aborted before fixer attempt"));
    assert_eq!(VerifyLoop::new(1, None).advance(VerifyEvent::NoRunner).finish().status, SessionStatus::Okay);
}

#[test]
fn merge_never_improves_on_a_session() {
    let clean = SessionMerge::new("p", SessionStatus::Okay, "did it".to_string());
    assert_eq!(clean.step(), MergeStep::Sync);
    let out = clean
        .advance(MergeEvent::Synced(true))
        .advance(MergeEvent::Committed(Some("c".to_string())))
        .advance(MergeEvent::Forwarded(true))
        .advance(MergeEvent::Stashed(Ok(false)))
        .finish();
    assert_eq!(out.status, SessionStatus::Okay);
    assert_eq!(out.commit.as_deref(), Some("c"));
    assert_eq!(out.summary, "did it");

    let diverged = SessionMerge::new("p", SessionStatus::Okay, "did it".to_string())
        .advance(MergeEvent::Synced(false))
        .finish();
    assert_eq!(diverged.status, SessionStatus::Error);
    assert!(!diverged.sync_ok);
    assert_eq!(diverged.summary, "parallel_safe contract violated by prompt p (worktree sync)");

    let refused = SessionMerge::new("p", SessionStatus::Okay, "did it".to_string())
        .advance(MergeEvent::Synced(true))
        .advance(MergeEvent::Committed(Some("c".to_string())))
        .advance(MergeEvent::Forwarded(false))
        .advance(MergeEvent::Stashed(Ok(false)))
        .finish();
    assert_eq!(refused.status, SessionStatus::Error);
    assert_eq!(refused.commit, None);
    assert_eq!(refused.summary, "parallel_safe contract violated by prompt p (run-branch merge)");
}

#[test]
fn a_session_that_is_not_merged_touches_no_git_state() {
    for status in [
        SessionStatus::Aborted,
        SessionStatus::Timeout,
        SessionStatus::Skipped,
        SessionStatus::Dirty,
    ] {
        let merge = SessionMerge::new("p", status, "as it was".to_string());
        assert_eq!(merge.step(), MergeStep::Done);
        let out = merge
            .advance(MergeEvent::Synced(true))
            .advance(MergeEvent::Committed(Some("c".to_string())))
            .advance(MergeEvent::Stashed(Err("no".to_string())))
            .finish();
        assert_eq!(out.status, status);
        assert_eq!(out.summary, "as it was");
        assert_eq!(out.commit, None);
    }
}

#[test]
fn leftovers_make_a_session_dirty() {
    let out = SessionMerge::new("p", SessionStatus::Okay, "did it".to_string())
        .advance(MergeEvent::Synced(true))
        .advance(MergeEvent::Committed(None))
        .advance(MergeEvent::Stashed(Ok(true)))
        .finish();
    assert_eq!(out.status, SessionStatus::Dirty);
    let task = SessionTask::new(10, "rid", prompt("p"), Hooks::none(), None, start());
    let (task, _) = drive(
        task,
        vec![
            dispatched(StopReason::Completed, usage(0, 0)),
            SessionEvent::SummaryRead(None),
            SessionEvent::Committed(None),
            SessionEvent::Stashed(Err("stash failed\nmore".to_string())),
        ],
    );
    assert_eq!(task.status(), SessionStatus::Error);
    assert!(task.summary().contains("merge conflict"));
}

#[test]
fn sessions_get_their_environment_and_requests() {
    let env = session_env("rid", "p", "/s.txt", 7, "/repo", "/pad.md", "/repo/wt", true);
    assert_eq!(env.get("PITBOSS_RUN_ID").map(String::as_str), Some("rid"));
    assert_eq!(env.get("PITBOSS_SUMMARY_FILE").map(String::as_str), Some("/s.txt"));
    assert_eq!(env.get("PITBOSS_SCRATCHPAD").map(String::as_str), Some("/pad.md"));
    assert_eq!(env.get("PITBOSS_SESSION_SEQ").map(String::as_str), Some("7"));
    let pre = pre_hook_env(&env, "p");
    assert!(pre.len() >= env.len());
    let closing = closing_hook_env(&env, "p", SessionStatus::Dirty, "left things");
    assert!((0..closing.len()).any(|i| closing.entry(i).1 == "dirty"));
    assert!((0..closing.len()).any(|i| closing.entry(i).1 == "left things"));

    let request = session_request("m", "do it".to_string(), "/wd", "/t.log", &prompt("p"), &env);
    assert_eq!(request.model, "m");
    assert_eq!(request.user_prompt, "do it");
    assert_eq!(request.workdir, "/wd");
    assert_eq!(request.log_path, "/t.log");
    assert_eq!(request.timeout_secs, DEFAULT_SESSION_TIMEOUT);
    let fix = fixer_request("f", "/wd", "/t.log", 2, "1 failed", &prompt("p"), &env);
    assert!(fix.user_prompt.contains("1 failed"));
    assert_eq!(fix.log_path, fixer_log("/t.log", 2));
    assert_ne!(verify_log("/t.log"), retest_log("/t.log", 1));
}

#[test]
fn session_commits_and_stashes_are_labelled() {
    assert_eq!(try_commit_session(false, 1, "p", "rid"), None);
    let message = try_commit_session(true, 1, "p", "rid").unwrap();
    assert!(message.contains("p") && message.contains("rid"));
    assert!(stash_label("rid", 3).contains("rid"));
}
