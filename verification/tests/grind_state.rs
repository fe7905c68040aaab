use pitboss::grind::budget::BudgetSnapshot;
use pitboss::grind::plan::{default_plan_from_dir, GrindPlan};
use pitboss::grind::prompt::{PromptDoc, PromptMeta, PromptSource};
use pitboss::grind::run_dir::{SessionRecord, SessionStatus};
use pitboss::grind::scheduler::SchedulerState;
use pitboss::grind::state::{
    build_state, build_state_at, list_runs, most_recent_resumable, reconstruct_state_from_log, resolve_target, validate_resume,
    ResumeError, ResumeRequest, RunListing, RunState, RunStatus,
};
use pitboss::money::Usd;
use pitboss::state::TokenUsage;
use pitboss::table::Table;
use pitboss::time::Timestamp;

const REPO: &str = "/repo";

fn at(text: &str) -> Timestamp {
    let t = chrono::DateTime::parse_from_rfc3339(text).unwrap();
    Timestamp::new(t.timestamp(), t.timestamp_subsec_nanos()).unwrap()
}

fn named(run_id: &str, state: RunState) -> ResumeRequest {
    ResumeRequest::Named { run_id: run_id.to_string(), is_dir: true, state: Ok(state) }
}

fn listing(run_id: &str, state: RunState) -> RunListing {
    RunListing {
        run_id: run_id.to_string(),
        state_path: format!("{REPO}/.pitboss/grind/{run_id}/state.json"),
        state,
    }
}

fn fixture_state(run_id: &str, status: RunStatus) -> RunState {
    let mut runs: Table<u32> = Table::new();
    runs.insert("alpha", 2u32);
    runs.insert("bravo", 1u32);
    RunState {
        run_id: run_id.to_string(),
        branch: format!("pitboss/grind/{run_id}"),
        plan_name: "default".into(),
        prompt_names: vec!["alpha".into(), "bravo".into()],
        scheduler_state: SchedulerState {
            rotation: 3,
            runs_per_prompt: runs,
        },
        budget_consumed: BudgetSnapshot {
            iterations: 3,
            tokens_input: 1500,
            tokens_output: 750,
            cost_usd: Usd::from_micros(45_000),
            consecutive_failures: 0,
        },
        last_session_seq: 3,
        started_at: at("2026-04-30T17:00:00Z"),
        last_updated_at: at("2026-04-30T17:30:00Z"),
        status,
    }
}

#[test]
fn validate_resume_rejects_terminal_status() {
    let run_id = "rid";
    let s = fixture_state(run_id, RunStatus::Completed);
    let listing = resolve_target(REPO, named(run_id, s)).unwrap();
    let err =
        validate_resume(listing, "default", &["alpha".into(), "bravo".into()]).unwrap_err();
    assert!(matches!(err, ResumeError::NotResumable { .. }));
}

#[test]
fn validate_resume_detects_removed_prompt() {
    let run_id = "rid";
    let s = fixture_state(run_id, RunStatus::Active);
    let listing = resolve_target(REPO, named(run_id, s)).unwrap();
    let err = validate_resume(listing, "default", &["alpha".into()]).unwrap_err();
    match err {
        ResumeError::PromptSetChanged { removed, added, .. } => {
            assert_eq!(removed, vec!["bravo".to_string()]);
            assert!(added.is_empty());
        }
        other => panic!("expected PromptSetChanged, got {other:?}"),
    }
}

#[test]
fn validate_resume_detects_added_prompt() {
    let run_id = "rid";
    let s = fixture_state(run_id, RunStatus::Active);
    let listing = resolve_target(REPO, named(run_id, s)).unwrap();
    let err = validate_resume(
        listing,
        "default",
        &["alpha".into(), "bravo".into(), "charlie".into()],
    )
    .unwrap_err();
    match err {
        ResumeError::PromptSetChanged { added, removed, .. } => {
            assert_eq!(added, vec!["charlie".to_string()]);
            assert!(removed.is_empty());
        }
        other => panic!("expected PromptSetChanged, got {other:?}"),
    }
}

#[test]
fn validate_resume_accepts_unchanged_prompt_set() {
    let run_id = "rid";
    let s = fixture_state(run_id, RunStatus::Active);
    let listing = resolve_target(REPO, named(run_id, s)).unwrap();
    let ok = validate_resume(listing, "default", &["bravo".into(), "alpha".into()]).unwrap();
    assert_eq!(ok.run_id, run_id);
}

#[test]
fn validate_resume_rejects_renamed_plan() {
    let run_id = "rid";
    let s = fixture_state(run_id, RunStatus::Active);
    let listing = resolve_target(REPO, named(run_id, s)).unwrap();
    let err =
        validate_resume(listing, "fp-cleanup", &["alpha".into(), "bravo".into()]).unwrap_err();
    assert!(matches!(err, ResumeError::PlanRenamed { .. }));
}

#[test]
fn run_status_is_resumable_truth_table() {
    assert!(RunStatus::Active.is_resumable());
    assert!(RunStatus::Aborted.is_resumable());
    assert!(!RunStatus::Completed.is_resumable());
    assert!(!RunStatus::Failed.is_resumable());
}

fn fixture_session_record(seq: u32) -> SessionRecord {
    fixture_session_record_named(seq, "alpha", SessionStatus::Okay, 0, 0, 0)
}

fn fixture_session_record_named(
    seq: u32,
    prompt: &str,
    status: SessionStatus,
    input: u64,
    output: u64,
    cost_micros: i64,
) -> SessionRecord {
    SessionRecord {
        seq,
        run_id: "rid".into(),
        prompt: prompt.into(),
        started_at: at("2026-04-30T18:00:00Z"),
        ended_at: at("2026-04-30T18:01:00Z"),
        status,
        summary: Some(format!("session {seq}")),
        commit: Some(format!("abc{seq:040}")),
        tokens: TokenUsage {
            input,
            output,
            by_role: Table::new(),
        },
        cost_usd: Usd::from_micros(cost_micros),
        transcript_path: format!("transcripts/session-{seq:04}.log"),
    }
}

fn fixture_prompt(name: &str) -> PromptDoc {
    PromptDoc {
        meta: PromptMeta {
            name: name.into(),
            description: format!("desc for {name}"),
            weight: 1,
            every: 1,
            max_runs: None,
            verify: false,
            parallel_safe: false,
            tags: vec![],
            max_session_seconds: None,
            max_session_cost_usd: None,
        },
        body: format!("body for {name}"),
        source_path: format!("/fixture/{name}.md"),
        source_kind: PromptSource::Project,
    }
}

fn fixture_plan_one_prompt(name: &str) -> (GrindPlan, Table<PromptDoc>) {
    let prompts = vec![fixture_prompt(name)];
    let plan = default_plan_from_dir(&prompts);
    let mut lookup: Table<PromptDoc> = Table::new();
    for p in &prompts {
        lookup.insert(&p.meta.name, p.copy());
    }
    (plan, lookup)
}

fn fixture_state_aligned_with_log(records: &[SessionRecord]) -> RunState {
    let mut state = fixture_state("rid", RunStatus::Active);
    state.last_session_seq = records.iter().map(|r| r.seq).max().unwrap_or(0);
    // Align the cached scheduler_state with what the original loop would
    // have produced: every record bumps runs_per_prompt for its prompt
    // and rotation goes up by one (every-gating is absent in fixtures).
    let mut runs: Table<u32> = Table::new();
    for r in records {
        let so_far = runs.get(&r.prompt).copied().unwrap_or(0);
        runs.insert(&r.prompt, so_far + 1);
    }
    state.scheduler_state = SchedulerState {
        rotation: records.len() as u64,
        runs_per_prompt: runs,
    };
    state
}

#[test]
fn reconstruct_returns_identity_when_state_matches_jsonl_tail() {
    let (plan, prompts) = fixture_plan_one_prompt("alpha");
    let records = vec![
        fixture_session_record(1),
        fixture_session_record(2),
        fixture_session_record(3),
    ];
    let state = fixture_state_aligned_with_log(&records);
    let recon = reconstruct_state_from_log(&state, &records, plan, prompts).unwrap();
    assert_eq!(recon.records_replayed, 0);
    assert_eq!(recon.last_session_seq, 3);
    assert_eq!(recon.scheduler_state, state.scheduler_state);
}

#[test]
fn reconstruct_passes_on_empty_log_with_zero_state() {
    let (plan, prompts) = fixture_plan_one_prompt("alpha");
    let records: Vec<SessionRecord> = Vec::new();
    let mut state = fixture_state("rid", RunStatus::Active);
    state.last_session_seq = 0;
    state.scheduler_state = SchedulerState::new();
    let recon = reconstruct_state_from_log(&state, &records, plan, prompts).unwrap();
    assert_eq!(recon.records_replayed, 0);
    assert_eq!(recon.last_session_seq, 0);
}

#[test]
fn reconstruct_replays_missing_records_when_jsonl_is_ahead() {
    // The "single dropped state.json write" recovery path: state.json
    // captured rotation=2 / runs[alpha]=2, the next session landed in the
    // JSONL but the host died before state.json picked it up. We replay
    // session 3 through the scheduler and recover.
    let (plan, prompts) = fixture_plan_one_prompt("alpha");
    let records = vec![
        fixture_session_record_named(1, "alpha", SessionStatus::Okay, 100, 50, 10_000),
        fixture_session_record_named(2, "alpha", SessionStatus::Okay, 100, 50, 10_000),
        fixture_session_record_named(3, "alpha", SessionStatus::Okay, 200, 100, 20_000),
    ];
    let state = fixture_state_aligned_with_log(&records[..2]);
    let original_budget = state.budget_consumed;
    let recon = reconstruct_state_from_log(&state, &records, plan, prompts).unwrap();
    assert_eq!(recon.records_replayed, 1);
    assert_eq!(recon.last_session_seq, 3);
    assert_eq!(recon.scheduler_state.rotation, 3);
    assert_eq!(recon.scheduler_state.runs_per_prompt.get("alpha"), Some(&3));
    assert_eq!(
        recon.budget_consumed.iterations,
        original_budget.iterations + 1
    );
    assert_eq!(
        recon.budget_consumed.tokens_input,
        original_budget.tokens_input + 200
    );
    assert_eq!(
        recon.budget_consumed.tokens_output,
        original_budget.tokens_output + 100
    );
    assert_eq!(
        recon.budget_consumed.cost_usd,
        original_budget.cost_usd.plus(Usd::from_micros(20_000))
    );
}

#[test]
fn reconstruct_resets_consecutive_failures_on_replayed_success() {
    // Replayed Ok records reset the consecutive-failure counter, just like
    // the live tracker would. This keeps the escape valve in sync after a
    // recovery.
    let (plan, prompts) = fixture_plan_one_prompt("alpha");
    let records = vec![
        fixture_session_record_named(1, "alpha", SessionStatus::Error, 0, 0, 0),
        fixture_session_record_named(2, "alpha", SessionStatus::Okay, 0, 0, 0),
    ];
    let mut state = fixture_state_aligned_with_log(&records[..1]);
    state.budget_consumed.consecutive_failures = 1;
    let recon = reconstruct_state_from_log(&state, &records, plan, prompts).unwrap();
    assert_eq!(recon.budget_consumed.consecutive_failures, 0);
}

#[test]
fn reconstruct_rejects_when_state_claims_more_than_jsonl_has() {
    let (plan, prompts) = fixture_plan_one_prompt("alpha");
    let records = vec![fixture_session_record(1)];
    let mut state = fixture_state_aligned_with_log(&records);
    state.last_session_seq = 5;
    let err = reconstruct_state_from_log(&state, &records, plan, prompts).unwrap_err();
    assert!(matches!(err, ResumeError::StateOutOfSync { .. }));
}

#[test]
fn reconstruct_rejects_when_scheduler_diverges_from_recorded_prompt() {
    // The recorded prompt name is unknown to the scheduler — replay can't
    // match the source-of-truth log so we refuse rather than silently
    // producing a state that doesn't reflect what the original dispatched.
    let (plan, prompts) = fixture_plan_one_prompt("alpha");
    let records = vec![
        fixture_session_record_named(1, "alpha", SessionStatus::Okay, 0, 0, 0),
        fixture_session_record_named(2, "ghost", SessionStatus::Okay, 0, 0, 0),
    ];
    let state = fixture_state_aligned_with_log(&records[..1]);
    let err = reconstruct_state_from_log(&state, &records, plan, prompts).unwrap_err();
    assert!(matches!(err, ResumeError::StateOutOfSync { .. }));
}

#[test]
fn list_runs_returns_runs_sorted_by_last_updated_desc() {
    let mut found = Vec::new();
    for (run_id, ts) in [
        ("rid-old", "2026-04-30T10:00:00Z"),
        ("rid-new", "2026-04-30T18:00:00Z"),
        ("rid-mid", "2026-04-30T15:00:00Z"),
    ] {
        let mut s = fixture_state(run_id, RunStatus::Active);
        s.last_updated_at = at(ts);
        found.push(listing(run_id, s));
    }
    let listings = list_runs(found);
    let ids: Vec<&str> = listings.iter().map(|l| l.run_id.as_str()).collect();
    assert_eq!(ids, vec!["rid-new", "rid-mid", "rid-old"]);
}

#[test]
fn most_recent_resumable_skips_terminal_runs() {
    let mut found = Vec::new();
    for (run_id, ts, status) in [
        ("rid-completed", "2026-04-30T18:00:00Z", RunStatus::Completed),
        ("rid-aborted", "2026-04-30T17:00:00Z", RunStatus::Aborted),
        ("rid-active", "2026-04-30T16:00:00Z", RunStatus::Active),
    ] {
        let mut s = fixture_state(run_id, status);
        s.last_updated_at = at(ts);
        found.push(listing(run_id, s));
    }
    // rid-completed is the freshest but Completed is terminal; resume skips
    // it and lands on rid-aborted.
    let pick = most_recent_resumable(found).unwrap();
    assert_eq!(pick.run_id, "rid-aborted");
}

#[test]
fn most_recent_resumable_returns_none_when_grind_dir_is_missing() {
    assert!(most_recent_resumable(Vec::new()).is_none());
}

#[test]
fn resolve_target_explicit_run_not_found() {
    let request = ResumeRequest::Named {
        run_id: "ghost".to_string(),
        is_dir: false,
        state: Err("no such file".to_string()),
    };
    let err = resolve_target(REPO, request).unwrap_err();
    assert!(matches!(err, ResumeError::RunNotFound { .. }));
}

#[test]
fn resolve_target_default_no_resumable() {
    let request = ResumeRequest::MostRecent { found: Vec::new() };
    let err = resolve_target(REPO, request).unwrap_err();
    assert!(matches!(err, ResumeError::NoResumableRun { .. }));
}

#[test]
fn resolve_target_unreadable_state_names_the_run() {
    let request = ResumeRequest::Named {
        run_id: "rid".to_string(),
        is_dir: true,
        state: Err("broken".to_string()),
    };
    match resolve_target(REPO, request).unwrap_err() {
        ResumeError::StateUnreadable { run_id, source } => {
            assert_eq!(run_id, "rid");
            assert_eq!(source, "broken");
        }
        other => panic!("expected StateUnreadable, got {other:?}"),
    }
}

#[test]
fn build_state_stamps_the_last_update() {
    let s = fixture_state("rid", RunStatus::Active);
    let parts = fixture_state("rid", RunStatus::Active);
    let now = at("2026-04-30T18:00:00Z");
    let built = build_state_at(
        parts.run_id,
        parts.branch,
        parts.plan_name,
        parts.prompt_names,
        parts.scheduler_state,
        parts.budget_consumed,
        3,
        parts.started_at,
        RunStatus::Active,
        now,
    );
    assert_eq!(built, RunState { last_updated_at: now, ..s });

    let parts = fixture_state("rid", RunStatus::Active);
    let before = Timestamp::now();
    let built = build_state(
        parts.run_id,
        parts.branch,
        parts.plan_name,
        parts.prompt_names,
        parts.scheduler_state,
        parts.budget_consumed,
        3,
        parts.started_at,
        RunStatus::Active,
    );
    assert!(!built.last_updated_at.is_before(&before));
    assert!(!Timestamp::now().is_before(&built.last_updated_at));
    assert_eq!(built.run_id, "rid");
    assert_eq!(built.last_session_seq, 3);
}
