use pitboss::grind::budget::{BudgetReason, BudgetTracker};
use pitboss::grind::plan::{parse_plan_str, PlanBudgets, PlanLoadError, PlanValidationError};
use pitboss::grind::prompt::{
    classify_yaml_error, is_valid_name, top_level_key, PromptMetaValidationError, PromptParseError,
};
use pitboss::grind::run_dir::{RunPaths, SessionStatus};
use pitboss::grind::state::{diff_prompt_names, ResumeError, RunStatus};
use pitboss::grind::worktree::{excluded_paths, session_seq, SessionWorktree};
use pitboss::money::Usd;
use pitboss::test_runner::{log_line, push_tail, summarize, TestRunner, TestRunnerKind};
use pitboss::time::Timestamp;

fn at(text: &str) -> Timestamp {
    let t = chrono::DateTime::parse_from_rfc3339(text).unwrap();
    Timestamp::new(t.timestamp(), t.timestamp_subsec_nanos()).unwrap()
}

#[test]
fn budget_reasons_name_what_ran_out() {
    let until = at("2026-04-30T19:00:00Z");
    for (reason, part) in [
        (BudgetReason::MaxIterations { count: 2, cap: 2 }, "2"),
        (BudgetReason::MaxTokens { used: 1000, cap: 900 }, "900"),
        (
            BudgetReason::MaxCost { used: Usd::from_micros(1_500_000), cap: Usd::from_micros(1) },
            "1.5000",
        ),
        (BudgetReason::Until { now: until, until }, "2026-04-30T19:00:00Z"),
    ] {
        assert!(reason.message().contains(part), "{}", reason.message());
    }
    assert_eq!(BudgetTracker::new(PlanBudgets::none(), 3).failure_limit_value(), 3);
}

#[test]
fn plan_errors_name_the_file() {
    let malformed = parse_plan_str(Err("bad".into()), "p".into(), "/x.toml").unwrap_err();
    assert!(malformed.message().contains("/x.toml"));
    let missing = PlanLoadError::MissingName { path: "/..".into() };
    assert!(missing.message().contains("/.."));
    let unknown = PlanValidationError::UnknownPrompt { plan: "p".into(), prompt: "ghost".into() };
    assert!(unknown.message().contains("ghost"));
}

#[test]
fn yaml_errors_are_classified() {
    assert!(matches!(
        classify_yaml_error("missing field `name`", "/p.md"),
        PromptParseError::MissingName { .. }
    ));
    match classify_yaml_error("something else\nat line 3", "/p.md") {
        PromptParseError::BadFrontmatter { message, .. } => assert!(!message.contains('\n')),
        other => panic!("expected BadFrontmatter, got {other:?}"),
    }
    assert_eq!(top_level_key("weight: 1").as_deref(), Some("weight"));
    assert_eq!(top_level_key("  weight: 1"), None);
    assert_eq!(top_level_key("# note: 1"), None);
}

#[test]
fn prompt_names_are_checked() {
    assert!(is_valid_name("9lives_v2-rev"));
    assert!(!is_valid_name(""));
    assert!(!is_valid_name("-x"));
    assert!(!is_valid_name("Bad"));
    assert!(PromptMetaValidationError::InvalidName("Bad".into()).message().contains("Bad"));
    assert!(PromptMetaValidationError::WeightTooSmall
        .same(&PromptMetaValidationError::WeightTooSmall));
    assert!(!PromptMetaValidationError::WeightTooSmall
        .same(&PromptMetaValidationError::EveryTooSmall));
}

#[test]
fn resume_errors_name_the_run() {
    let gone = ResumeError::RunNotFound { run_id: "rid".into(), dir: "/d".into() };
    assert!(gone.message().contains("rid"));
    let done = ResumeError::NotResumable { run_id: "rid".into(), status: RunStatus::Completed };
    assert!(done.message().contains("Completed"));
    let none = ResumeError::NoResumableRun { dir: "/d".into() };
    assert!(none.message().contains("/d"));
    let apart = ResumeError::StateOutOfSync { run_id: "rid".into(), state_seq: 5, jsonl_seq: 1 };
    assert!(apart.message().contains('5') && apart.message().contains('1'));
}

#[test]
fn prompt_sets_are_compared_as_sets() {
    let set = |v: &[&str]| v.iter().map(|s| s.to_string()).collect::<Vec<String>>();
    assert_eq!(diff_prompt_names(&set(&["a", "b"]), &set(&["b", "a"])), None);
    assert_eq!(
        diff_prompt_names(&set(&["a", "b"]), &set(&["c", "b"])),
        Some((set(&["c"]), set(&["a"])))
    );
}

#[test]
fn worktrees_have_their_places() {
    let paths = RunPaths::for_run("/repo", "rid");
    let wt = SessionWorktree::create(&paths, "rid", 7, "seed");
    assert_eq!(wt.path(), "/repo/.pitboss/grind/rid/worktrees/session-0007");
    assert_eq!(wt.branch(), "pitboss/grind/rid-session-0007");
    assert_eq!(wt.scratchpad_seed(), "seed");
    assert_eq!(wt.failed_root(), "/repo/.pitboss/grind/rid/worktrees/failed");
    assert_eq!(wt.quarantine_path(), "/repo/.pitboss/grind/rid/worktrees/failed/session-0007");
    assert_eq!(session_seq("session-0042"), Some(42));
    assert_eq!(session_seq("session-x"), None);
    assert_eq!(session_seq("failed"), None);
    assert!(excluded_paths(false).contains(&".pitboss"));
    assert!(excluded_paths(true).len() >= excluded_paths(false).len());
    assert_eq!(SessionStatus::Okay.as_str(), "ok");
}

#[test]
fn failing_test_runs_show_the_tail() {
    let mut tail: Vec<String> = Vec::new();
    for i in 1..=90 {
        push_tail(&mut tail, format!("line-{i}"));
    }
    assert_eq!(tail.len(), 40);
    assert_eq!(tail.first().map(String::as_str), Some("line-51"));
    let summary = summarize(TestRunnerKind::Override, false, Some(7), 90, &tail);
    assert!(summary.contains("failed") && summary.contains("exit 7"));
    assert!(summary.contains("line-90") && !summary.contains("line-1\n"));
    assert_eq!(
        summarize(TestRunnerKind::Cargo, true, Some(0), 3, &Vec::new()),
        "cargo test: passed (3 lines captured)"
    );
    assert_eq!(
        summarize(TestRunnerKind::Cargo, false, Some(101), 9, &vec!["x".into(), "y".into()]),
        "cargo test: failed (exit 101)\nx\ny\n"
    );
    assert_eq!(
        summarize(TestRunnerKind::Cargo, false, None, 0, &Vec::new()),
        "cargo test: failed (exit signal)"
    );
    assert_eq!(log_line(true, "on-stderr"), "[stderr] on-stderr");
    let runner = TestRunner::from_override("/bin/sh -c true", "/wd").unwrap();
    assert!(runner.log_header().starts_with("$ /bin/sh -c true"));
    assert!(runner.log_header().contains("cwd: /wd"));
}
