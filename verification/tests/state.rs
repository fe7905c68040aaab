use pitboss::plan::PhaseId;
use pitboss::state::{is_blank, state_path, RoleUsage, RunState, TokenUsage};
use pitboss::time::Timestamp;

fn at(text: &str) -> Timestamp {
    let t = chrono::DateTime::parse_from_rfc3339(text).unwrap();
    Timestamp::new(t.timestamp(), t.timestamp_subsec_nanos()).unwrap()
}

fn pid(s: &str) -> PhaseId {
    PhaseId::parse(s).unwrap()
}

#[test]
fn starting_at_takes_the_instant() {
    let now = at("2026-04-29T14:30:22Z");
    let s = RunState::starting_at("rid", "branch", pid("01"), now);
    assert_eq!(s.started_at, now);
    assert_eq!(s.run_id, "rid");
    assert!(s.completed.is_empty());
}

#[test]
fn new_initializes_empty_aggregates() {
    let before = Timestamp::now();
    let s = RunState::new("rid", "branch", pid("01"));
    assert!(!s.started_at.is_before(&before));
    assert!(!Timestamp::now().is_before(&s.started_at));
    assert_eq!(s.started_phase.as_str(), "01");
    assert_eq!(s.run_id, "rid");
    assert_eq!(s.branch, "branch");
    assert!(s.completed.is_empty());
    assert_eq!(s.attempts.len(), 0);
    assert_eq!(s.token_usage.input, 0);
    assert_eq!(s.token_usage.output, 0);
    assert_eq!(s.token_usage.by_role.len(), 0);
    assert_eq!(s.deferred_item_attempts.len(), 0);
    assert_eq!(s.original_branch, None);
    assert!(!s.aborted && !s.pending_sweep && !s.post_final_phase);
    assert_eq!(s.consecutive_sweeps, 0);
}

#[test]
fn a_file_of_whitespace_holds_no_state() {
    assert!(is_blank(b""));
    assert!(is_blank(b"  \n\t\n"));
    assert!(!is_blank(b"{ not valid json"));
}

#[test]
fn state_lives_under_play() {
    assert_eq!(state_path("/repo"), "/repo/.pitboss/play/state.json");
}

#[test]
fn fold_adds_up_totals_and_roles() {
    let mut total = TokenUsage::zero();
    let mut more = TokenUsage { input: 10, output: 5, ..TokenUsage::zero() };
    more.by_role.insert("fixer", RoleUsage { input: 10, output: 5 });
    total.fold(&more);
    total.fold(&more);
    assert_eq!((total.input, total.output), (20, 10));
    assert_eq!(total.by_role.get("fixer"), Some(&RoleUsage { input: 20, output: 10 }));
}
