use pitboss::grind::budget::{
    resolve_budgets, session_cost_usd, BudgetCheck, BudgetReason, BudgetTracker, ModelPricing,
};
use pitboss::grind::plan::PlanBudgets;
use pitboss::grind::run_dir::{SessionRecord, SessionStatus};
use pitboss::money::Usd;
use pitboss::state::TokenUsage;
use pitboss::table::Table;
use pitboss::time::Timestamp;

fn at(text: &str) -> Timestamp {
    let t = chrono::DateTime::parse_from_rfc3339(text).unwrap();
    Timestamp::new(t.timestamp(), t.timestamp_subsec_nanos()).unwrap()
}

fn usd(micros: i64) -> Usd {
    Usd::from_micros(micros)
}

fn record(
    seq: u32,
    status: SessionStatus,
    input: u64,
    output: u64,
    cost_micros: i64,
) -> SessionRecord {
    let started = at("2026-04-30T18:00:00Z");
    let ended = at("2026-04-30T18:01:00Z");
    SessionRecord {
        seq,
        run_id: "rid".into(),
        prompt: "p".into(),
        started_at: started,
        ended_at: ended,
        status,
        summary: None,
        commit: None,
        tokens: TokenUsage {
            input,
            output,
            by_role: Table::new(),
        },
        cost_usd: usd(cost_micros),
        transcript_path: "transcripts/session-0001.log".to_string(),
    }
}

#[test]
fn empty_tracker_checks_ok() {
    let t = BudgetTracker::new(PlanBudgets::none(), 3);
    assert_eq!(t.check(), BudgetCheck::Within);
    assert_eq!(t.iterations(), 0);
    assert_eq!(t.total_tokens(), 0);
    assert_eq!(t.total_cost_usd(), usd(0));
    assert_eq!(t.consecutive_failures(), 0);
}

#[test]
fn max_iterations_trips_after_record() {
    let mut t = BudgetTracker::new(
        PlanBudgets {
            max_iterations: Some(2),
            ..PlanBudgets::none()
        },
        3,
    );
    assert_eq!(t.check(), BudgetCheck::Within);
    t.record_session(&record(1, SessionStatus::Okay, 0, 0, 0));
    assert_eq!(t.check(), BudgetCheck::Within);
    t.record_session(&record(2, SessionStatus::Okay, 0, 0, 0));
    assert_eq!(
        t.check(),
        BudgetCheck::Exhausted(BudgetReason::MaxIterations { count: 2, cap: 2 })
    );
}

#[test]
fn until_trips_when_clock_passes_cutoff() {
    let until = at("2026-04-30T19:00:00Z");
    let t = BudgetTracker::new(
        PlanBudgets {
            until: Some(until),
            ..PlanBudgets::none()
        },
        3,
    );
    let before = at("2026-04-30T18:30:00Z");
    let after = at("2026-04-30T19:00:01Z");
    assert_eq!(t.check_with_now(before), BudgetCheck::Within);
    match t.check_with_now(after) {
        BudgetCheck::Exhausted(BudgetReason::Until { .. }) => {}
        other => panic!("expected Until exhaustion, got {other:?}"),
    }
}

#[test]
fn until_is_held_against_the_system_clock() {
    let long_past = PlanBudgets {
        until: Some(at("1970-01-02T00:00:00Z")),
        ..PlanBudgets::none()
    };
    let far_off = PlanBudgets {
        until: Some(at("9000-01-01T00:00:00Z")),
        ..PlanBudgets::none()
    };
    assert!(matches!(
        BudgetTracker::new(long_past, 3).check(),
        BudgetCheck::Exhausted(BudgetReason::Until { .. })
    ));
    assert_eq!(BudgetTracker::new(far_off, 3).check(), BudgetCheck::Within);
}

#[test]
fn max_tokens_trips_at_or_above_cap() {
    let mut t = BudgetTracker::new(
        PlanBudgets {
            max_tokens: Some(1000),
            ..PlanBudgets::none()
        },
        3,
    );
    t.record_session(&record(1, SessionStatus::Okay, 400, 200, 0));
    assert_eq!(t.check(), BudgetCheck::Within);
    t.record_session(&record(2, SessionStatus::Okay, 400, 0, 0));
    match t.check() {
        BudgetCheck::Exhausted(BudgetReason::MaxTokens { used, cap }) => {
            assert_eq!(used, 1000);
            assert_eq!(cap, 1000);
        }
        other => panic!("expected MaxTokens, got {other:?}"),
    }
}

#[test]
fn max_cost_trips_at_or_above_cap() {
    let mut t = BudgetTracker::new(
        PlanBudgets {
            max_cost_usd: Some(usd(1_000_000)),
            ..PlanBudgets::none()
        },
        3,
    );
    t.record_session(&record(1, SessionStatus::Okay, 0, 0, 400_000));
    t.record_session(&record(2, SessionStatus::Okay, 0, 0, 600_000));
    match t.check() {
        BudgetCheck::Exhausted(BudgetReason::MaxCost { used, cap }) => {
            assert_eq!(used, usd(1_000_000));
            assert_eq!(cap, usd(1_000_000));
        }
        other => panic!("expected MaxCost, got {other:?}"),
    }
}

#[test]
fn consecutive_failures_reset_on_success() {
    let mut t = BudgetTracker::new(PlanBudgets::none(), 3);
    t.record_session(&record(1, SessionStatus::Error, 0, 0, 0));
    t.record_session(&record(2, SessionStatus::Timeout, 0, 0, 0));
    assert_eq!(t.consecutive_failures(), 2);
    assert!(!t.consecutive_failure_limit_reached());
    t.record_session(&record(3, SessionStatus::Okay, 0, 0, 0));
    assert_eq!(t.consecutive_failures(), 0);
    t.record_session(&record(4, SessionStatus::Error, 0, 0, 0));
    t.record_session(&record(5, SessionStatus::Error, 0, 0, 0));
    t.record_session(&record(6, SessionStatus::Error, 0, 0, 0));
    assert!(t.consecutive_failure_limit_reached());
}

#[test]
fn dirty_does_not_count_as_failure() {
    let mut t = BudgetTracker::new(PlanBudgets::none(), 3);
    t.record_session(&record(1, SessionStatus::Error, 0, 0, 0));
    t.record_session(&record(2, SessionStatus::Dirty, 0, 0, 0));
    assert_eq!(t.consecutive_failures(), 0);
}

#[test]
fn aborted_leaves_counter_alone() {
    let mut t = BudgetTracker::new(PlanBudgets::none(), 3);
    t.record_session(&record(1, SessionStatus::Error, 0, 0, 0));
    t.record_session(&record(2, SessionStatus::Aborted, 0, 0, 0));
    assert_eq!(t.consecutive_failures(), 1);
}

#[test]
fn consecutive_failure_limit_zero_disables_escape_valve() {
    let mut t = BudgetTracker::new(PlanBudgets::none(), 0);
    for seq in 1..=10 {
        t.record_session(&record(seq, SessionStatus::Error, 0, 0, 0));
    }
    assert!(!t.consecutive_failure_limit_reached());
}

#[test]
fn iteration_check_takes_priority_over_token_check() {
    // Same input that trips both — the iteration cap is reported because
    // that's the cheaper / cleaner halt reason and the order is
    // documented.
    let mut t = BudgetTracker::new(
        PlanBudgets {
            max_iterations: Some(1),
            max_tokens: Some(1),
            ..PlanBudgets::none()
        },
        3,
    );
    t.record_session(&record(1, SessionStatus::Okay, 100, 0, 0));
    match t.check() {
        BudgetCheck::Exhausted(BudgetReason::MaxIterations { .. }) => {}
        other => panic!("expected MaxIterations to win, got {other:?}"),
    }
}

#[test]
fn resolve_budgets_layers_config_plan_cli() {
    let config = PlanBudgets {
        max_iterations: Some(10),
        max_tokens: Some(1_000_000),
        ..PlanBudgets::none()
    };
    let plan = PlanBudgets {
        max_iterations: Some(5),
        max_cost_usd: Some(usd(2_000_000)),
        ..PlanBudgets::none()
    };
    let cli = PlanBudgets {
        max_tokens: Some(50_000),
        ..PlanBudgets::none()
    };
    let r = resolve_budgets(&config, &plan, &cli);
    // CLI's max_tokens wins.
    assert_eq!(r.max_tokens, Some(50_000));
    // Plan's max_iterations wins over config.
    assert_eq!(r.max_iterations, Some(5));
    // Plan supplied max_cost; config did not.
    assert_eq!(r.max_cost_usd, Some(usd(2_000_000)));
    // Nothing supplied until.
    assert_eq!(r.until, None);
}

#[test]
fn resolve_budgets_cli_clears_nothing() {
    // Resolution is additive: a CLI struct with all-`None` fields leaves
    // earlier layers untouched. (To "unset" a budget the user removes the
    // line from the source layer.)
    let config = PlanBudgets {
        max_iterations: Some(10),
        ..PlanBudgets::none()
    };
    let plan = PlanBudgets::none();
    let cli = PlanBudgets::none();
    let r = resolve_budgets(&config, &plan, &cli);
    assert_eq!(r.max_iterations, Some(10));
}

#[test]
fn session_cost_usd_uses_pricing_table() {
    let mut pricing: Table<ModelPricing> = Table::new();
    pricing.insert(
        "opus",
        ModelPricing {
            input_micros_per_million: 15_000_000,
            output_micros_per_million: 75_000_000,
        },
    );
    let cost = session_cost_usd(&pricing, "opus", 1_000_000, 0);
    // 1M input * $15/M = $15.
    assert_eq!(cost, usd(15_000_000));
    // Unknown model → 0.
    assert_eq!(session_cost_usd(&pricing, "no-such-model", 1_000_000, 0), usd(0));
    // Add a custom price → cost reflects it.
    pricing.insert(
        "custom",
        ModelPricing {
            input_micros_per_million: 1_000_000,
            output_micros_per_million: 2_000_000,
        },
    );
    let cost = session_cost_usd(&pricing, "custom", 1_000_000, 500_000);
    // 1M * $1 + 0.5M * $2 = $2.
    assert_eq!(cost, usd(2_000_000));
}
