use pitboss::grind::budget::{BudgetReason, BudgetSnapshot};
use pitboss::grind::events::{BudgetWarningKind, GrindEvent, GrindStopReason};
use pitboss::grind::plan::{default_plan_from_dir, PlanBudgets};
use pitboss::grind::prompt::{PromptDoc, PromptMeta, PromptSource};
use pitboss::grind::run::{
    emit_budget_warnings, permits_needed, session_log_tail, terminal_status, BudgetWarnFlags,
    GrindRunner, RunEvent, RunStep,
};
use pitboss::grind::run_dir::{SessionRecord, SessionStatus};
use pitboss::grind::state::RunStatus;
use pitboss::money::Usd;
use pitboss::state::TokenUsage;
use pitboss::table::Table;
use pitboss::time::Timestamp;

fn at(text: &str) -> Timestamp {
    let t = chrono::DateTime::parse_from_rfc3339(text).unwrap();
    Timestamp::new(t.timestamp(), t.timestamp_subsec_nanos()).unwrap()
}

fn prompt(name: &str) -> PromptDoc {
    PromptDoc {
        meta: PromptMeta {
            name: name.to_string(),
            description: "desc".to_string(),
            weight: 1,
            every: 1,
            max_runs: None,
            verify: false,
            parallel_safe: false,
            tags: Vec::new(),
            max_session_seconds: None,
            max_session_cost_usd: None,
        },
        body: "body".to_string(),
        source_path: format!("/fixture/{name}.md"),
        source_kind: PromptSource::Project,
    }
}

fn now() -> Timestamp {
    at("2026-04-30T18:00:00Z")
}

fn record(seq: u32, status: SessionStatus) -> SessionRecord {
    SessionRecord {
        seq,
        run_id: "rid".to_string(),
        prompt: "p".to_string(),
        started_at: now(),
        ended_at: now(),
        status,
        summary: None,
        commit: None,
        tokens: TokenUsage::zero(),
        cost_usd: Usd::zero(),
        transcript_path: String::new(),
    }
}

fn runner(prompts: &[PromptDoc], budgets: PlanBudgets, limit: u32) -> GrindRunner {
    let mut lookup: Table<PromptDoc> = Table::new();
    for p in prompts {
        lookup.insert(&p.meta.name, p.copy());
    }
    GrindRunner::new(
        "/repo".to_string(),
        "rid".to_string(),
        "pitboss/grind/rid".to_string(),
        default_plan_from_dir(prompts),
        lookup,
        budgets,
        limit,
        now(),
    )
}

fn polled() -> RunEvent {
    RunEvent::Polled { draining: false, aborted: false, now: now() }
}

fn tried(got: bool) -> RunEvent {
    RunEvent::Tried { draining: false, aborted: false, got }
}

fn step(r: GrindRunner, event: RunEvent) -> GrindRunner {
    r.advance(event).0
}

#[test]
fn a_run_starts_sessions_until_its_budget_is_spent() {
    let budgets = PlanBudgets { max_iterations: Some(2), ..PlanBudgets::none() };
    let mut r = runner(&[prompt("p")], budgets, 3);
    let mut started = Vec::new();
    let mut seq = 0;
    while r.step() != RunStep::Done {
        let (next, told) = match r.step() {
            RunStep::Poll => r.advance(polled()),
            RunStep::Acquire => {
                let free = r.in_flight() == 0;
                r.advance(tried(free))
            }
            RunStep::Start => {
                seq += 1;
                r.advance(RunEvent::Started)
            }
            _ => {
                let done = record(seq, SessionStatus::Okay);
                r.advance(RunEvent::Finished { record: done, now: now() })
            }
        };
        for event in told {
            if let GrindEvent::SessionStarted { seq, prompt, .. } = event {
                started.push((seq, prompt));
            }
        }
        r = next;
    }
    assert_eq!(started, vec![(1, "p".to_string()), (2, "p".to_string())]);
    let outcome = r.finish();
    assert_eq!(outcome.sessions.len(), 2);
    assert_eq!(
        outcome.stop_reason,
        GrindStopReason::BudgetExhausted(BudgetReason::MaxIterations { count: 2, cap: 2 })
    );
    assert_eq!(outcome.run_id, "rid");
    assert_eq!(outcome.branch, "pitboss/grind/rid");
}

#[test]
fn a_shutdown_request_drains_or_aborts() {
    let r = runner(&[prompt("p")], PlanBudgets::none(), 3);
    let drained = step(r, RunEvent::Polled { draining: true, aborted: false, now: now() });
    assert_eq!(drained.step(), RunStep::Done);
    assert_eq!(drained.finish().stop_reason, GrindStopReason::Drained);
    let r = runner(&[prompt("p")], PlanBudgets::none(), 3);
    let aborted = step(r, RunEvent::Polled { draining: true, aborted: true, now: now() });
    assert_eq!(aborted.finish().stop_reason, GrindStopReason::Aborted);
}

#[test]
fn a_drained_run_waits_for_its_sessions() {
    let mut r = runner(&[prompt("p")], PlanBudgets::none(), 3);
    for event in [polled(), tried(true), RunEvent::Started] {
        r = step(r, event);
    }
    assert_eq!(r.in_flight(), 1);
    r = step(r, RunEvent::Polled { draining: true, aborted: false, now: now() });
    assert_eq!(r.step(), RunStep::Drain);
    let (r, told) =
        r.advance(RunEvent::Finished { record: record(1, SessionStatus::Okay), now: now() });
    assert_eq!(r.step(), RunStep::Done);
    assert!(matches!(told.last(), Some(GrindEvent::RunFinished { .. })));
    assert_eq!(r.finish().sessions.len(), 1);
}

#[test]
fn failures_in_a_row_end_the_run() {
    let mut r = runner(&[prompt("p")], PlanBudgets::none(), 1);
    for event in [polled(), tried(true), RunEvent::Started, polled(), tried(false)] {
        r = step(r, event);
    }
    assert_eq!(r.step(), RunStep::Join);
    r = step(r, RunEvent::Finished { record: record(1, SessionStatus::Error), now: now() });
    assert_eq!(r.step(), RunStep::Done);
    assert_eq!(r.finish().stop_reason, GrindStopReason::ConsecutiveFailureLimit { limit: 1 });
}

#[test]
fn an_exhausted_plan_completes_the_run() {
    let mut p = prompt("p");
    p.meta.max_runs = Some(0);
    let r = step(runner(&[p], PlanBudgets::none(), 3), polled());
    assert_eq!(r.step(), RunStep::Done);
    let state = r.state(RunStatus::Completed, now());
    assert_eq!(state.last_session_seq, 0);
    assert_eq!(state.scheduler_state.rotation, 1);
    assert_eq!(state.prompt_names, vec!["p".to_string()]);
    assert_eq!(r.finish().stop_reason, GrindStopReason::Completed);
}

#[test]
fn a_run_with_nothing_in_flight_waits_for_its_permits() {
    let r = step(runner(&[prompt("p")], PlanBudgets::none(), 3), polled());
    assert_eq!(r.pending().map(|p| p.meta.name.as_str()), Some("p"));
    let r = step(r, tried(false));
    assert_eq!(r.step(), RunStep::Block);
    assert_eq!(step(r, RunEvent::Acquired).step(), RunStep::Start);
    assert_eq!(permits_needed(true, 4), 1);
    assert_eq!(permits_needed(false, 4), 4);
    assert_eq!(permits_needed(false, 0), 1);
}

#[test]
fn a_sequential_session_leaves_no_permit_over() {
    for max in [1u32, 2, 4, 9] {
        let all = permits_needed(false, max);
        assert_eq!((0..max).map(|_| permits_needed(true, max)).sum::<u32>(), all);
        assert!(permits_needed(false, max) + permits_needed(true, max) > all);
        assert!(permits_needed(false, max) + permits_needed(false, max) > all);
    }
}

#[test]
fn each_budget_warns_once_at_four_fifths() {
    let budgets = PlanBudgets {
        max_iterations: Some(10),
        max_tokens: Some(1000),
        max_cost_usd: Some(Usd::from_micros(10_000_000)),
        until: Some(at("2026-04-30T18:10:00Z")),
    };
    let spent = |iterations: u32, tokens: u64, cost: i64| BudgetSnapshot {
        iterations,
        tokens_input: tokens,
        tokens_output: 0,
        cost_usd: Usd::from_micros(cost),
        consecutive_failures: 0,
    };
    let fresh = BudgetWarnFlags { iterations: false, tokens: false, cost: false, until: false };
    let (quiet, flags) = emit_budget_warnings(
        &budgets,
        spent(7, 799, 7_999_999),
        now(),
        at("2026-04-30T18:07:59Z"),
        fresh,
    );
    assert!(quiet.is_empty());
    assert_eq!(flags, fresh);
    let late = at("2026-04-30T18:08:00Z");
    let (loud, flags) =
        emit_budget_warnings(&budgets, spent(8, 800, 8_000_000), now(), late, flags);
    assert_eq!(
        loud,
        vec![
            BudgetWarningKind::Iterations { used: 8, cap: 10 },
            BudgetWarningKind::Tokens { used: 800, cap: 1000 },
            BudgetWarningKind::Cost {
                used: Usd::from_micros(8_000_000),
                cap: Usd::from_micros(10_000_000),
            },
            BudgetWarningKind::Until { elapsed_secs: 480, window_secs: 600 },
        ]
    );
    let (again, _) = emit_budget_warnings(&budgets, spent(9, 900, 9_000_000), now(), late, flags);
    assert!(again.is_empty());
}

#[test]
fn stop_reasons_map_to_terminal_statuses() {
    assert_eq!(terminal_status(GrindStopReason::Completed), RunStatus::Completed);
    assert_eq!(terminal_status(GrindStopReason::Aborted), RunStatus::Aborted);
    assert_eq!(
        terminal_status(GrindStopReason::ConsecutiveFailureLimit { limit: 3 }),
        RunStatus::Failed
    );
}

#[test]
fn a_missing_session_log_reads_as_empty() {
    assert_eq!(session_log_tail(Ok(None)), "");
    assert_eq!(session_log_tail(Ok(Some("a\nb\n".to_string()))), "a\nb\n");
}
