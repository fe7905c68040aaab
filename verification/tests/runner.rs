use pitboss::config::{
    AuditConfig, Budgets, CavemanConfig, Config, ModelRoles, RetryBudgets, SweepConfig,
};
use pitboss::agent::{Role, StopReason};
use pitboss::deferred::{DeferredDoc, DeferredItem, DeferredPhase};
use pitboss::grind::budget::ModelPricing;
use pitboss::money::Usd;
use pitboss::plan::{Phase, PhaseId, Plan};
use pitboss::runner::drain::{DrainEvent, DrainStep, FinalDrain};
use pitboss::runner::events::Event;
use pitboss::runner::phase_run::{PhaseEvent, PhaseRun, PhaseStep};
use pitboss::runner::pipeline::{HaltReason, PipelineOutcome};
use pitboss::runner::sweep_run::{SweepEvent, SweepRun, SweepStep};
use pitboss::runner::{
    after_phase, check_usage, fresh_run_state, judge_stop, FinishMove, Gate, PhaseResult,
    PhaseStart, RunMove, RunSummary, Runner, SweepSettle, SweepStart,
};
use pitboss::runner::validation::{Validation, ValidationEvent, ValidationResult, ValidationStep};
use pitboss::state::{RoleUsage, TokenUsage};
use pitboss::table::Table;
use pitboss::time::Timestamp;

fn at(text: &str) -> Timestamp {
    let t = chrono::DateTime::parse_from_rfc3339(text).unwrap();
    Timestamp::new(t.timestamp(), t.timestamp_subsec_nanos()).unwrap()
}

fn pid(s: &str) -> PhaseId {
    PhaseId::parse(s).unwrap()
}

fn config() -> Config {
    Config {
        models: ModelRoles {
            planner: "planner-model".into(),
            implementer: "implementer-model".into(),
            auditor: "auditor-model".into(),
            fixer: "fixer-model".into(),
        },
        retries: RetryBudgets { fixer_max_attempts: 2 },
        audit: AuditConfig { enabled: true, small_fix_line_limit: 30 },
        sweep: SweepConfig {
            enabled: true,
            trigger_min_items: 5,
            max_consecutive: 1,
            audit_enabled: true,
            escalate_after: 3,
            final_sweep_enabled: true,
            final_sweep_max_iterations: 3,
        },
        budgets: Budgets { max_total_tokens: None, max_total_usd: None, pricing: Table::new() },
        caveman: CavemanConfig::default(),
        branch_prefix: "pitboss/play/".into(),
    }
}

#[test]
fn fresh_run_state_uses_branch_prefix_and_timestamp() {
    let plan = Plan::new(
        pid("01"),
        vec![Phase { id: pid("01"), title: "First".into(), body: String::new() }],
    );
    let now = at("2026-04-29T14:30:22Z");
    let state = fresh_run_state(&plan, &config(), now);
    assert_eq!(state.run_id, "20260429T143022Z");
    assert_eq!(state.branch, "pitboss/play/20260429T143022Z");
    assert_eq!(state.started_phase, pid("01"));
    assert_eq!(state.started_at, now);
    assert!(state.completed.is_empty());
}

#[test]
fn halt_reason_display_summaries_are_human_readable() {
    assert_eq!(HaltReason::PlanTampered.message(), "plan.md was modified by the agent");
    assert!(HaltReason::DeferredInvalid("bad".into()).message().contains("deferred.md"));
    assert!(HaltReason::TestsFailed("nope".into()).message().contains("tests failed"));
    assert!(HaltReason::AgentFailure("boom".into()).message().contains("boom"));
}

fn plan() -> Plan {
    let phase = |id: &str| Phase { id: pid(id), title: format!("T{id}"), body: "b\n".into() };
    Plan::new(pid("01"), vec![phase("01"), phase("02")])
}

fn backlog(n: usize) -> DeferredDoc {
    DeferredDoc {
        items: (0..n).map(|i| DeferredItem { text: format!("item {i}"), done: false }).collect(),
        phases: Vec::new(),
    }
}

fn runner(deferred: DeferredDoc) -> Runner {
    let state = fresh_run_state(&plan(), &config(), at("2026-04-29T14:30:22Z"));
    Runner::new("/repo".into(), config(), plan(), deferred, state)
}

#[test]
fn phases_are_finished_in_order() {
    let mut r = runner(backlog(0));
    match r.start_phase() {
        PhaseStart::Started { phase, attempt } => {
            assert_eq!(phase.id, pid("01"));
            assert_eq!(attempt, 1);
        }
        other => panic!("expected a start, got {other:?}"),
    }
    assert_eq!(r.attempts(&pid("01")), 1);
    let first = r.finish_phase(&pid("01"), Some("abc".into()));
    assert_eq!(
        first,
        PhaseResult::Advanced {
            phase_id: pid("01"),
            next_phase: Some(pid("02")),
            commit: Some("abc".into()),
        }
    );
    assert_eq!(after_phase(&first), RunMove::NextPhase);
    assert_eq!(r.plan().current_phase, pid("02"));
    assert_eq!(r.state().completed, vec![pid("01")]);
    assert!(!r.is_post_final_phase_state());
    let last = r.finish_phase(&pid("02"), None);
    assert_eq!(after_phase(&last), RunMove::Finish);
    assert!(r.is_post_final_phase_state());
}

#[test]
fn a_plan_without_its_current_phase_cannot_start() {
    let state = fresh_run_state(&plan(), &config(), at("2026-04-29T14:30:22Z"));
    let mut lost = plan();
    lost.current_phase = pid("99");
    let mut r = Runner::new("/repo".into(), config(), lost, backlog(0), state);
    assert_eq!(r.start_phase(), PhaseStart::Missing("plan.current_phase \"99\" is not present in plan.phases".into()));
}

#[test]
fn a_spent_budget_halts_the_next_phase() {
    let mut cfg = config();
    cfg.budgets.max_total_tokens = Some(100);
    let mut usage = TokenUsage::zero();
    assert_eq!(check_usage(&cfg, &usage), None);
    usage.input = 60;
    usage.output = 40;
    assert_eq!(
        check_usage(&cfg, &usage).map(|h| h.message()),
        Some("budget exceeded: token budget exceeded: 100 >= cap 100".to_string())
    );
    cfg.budgets.max_total_tokens = None;
    cfg.budgets.max_total_usd = Some(Usd::from_micros(2_000_000));
    cfg.budgets.pricing.insert(
        "implementer-model",
        ModelPricing { input_micros_per_million: 1_000_000, output_micros_per_million: 2_000_000 },
    );
    usage.by_role.insert("implementer", RoleUsage { input: 1_000_000, output: 500_000 });
    assert_eq!(
        check_usage(&cfg, &usage).map(|h| h.message()),
        Some("budget exceeded: USD budget exceeded: $2.0000 >= cap $2.0000".to_string())
    );
}

#[test]
fn a_big_backlog_owes_a_sweep_after_the_phase() {
    let mut r = runner(backlog(5));
    assert_eq!(r.gate(None), Gate::Phase { persist: false });
    r.start_phase();
    r.finish_phase(&pid("01"), None);
    assert!(r.state().pending_sweep);
    assert_eq!(r.gate(Some(backlog(5))), Gate::Sweep { after: pid("01") });
    // The backlog shrank on disk below the trigger: the sweep is dropped.
    let mut small = runner(backlog(5));
    small.start_phase();
    small.finish_phase(&pid("01"), None);
    assert_eq!(small.gate(Some(backlog(1))), Gate::Phase { persist: true });
    assert!(!small.state().pending_sweep);
}

#[test]
fn suppressed_sweeps_never_run() {
    let mut r = runner(backlog(5)).skip_sweep(true);
    r.start_phase();
    r.finish_phase(&pid("01"), None);
    assert!(!matches!(r.gate(Some(backlog(5))), Gate::Sweep { .. }));
    assert!(!r.should_run_final_sweep_loop());
    let mut forced = runner(backlog(1)).force_sweep(true);
    assert!(forced.state().pending_sweep);
    forced.state_mut().completed.push(pid("01"));
    assert!(matches!(forced.gate(Some(backlog(1))), Gate::Sweep { .. }));
}

#[test]
fn a_sweep_counts_what_it_resolved() {
    let mut r = runner(backlog(3));
    let ticket = match r.start_sweep(&pid("01")) {
        SweepStart::Started(t) => t,
        SweepStart::Halted(reason) => panic!("halted: {reason:?}"),
    };
    assert_eq!(ticket.pre_unchecked, 3);
    let mut after = backlog(3);
    after.items[1].done = true;
    assert_eq!(r.settle_dispatch(ValidationResult::Continue(after)), None);
    assert!(r.kept_phases(&ticket));
    assert_eq!(r.sweep_resolved(&ticket), 1);
    let (result, _) = r.finish_sweep(&pid("01"), &ticket, Some("abc".into()));
    assert!(matches!(result, PhaseResult::Advanced { .. }));
    assert_eq!(r.deferred().items.len(), 2);
    assert!(!r.state().pending_sweep);
    assert_eq!(r.state().consecutive_sweeps, 1);
}

#[test]
fn an_invalid_deferred_file_halts() {
    let mut r = runner(backlog(1));
    let v = Validation::new("a", b"plan")
        .advance(ValidationEvent::Stopped(StopReason::Completed))
        .advance(ValidationEvent::PlanRead(b"plan".to_vec()))
        .advance(ValidationEvent::DeferredRead("## Deferred items\n\nx\n".into()))
        .advance(ValidationEvent::PlanRestored)
        .advance(ValidationEvent::DeferredRestored);
    let halt = r.settle_dispatch(v.finish().unwrap()).unwrap();
    assert!(halt.message().contains("line 3"));
    assert_eq!(r.deferred().items.len(), 1);
}

#[test]
fn items_that_survive_sweeps_go_stale() {
    let mut r = runner(backlog(1));
    let mut told: Vec<Event> = Vec::new();
    for _ in 0..3 {
        told.extend(r.apply_sweep_staleness(&["item 0".to_string()]));
    }
    assert_eq!(told, vec![Event::DeferredItemStale { text: "item 0".into(), attempts: 3 }]);
    assert_eq!(r.stale_items().len(), 1);
}

#[test]
fn a_finished_run_drains_its_backlog() {
    let mut r = runner(backlog(1));
    r.start_phase();
    r.finish_phase(&pid("01"), None);
    r.finish_phase(&pid("02"), None);
    assert!(r.should_run_final_sweep_loop());
    assert_eq!(r.finish_or_drain(), FinishMove::Drain { after: pid("02") });
    let mut clean = runner(backlog(0));
    clean.finish_phase(&pid("01"), None);
    clean.finish_phase(&pid("02"), None);
    assert!(matches!(clean.finish_or_drain(), FinishMove::Finished { .. }));
}

#[test]
fn agents_that_fail_halt_the_phase() {
    assert_eq!(judge_stop(StopReason::Completed, "a"), None);
    assert_eq!(
        judge_stop(StopReason::Timeout, "a").map(|h| h.message()),
        Some("agent failure: agent \"a\" timed out after 3600s".to_string())
    );
    assert!(judge_stop(StopReason::Cancelled, "a").unwrap().message().contains("cancelled"));
    assert_eq!(
        judge_stop(StopReason::Error("boom".into()), "a"),
        Some(HaltReason::AgentFailure("boom".into()))
    );
}

#[test]
fn a_clean_dispatch_passes_validation() {
    let text = "## Deferred items\n\n- [ ] one\n- [x] two\n";
    let v = Validation::new("a", b"plan");
    assert_eq!(v.step(), ValidationStep::Dispatch);
    let v = v.advance(ValidationEvent::Stopped(StopReason::Completed));
    assert_eq!(v.step(), ValidationStep::ReadPlan);
    let v = v.advance(ValidationEvent::PlanRead(b"plan".to_vec()));
    assert_eq!(v.step(), ValidationStep::ReadDeferred);
    let v = v.advance(ValidationEvent::DeferredRead(text.into()));
    assert_eq!(v.step(), ValidationStep::Passed);
    let mut r = runner(backlog(5));
    assert_eq!(r.settle_dispatch(v.finish().unwrap()), None);
    assert_eq!(r.deferred().items.len(), 2);
    assert!(r.deferred().items[1].done);
}

#[test]
fn a_changed_plan_is_restored_before_the_halt() {
    let v = Validation::new("a", b"one")
        .advance(ValidationEvent::Stopped(StopReason::Completed))
        .advance(ValidationEvent::PlanRead(b"two".to_vec()));
    assert_eq!(v.step(), ValidationStep::RestorePlan);
    let v = v.advance(ValidationEvent::DeferredRead(String::new()));
    assert_eq!(v.step(), ValidationStep::RestorePlan);
    let v = v.advance(ValidationEvent::PlanRestored);
    assert_eq!(v.step(), ValidationStep::RestoreDeferred);
    let v = v.advance(ValidationEvent::DeferredRestored);
    assert_eq!(v.step(), ValidationStep::Halted);
    assert_eq!(v.finish(), Some(ValidationResult::Halt(HaltReason::PlanTampered)));
}

#[test]
fn an_unreadable_backlog_is_restored_before_the_halt() {
    let v = Validation::new("a", b"one")
        .advance(ValidationEvent::Stopped(StopReason::Completed))
        .advance(ValidationEvent::PlanRead(b"one".to_vec()))
        .advance(ValidationEvent::DeferredRead("stray\n".into()));
    assert_eq!(v.step(), ValidationStep::RestorePlan);
    let v = v.advance(ValidationEvent::PlanRestored);
    assert_eq!(v.step(), ValidationStep::RestoreDeferred);
    let v = v.advance(ValidationEvent::DeferredRestored);
    assert_eq!(
        v.finish(),
        Some(ValidationResult::Halt(HaltReason::DeferredInvalid(
            "line 1: unexpected content \"stray\"".into()
        )))
    );
}

#[test]
fn a_failed_dispatch_restores_both_files_and_counts_its_tokens() {
    let mut r = runner(backlog(1));
    let mut tokens = TokenUsage::zero();
    tokens.input = 7;
    tokens.output = 5;
    let v = Validation::new("claw", b"one");
    let (v, told) = r.end_dispatch(v, Role::Implementer, &tokens, StopReason::Timeout);
    assert_eq!(told, Event::UsageUpdated(r.state().token_usage.copy()));
    assert_eq!((r.state().token_usage.input, r.state().token_usage.output), (7, 5));
    assert_eq!(v.step(), ValidationStep::RestorePlan);
    let v = v.advance(ValidationEvent::PlanRestored);
    assert_eq!(v.step(), ValidationStep::RestoreDeferred);
    let v = v.advance(ValidationEvent::DeferredRestored);
    assert_eq!(v.step(), ValidationStep::Halted);
    assert_eq!(
        v.finish(),
        Some(ValidationResult::Halt(HaltReason::AgentFailure(
            "agent \"claw\" timed out after 3600s".into()
        )))
    );
    assert_eq!(Validation::new("claw", b"one").finish(), None);
}

#[test]
fn requests_carry_their_role_model_and_log() {
    let r = runner(backlog(2));
    let phase = plan().phases[0].clone();
    let request = r.implementer_request(&phase, 1);
    assert_eq!(request.role, Role::Implementer);
    assert_eq!(request.model, "implementer-model");
    assert_eq!(request.workdir, "/repo");
    assert_eq!(request.log_path, "/repo/.pitboss/play/logs/phase-01-implementer-1.log");
    assert!(request.user_prompt.contains("# Phase 01: T01"));
    let fix = r.fixer_request(Some(&phase), &pid("01"), 2, "1 failed");
    assert_eq!(fix.role, Role::Fixer);
    assert!(fix.user_prompt.contains("1 failed"));
    let audit = r.auditor_request(&phase, "diff --git");
    assert_eq!(audit.model, "auditor-model");
    assert!(audit.user_prompt.contains("diff --git"));
    let sweep = r.sweep_request(&pid("01"), None, Some(1), 4);
    assert!(sweep.user_prompt.contains("- [ ] item 0"));
    assert!(!sweep.user_prompt.contains("- [ ] item 1"));
    assert_eq!(sweep.log_path, r.sweep_log_path(&pid("01"), "implementer", 4));
    assert_ne!(sweep.log_path, r.attempt_log_path(&pid("01"), "implementer", 4));
}

#[test]
fn usage_is_folded_under_its_role() {
    let mut r = runner(backlog(0));
    let mut tokens = TokenUsage::zero();
    tokens.input = 7;
    tokens.output = 3;
    r.fold_token_usage(Role::Fixer, &tokens);
    r.fold_token_usage(Role::Fixer, &tokens);
    assert_eq!(r.state().token_usage.input, 14);
    assert_eq!(
        r.state().token_usage.by_role.get("fixer"),
        Some(&RoleUsage { input: 14, output: 6 })
    );
}

fn started_phase(r: &mut Runner) -> PhaseRun {
    match r.start_phase() {
        PhaseStart::Started { phase, attempt } => {
            let (run, told) = PhaseRun::new(phase, attempt);
            assert!(matches!(told, Event::PhaseStarted { .. }));
            run
        }
        other => panic!("expected a start, got {other:?}"),
    }
}

fn staged(has_changes: bool) -> PipelineOutcome {
    PipelineOutcome::Staged { has_changes }
}

#[test]
fn a_phase_with_changes_commits_once_and_writes_the_plan() {
    let mut r = runner(backlog(1));
    let run = started_phase(&mut r);
    assert_eq!(run.step(), PhaseStep::Pipeline);
    assert_eq!(run.commit_message(), None);
    let (run, _) = run.advance(&mut r, PhaseEvent::PipelineEnded(staged(true)));
    assert_eq!(run.step(), PhaseStep::Commit);
    assert_eq!(run.commit_message().as_deref(), Some("[pitboss] phase 01: T01"));
    assert!(r.state().completed.is_empty());
    let (run, _) = run.advance(&mut r, PhaseEvent::Committed("abc".into()));
    assert_eq!(run.step(), PhaseStep::WriteDeferred);
    assert_eq!(r.state().completed, vec![pid("01")]);
    let (run, _) = run.advance(&mut r, PhaseEvent::DeferredWritten);
    assert_eq!(run.step(), PhaseStep::WritePlan);
    assert_eq!(r.plan().current_phase, pid("02"));
    let (run, told) = run.advance(&mut r, PhaseEvent::PlanWritten);
    assert_eq!((run.step(), told), (PhaseStep::SaveState, None));
    let (run, told) = run.advance(&mut r, PhaseEvent::StateSaved);
    assert_eq!(
        told,
        Some(Event::PhaseCommitted { phase_id: pid("01"), commit: Some("abc".into()) })
    );
    assert_eq!(
        run.finish(),
        Some(PhaseResult::Advanced {
            phase_id: pid("01"),
            next_phase: Some(pid("02")),
            commit: Some("abc".into()),
        })
    );
}

#[test]
fn the_last_phase_without_changes_writes_no_plan_and_no_commit() {
    let mut r = runner(backlog(0));
    r.finish_phase(&pid("01"), None);
    let run = started_phase(&mut r);
    let (run, _) = run.advance(&mut r, PhaseEvent::PipelineEnded(staged(false)));
    assert_eq!(run.step(), PhaseStep::WriteDeferred);
    let (run, _) = run.advance(&mut r, PhaseEvent::DeferredWritten);
    assert_eq!(run.step(), PhaseStep::SaveState);
    let (run, told) = run.advance(&mut r, PhaseEvent::StateSaved);
    assert_eq!(told, Some(Event::PhaseCommitted { phase_id: pid("02"), commit: None }));
    assert_eq!(
        run.finish(),
        Some(PhaseResult::Advanced { phase_id: pid("02"), next_phase: None, commit: None })
    );
    assert!(r.state().post_final_phase);
}

#[test]
fn a_halted_phase_never_commits() {
    let mut r = runner(backlog(0));
    let run = started_phase(&mut r);
    let halted = PipelineOutcome::Halted(HaltReason::PlanTampered);
    let (run, _) = run.advance(&mut r, PhaseEvent::PipelineEnded(halted));
    assert_eq!(run.step(), PhaseStep::Halted);
    let (run, told) = run.advance(&mut r, PhaseEvent::Committed("abc".into()));
    assert_eq!((run.step(), told), (PhaseStep::Halted, None));
    assert!(r.state().completed.is_empty());
    assert_eq!(r.plan().current_phase, pid("01"));
    assert_eq!(
        run.finish(),
        Some(PhaseResult::Halted { phase_id: pid("01"), reason: HaltReason::PlanTampered })
    );
}

fn started_sweep(r: &mut Runner, persist: bool) -> SweepRun {
    match r.start_sweep(&pid("01")) {
        SweepStart::Started(ticket) => {
            let (run, told) = SweepRun::new(pid("01"), ticket, persist);
            assert!(matches!(told, Event::SweepStarted { .. }));
            run
        }
        SweepStart::Halted(reason) => panic!("halted: {reason:?}"),
    }
}

fn sweep_left(r: &mut Runner, doc: DeferredDoc) {
    assert_eq!(r.settle_dispatch(ValidationResult::Continue(doc)), None);
}

#[test]
fn a_sweep_commits_what_it_staged() {
    let mut r = runner(backlog(3));
    r.owe_sweep();
    let run = started_sweep(&mut r, true);
    let mut after = backlog(3);
    after.items[1].done = true;
    sweep_left(&mut r, after);
    let (run, told) = run.advance(&mut r, SweepEvent::PipelineEnded(staged(true)));
    assert_eq!((run.step(), told.len()), (SweepStep::Commit, 0));
    assert_eq!(
        run.commit_message().as_deref(),
        Some("[pitboss] sweep after phase 01: 1 deferred items resolved")
    );
    let (run, _) = run.advance(&mut r, SweepEvent::Committed("abc".into()));
    assert_eq!(run.step(), SweepStep::WriteDeferred);
    assert_eq!(r.deferred().items.len(), 2);
    let (run, _) = run.advance(&mut r, SweepEvent::DeferredWritten);
    assert_eq!(run.step(), SweepStep::SaveState);
    let (run, told) = run.advance(&mut r, SweepEvent::StateSaved);
    assert_eq!(
        told,
        vec![Event::SweepCompleted { after: pid("01"), resolved: 1, commit: Some("abc".into()) }]
    );
    assert_eq!(
        run.finish(),
        Some(PhaseResult::Advanced {
            phase_id: pid("01"),
            next_phase: Some(pid("01")),
            commit: Some("abc".into()),
        })
    );
    assert!(!r.state().pending_sweep);
    assert_eq!(r.state().consecutive_sweeps, 1);
    assert!(r.state().completed.is_empty());
}

#[test]
fn a_sweep_without_changes_lands_without_a_commit() {
    let mut r = runner(backlog(1));
    let run = started_sweep(&mut r, false);
    let (run, _) = run.advance(&mut r, SweepEvent::PipelineEnded(staged(false)));
    assert_eq!(run.step(), SweepStep::WriteDeferred);
    let (run, told) = run.advance(&mut r, SweepEvent::DeferredWritten);
    assert_eq!(run.step(), SweepStep::Advanced);
    assert_eq!(
        told,
        vec![Event::SweepCompleted { after: pid("01"), resolved: 0, commit: None }]
    );
}

#[test]
fn a_sweep_that_edits_the_phases_block_is_undone() {
    let mut r = runner(backlog(1));
    r.owe_sweep();
    let run = started_sweep(&mut r, true);
    let mut edited = backlog(0);
    edited.phases.push(DeferredPhase {
        source_phase: pid("01"),
        title: "new".into(),
        body: "b\n".into(),
    });
    let ticket_kept = r.settle_sweep(run.ticket(), true, &pid("01"));
    assert!(matches!(ticket_kept, SweepSettle::Commit(_)));
    sweep_left(&mut r, edited);
    let (run, _) = run.advance(&mut r, SweepEvent::PipelineEnded(staged(true)));
    assert_eq!((run.step(), run.commit_message()), (SweepStep::Restore, None));
    let text = "## Deferred items\n\n- [ ] item 0\n";
    let (run, told) = run.advance(&mut r, SweepEvent::Restored(text.into()));
    let reason = || HaltReason::DeferredInvalid("sweep modified Deferred phases".into());
    assert_eq!(told, vec![Event::SweepHalted { after: pid("01"), reason: reason() }]);
    assert_eq!(r.deferred().items.len(), 1);
    assert!(r.deferred().phases.is_empty());
    assert_eq!(r.state().deferred_item_attempts.get("item 0"), Some(&1));
    assert!(r.state().pending_sweep);
    assert_eq!(
        run.finish(),
        Some(PhaseResult::Halted { phase_id: pid("01"), reason: reason() })
    );
}

#[test]
fn a_halted_sweep_counts_its_survivors() {
    let mut r = runner(backlog(1));
    for n in 1..=3u32 {
        let run = started_sweep(&mut r, true);
        let halted = PipelineOutcome::Halted(HaltReason::TestsFailed("x".into()));
        let (run, told) = run.advance(&mut r, SweepEvent::PipelineEnded(halted));
        assert_eq!(run.step(), SweepStep::Halted);
        assert_eq!(told.len(), if n == 3 { 2 } else { 1 });
        assert!(matches!(told.last(), Some(Event::SweepHalted { .. })));
        assert_eq!(r.state().deferred_item_attempts.get("item 0"), Some(&n));
    }
    assert_eq!(r.state().consecutive_sweeps, 0);
}

#[test]
fn a_forced_sweep_is_forced_once() {
    let mut r = runner(backlog(1)).force_sweep(true);
    r.state_mut().completed.push(pid("01"));
    assert!(matches!(r.gate(Some(backlog(1))), Gate::Sweep { .. }));
    r.end_gated_sweep(&PhaseResult::Halted {
        phase_id: pid("01"),
        reason: HaltReason::PlanTampered,
    });
    assert!(matches!(r.gate(Some(backlog(1))), Gate::Sweep { .. }));
    r.end_gated_sweep(&PhaseResult::Advanced {
        phase_id: pid("01"),
        next_phase: None,
        commit: None,
    });
    assert!(matches!(r.gate(Some(backlog(1))), Gate::Phase { .. }));
}

#[test]
fn the_end_of_a_run_is_told() {
    assert_eq!(RunSummary::Finished.told(), Event::RunFinished);
    let halted =
        RunSummary::Halted { phase_id: pid("01"), reason: HaltReason::PlanTampered };
    assert_eq!(
        halted.told(),
        Event::PhaseHalted { phase_id: pid("01"), reason: HaltReason::PlanTampered }
    );
}

fn drained(max: u32, items: usize) -> Runner {
    let mut cfg = config();
    cfg.sweep.final_sweep_max_iterations = max;
    let mut state = fresh_run_state(&plan(), &cfg, at("2026-04-29T14:30:22Z"));
    state.completed = vec![pid("01"), pid("02")];
    Runner::new("/repo".into(), cfg, plan(), backlog(items), state)
}

fn swept() -> PhaseResult {
    PhaseResult::Advanced { phase_id: pid("02"), next_phase: Some(pid("02")), commit: None }
}

#[test]
fn the_final_drain_is_bounded() {
    for (max, wanted) in [(2, 2), (0, 1)] {
        let mut r = drained(max, 10);
        let mut drain = FinalDrain::new(&mut r);
        assert_eq!(drain.after(), &pid("02"));
        let mut sweeps = 0;
        while drain.step() != DrainStep::Done {
            let event = match drain.step() {
                DrainStep::SaveOwed => {
                    assert!(r.state().pending_sweep);
                    DrainEvent::Saved
                }
                DrainStep::Sweep => {
                    sweeps += 1;
                    r.adopt_deferred(backlog(10 - sweeps));
                    r.clear_pending_sweep();
                    DrainEvent::Swept(swept())
                }
                _ => DrainEvent::Saved,
            };
            drain = drain.advance(&mut r, event);
        }
        assert_eq!(sweeps, wanted);
        assert_eq!(drain.finish(), Some(RunSummary::Finished));
        assert!(!r.state().pending_sweep);
    }
}

#[test]
fn the_final_drain_stops_without_progress_or_work() {
    let mut r = drained(5, 3);
    let stuck = FinalDrain::new(&mut r).advance(&mut r, DrainEvent::Saved);
    assert_eq!(stuck.step(), DrainStep::Sweep);
    let stuck = stuck.advance(&mut r, DrainEvent::Swept(swept()));
    assert_eq!(stuck.step(), DrainStep::SaveEnd);
    assert!(!r.state().pending_sweep);
    assert_eq!(stuck.advance(&mut r, DrainEvent::Saved).step(), DrainStep::Done);

    let mut r = drained(5, 0);
    assert_eq!(FinalDrain::new(&mut r).step(), DrainStep::Done);
    r.owe_sweep();
    assert_eq!(FinalDrain::new(&mut r).step(), DrainStep::SaveEnd);
    assert!(!r.state().pending_sweep);
}

#[test]
fn a_final_drain_that_halts_still_owes_its_sweep() {
    let mut r = drained(5, 3);
    let drain = FinalDrain::new(&mut r)
        .advance(&mut r, DrainEvent::Saved)
        .advance(
            &mut r,
            DrainEvent::Swept(PhaseResult::Halted {
                phase_id: pid("02"),
                reason: HaltReason::PlanTampered,
            }),
        );
    assert_eq!(drain.step(), DrainStep::SaveHalt);
    let drain = drain.advance(&mut r, DrainEvent::Saved);
    assert_eq!(drain.step(), DrainStep::Halted);
    assert_eq!(
        drain.finish(),
        Some(RunSummary::Halted { phase_id: pid("02"), reason: HaltReason::PlanTampered })
    );
    assert!(r.state().pending_sweep);
}
