use pitboss::agent::Role;
use pitboss::config::{
    AuditConfig, Budgets, CavemanConfig, Config, ModelRoles, RetryBudgets, SweepConfig,
};
use pitboss::deferred::{DeferredDoc, DeferredItem};
use pitboss::plan::{Phase, PhaseId, Plan};
use pitboss::runner::events::{AuditContext, AuditContextKind, Event};
use pitboss::runner::pipeline::{
    HaltReason, Pipeline, PipelineEvent, PipelineOutcome, PipelineStep, Work,
};
use pitboss::runner::{fresh_run_state, Runner, SweepStart};
use pitboss::state::TokenUsage;
use pitboss::table::Table;
use pitboss::time::Timestamp;

fn pid(s: &str) -> PhaseId {
    PhaseId::parse(s).unwrap()
}

fn config() -> Config {
    Config {
        models: ModelRoles {
            planner: "planner-model".into(),
            implementer: "implementer-model".into(),
            auditor: "auditor-model".into(),
            fixer: "fixer-model".into(),
        },
        retries: RetryBudgets { fixer_max_attempts: 2 },
        audit: AuditConfig { enabled: true, small_fix_line_limit: 30 },
        sweep: SweepConfig {
            enabled: true,
            trigger_min_items: 5,
            max_consecutive: 1,
            audit_enabled: true,
            escalate_after: 3,
            final_sweep_enabled: true,
            final_sweep_max_iterations: 3,
        },
        budgets: Budgets { max_total_tokens: None, max_total_usd: None, pricing: Table::new() },
        caveman: CavemanConfig::default(),
        branch_prefix: "pitboss/play/".into(),
    }
}

fn phase() -> Phase {
    Phase { id: pid("01"), title: "T01".into(), body: "b\n".into() }
}

/// A runner whose phase `01` has counted its implementer.
fn runner_with(max_fixes: u32, audit: bool, change: impl Fn(&mut Config)) -> Runner {
    let mut cfg = config();
    cfg.retries.fixer_max_attempts = max_fixes;
    cfg.audit.enabled = audit;
    cfg.sweep.audit_enabled = audit;
    change(&mut cfg);
    let plan = Plan::new(pid("01"), vec![phase()]);
    let state = fresh_run_state(&plan, &cfg, Timestamp::new(1_777_000_000, 0).unwrap());
    let backlog = DeferredDoc {
        items: vec![DeferredItem { text: "item 0".into(), done: false }],
        phases: Vec::new(),
    };
    let mut r = Runner::new("/repo".into(), cfg, plan, backlog, state);
    r.start_phase();
    r
}

fn runner(max_fixes: u32, audit: bool) -> Runner {
    runner_with(max_fixes, audit, |_| {})
}

fn pipeline() -> Pipeline {
    Pipeline::new(pid("01"), AuditContextKind::Phase)
}

fn passed_on() -> PipelineEvent {
    PipelineEvent::Validated(None)
}

fn tested(passed: bool) -> PipelineEvent {
    PipelineEvent::Tested { passed, summary: if passed { "ok" } else { "1 failed" }.to_string() }
}

fn finished(passed: bool) -> Event {
    Event::TestFinished { passed, summary: if passed { "ok" } else { "1 failed" }.to_string() }
}

fn drive(r: &mut Runner, mut p: Pipeline, events: Vec<PipelineEvent>) -> (Pipeline, Vec<Event>) {
    let mut told = Vec::new();
    for event in events {
        let (next, more) = p.advance(r, event);
        p = next;
        told.extend(more);
    }
    (p, told)
}

fn context(kind: AuditContextKind) -> AuditContext {
    AuditContext { phase_id: pid("01"), kind }
}

#[test]
fn a_green_phase_is_audited_and_staged() {
    let mut r = runner(2, true);
    let p = pipeline();
    assert_eq!(p.step(), PipelineStep::Dispatch);
    assert!(p.request(&r, Work::Phase(&phase())).is_none());
    let (p, told) = drive(&mut r, p, vec![passed_on()]);
    assert_eq!((p.step(), told.len()), (PipelineStep::Detect, 0));
    let (p, told) = drive(&mut r, p, vec![PipelineEvent::Detected(true), tested(true)]);
    assert_eq!(p.step(), PipelineStep::Diff);
    assert_eq!(told, vec![Event::TestStarted, finished(true)]);
    assert_eq!(r.attempts(&pid("01")), 1);
    let (p, told) = drive(&mut r, p, vec![PipelineEvent::Diffed("diff --git".into())]);
    assert_eq!(p.step(), PipelineStep::Audit);
    assert_eq!(
        told,
        vec![Event::AuditorStarted { context: context(AuditContextKind::Phase), attempt: 2 }]
    );
    assert_eq!(r.attempts(&pid("01")), 2);
    let request = p.request(&r, Work::Phase(&phase())).unwrap();
    assert_eq!(request.role, Role::Auditor);
    assert!(request.user_prompt.contains("diff --git"));
    let (p, told) = drive(&mut r, p, vec![passed_on()]);
    assert_eq!((p.step(), told), (PipelineStep::AuditTest, vec![Event::TestStarted]));
    let staged = PipelineEvent::Staged { has_changes: true };
    let (p, told) = drive(&mut r, p, vec![tested(true), staged]);
    assert_eq!((p.step(), told), (PipelineStep::Staged, vec![finished(true)]));
    assert_eq!(r.attempts(&pid("01")), 2);
    assert_eq!(p.finish(), PipelineOutcome::Staged { has_changes: true });
}

#[test]
fn a_blank_diff_is_not_audited() {
    for diff in ["", " \n\t\u{a0}\n"] {
        let mut r = runner(0, true);
        let (p, told) = drive(
            &mut r,
            pipeline(),
            vec![
                passed_on(),
                PipelineEvent::Detected(false),
                PipelineEvent::Diffed(diff.to_string()),
            ],
        );
        assert_eq!(p.step(), PipelineStep::Stage);
        assert_eq!(
            told,
            vec![
                Event::TestsSkipped,
                Event::AuditorSkippedNoChanges { context: context(AuditContextKind::Phase) },
            ]
        );
        assert_eq!(r.attempts(&pid("01")), 1);
    }
    let mut r = runner(0, false);
    let (p, _) = drive(
        &mut r,
        pipeline(),
        vec![passed_on(), PipelineEvent::Detected(true), tested(true)],
    );
    assert_eq!(p.step(), PipelineStep::Stage);
}

#[test]
fn an_audit_without_a_test_runner_goes_on_to_staging() {
    let mut r = runner(0, true);
    let (p, _) = drive(
        &mut r,
        pipeline(),
        vec![
            passed_on(),
            PipelineEvent::Detected(false),
            PipelineEvent::Diffed("x".into()),
            passed_on(),
        ],
    );
    assert_eq!(p.step(), PipelineStep::Stage);
    assert_eq!(r.attempts(&pid("01")), 2);
}

#[test]
fn a_dry_run_looks_for_no_tests() {
    let mut r = runner(0, false).skip_tests(true);
    let (p, told) = drive(&mut r, pipeline(), vec![passed_on()]);
    assert_eq!((p.step(), told), (PipelineStep::Stage, vec![Event::TestsSkipped]));
}

#[test]
fn fixers_stay_in_budget() {
    let mut r = runner(2, false);
    let (mut p, mut told) = drive(
        &mut r,
        pipeline(),
        vec![passed_on(), PipelineEvent::Detected(true), tested(false)],
    );
    let mut fixers = 0;
    while p.step() != PipelineStep::Halted {
        let event = match p.step() {
            PipelineStep::Fix => {
                fixers += 1;
                let request = p.request(&r, Work::Phase(&phase())).unwrap();
                assert_eq!(request.role, Role::Fixer);
                assert!(request.user_prompt.contains("1 failed"));
                assert_eq!(
                    request.log_path,
                    format!("/repo/.pitboss/play/logs/phase-01-fix-{fixers}.log")
                );
                passed_on()
            }
            _ => tested(false),
        };
        let (next, more) = p.advance(&mut r, event);
        p = next;
        told.extend(more);
    }
    assert_eq!(fixers, 2);
    assert_eq!(r.attempts(&pid("01")), 3);
    let started = |fixer_attempt: u32, attempt: u32| Event::FixerStarted {
        phase_id: pid("01"),
        fixer_attempt,
        attempt,
    };
    assert_eq!(
        told,
        vec![
            Event::TestStarted,
            finished(false),
            started(1, 2),
            Event::TestStarted,
            finished(false),
            started(2, 3),
            Event::TestStarted,
            finished(false),
        ]
    );
    assert_eq!(
        p.finish(),
        PipelineOutcome::Halted(HaltReason::TestsFailed("1 failed".to_string()))
    );
}

#[test]
fn without_fixers_the_first_failure_halts() {
    let mut r = runner(0, true);
    let (p, _) = drive(
        &mut r,
        pipeline(),
        vec![passed_on(), PipelineEvent::Detected(true), tested(false)],
    );
    assert_eq!(r.attempts(&pid("01")), 1);
    assert_eq!(
        p.finish(),
        PipelineOutcome::Halted(HaltReason::TestsFailed("1 failed".to_string()))
    );
}

#[test]
fn a_fixed_phase_goes_on() {
    let mut r = runner(1, false);
    let (p, _) = drive(
        &mut r,
        pipeline(),
        vec![
            passed_on(),
            PipelineEvent::Detected(true),
            tested(false),
            passed_on(),
            tested(true),
        ],
    );
    assert_eq!(p.step(), PipelineStep::Stage);
}

#[test]
fn halts_end_the_pipeline_wherever_they_come_from() {
    let mut r = runner(1, true);
    let (tampered, _) = drive(
        &mut r,
        pipeline(),
        vec![PipelineEvent::Validated(Some(HaltReason::PlanTampered)), tested(true)],
    );
    assert_eq!(tampered.step(), PipelineStep::Halted);
    assert_eq!(tampered.finish(), PipelineOutcome::Halted(HaltReason::PlanTampered));
    let (audit_red, _) = drive(
        &mut r,
        pipeline(),
        vec![
            passed_on(),
            PipelineEvent::Detected(true),
            tested(true),
            PipelineEvent::Diffed("x".into()),
            passed_on(),
            tested(false),
        ],
    );
    assert_eq!(
        audit_red.finish(),
        PipelineOutcome::Halted(HaltReason::TestsFailed("1 failed".to_string()))
    );
}

#[test]
fn a_spent_budget_dispatches_nobody_more() {
    let broke = HaltReason::BudgetExceeded("token budget exceeded: 10 >= cap 5".to_string());
    let mut usage = TokenUsage::zero();
    usage.input = 10;
    for last in [tested(false), tested(true)] {
        let mut r = runner_with(1, true, |cfg| cfg.budgets.max_total_tokens = Some(5));
        r.fold_token_usage(Role::Implementer, &usage);
        let (p, _) = drive(
            &mut r,
            pipeline(),
            vec![
                passed_on(),
                PipelineEvent::Detected(true),
                last,
                PipelineEvent::Diffed("x".into()),
            ],
        );
        assert_eq!(r.attempts(&pid("01")), 1);
        assert_eq!(p.finish(), PipelineOutcome::Halted(broke.copy()));
    }
}

#[test]
fn a_sweep_is_audited_as_a_sweep() {
    let mut r = runner(1, true);
    let ticket = match r.start_sweep(&pid("01")) {
        SweepStart::Started(ticket) => ticket,
        SweepStart::Halted(reason) => panic!("halted: {reason:?}"),
    };
    let work = Work::Sweep(&ticket);
    let (p, told) = drive(
        &mut r,
        Pipeline::new(pid("01"), work.kind()),
        vec![passed_on(), PipelineEvent::Detected(false), PipelineEvent::Diffed("x".into())],
    );
    assert_eq!(
        told.last(),
        Some(&Event::AuditorStarted { context: context(AuditContextKind::Sweep), attempt: 3 })
    );
    let request = p.request(&r, work).unwrap();
    assert_eq!(request.log_path, "/repo/.pitboss/play/logs/sweep-after-01-audit-1.log");
}

#[test]
fn halt_reasons_say_what_happened() {
    assert_eq!(
        HaltReason::BudgetExceeded("token budget exceeded: 10 >= cap 5".to_string()).message(),
        "budget exceeded: token budget exceeded: 10 >= cap 5"
    );
}
