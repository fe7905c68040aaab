use pitboss::agent::AgentEvent;
use pitboss::grind::events::{emit_hook_event, forward_agent_event as forward_to_grind, GrindEvent};
use pitboss::grind::hooks::{HookKind, HookOutcome};
use pitboss::plan::PhaseId;
use pitboss::runner::events::{
    forward_agent_event, is_terminal, log_event_line, AuditContext, AuditContextKind, Event,
};
use pitboss::runner::pipeline::HaltReason;
use pitboss::state::TokenUsage;

fn pid(s: &str) -> PhaseId {
    PhaseId::parse(s).unwrap()
}

fn line(event: Event) -> String {
    let lines = log_event_line(&event, false);
    assert_eq!(lines.len(), 1);
    lines.into_iter().next().unwrap()
}

#[test]
fn plain_log_lines() {
    let started = Event::PhaseStarted { phase_id: pid("01"), title: "T".into(), attempt: 2 };
    assert_eq!(line(started), "[pitboss] phase 01 (T), attempt 2");
    let fixer = Event::FixerStarted { phase_id: pid("01"), fixer_attempt: 1, attempt: 3 };
    assert_eq!(line(fixer), "[pitboss] phase 01 fixer attempt 1 (total dispatch 3)");
    let audit = |kind: AuditContextKind| AuditContext { phase_id: pid("01"), kind };
    assert_eq!(
        line(Event::AuditorStarted { context: audit(AuditContextKind::Phase), attempt: 4 }),
        "[pitboss] phase 01 auditor (total dispatch 4)"
    );
    assert_eq!(
        line(Event::AuditorSkippedNoChanges { context: audit(AuditContextKind::Sweep) }),
        "[pitboss] sweep after phase 01 auditor skipped: no code changes to audit"
    );
    assert_eq!(line(Event::AgentStdout("hi".into())), "[agent] hi");
    assert_eq!(line(Event::AgentStderr("hi".into())), "[agent:err] hi");
    assert_eq!(line(Event::AgentToolUse("grep".into())), "[agent:tool] grep");
    assert_eq!(line(Event::TestStarted), "[pitboss] running tests");
    assert_eq!(
        line(Event::TestFinished { passed: true, summary: "3 ok".into() }),
        "[pitboss] tests passed: 3 ok"
    );
    assert_eq!(
        line(Event::TestFinished { passed: false, summary: "1 bad".into() }),
        "[pitboss] tests failed: 1 bad"
    );
    assert_eq!(line(Event::TestsSkipped), "[pitboss] no test runner detected; skipping");
    assert_eq!(
        line(Event::PhaseCommitted { phase_id: pid("01"), commit: Some("abc".into()) }),
        "[pitboss] phase 01 committed: abc"
    );
    assert_eq!(
        line(Event::PhaseCommitted { phase_id: pid("01"), commit: None }),
        "[pitboss] phase 01 produced no code changes; no commit"
    );
    assert_eq!(
        line(Event::PhaseHalted { phase_id: pid("01"), reason: HaltReason::PlanTampered }),
        "[pitboss] phase 01 halted: plan.md was modified by the agent"
    );
    assert_eq!(line(Event::RunFinished), "[pitboss] run finished");
    assert_eq!(
        line(Event::SweepStarted { after: pid("01"), items_pending: 5, attempt: 2 }),
        "[pitboss] sweep after phase 01 (5 pending, total dispatch 2)"
    );
    assert_eq!(
        line(Event::SweepCompleted { after: pid("01"), resolved: 3, commit: Some("abc".into()) }),
        "[pitboss] sweep after phase 01 committed: 3 resolved (abc)"
    );
    assert!(log_event_line(&Event::UsageUpdated(TokenUsage::zero()), true).is_empty());
}

#[test]
fn coloured_phase_headings_are_framed() {
    let started = Event::PhaseStarted { phase_id: pid("01"), title: "T".into(), attempt: 1 };
    let lines = log_event_line(&started, true);
    assert_eq!(lines.len(), 3);
    assert_eq!(lines[0], lines[2]);
    assert!(lines[0].contains(&"─".repeat(60)));
    assert!(lines[1].contains("\u{1b}["));
}

#[test]
fn the_logger_stops_at_the_end_of_a_run() {
    assert!(is_terminal(&Event::RunFinished));
    assert!(is_terminal(&Event::PhaseHalted {
        phase_id: pid("01"),
        reason: HaltReason::PlanTampered
    }));
    assert!(!is_terminal(&Event::TestStarted));
}

#[test]
fn agent_output_is_forwarded_and_token_deltas_are_not() {
    assert_eq!(
        forward_agent_event(AgentEvent::Stdout("a".into())),
        Some(Event::AgentStdout("a".into()))
    );
    assert_eq!(
        forward_agent_event(AgentEvent::ToolUse("t".into())),
        Some(Event::AgentToolUse("t".into()))
    );
    assert_eq!(forward_agent_event(AgentEvent::TokenDelta), None);
    assert_eq!(
        forward_to_grind(3, AgentEvent::Stderr("e".into())),
        Some(GrindEvent::AgentStderr { seq: 3, line: "e".into() })
    );
    assert_eq!(forward_to_grind(3, AgentEvent::TokenDelta), None);
    assert_eq!(
        emit_hook_event(3, HookKind::OnFailure, &HookOutcome::Timeout { secs: 9 }),
        GrindEvent::HookFired {
            seq: 3,
            kind: HookKind::OnFailure,
            success: false,
            description: "timed out after 9s".into(),
        }
    );
}
