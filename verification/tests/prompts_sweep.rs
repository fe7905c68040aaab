use pitboss::deferred::{DeferredDoc, DeferredItem, DeferredPhase};
use pitboss::plan::{Phase, PhaseId, Plan};
use pitboss::prompts::templates::{SWEEP_AUDITOR_TEMPLATE, SWEEP_FIXER_TEMPLATE, SWEEP_TEMPLATE};
use pitboss::prompts::{
    fixer_for_sweep, sweep, sweep_auditor, StaleItem, SweepAuditorPrompt, TEMPLATE_STATIC_BUDGET,
};

const PENDING: &str = "- [ ] polish error message in PhaseId::parse\n- [ ] drop unused stub in deferred::parse\n- [ ] rename `flag` to `enabled` in audit config\n- [ ] tighten test for empty deferred.md\n- [ ] document sweep section in README\n";
const ON_DISK: &str = "\n- `plan.md` is on disk if you need to peek for context, but you must not modify it.";

fn deferred_text() -> String {
    format!(
        "## Deferred items\n\n{PENDING}- [x] remove already-shipped TODO in runner\n\n## Deferred phases\n\n### From phase 07: rework agent trait\n\nbody line\n"
    )
}

fn expected_sweep(context: &str, stale: &str) -> String {
    SWEEP_TEMPLATE
        .replace("{context}", &format!("{context}{ON_DISK}"))
        .replace("{stale_items}", stale)
        .replace("{deferred_items}", PENDING)
}

fn pid(s: &str) -> PhaseId {
    PhaseId::parse(s).unwrap()
}

fn fixture_plan() -> Plan {
    Plan::new(
        pid("03"),
        vec![
            Phase {
                id: pid("02"),
                title: "Sweep prompt scaffolding".into(),
                body: "\n**Scope.** wire the prompt.\n".into(),
            },
            Phase {
                id: pid("03"),
                title: "Inter-phase sweep".into(),
                body: "\n**Scope.** dispatch the sweep agent.\n".into(),
            },
        ],
    )
}

fn fixture_deferred() -> DeferredDoc {
    DeferredDoc {
        items: vec![
            DeferredItem {
                text: "polish error message in PhaseId::parse".into(),
                done: false,
            },
            DeferredItem {
                text: "drop unused stub in deferred::parse".into(),
                done: false,
            },
            DeferredItem {
                text: "rename `flag` to `enabled` in audit config".into(),
                done: false,
            },
            DeferredItem {
                text: "tighten test for empty deferred.md".into(),
                done: false,
            },
            DeferredItem {
                text: "document sweep section in README".into(),
                done: false,
            },
            DeferredItem {
                text: "remove already-shipped TODO in runner".into(),
                done: true,
            },
        ],
        phases: vec![DeferredPhase {
            source_phase: pid("07"),
            title: "rework agent trait".into(),
            body: "\nbody line\n".into(),
        }],
    }
}

#[test]
fn sweep_strips_already_checked_items() {
    let plan = fixture_plan();
    let deferred = fixture_deferred();
    let after = pid("02");
    let out = sweep(&plan, &deferred, Some(&after), &[]);
    assert!(
        !out.contains("remove already-shipped TODO in runner"),
        "checked items must not appear in the agent's view"
    );
    // Five pending items: each one shows up as a `- [ ]` line.
    for text in [
        "polish error message in PhaseId::parse",
        "drop unused stub in deferred::parse",
        "rename `flag` to `enabled` in audit config",
        "tighten test for empty deferred.md",
        "document sweep section in README",
    ] {
        assert!(
            out.contains(&format!("- [ ] {text}")),
            "expected pending item {text:?} in output:\n{out}"
        );
    }
}

#[test]
fn sweep_renders_after_phase_context() {
    let plan = fixture_plan();
    let deferred = fixture_deferred();
    let after = pid("02");
    let out = sweep(&plan, &deferred, Some(&after), &[]);
    assert!(
        out.contains("Most recently completed phase: 02"),
        "expected after_phase context line in output:\n{out}"
    );
    assert!(
        !out.contains("Standalone sweep"),
        "standalone wording must not appear when after_phase is Some:\n{out}"
    );
    // Hard rules mention the H3 / phases prohibition.
    assert!(out.contains("`### From phase X:`"));
    // No unsubstituted placeholders.
    assert!(!out.contains("{deferred_items}"));
    assert!(!out.contains("{stale_items}"));
    assert!(!out.contains("{context}"));
}

#[test]
fn sweep_renders_standalone_when_after_phase_is_none() {
    let plan = fixture_plan();
    let deferred = fixture_deferred();
    let out = sweep(&plan, &deferred, None, &[]);
    assert!(
        out.contains("Standalone sweep"),
        "expected standalone wording when after_phase is None:\n{out}"
    );
    assert!(
        !out.contains("Most recently completed phase"),
        "phase-anchor wording must not appear in the standalone case:\n{out}"
    );
}

#[test]
fn sweep_renders_empty_stale_section_with_marker() {
    let plan = fixture_plan();
    let deferred = fixture_deferred();
    let after = pid("02");
    let out = sweep(&plan, &deferred, Some(&after), &[]);
    // Phase 02 ships the section as a placeholder; an empty slice must
    // render visibly so the agent isn't tricked by a blank section.
    assert!(out.contains("# Stale items"));
    assert!(
        out.contains("(none)"),
        "empty stale slice should render the visible placeholder:\n{out}"
    );
}

#[test]
fn sweep_renders_stale_items_when_provided() {
    let plan = fixture_plan();
    let deferred = fixture_deferred();
    let after = pid("02");
    let stale = vec![
        StaleItem {
            text: "polish error message in PhaseId::parse".into(),
            attempts: 3,
        },
        StaleItem {
            text: "tighten test for empty deferred.md".into(),
            attempts: 2,
        },
    ];
    let out = sweep(&plan, &deferred, Some(&after), &stale);
    assert!(out.contains("polish error message in PhaseId::parse"));
    assert!(
        out.contains("3 sweep attempts"),
        "expected stale-attempt count in output:\n{out}"
    );
    assert!(out.contains("2 sweep attempts"));
    assert!(
        !out.contains("(none)"),
        "stale-empty marker must not appear when stale items were supplied:\n{out}"
    );
}

#[test]
fn sweep_with_no_pending_items_renders_marker() {
    let plan = fixture_plan();
    let deferred = DeferredDoc {
        items: vec![DeferredItem {
            text: "already done".into(),
            done: true,
        }],
        phases: Vec::new(),
    };
    let after = pid("02");
    let out = sweep(&plan, &deferred, Some(&after), &[]);
    assert!(
        out.contains("(no pending items)"),
        "expected pending-empty marker:\n{out}"
    );
}

#[test]
fn sweep_template_static_size_under_budget_for_empty_inputs() {
    // The template is what we ship in source; this guards against a future
    // edit ballooning it past the per-template ceiling. Render with the
    // smallest possible inputs so we measure the static portion.
    let plan = fixture_plan();
    let out = sweep(&plan, &DeferredDoc::empty(), None, &[]);
    assert!(
        out.len() <= TEMPLATE_STATIC_BUDGET,
        "rendered sweep prompt is {} bytes for empty inputs (> budget {})",
        out.len(),
        TEMPLATE_STATIC_BUDGET
    );
}

#[test]
fn snapshot_sweep_after_phase() {
    let plan = fixture_plan();
    let deferred = fixture_deferred();
    let after = pid("02");
    let expected = expected_sweep("- Most recently completed phase: 02", "(none)");
    assert_eq!(sweep(&plan, &deferred, Some(&after), &[]), expected);
}

#[test]
fn snapshot_sweep_after_phase_with_stale_items() {
    let plan = fixture_plan();
    let deferred = fixture_deferred();
    let after = pid("02");
    let stale = vec![
        StaleItem {
            text: "polish error message in PhaseId::parse".into(),
            attempts: 3,
        },
        StaleItem {
            text: "tighten test for empty deferred.md".into(),
            attempts: 2,
        },
    ];
    let expected = expected_sweep(
        "- Most recently completed phase: 02",
        "- `polish error message in PhaseId::parse` — 3 sweep attempts without resolution\n- `tighten test for empty deferred.md` — 2 sweep attempts without resolution",
    );
    assert_eq!(sweep(&plan, &deferred, Some(&after), &stale), expected);
}

#[test]
fn snapshot_sweep_standalone() {
    let plan = fixture_plan();
    let deferred = fixture_deferred();
    let expected = expected_sweep(
        "- Standalone sweep — no preceding phase to anchor on. Treat the deferred list as the whole job.",
        "(none)",
    );
    assert_eq!(sweep(&plan, &deferred, None, &[]), expected);
}

#[test]
fn sweep_auditor_renders_resolved_and_remaining() {
    let plan = fixture_plan();
    let deferred = fixture_deferred();
    let after = pid("02");
    let diff = "diff --git a/src/x.rs b/src/x.rs\n@@\n-old\n+new\n";
    let resolved = vec![
        "polish error message in PhaseId::parse".to_string(),
        "drop unused stub in deferred::parse".to_string(),
    ];
    let remaining = vec![
        "rename `flag` to `enabled` in audit config".to_string(),
        "tighten test for empty deferred.md".to_string(),
        "document sweep section in README".to_string(),
    ];
    let out = sweep_auditor(SweepAuditorPrompt {
        plan: &plan,
        deferred: &deferred,
        after: &after,
        diff,
        resolved: &resolved,
        remaining: &remaining,
        stale_items: &[],
        small_fix_line_limit: 25,
    });
    assert!(out.contains("polish error message in PhaseId::parse"));
    assert!(out.contains("rename `flag` to `enabled` in audit config"));
    assert!(out.contains("Most recently completed phase: 02"));
    assert!(out.contains("≤ 25 lines") || out.contains("25 lines"));
    assert!(out.contains("-old\n+new"));
    assert!(!out.contains("{resolved}"));
    assert!(!out.contains("{remaining}"));
    assert!(!out.contains("{after}"));
    assert!(!out.contains("{diff}"));
    assert!(!out.contains("{stale_items}"));
}

#[test]
fn sweep_auditor_renders_stale_items_when_provided() {
    let plan = fixture_plan();
    let deferred = fixture_deferred();
    let after = pid("02");
    let stale = vec![StaleItem {
        text: "polish error message in PhaseId::parse".into(),
        attempts: 4,
    }];
    let out = sweep_auditor(SweepAuditorPrompt {
        plan: &plan,
        deferred: &deferred,
        after: &after,
        diff: "(empty diff)",
        resolved: &[],
        remaining: &[],
        stale_items: &stale,
        small_fix_line_limit: 25,
    });
    assert!(
        out.contains("Stale items"),
        "expected stale items section header in output:\n{out}"
    );
    assert!(
        out.contains("4 sweep attempts"),
        "expected stale-attempt count in sweep_auditor output:\n{out}"
    );
}

#[test]
fn sweep_auditor_renders_empty_lists_with_marker() {
    let plan = fixture_plan();
    let deferred = fixture_deferred();
    let after = pid("02");
    let out = sweep_auditor(SweepAuditorPrompt {
        plan: &plan,
        deferred: &deferred,
        after: &after,
        diff: "(empty diff)",
        resolved: &[],
        remaining: &[],
        stale_items: &[],
        small_fix_line_limit: 30,
    });
    // Empty resolved/remaining/stale each render with a `(none)` marker.
    assert!(
        out.matches("(none)").count() >= 3,
        "expected (none) markers for resolved, remaining, and stale:\n{out}"
    );
}

#[test]
fn snapshot_sweep_auditor() {
    let plan = fixture_plan();
    let deferred = fixture_deferred();
    let after = pid("02");
    let diff = "diff --git a/src/x.rs b/src/x.rs\n@@\n-old\n+new\n";
    let resolved = vec![
        "polish error message in PhaseId::parse".to_string(),
        "drop unused stub in deferred::parse".to_string(),
    ];
    let remaining = vec![
        "rename `flag` to `enabled` in audit config".to_string(),
        "tighten test for empty deferred.md".to_string(),
        "document sweep section in README".to_string(),
    ];
    let expected = SWEEP_AUDITOR_TEMPLATE
        .replace("{after}", "02")
        .replace("{diff}", diff)
        .replace(
            "{resolved}",
            "- polish error message in PhaseId::parse\n- drop unused stub in deferred::parse\n",
        )
        .replace(
            "{remaining}",
            "- rename `flag` to `enabled` in audit config\n- tighten test for empty deferred.md\n- document sweep section in README\n",
        )
        .replace("{stale_items}", "(none)")
        .replace("{deferred}", &deferred_text())
        .replace("{small_fix_line_limit}", "30");
    let out = sweep_auditor(SweepAuditorPrompt {
        plan: &plan,
        deferred: &deferred,
        after: &after,
        diff,
        resolved: &resolved,
        remaining: &remaining,
        stale_items: &[],
        small_fix_line_limit: 30,
    });
    assert_eq!(out, expected);
}

#[test]
fn snapshot_sweep_fixer() {
    let plan = fixture_plan();
    let deferred = fixture_deferred();
    let test_output = "running 4 tests\n\
        test sweep_strips_already_checked_items ... ok\n\
        test sweep_renders_after_phase_context ... ok\n\
        test sweep_renders_empty_stale_section_with_marker ... FAILED\n\
        test sweep_renders_standalone_when_after_phase_is_none ... ok\n\n\
        failures:\n\n\
        ---- sweep_renders_empty_stale_section_with_marker stdout ----\n\
        assertion failed: out.contains(\"(none)\")\n";
    let expected = SWEEP_FIXER_TEMPLATE
        .replace("{test_output}", test_output)
        .replace("{deferred}", &deferred_text());
    assert_eq!(fixer_for_sweep(&plan, &deferred, test_output), expected);
}
