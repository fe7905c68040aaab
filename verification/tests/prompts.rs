use pitboss::deferred::{DeferredDoc, DeferredItem, DeferredPhase};
use pitboss::plan::{Phase, PhaseId, Plan};
use pitboss::prompts::templates::{
    AUDITOR_TEMPLATE, FIXER_TEMPLATE, IMPLEMENTER_TEMPLATE, PLANNER_TEMPLATE, QUESTIONER_TEMPLATE,
    SWEEP_AUDITOR_TEMPLATE, SWEEP_FIXER_TEMPLATE, SWEEP_TEMPLATE,
};
use pitboss::prompts::{
    auditor, auditor_with_deferred, fixer, fixer_with_deferred, implementer, planner, questioner,
    render, TEMPLATE_STATIC_BUDGET,
};

const DEFERRED_TEXT: &str = "## Deferred items\n\n- [ ] polish error message\n- [x] remove unused stub\n\n## Deferred phases\n\n### From phase 07: rework agent trait\n\nbody line\n";
const PHASE_BODY: &str = "\n**Scope.** type vocabulary.\n\n**Deliverables.**\n- PhaseId\n\n**Acceptance.**\n- ordering tests\n";

fn in_phase(template: &str) -> String {
    template
        .replace("{phase_id}", "02")
        .replace("{phase_title}", "Domain types")
        .replace("{phase_body}", PHASE_BODY)
}

fn pid(s: &str) -> PhaseId {
    PhaseId::parse(s).unwrap()
}

fn fixture_plan() -> Plan {
    Plan::new(
        pid("02"),
        vec![
            Phase {
                id: pid("01"),
                title: "Foundation".into(),
                body: "\n**Scope.** stand it up.\n\n**Deliverables.**\n- crate\n\n**Acceptance.**\n- builds\n\n".into(),
            },
            Phase {
                id: pid("02"),
                title: "Domain types".into(),
                body: "\n**Scope.** type vocabulary.\n\n**Deliverables.**\n- PhaseId\n\n**Acceptance.**\n- ordering tests\n".into(),
            },
        ],
    )
}

fn fixture_current() -> Phase {
    Phase {
        id: pid("02"),
        title: "Domain types".into(),
        body: "\n**Scope.** type vocabulary.\n\n**Deliverables.**\n- PhaseId\n\n**Acceptance.**\n- ordering tests\n".into(),
    }
}

fn fixture_deferred() -> DeferredDoc {
    DeferredDoc {
        items: vec![
            DeferredItem {
                text: "polish error message".into(),
                done: false,
            },
            DeferredItem {
                text: "remove unused stub".into(),
                done: true,
            },
        ],
        phases: vec![DeferredPhase {
            source_phase: pid("07"),
            title: "rework agent trait".into(),
            body: "\nbody line\n".into(),
        }],
    }
}

#[test]
fn render_substitutes_simple_placeholders() {
    assert_eq!(
        render("hello {name}!", &[("name", "world")]),
        "hello world!"
    );
}

#[test]
fn render_handles_repeated_and_adjacent_placeholders() {
    assert_eq!(render("{a}{b}{a}", &[("a", "X"), ("b", "Y")]), "XYX");
}

#[test]
fn render_double_brace_escapes_literal_braces() {
    assert_eq!(
        render(
            "rust: Result<{T}, {E}> {{ ok }}",
            &[("T", "u32"), ("E", "Err")]
        ),
        "rust: Result<u32, Err> { ok }"
    );
}

#[test]
fn render_preserves_unicode() {
    assert_eq!(render("ünîcødé {x} 漢字", &[("x", "✓")]), "ünîcødé ✓ 漢字");
}

#[test]
fn implementer_includes_phase_and_deferred() {
    let plan = fixture_plan();
    let current = fixture_current();
    let deferred = fixture_deferred();
    let out = implementer(&plan, &deferred, &current);
    // Phase identity rendered verbatim.
    assert!(out.contains("# Phase 02: Domain types"));
    assert!(out.contains("PhaseId"));
    // Deferred file embedded.
    assert!(out.contains("- [ ] polish error message"));
    assert!(out.contains("### From phase 07: rework agent trait"));
    // Hard rules present.
    assert!(out.contains("Never edit `plan.md`"));
    assert!(out.contains(".pitboss/"));
    // No unsubstituted placeholders left.
    assert!(!out.contains("{phase_id}"));
    assert!(!out.contains("{deferred}"));
}

#[test]
fn auditor_renders_threshold_and_diff() {
    let plan = fixture_plan();
    let current = fixture_current();
    let diff = "diff --git a/src/x.rs b/src/x.rs\n@@\n+println!(\"hi\");\n";
    let out = auditor(&plan, &current, diff, 30);
    assert!(out.contains("≤ 30 lines"));
    assert!(out.contains("Diff produced by the implementer"));
    assert!(out.contains("println!"));
    assert!(!out.contains("{small_fix_line_limit}"));
}

#[test]
fn fixer_includes_test_output() {
    let plan = fixture_plan();
    let current = fixture_current();
    let test_output = "running 1 test\ntest foo ... FAILED\nassertion failed: 1 == 2\n";
    let out = fixer(&plan, &current, test_output);
    assert!(out.contains("Tests failed after the implementer ran"));
    assert!(out.contains("assertion failed"));
    assert!(!out.contains("{test_output}"));
}

#[test]
fn planner_embeds_goal_and_repo_summary() {
    let out = planner(
        "Build a CLI todo app in Rust",
        "Cargo.toml\nsrc/main.rs\nREADME.md",
    );
    assert!(out.contains("Build a CLI todo app in Rust"));
    assert!(out.contains("Cargo.toml"));
    assert!(out.contains("YAML frontmatter"));
    assert!(out.contains("Output ONLY the file contents."));
    assert!(!out.contains("{goal}"));
}

#[test]
fn empty_deferred_renders_as_visible_marker() {
    let plan = fixture_plan();
    let current = fixture_current();
    let out = implementer(&plan, &DeferredDoc::empty(), &current);
    assert!(
        out.contains("(empty)"),
        "expected an explicit empty marker so the agent isn't confused by a blank section"
    );
}

#[test]
fn auditor_with_deferred_threads_real_doc() {
    let plan = fixture_plan();
    let current = fixture_current();
    let deferred = fixture_deferred();
    let out = auditor_with_deferred(&plan, &current, "no diff", &deferred, 25);
    assert!(out.contains("- [ ] polish error message"));
    assert!(out.contains("≤ 25 lines"));
}

#[test]
fn fixer_with_deferred_threads_real_doc() {
    let plan = fixture_plan();
    let current = fixture_current();
    let deferred = fixture_deferred();
    let out = fixer_with_deferred(&plan, &current, "boom", &deferred);
    assert!(out.contains("- [ ] polish error message"));
    assert!(out.contains("boom"));
}

#[test]
fn templates_fit_static_budget() {
    for (name, body) in [
        ("implementer", IMPLEMENTER_TEMPLATE),
        ("auditor", AUDITOR_TEMPLATE),
        ("fixer", FIXER_TEMPLATE),
        ("sweep", SWEEP_TEMPLATE),
        ("sweep_fixer", SWEEP_FIXER_TEMPLATE),
        ("sweep_auditor", SWEEP_AUDITOR_TEMPLATE),
        ("planner", PLANNER_TEMPLATE),
        ("questioner", QUESTIONER_TEMPLATE),
    ] {
        assert!(
            body.len() <= TEMPLATE_STATIC_BUDGET,
            "{name} template is {} bytes, exceeding TEMPLATE_STATIC_BUDGET ({} bytes)",
            body.len(),
            TEMPLATE_STATIC_BUDGET
        );
    }
}

#[test]
fn snapshot_implementer() {
    let plan = fixture_plan();
    let current = fixture_current();
    let deferred = fixture_deferred();
    let expected = in_phase(IMPLEMENTER_TEMPLATE).replace("{deferred}", DEFERRED_TEXT);
    assert_eq!(implementer(&plan, &deferred, &current), expected);
}

#[test]
fn snapshot_auditor() {
    let plan = fixture_plan();
    let current = fixture_current();
    let diff = "diff --git a/src/x.rs b/src/x.rs\n@@\n-old\n+new\n";
    let expected = in_phase(AUDITOR_TEMPLATE)
        .replace("{diff}", diff)
        .replace("{deferred}", "(no deferred.md provided yet)")
        .replace("{small_fix_line_limit}", "30");
    assert_eq!(auditor(&plan, &current, diff, 30), expected);
}

#[test]
fn snapshot_fixer() {
    let plan = fixture_plan();
    let current = fixture_current();
    let test_output = "running 2 tests\ntest a ... ok\ntest b ... FAILED\n";
    let expected = in_phase(FIXER_TEMPLATE)
        .replace("{test_output}", test_output)
        .replace("{deferred}", "(no deferred.md provided yet)");
    assert_eq!(fixer(&plan, &current, test_output), expected);
}

#[test]
fn snapshot_planner() {
    let goal = "Build a CLI todo app in Rust with JSON persistence.";
    let repo_summary = "(empty repository)";
    let expected = PLANNER_TEMPLATE
        .replace("{goal}", goal)
        .replace("{repo_summary}", repo_summary)
        .replace("{{", "{")
        .replace("}}", "}");
    assert_eq!(planner(goal, repo_summary), expected);
}

#[test]
fn questioner_embeds_goal_and_max() {
    let out = questioner("Build a CLI todo app", "(empty repository)", 20);
    assert!(out.contains("Build a CLI todo app"));
    assert!(out.contains("20"));
    assert!(out.contains("numbered list"));
    assert!(!out.contains("{goal}"));
    assert!(!out.contains("{max_questions}"));
}

#[test]
fn snapshot_questioner() {
    let goal = "Add a --interview flag to pitboss plan.";
    let repo_summary = "(empty repository)";
    let expected = QUESTIONER_TEMPLATE
        .replace("{goal}", goal)
        .replace("{repo_summary}", repo_summary)
        .replace("{max_questions}", "25");
    assert_eq!(questioner(goal, repo_summary, 25), expected);
}
