use pitboss::grind::budget::BudgetSnapshot;
use pitboss::grind::dry_run::{
    preview_picks, render_dry_run_report, DryRunInputs, DRY_RUN_HEADER,
};
use pitboss::grind::plan::{GrindPlan, Hooks, PlanBudgets, PlanPromptRef};
use pitboss::grind::prompt::{PromptDoc, PromptMeta, PromptSource};
use pitboss::grind::scheduler::SchedulerState;
use pitboss::money::Usd;
use pitboss::table::Table;
use pitboss::time::Timestamp;

fn at(text: &str) -> Timestamp {
    let t = chrono::DateTime::parse_from_rfc3339(text).unwrap();
    Timestamp::new(t.timestamp(), t.timestamp_subsec_nanos()).unwrap()
}

fn fixture_prompt(name: &str, weight: u32, every: u32) -> PromptDoc {
    PromptDoc {
        meta: PromptMeta {
            name: name.into(),
            description: format!("desc for {name}"),
            weight,
            every,
            max_runs: None,
            verify: false,
            parallel_safe: false,
            tags: vec![],
            max_session_seconds: None,
            max_session_cost_usd: None,
        },
        body: String::new(),
        source_path: format!("/fixture/{name}.md"),
        source_kind: PromptSource::Project,
    }
}

fn fixture_plan(prompts: &[PromptDoc]) -> GrindPlan {
    GrindPlan {
        name: "fixture-plan".into(),
        prompts: prompts
            .iter()
            .map(|p| PlanPromptRef {
                name: p.meta.name.clone(),
                weight_override: None,
                every_override: None,
                max_runs_override: None,
            })
            .collect(),
        max_parallel: 2,
        hooks: Hooks {
            pre_session: Some("./pre.sh".into()),
            post_session: None,
            on_failure: Some("./fail.sh".into()),
        },
        budgets: PlanBudgets {
            max_iterations: Some(50),
            until: None,
            max_cost_usd: Some(Usd::from_micros(12_500_000)),
            max_tokens: None,
        },
    }
}

#[test]
fn dry_run_report_snapshot_full_fixture() {
    let prompts = vec![
        fixture_prompt("alpha", 2, 1),
        fixture_prompt("bravo", 1, 1),
        fixture_prompt("charlie", 1, 3),
    ];
    let plan = fixture_plan(&prompts);
    let budgets = PlanBudgets {
        max_iterations: Some(50),
        until: Some(at("2026-04-30T23:59:00Z")),
        max_cost_usd: Some(Usd::from_micros(12_500_000)),
        max_tokens: Some(1_000_000),
    };
    let inputs = DryRunInputs {
        workspace: "/tmp/fixture-workspace",
        agent_backend: Some("claude_code"),
        prompts: &prompts,
        plan: &plan,
        budgets: &budgets,
        consecutive_failure_limit: 3,
        resume_target: None,
        resume_scheduler_state: None,
        resume_budget_consumed: None,
        resume_last_session_seq: None,
    };
    let report = render_dry_run_report(&inputs);
    assert_eq!(
        report,
        r#"=== pitboss grind --dry-run ===
version: 1

## Workspace

- path: /tmp/fixture-workspace
- agent backend: claude_code

## Prompts

- alpha (source=project, weight=2, every=1, max_runs=(unset), verify=false, parallel_safe=false)
- bravo (source=project, weight=1, every=1, max_runs=(unset), verify=false, parallel_safe=false)
- charlie (source=project, weight=1, every=3, max_runs=(unset), verify=false, parallel_safe=false)

## Plan

- name: fixture-plan
- max_parallel: 2
- consecutive_failure_limit: 3
- entries: 3
  - alpha (weight_override=(unset), every_override=(unset), max_runs_override=(unset))
  - bravo (weight_override=(unset), every_override=(unset), max_runs_override=(unset))
  - charlie (weight_override=(unset), every_override=(unset), max_runs_override=(unset))

## Budgets

- max_iterations: 50
- until: 2026-04-30T23:59:00Z
- max_tokens: 1000000
- max_cost_usd: $12.5000

## Hooks

- pre_session: `./pre.sh`
- post_session: (unset)
- on_failure: `./fail.sh`

## Scheduler preview

Next 10 picks (frontmatter rules + plan overrides):
   1. alpha
   2. bravo
   3. charlie
   4. alpha
   5. alpha
   6. bravo
   7. alpha
   8. alpha
   9. charlie
  10. bravo

"#
    );
}

#[test]
fn dry_run_report_snapshot_minimal_defaults() {
    // Empty plan, no hooks, no budgets — exercises the `(unset)` and
    // `(none — scheduler is exhausted)` branches together.
    let plan = GrindPlan {
        name: "default".into(),
        prompts: vec![],
        max_parallel: 1,
        hooks: Hooks::none(),
        budgets: PlanBudgets::none(),
    };
    let inputs = DryRunInputs {
        workspace: "/tmp/empty",
        agent_backend: None,
        prompts: &[],
        plan: &plan,
        budgets: &PlanBudgets::none(),
        consecutive_failure_limit: 3,
        resume_target: Some(""),
        resume_scheduler_state: None,
        resume_budget_consumed: None,
        resume_last_session_seq: None,
    };
    let report = render_dry_run_report(&inputs);
    assert_eq!(
        report,
        r#"=== pitboss grind --dry-run ===
version: 1

## Workspace

- path: /tmp/empty
- agent backend: (default)
- resume target: (latest)

## Prompts

_No prompts discovered._

## Plan

- name: default
- max_parallel: 1
- consecutive_failure_limit: 3
- entries: 0

## Budgets

- max_iterations: (unset)
- until: (unset)
- max_tokens: (unset)
- max_cost_usd: (unset)

## Hooks

- pre_session: (unset)
- post_session: (unset)
- on_failure: (unset)

## Scheduler preview

Next 10 picks (frontmatter rules + plan overrides):
   1. (no eligible prompt this rotation)
   2. (no eligible prompt this rotation)
   3. (no eligible prompt this rotation)
   4. (no eligible prompt this rotation)
   5. (no eligible prompt this rotation)
   6. (no eligible prompt this rotation)
   7. (no eligible prompt this rotation)
   8. (no eligible prompt this rotation)
   9. (no eligible prompt this rotation)
  10. (no eligible prompt this rotation)

"#
    );
}

#[test]
fn dry_run_report_snapshot_resume_preview() {
    // `--dry-run --resume` should surface the resume target, the consumed
    // budget snapshot, and a scheduler preview seeded from the persisted
    // state — not a fresh rotation.
    let prompts = vec![fixture_prompt("alpha", 2, 1), fixture_prompt("bravo", 1, 1)];
    let plan = fixture_plan(&prompts);
    let budgets = PlanBudgets {
        max_iterations: Some(50),
        until: None,
        max_cost_usd: Some(Usd::from_micros(12_500_000)),
        max_tokens: None,
    };
    // Seeded mid-rotation: alpha has been picked twice, bravo once. The
    // preview should reflect this skew.
    let mut runs: Table<u32> = Table::new();
    runs.insert("alpha", 2u32);
    runs.insert("bravo", 1u32);
    let scheduler_state = SchedulerState {
        rotation: 3,
        runs_per_prompt: runs,
    };
    let snapshot = BudgetSnapshot {
        iterations: 3,
        tokens_input: 4000,
        tokens_output: 2000,
        cost_usd: Usd::from_micros(1_234_500),
        consecutive_failures: 0,
    };
    let inputs = DryRunInputs {
        workspace: "/tmp/fixture-workspace",
        agent_backend: Some("claude_code"),
        prompts: &prompts,
        plan: &plan,
        budgets: &budgets,
        consecutive_failure_limit: 3,
        resume_target: Some("20260430T180000Z-rsm1"),
        resume_scheduler_state: Some(&scheduler_state),
        resume_budget_consumed: Some(&snapshot),
        resume_last_session_seq: Some(3),
    };
    let report = render_dry_run_report(&inputs);
    assert_eq!(
        report,
        r#"=== pitboss grind --dry-run ===
version: 1

## Workspace

- path: /tmp/fixture-workspace
- agent backend: claude_code
- resume target: 20260430T180000Z-rsm1

## Resume

- last_session_seq: 3
- scheduler_rotation: 3
- iterations_consumed: 3
- tokens_consumed: 6000 (input=4000, output=2000)
- cost_consumed_usd: $1.2345
- consecutive_failures: 0

## Prompts

- alpha (source=project, weight=2, every=1, max_runs=(unset), verify=false, parallel_safe=false)
- bravo (source=project, weight=1, every=1, max_runs=(unset), verify=false, parallel_safe=false)

## Plan

- name: fixture-plan
- max_parallel: 2
- consecutive_failure_limit: 3
- entries: 2
  - alpha (weight_override=(unset), every_override=(unset), max_runs_override=(unset))
  - bravo (weight_override=(unset), every_override=(unset), max_runs_override=(unset))

## Budgets

- max_iterations: 50
- until: (unset)
- max_tokens: (unset)
- max_cost_usd: $12.5000

## Hooks

- pre_session: `./pre.sh`
- post_session: (unset)
- on_failure: `./fail.sh`

## Scheduler preview

Next 10 picks (resumed scheduler state):
   1. alpha
   2. bravo
   3. alpha
   4. alpha
   5. bravo
   6. alpha
   7. alpha
   8. bravo
   9. alpha
  10. alpha

"#
    );
}

#[test]
fn preview_picks_respects_max_runs_cap() {
    // Single prompt with max_runs=2 should emit two picks then None
    // forever. Confirms preview_picks calls record_run between iterations.
    let mut p = fixture_prompt("solo", 1, 1);
    p.meta.max_runs = Some(2);
    let plan = GrindPlan {
        name: "cap".into(),
        prompts: vec![PlanPromptRef {
            name: "solo".into(),
            weight_override: None,
            every_override: None,
            max_runs_override: None,
        }],
        max_parallel: 1,
        hooks: Hooks::none(),
        budgets: PlanBudgets::none(),
    };
    let picks = preview_picks(&plan, &[p], 5);
    assert_eq!(picks.len(), 5);
    assert_eq!(picks[0].as_deref(), Some("solo"));
    assert_eq!(picks[1].as_deref(), Some("solo"));
    for slot in &picks[2..] {
        assert!(slot.is_none(), "expected None after cap, got {slot:?}");
    }
}

#[test]
fn header_and_version_appear_first() {
    // External scrapers depend on the literal header + version on the
    // first two lines; pin both here so a casual format change can't
    // break them.
    let plan = GrindPlan {
        name: "default".into(),
        prompts: vec![],
        max_parallel: 1,
        hooks: Hooks::none(),
        budgets: PlanBudgets::none(),
    };
    let inputs = DryRunInputs {
        workspace: "/tmp/x",
        agent_backend: None,
        prompts: &[],
        plan: &plan,
        budgets: &PlanBudgets::none(),
        consecutive_failure_limit: 3,
        resume_target: None,
        resume_scheduler_state: None,
        resume_budget_consumed: None,
        resume_last_session_seq: None,
    };
    let report = render_dry_run_report(&inputs);
    let mut lines = report.lines();
    assert_eq!(lines.next(), Some(DRY_RUN_HEADER));
    assert_eq!(lines.next(), Some("version: 1"));
}
