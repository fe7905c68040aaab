use pitboss::grind::plan::{default_plan_from_dir, GrindPlan, Hooks, PlanBudgets, PlanPromptRef};
use pitboss::grind::prompt::{PromptDoc, PromptMeta, PromptSource};
use pitboss::grind::scheduler::Scheduler;
use pitboss::table::Table;

fn fake_prompt(name: &str, weight: u32, every: u32, max_runs: Option<u32>) -> PromptDoc {
    PromptDoc {
        meta: PromptMeta {
            name: name.to_string(),
            description: format!("desc for {name}"),
            weight,
            every,
            max_runs,
            verify: false,
            parallel_safe: false,
            tags: Vec::new(),
            max_session_seconds: None,
            max_session_cost_usd: None,
        },
        body: String::new(),
        source_path: format!("/fixture/{name}.md"),
        source_kind: PromptSource::Project,
    }
}

fn lookup(prompts: &[PromptDoc]) -> Table<PromptDoc> {
    let mut table = Table::new();
    for p in prompts {
        table.insert(&p.meta.name, p.copy());
    }
    table
}

fn run_n(scheduler: &mut Scheduler, n: usize) -> Vec<Option<String>> {
    let mut out = Vec::with_capacity(n);
    for _ in 0..n {
        let pick = scheduler.next();
        let name = pick.as_ref().map(|d| d.meta.name.clone());
        if let Some(d) = pick {
            scheduler.record_run(&d.meta.name);
        }
        out.push(name);
    }
    out
}

#[test]
fn empty_plan_returns_none() {
    let plan = default_plan_from_dir(&[]);
    let mut s = Scheduler::new(plan, Table::new());
    assert_eq!(s.next(), None);
    // Rotation still advances even when there's nothing to pick — keeps the
    // counter aligned with caller expectations if the plan grows mid-run.
    assert_eq!(s.state().rotation, 1);
}

#[test]
fn weight_two_to_one_holds_over_one_hundred_rotations() {
    // With weight 2:1 and equal `every`, the long-run ratio of picks must
    // converge to 2:1 (within one tick).
    let prompts = vec![fake_prompt("a", 2, 1, None), fake_prompt("b", 1, 1, None)];
    let plan = default_plan_from_dir(&prompts);
    let mut s = Scheduler::new(plan, lookup(&prompts));
    let picks = run_n(&mut s, 100);
    let count_a = picks.iter().filter(|p| p.as_deref() == Some("a")).count();
    let count_b = picks.iter().filter(|p| p.as_deref() == Some("b")).count();
    assert_eq!(count_a + count_b, 100);
    // 100 * 2/3 ≈ 67. Allow ±1 for rounding in the deficit cycle.
    assert!(
        (66..=68).contains(&count_a),
        "expected ~67 a picks, got {count_a} (b={count_b})"
    );
    assert!(
        (32..=34).contains(&count_b),
        "expected ~33 b picks, got {count_b} (a={count_a})"
    );
}

#[test]
fn weight_three_to_one_holds_over_one_hundred_rotations() {
    let prompts = vec![fake_prompt("a", 3, 1, None), fake_prompt("b", 1, 1, None)];
    let plan = default_plan_from_dir(&prompts);
    let mut s = Scheduler::new(plan, lookup(&prompts));
    let picks = run_n(&mut s, 100);
    let count_a = picks.iter().filter(|p| p.as_deref() == Some("a")).count();
    let count_b = picks.iter().filter(|p| p.as_deref() == Some("b")).count();
    assert_eq!(count_a + count_b, 100);
    // Expected ~75/25.
    assert!(
        (74..=76).contains(&count_a),
        "expected ~75 a picks, got {count_a}"
    );
}

#[test]
fn every_three_only_fires_on_multiples_of_three() {
    let prompts = vec![fake_prompt("triage", 1, 3, None)];
    let plan = default_plan_from_dir(&prompts);
    let mut s = Scheduler::new(plan, lookup(&prompts));
    let picks = run_n(&mut s, 9);
    assert_eq!(
        picks,
        vec![
            None,
            None,
            Some("triage".to_string()),
            None,
            None,
            Some("triage".to_string()),
            None,
            None,
            Some("triage".to_string()),
        ]
    );
}

#[test]
fn max_runs_retires_a_prompt() {
    let prompts = vec![fake_prompt("oneshot", 1, 1, Some(5))];
    let plan = default_plan_from_dir(&prompts);
    let mut s = Scheduler::new(plan, lookup(&prompts));
    let picks = run_n(&mut s, 10);
    let some_count = picks.iter().filter(|p| p.is_some()).count();
    let none_count = picks.iter().filter(|p| p.is_none()).count();
    assert_eq!(some_count, 5, "max_runs should cap dispatch at 5");
    assert_eq!(none_count, 5, "remaining rotations have no eligible prompt");
    // After the cap, every subsequent call returns None.
    assert!(picks[5..].iter().all(|p| p.is_none()));
}

#[test]
fn max_runs_override_wins_over_frontmatter() {
    // Frontmatter says max_runs=10; plan override says 2.
    let prompt = fake_prompt("p", 1, 1, Some(10));
    let plan = GrindPlan {
        name: "test".to_string(),
        prompts: vec![PlanPromptRef {
            name: "p".to_string(),
            weight_override: None,
            every_override: None,
            max_runs_override: Some(2),
        }],
        max_parallel: 1,
        hooks: Hooks::none(),
        budgets: PlanBudgets::none(),
    };
    let mut s = Scheduler::new(plan, lookup(&[prompt]));
    let picks = run_n(&mut s, 5);
    assert_eq!(picks.iter().filter(|p| p.is_some()).count(), 2);
}

#[test]
fn weight_override_wins_over_frontmatter() {
    // Frontmatter weight 1:1, but plan overrides a's weight to 5.
    let prompts = vec![fake_prompt("a", 1, 1, None), fake_prompt("b", 1, 1, None)];
    let plan = GrindPlan {
        name: "test".to_string(),
        prompts: vec![
            PlanPromptRef {
                name: "a".to_string(),
                weight_override: Some(5),
                every_override: None,
                max_runs_override: None,
            },
            PlanPromptRef {
                name: "b".to_string(),
                weight_override: None,
                every_override: None,
                max_runs_override: None,
            },
        ],
        max_parallel: 1,
        hooks: Hooks::none(),
        budgets: PlanBudgets::none(),
    };
    let mut s = Scheduler::new(plan, lookup(&prompts));
    let picks = run_n(&mut s, 60);
    let count_a = picks.iter().filter(|p| p.as_deref() == Some("a")).count();
    // 5:1 weight → 50/60 a, 10/60 b. Allow ±1 tick.
    assert!(
        (49..=51).contains(&count_a),
        "expected ~50 a picks, got {count_a}"
    );
}

#[test]
fn every_override_wins_over_frontmatter() {
    let prompt = fake_prompt("p", 1, 1, None);
    let plan = GrindPlan {
        name: "test".to_string(),
        prompts: vec![PlanPromptRef {
            name: "p".to_string(),
            weight_override: None,
            every_override: Some(2),
            max_runs_override: None,
        }],
        max_parallel: 1,
        hooks: Hooks::none(),
        budgets: PlanBudgets::none(),
    };
    let mut s = Scheduler::new(plan, lookup(&[prompt]));
    let picks = run_n(&mut s, 6);
    // every=2 → fires only on rotations 2, 4, 6.
    assert_eq!(picks[0], None);
    assert_eq!(picks[1].as_deref(), Some("p"));
    assert_eq!(picks[2], None);
    assert_eq!(picks[3].as_deref(), Some("p"));
    assert_eq!(picks[4], None);
    assert_eq!(picks[5].as_deref(), Some("p"));
}

#[test]
fn ties_break_alphabetically() {
    // Identical weight/every with no runs → first rotation is a tie. The
    // alphabetically first name must win regardless of plan order.
    let prompts = vec![
        fake_prompt("zebra", 1, 1, None),
        fake_prompt("alpha", 1, 1, None),
        fake_prompt("mango", 1, 1, None),
    ];
    let plan = GrindPlan {
        name: "test".to_string(),
        prompts: vec![
            PlanPromptRef {
                name: "zebra".to_string(),
                weight_override: None,
                every_override: None,
                max_runs_override: None,
            },
            PlanPromptRef {
                name: "alpha".to_string(),
                weight_override: None,
                every_override: None,
                max_runs_override: None,
            },
            PlanPromptRef {
                name: "mango".to_string(),
                weight_override: None,
                every_override: None,
                max_runs_override: None,
            },
        ],
        max_parallel: 1,
        hooks: Hooks::none(),
        budgets: PlanBudgets::none(),
    };
    let mut s = Scheduler::new(plan, lookup(&prompts));
    let pick = s.next().unwrap();
    assert_eq!(pick.meta.name, "alpha");
}

#[test]
fn determinism_two_runs_yield_identical_sequences() {
    let prompts = vec![
        fake_prompt("a", 2, 1, None),
        fake_prompt("b", 1, 1, None),
        fake_prompt("c", 3, 1, Some(7)),
    ];
    let plan = default_plan_from_dir(&prompts);
    let mut s1 = Scheduler::new(plan.copy(), lookup(&prompts));
    let mut s2 = Scheduler::new(plan, lookup(&prompts));
    let seq1 = run_n(&mut s1, 50);
    let seq2 = run_n(&mut s2, 50);
    assert_eq!(seq1, seq2);
    assert_eq!(s1.state(), s2.state());
}

#[test]
fn record_run_without_dispatch_advances_count() {
    // record_run is decoupled from next() — the runner can choose not to
    // bump the count for a session it never actually dispatched. Verify the
    // counter behaves the way the contract advertises.
    let prompts = vec![fake_prompt("a", 1, 1, Some(2))];
    let plan = default_plan_from_dir(&prompts);
    let mut s = Scheduler::new(plan, lookup(&prompts));
    // Pretend "a" already ran twice without next() being called.
    s.record_run("a");
    s.record_run("a");
    // Now next() should refuse further dispatch.
    assert_eq!(s.next(), None);
    assert_eq!(s.state().runs_per_prompt.get("a"), Some(&2));
}

#[test]
fn unknown_plan_entry_is_skipped() {
    // A plan that pins a name we don't have in the prompt lookup should not
    // panic — the scheduler treats it as if no candidate is present at that
    // slot. Plan validation is supposed to catch this earlier.
    let prompts = vec![fake_prompt("real", 1, 1, None)];
    let plan = GrindPlan {
        name: "test".to_string(),
        prompts: vec![
            PlanPromptRef {
                name: "ghost".to_string(),
                weight_override: None,
                every_override: None,
                max_runs_override: None,
            },
            PlanPromptRef {
                name: "real".to_string(),
                weight_override: None,
                every_override: None,
                max_runs_override: None,
            },
        ],
        max_parallel: 1,
        hooks: Hooks::none(),
        budgets: PlanBudgets::none(),
    };
    let mut s = Scheduler::new(plan, lookup(&prompts));
    let pick = s.next().unwrap();
    assert_eq!(pick.meta.name, "real");
}
