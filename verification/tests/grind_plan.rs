use pitboss::grind::plan::{
    default_plan_from_dir, parse_plan_str, GrindPlan, Hooks, PlanBudgets, PlanLoadError,
    PlanPromptRef, PlanValidationError, DEFAULT_PLAN_NAME,
};
use pitboss::grind::prompt::{PromptDoc, PromptMeta, PromptSource};
use pitboss::money::Usd;
use pitboss::time::Timestamp;

fn at(text: &str) -> Timestamp {
    let t = chrono::DateTime::parse_from_rfc3339(text).unwrap();
    Timestamp::new(t.timestamp(), t.timestamp_subsec_nanos()).unwrap()
}

fn number(v: &toml::Value) -> u32 {
    v.as_integer().unwrap() as u32
}

/// Reads the fields of a plan out of a TOML table; unknown top-level keys are
/// refused.
fn decode(raw: &str) -> Result<GrindPlan, String> {
    let table: toml::Table = toml::from_str(raw).map_err(|e| e.to_string())?;
    let mut plan = GrindPlan {
        name: String::new(),
        prompts: Vec::new(),
        max_parallel: 1,
        hooks: Hooks::none(),
        budgets: PlanBudgets::none(),
    };
    for (key, value) in &table {
        match key.as_str() {
            "max_parallel" => plan.max_parallel = number(value),
            "prompts" => {
                for entry in value.as_array().unwrap() {
                    plan.prompts.push(PlanPromptRef {
                        name: entry.get("name").unwrap().as_str().unwrap().to_string(),
                        weight_override: entry.get("weight_override").map(number),
                        every_override: entry.get("every_override").map(number),
                        max_runs_override: entry.get("max_runs_override").map(number),
                    });
                }
            }
            "hooks" => {
                let hook = |k: &str| value.get(k).map(|v| v.as_str().unwrap().to_string());
                plan.hooks = Hooks {
                    pre_session: hook("pre_session"),
                    post_session: hook("post_session"),
                    on_failure: hook("on_failure"),
                };
            }
            "budgets" => {
                plan.budgets = PlanBudgets {
                    max_iterations: value.get("max_iterations").map(number),
                    until: value.get("until").map(|v| at(v.as_str().unwrap())),
                    max_cost_usd: value
                        .get("max_cost_usd")
                        .map(|v| Usd::from_micros((v.as_float().unwrap() * 1e6) as i64)),
                    max_tokens: value
                        .get("max_tokens")
                        .map(|v| v.as_integer().unwrap() as u64),
                };
            }
            other => return Err(format!("unknown field `{other}`")),
        }
    }
    Ok(plan)
}

fn fake_prompt(name: &str) -> PromptDoc {
    PromptDoc {
        meta: PromptMeta {
            name: name.to_string(),
            description: "desc".to_string(),
            weight: 1,
            every: 1,
            max_runs: None,
            verify: false,
            parallel_safe: false,
            tags: Vec::new(),
            max_session_seconds: None,
            max_session_cost_usd: None,
        },
        body: String::new(),
        source_path: format!("/fixture/{name}.md"),
        source_kind: PromptSource::Project,
    }
}

fn parse(raw: &str, name: &str) -> Result<GrindPlan, PlanLoadError> {
    parse_plan_str(decode(raw), name.to_string(), "/fixture/plan.toml")
}

#[test]
fn full_plan_round_trips() {
    let raw = r#"
max_parallel = 4

[[prompts]]
name = "fp-hunter"
weight_override = 5
every_override = 2
max_runs_override = 10

[[prompts]]
name = "triage"

[hooks]
pre_session = "echo start"
post_session = "echo done"
on_failure = "echo fail"

[budgets]
max_iterations = 50
until = "2026-05-01T00:00:00Z"
max_cost_usd = 5.0
max_tokens = 1000000
"#;
    let plan = parse(raw, "fp-cleanup").expect("parse should succeed");
    assert_eq!(plan.name, "fp-cleanup");
    assert_eq!(plan.max_parallel, 4);
    assert_eq!(plan.prompts.len(), 2);
    assert_eq!(plan.prompts[0].name, "fp-hunter");
    assert_eq!(plan.prompts[0].weight_override, Some(5));
    assert_eq!(plan.prompts[0].every_override, Some(2));
    assert_eq!(plan.prompts[0].max_runs_override, Some(10));
    assert_eq!(plan.prompts[1].name, "triage");
    assert_eq!(plan.prompts[1].weight_override, None);
    assert_eq!(plan.hooks.pre_session.as_deref(), Some("echo start"));
    assert_eq!(plan.hooks.post_session.as_deref(), Some("echo done"));
    assert_eq!(plan.hooks.on_failure.as_deref(), Some("echo fail"));
    assert_eq!(plan.budgets.max_iterations, Some(50));
    assert_eq!(plan.budgets.max_cost_usd, Some(Usd::from_micros(5_000_000)));
    assert_eq!(plan.budgets.max_tokens, Some(1_000_000));
    assert!(plan.budgets.until.is_some());
}

#[test]
fn empty_body_yields_defaults_with_supplied_name() {
    let plan = parse("", "empty").expect("parse should succeed");
    assert_eq!(plan.name, "empty");
    assert_eq!(plan.max_parallel, 1);
    assert!(plan.prompts.is_empty());
    assert_eq!(plan.hooks, Hooks::none());
    assert_eq!(plan.budgets, PlanBudgets::none());
}

#[test]
fn duplicate_prompt_name_is_rejected() {
    let raw = r#"
[[prompts]]
name = "fp-hunter"

[[prompts]]
name = "fp-hunter"
"#;
    let err = parse(raw, "p").unwrap_err();
    match err {
        PlanLoadError::DuplicatePrompt { name, .. } => assert_eq!(name, "fp-hunter"),
        other => panic!("expected DuplicatePrompt, got {other:?}"),
    }
}

#[test]
fn name_in_body_is_rejected_as_unknown_field() {
    // The plan's `name` is the file stem; encoding it in the TOML body is
    // a foot-gun (the body's value would silently lose to the path). The
    // schema rejects it via `deny_unknown_fields`.
    let raw = "name = \"oops\"\n";
    let err = parse(raw, "real-name").unwrap_err();
    assert!(matches!(err, PlanLoadError::Malformed { .. }));
}

#[test]
fn unknown_top_level_key_is_rejected() {
    let raw = "frobnicate = 7\n";
    let err = parse(raw, "p").unwrap_err();
    assert!(matches!(err, PlanLoadError::Malformed { .. }));
}

#[test]
fn malformed_toml_is_rejected() {
    let raw = "[[prompts\nname = 'broken'\n";
    let err = parse(raw, "p").unwrap_err();
    assert!(matches!(err, PlanLoadError::Malformed { .. }));
}

#[test]
fn weight_override_zero_is_rejected() {
    let raw = r#"
[[prompts]]
name = "fp-hunter"
weight_override = 0
"#;
    let err = parse(raw, "p").unwrap_err();
    match err {
        PlanLoadError::Invalid { message, .. } => {
            assert!(message.contains("weight_override"), "msg: {message}");
        }
        other => panic!("expected Invalid, got {other:?}"),
    }
}

#[test]
fn every_override_zero_is_rejected() {
    let raw = r#"
[[prompts]]
name = "fp-hunter"
every_override = 0
"#;
    let err = parse(raw, "p").unwrap_err();
    match err {
        PlanLoadError::Invalid { message, .. } => {
            assert!(message.contains("every_override"), "msg: {message}");
        }
        other => panic!("expected Invalid, got {other:?}"),
    }
}

#[test]
fn max_parallel_zero_is_rejected() {
    let raw = "max_parallel = 0\n";
    let err = parse(raw, "p").unwrap_err();
    match err {
        PlanLoadError::Invalid { message, .. } => {
            assert!(message.contains("max_parallel"), "msg: {message}");
        }
        other => panic!("expected Invalid, got {other:?}"),
    }
}

#[test]
fn default_plan_synthesizes_one_entry_per_prompt() {
    let prompts = vec![
        fake_prompt("alpha"),
        fake_prompt("bravo"),
        fake_prompt("charlie"),
    ];
    let plan = default_plan_from_dir(&prompts);
    assert_eq!(plan.name, DEFAULT_PLAN_NAME);
    assert_eq!(plan.max_parallel, 1);
    assert_eq!(plan.hooks, Hooks::none());
    assert_eq!(plan.budgets, PlanBudgets::none());
    let names: Vec<&str> = plan.prompts.iter().map(|r| r.name.as_str()).collect();
    assert_eq!(names, vec!["alpha", "bravo", "charlie"]);
    for r in &plan.prompts {
        assert_eq!(r.weight_override, None);
        assert_eq!(r.every_override, None);
        assert_eq!(r.max_runs_override, None);
    }
}

#[test]
fn default_plan_handles_empty_prompt_set() {
    let plan = default_plan_from_dir(&[]);
    assert_eq!(plan.name, DEFAULT_PLAN_NAME);
    assert!(plan.prompts.is_empty());
}

#[test]
fn validate_against_accepts_known_prompts() {
    let prompts = vec![fake_prompt("alpha"), fake_prompt("bravo")];
    let plan = default_plan_from_dir(&prompts);
    plan.validate_against(&prompts).unwrap();
}

#[test]
fn validate_against_rejects_unknown_prompt() {
    let prompts = vec![fake_prompt("alpha")];
    let raw = r#"
[[prompts]]
name = "ghost"
"#;
    let plan = parse(raw, "p").unwrap();
    let err = plan.validate_against(&prompts).unwrap_err();
    assert_eq!(
        err,
        PlanValidationError::UnknownPrompt {
            plan: "p".to_string(),
            prompt: "ghost".to_string(),
        }
    );
}
