use pitboss::grind::prompt::{
    default_every, default_weight, finish_prompt, open_prompt, PromptDoc, PromptMeta,
    PromptMetaValidationError, PromptParseError, PromptSource,
};
use pitboss::money::Usd;

fn fake_path() -> &'static str {
    "/fixture/prompt.md"
}

fn number(v: &serde_yaml::Value) -> u32 {
    v.as_u64().unwrap() as u32
}

/// Reads the fields of a prompt header out of a YAML mapping; unknown keys and
/// a missing name are refused.
fn decode(frontmatter: &str) -> Result<PromptMeta, String> {
    let mapping: serde_yaml::Mapping =
        serde_yaml::from_str(frontmatter).map_err(|e| e.to_string())?;
    let mut meta = PromptMeta {
        name: String::new(),
        description: String::new(),
        weight: default_weight(),
        every: default_every(),
        max_runs: None,
        verify: false,
        parallel_safe: false,
        tags: Vec::new(),
        max_session_seconds: None,
        max_session_cost_usd: None,
    };
    let mut named = false;
    for (key, value) in &mapping {
        match key.as_str().unwrap() {
            "name" => {
                named = true;
                meta.name = value.as_str().unwrap().to_string();
            }
            "description" => meta.description = value.as_str().unwrap().to_string(),
            "weight" => meta.weight = number(value),
            "every" => meta.every = number(value),
            "max_runs" => meta.max_runs = Some(number(value)),
            "verify" => meta.verify = value.as_bool().unwrap(),
            "parallel_safe" => meta.parallel_safe = value.as_bool().unwrap(),
            "tags" => {
                for tag in value.as_sequence().unwrap() {
                    meta.tags.push(tag.as_str().unwrap().to_string());
                }
            }
            "max_session_seconds" => meta.max_session_seconds = value.as_u64(),
            "max_session_cost_usd" => {
                let dollars = value.as_f64().unwrap();
                meta.max_session_cost_usd = Some(Usd::from_micros((dollars * 1e6) as i64));
            }
            other => return Err(format!("unknown field `{other}`")),
        }
    }
    if named {
        Ok(meta)
    } else {
        Err("missing field `name`".to_string())
    }
}

fn parse(input: &str) -> Result<PromptDoc, PromptParseError> {
    let (frontmatter, body) = open_prompt(input, fake_path())?;
    finish_prompt(decode(&frontmatter), body, fake_path(), PromptSource::Project)
}

#[test]
fn well_formed_prompt_round_trips() {
    let input = "\
---
name: fp-hunter
description: Find and remove false positives.
weight: 3
every: 2
max_runs: 10
verify: true
parallel_safe: true
tags: [cleanup, lint]
max_session_seconds: 600
max_session_cost_usd: 1.5
---
Hunt for spurious failures, then file a deferred item describing each one.
";
    let doc = parse(input).expect("parse should succeed");
    assert_eq!(doc.meta.name, "fp-hunter");
    assert_eq!(doc.meta.description, "Find and remove false positives.");
    assert_eq!(doc.meta.weight, 3);
    assert_eq!(doc.meta.every, 2);
    assert_eq!(doc.meta.max_runs, Some(10));
    assert!(doc.meta.verify);
    assert!(doc.meta.parallel_safe);
    assert_eq!(doc.meta.tags, vec!["cleanup".to_string(), "lint".into()]);
    assert_eq!(doc.meta.max_session_seconds, Some(600));
    assert_eq!(doc.meta.max_session_cost_usd, Some(Usd::from_micros(1_500_000)));
    assert!(doc.body.starts_with("Hunt for spurious"));
    assert_eq!(doc.source_kind, PromptSource::Project);
    assert_eq!(doc.source_path, fake_path());
}

#[test]
fn defaults_apply_when_optional_fields_omitted() {
    let input = "\
---
name: triage
description: Walk the issue queue.
---
Body.
";
    let doc = parse(input).expect("parse should succeed");
    assert_eq!(doc.meta.weight, 1);
    assert_eq!(doc.meta.every, 1);
    assert_eq!(doc.meta.max_runs, None);
    assert!(!doc.meta.verify);
    assert!(!doc.meta.parallel_safe);
    assert!(doc.meta.tags.is_empty());
    assert_eq!(doc.meta.max_session_seconds, None);
    assert_eq!(doc.meta.max_session_cost_usd, None);
}

#[test]
fn verify_and_parallel_safe_parse_independently() {
    let input = "\
---
name: lint-sweep
description: Lint pass.
verify: true
parallel_safe: false
---
";
    let doc = parse(input).expect("parse should succeed");
    assert!(doc.meta.verify);
    assert!(!doc.meta.parallel_safe);
}

#[test]
fn missing_frontmatter_is_rejected() {
    let input = "no fence here\nname: foo\n";
    let err = parse(input).unwrap_err();
    assert!(matches!(err, PromptParseError::MissingFrontmatter { .. }));
}

#[test]
fn unterminated_frontmatter_is_rejected() {
    let input = "---\nname: foo\ndescription: bar\n";
    let err = parse(input).unwrap_err();
    assert!(matches!(err, PromptParseError::MissingFrontmatter { .. }));
}

#[test]
fn missing_name_is_rejected() {
    let input = "\
---
description: only description, no name.
---
body
";
    let err = parse(input).unwrap_err();
    assert!(
        matches!(err, PromptParseError::MissingName { .. }),
        "expected MissingName, got {err:?}"
    );
}

#[test]
fn malformed_yaml_is_rejected() {
    let input = "\
---
name: foo
description: bar
weight: : :
---
";
    let err = parse(input).unwrap_err();
    assert!(matches!(err, PromptParseError::BadFrontmatter { .. }));
}

#[test]
fn duplicate_field_is_rejected() {
    let input = "\
---
name: foo
description: bar
weight: 1
weight: 2
---
";
    let err = parse(input).unwrap_err();
    match err {
        PromptParseError::DuplicateField { field, .. } => assert_eq!(field, "weight"),
        other => panic!("expected DuplicateField, got {other:?}"),
    }
}

#[test]
fn invalid_name_is_rejected() {
    let input = "\
---
name: Bad Name
description: nope
---
";
    let err = parse(input).unwrap_err();
    match err {
        PromptParseError::InvalidMeta { source, .. } => {
            assert!(matches!(source, PromptMetaValidationError::InvalidName(_)));
        }
        other => panic!("expected InvalidMeta(InvalidName), got {other:?}"),
    }
}

#[test]
fn name_starting_with_dash_is_rejected() {
    let input = "\
---
name: -leading-dash
description: nope
---
";
    let err = parse(input).unwrap_err();
    assert!(matches!(err, PromptParseError::InvalidMeta { .. }));
}

#[test]
fn name_with_underscore_and_digits_is_accepted() {
    let input = "\
---
name: 9lives_v2-rev
description: ok
---
";
    let doc = parse(input).expect("name should be valid");
    assert_eq!(doc.meta.name, "9lives_v2-rev");
}

#[test]
fn weight_zero_is_rejected() {
    let input = "\
---
name: foo
description: bar
weight: 0
---
";
    let err = parse(input).unwrap_err();
    match err {
        PromptParseError::InvalidMeta { source, .. } => {
            assert_eq!(source, PromptMetaValidationError::WeightTooSmall);
        }
        other => panic!("expected WeightTooSmall, got {other:?}"),
    }
}

#[test]
fn every_zero_is_rejected() {
    let input = "\
---
name: foo
description: bar
every: 0
---
";
    let err = parse(input).unwrap_err();
    match err {
        PromptParseError::InvalidMeta { source, .. } => {
            assert_eq!(source, PromptMetaValidationError::EveryTooSmall);
        }
        other => panic!("expected EveryTooSmall, got {other:?}"),
    }
}

#[test]
fn negative_cost_is_rejected() {
    let input = "\
---
name: foo
description: bar
max_session_cost_usd: -0.5
---
";
    let err = parse(input).unwrap_err();
    match err {
        PromptParseError::InvalidMeta { source, .. } => {
            assert_eq!(source, PromptMetaValidationError::NegativeCost);
        }
        other => panic!("expected NegativeCost, got {other:?}"),
    }
}

#[test]
fn unknown_field_is_rejected() {
    let input = "\
---
name: foo
description: bar
mystery_field: 42
---
";
    let err = parse(input).unwrap_err();
    assert!(matches!(err, PromptParseError::BadFrontmatter { .. }));
}

#[test]
fn crlf_line_endings_are_normalized() {
    let input = "---\r\nname: foo\r\ndescription: bar\r\n---\r\nbody\r\n";
    let doc = parse(input).expect("CRLF should be normalized");
    assert_eq!(doc.meta.name, "foo");
    assert!(doc.body.contains("body"));
}
