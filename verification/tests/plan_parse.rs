use pitboss::plan::{parse, serialize, Phase, PhaseId, Plan, PlanParseError};

fn fixture_minimal() -> &'static str {
    "---\ncurrent_phase: \"01\"\n---\n\n# Phase 01: First\n\nHello world.\n"
}

fn fixture_with_preamble_and_two_phases() -> &'static str {
    "---\n\
     current_phase: \"02\"\n\
     project: foreman\n\
     ---\n\
     \n\
     # Foreman\n\
     \n\
     Intro paragraph.\n\
     \n\
     # Phase 01: Foundation\n\
     \n\
     Body of phase one.\n\
     \n\
     # Phase 02: Domain types\n\
     \n\
     Body of phase two.\n"
}

#[test]
fn parses_minimal_fixture() {
    let plan = parse(fixture_minimal()).unwrap();
    assert_eq!(plan.current_phase.as_str(), "01");
    assert_eq!(plan.phases.len(), 1);
    assert_eq!(plan.phases[0].id.as_str(), "01");
    assert_eq!(plan.phases[0].title, "First");
    assert_eq!(plan.phases[0].body, "\nHello world.\n");
    assert_eq!(plan.preamble, "\n");
    assert_eq!(plan.frontmatter, "current_phase: \"01\"");
}

#[test]
fn round_trip_minimal() {
    let s = fixture_minimal();
    assert_eq!(serialize(&parse(s).unwrap()), s);
}

#[test]
fn round_trip_with_preamble_and_two_phases() {
    let s = fixture_with_preamble_and_two_phases();
    let plan = parse(s).unwrap();
    assert_eq!(plan.phases.len(), 2);
    assert_eq!(plan.preamble, "\n# Foreman\n\nIntro paragraph.\n\n");
    assert_eq!(plan.phases[0].title, "Foundation");
    assert_eq!(plan.phases[1].title, "Domain types");
    assert_eq!(serialize(&plan), s);
}

#[test]
fn rejects_empty_input() {
    assert_eq!(parse(""), Err(PlanParseError::MissingFrontmatter));
}

#[test]
fn rejects_missing_frontmatter() {
    assert_eq!(
        parse("# Phase 01: Hello\n\nbody\n"),
        Err(PlanParseError::MissingFrontmatter)
    );
}

#[test]
fn rejects_unterminated_frontmatter() {
    assert_eq!(
        parse("---\ncurrent_phase: \"01\"\n"),
        Err(PlanParseError::MissingFrontmatter)
    );
}

#[test]
fn rejects_frontmatter_only() {
    assert_eq!(
        parse("---\ncurrent_phase: \"01\"\n---\n"),
        Err(PlanParseError::NoPhases)
    );
}

#[test]
fn rejects_missing_current_phase() {
    let err = parse("---\nproject: foreman\n---\n\n# Phase 01: Hi\n\nbody\n").unwrap_err();
    assert!(matches!(err, PlanParseError::BadFrontmatter(_)));
}

#[test]
fn rejects_non_string_current_phase() {
    let err = parse("---\ncurrent_phase: 1\n---\n\n# Phase 01: Hi\n\nbody\n").unwrap_err();
    assert!(matches!(err, PlanParseError::BadFrontmatter(_)));
}

#[test]
fn rejects_duplicate_phase_ids() {
    let s = "---\ncurrent_phase: \"01\"\n---\n\n# Phase 01: A\n\nbody\n# Phase 01: B\n\nmore\n";
    assert_eq!(
        parse(s),
        Err(PlanParseError::DuplicatePhaseId("01".to_string()))
    );
}

#[test]
fn rejects_unknown_current_phase() {
    let s = "---\ncurrent_phase: \"99\"\n---\n\n# Phase 01: Hi\n\nbody\n";
    assert_eq!(
        parse(s),
        Err(PlanParseError::UnknownCurrentPhase("99".to_string()))
    );
}

#[test]
fn rejects_bad_heading_format() {
    let s = "---\ncurrent_phase: \"01\"\n---\n\n# Phase 01 missing colon\n\nbody\n";
    let err = parse(s).unwrap_err();
    assert!(matches!(err, PlanParseError::BadHeading { .. }));
}

#[test]
fn rejects_bad_heading_id() {
    let s = "---\ncurrent_phase: \"01\"\n---\n\n# Phase abc: oops\n\nbody\n";
    let err = parse(s).unwrap_err();
    assert!(matches!(err, PlanParseError::BadHeadingId { .. }));
}

#[test]
fn unknown_frontmatter_keys_are_accepted_with_warning() {
    let s = "---\ncurrent_phase: \"01\"\nproject: foreman\nweird_key: 42\n---\n\n# Phase 01: A\n\nbody\n";
    let plan = parse(s).unwrap();
    assert_eq!(plan.current_phase.as_str(), "01");
    // round-trip preserves the unknown keys verbatim
    assert_eq!(serialize(&plan), s);
}

#[test]
fn normalizes_crlf_to_lf_on_parse() {
    let crlf = "---\r\ncurrent_phase: \"01\"\r\n---\r\n\r\n# Phase 01: A\r\n\r\nbody\r\n";
    let plan = parse(crlf).unwrap();
    // Output is LF only.
    let out = serialize(&plan);
    assert!(!out.contains('\r'));
    assert!(out.contains("# Phase 01: A\n"));
}

#[test]
fn set_current_phase_rewrites_only_that_line() {
    let s = fixture_with_preamble_and_two_phases();
    let mut plan = parse(s).unwrap();
    let new_id = PhaseId::parse("01").unwrap();
    plan.set_current_phase(new_id.clone());
    assert_eq!(plan.current_phase, new_id);
    // Frontmatter still has project: foreman.
    assert!(plan.frontmatter.contains("project: foreman"));
    assert!(plan.frontmatter.contains("current_phase: \"01\""));
    assert!(!plan.frontmatter.contains("current_phase: \"02\""));
    // Round-trips against itself after mutation.
    let out = serialize(&plan);
    let plan2 = parse(&out).unwrap();
    assert_eq!(plan2.current_phase.as_str(), "01");
}

#[test]
fn set_current_phase_appends_when_missing() {
    let mut plan = Plan {
        current_phase: PhaseId::parse("01").unwrap(),
        frontmatter: "project: foreman".to_string(),
        preamble: String::new(),
        phases: vec![Phase {
            id: PhaseId::parse("01").unwrap(),
            title: "x".into(),
            body: String::new(),
        }],
    };
    plan.set_current_phase(PhaseId::parse("02").unwrap());
    assert!(plan.frontmatter.contains("project: foreman"));
    assert!(plan.frontmatter.contains("current_phase: \"02\""));
}
