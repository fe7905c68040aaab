use pitboss::plan::parse::{find_closing_fence, split_document};
use pitboss::plan::{parse, serialize, Phase, PhaseId, PhaseIdParseError, Plan, PlanParseError};

fn pid(s: &str) -> PhaseId {
    PhaseId::parse(s).unwrap()
}

#[test]
fn a_plan_that_is_written_reads_back() {
    let mut plan = Plan::new(
        pid("02"),
        vec![
            Phase { id: pid("01"), title: "One".into(), body: "\nbody\n".into() },
            Phase { id: pid("02"), title: "Two: with colon".into(), body: String::new() },
        ],
    );
    plan.preamble = "\n# Title\n\n".into();
    let text = serialize(&plan);
    let back = parse(&text).unwrap();
    assert_eq!(back.phases, plan.phases);
    assert_eq!(back.current_phase, plan.current_phase);
    assert_eq!(serialize(&back), text);
}

#[test]
fn a_new_plan_reads_back() {
    let plan = Plan::new(
        pid("10-b_C"),
        vec![
            Phase { id: pid("10-b_C"), title: "Last: \"q\"".into(), body: "x # Phase 1: y\n".into() },
            Phase { id: pid("002"), title: String::new(), body: String::new() },
            Phase { id: pid("2"), title: "é".into(), body: "---\n\n".into() },
        ],
    );
    assert_eq!(parse(&serialize(&plan)), Ok(plan));
}

#[test]
fn the_last_write_of_the_pointer_wins() {
    let text = "---\ncurrent_phase: \"01\"\nx: 1\n---\n# Phase 01: A\n# Phase 02: B\n";
    let mut plan = parse(text).unwrap();
    plan.set_current_phase(pid("02"));
    plan.set_current_phase(pid("01"));
    assert_eq!(serialize(&plan), text);
}

#[test]
fn fences_are_whole_lines() {
    assert_eq!(find_closing_fence("a: 1\n---\nrest"), Some(5));
    assert_eq!(find_closing_fence("a: ---\nrest"), None);
    assert_eq!(
        split_document("---\r\na: 1\r\n---\r\nbody"),
        Some(("a: 1\n".to_string(), "body".to_string()))
    );
    assert_eq!(split_document("a: 1\n---\n"), None);
}

#[test]
fn heading_errors_count_lines_of_the_file() {
    let text = "---\ncurrent_phase: \"01\"\n---\n\n# Phase 01: A\n# Phase bad\n";
    match parse(text).unwrap_err() {
        PlanParseError::BadHeading { line, raw } => {
            assert_eq!(line, 6);
            assert_eq!(raw, "# Phase bad");
        }
        other => panic!("expected BadHeading, got {other:?}"),
    }
    let text = "---\ncurrent_phase: \"01\"\n---\n# Phase x: A\n";
    match parse(text).unwrap_err() {
        PlanParseError::BadHeadingId { line, source } => {
            assert_eq!(line, 4);
            assert_eq!(source, PhaseIdParseError::MissingNumericPrefix("x".into()));
        }
        other => panic!("expected BadHeadingId, got {other:?}"),
    }
}

#[test]
fn frontmatter_errors_are_told_apart() {
    let of = |front: &str| parse(&format!("---\n{front}\n---\n# Phase 01: A\n")).unwrap_err();
    assert!(matches!(of("current_phase: \"x\""), PlanParseError::BadCurrentPhase(_)));
    assert!(matches!(of("- just a list"), PlanParseError::BadFrontmatter(_)));
    assert!(matches!(of("a: b: c"), PlanParseError::BadFrontmatter(_)));
    assert!(!of("current_phase: \"x\"").message().is_empty());
}

#[test]
fn identifiers_explain_their_faults() {
    assert!(PhaseId::parse("").unwrap_err().message().contains("empty"));
    assert!(PhaseId::parse("abc").unwrap_err().message().contains("must begin with"));
    let (number, suffix) = PhaseId::components("10b").unwrap();
    assert_eq!((number, suffix.as_str()), (10, "b"));
}
