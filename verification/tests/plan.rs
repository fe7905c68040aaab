use pitboss::plan::{Phase, PhaseId, PhaseIdParseError, Plan};
use std::cmp::Ordering;

fn id(s: &str) -> PhaseId {
    PhaseId::parse(s).expect("test id must parse")
}

#[test]
fn parses_pure_numeric() {
    assert_eq!(id("02").as_str(), "02");
    assert_eq!(id("10").as_str(), "10");
    assert_eq!(id("0").as_str(), "0");
}

#[test]
fn parses_suffixed() {
    assert_eq!(id("10b").as_str(), "10b");
    assert_eq!(id("12abc").as_str(), "12abc");
    assert_eq!(id("3-rerun").as_str(), "3-rerun");
    assert_eq!(id("4_v2").as_str(), "4_v2");
}

#[test]
fn rejects_empty() {
    assert_eq!(PhaseId::parse(""), Err(PhaseIdParseError::Empty));
}

#[test]
fn rejects_missing_numeric_prefix() {
    assert!(matches!(
        PhaseId::parse("abc"),
        Err(PhaseIdParseError::MissingNumericPrefix(_))
    ));
    assert!(matches!(
        PhaseId::parse("a01"),
        Err(PhaseIdParseError::MissingNumericPrefix(_))
    ));
}

#[test]
fn rejects_invalid_chars_in_suffix() {
    assert!(matches!(
        PhaseId::parse("01.2"),
        Err(PhaseIdParseError::InvalidCharacters(_))
    ));
    assert!(matches!(
        PhaseId::parse("1 b"),
        Err(PhaseIdParseError::InvalidCharacters(_))
    ));
}

#[test]
fn rejects_numeric_overflow() {
    let too_big = "9".repeat(40);
    assert!(matches!(
        PhaseId::parse(&too_big),
        Err(PhaseIdParseError::NumericOverflow(_))
    ));
}

#[test]
fn ordering_is_numeric_then_suffix_then_raw() {
    assert!(id("02") < id("10"));
    assert!(id("10") < id("10b"));
    assert!(id("10b") < id("10c"));
    assert_eq!(id("10").cmp(&id("10")), Ordering::Equal);
    // "1" and "10" — purely numeric, "1" sorts first.
    assert!(id("1") < id("10"));
    // "01" and "1" — same numeric, no suffix; tie-break by raw lex order.
    assert!(id("01") < id("1"));
    // Eq agrees with Ord:
    assert_ne!(id("01"), id("1"));
}

#[test]
fn plan_new_sorts_phases() {
    let p10 = Phase {
        id: id("10"),
        title: "ten".into(),
        body: String::new(),
    };
    let p2 = Phase {
        id: id("02"),
        title: "two".into(),
        body: String::new(),
    };
    let p10b = Phase {
        id: id("10b"),
        title: "ten-b".into(),
        body: String::new(),
    };
    let plan = Plan::new(id("02"), vec![p10.clone(), p2.clone(), p10b.clone()]);
    assert_eq!(plan.phases, vec![p2, p10, p10b]);
}

#[test]
fn plan_phase_lookup() {
    let plan = Plan::new(
        id("01"),
        vec![Phase {
            id: id("01"),
            title: "first".into(),
            body: "body".into(),
        }],
    );
    assert_eq!(
        plan.phase(&id("01")).map(|p| p.title.as_str()),
        Some("first")
    );
    assert!(plan.phase(&id("99")).is_none());
}

