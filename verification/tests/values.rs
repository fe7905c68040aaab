use pitboss::git::{branch_name, commit_message, commit_message_sweep};
use pitboss::money::Usd;
use pitboss::paths::{join, relative_to, with_extension};
use pitboss::plan::PhaseId;
use pitboss::style::{col, Style};
use pitboss::table::Table;
use pitboss::time::{Timestamp, MAX_SECS, MIN_SECS};

fn at(text: &str) -> Timestamp {
    let t = chrono::DateTime::parse_from_rfc3339(text).unwrap();
    Timestamp::new(t.timestamp(), t.timestamp_subsec_nanos()).unwrap()
}

#[test]
fn dollars_have_four_decimals() {
    assert_eq!(Usd::zero().to_dollars(), "0.0000");
    assert_eq!(Usd::from_micros(12_300).to_dollars(), "0.0123");
    assert_eq!(Usd::from_micros(15_000_000).to_dollars(), "15.0000");
    assert_eq!(Usd::from_micros(2_500_000).plus(Usd::from_micros(750_000)).to_dollars(), "3.2500");
}

#[test]
fn sums_of_money_stop_at_the_bound() {
    let most = Usd { pico: i128::MAX };
    assert_eq!(most.plus(Usd::from_micros(1)), most);
}

#[test]
fn instants_print_as_rfc3339_and_compactly() {
    let t = at("2026-04-29T14:30:22Z");
    assert_eq!(t.to_rfc3339(), "2026-04-29T14:30:22Z");
    assert_eq!(t.to_compact(), "20260429T143022Z");
    assert_eq!(at("2026-04-29T14:30:22.750Z").to_rfc3339(), "2026-04-29T14:30:22Z");
}

#[test]
fn instants_outside_the_calendar_are_refused() {
    assert!(Timestamp::new(MAX_SECS, 0).is_some());
    assert!(Timestamp::new(MAX_SECS + 1, 0).is_none());
    assert!(Timestamp::new(MIN_SECS, 0).is_some());
    assert!(Timestamp::new(MIN_SECS - 1, 0).is_none());
    assert!(Timestamp::new(0, 1_000_000_000).is_none());
}

#[test]
fn instants_are_ordered_to_the_nanosecond() {
    let a = Timestamp::new(10, 1).unwrap();
    let b = Timestamp::new(10, 2).unwrap();
    assert!(a.is_before(&b) && !b.is_before(&a) && !a.is_before(&a));
    assert_eq!(b.secs(), 10);
    assert_eq!(b.subsec_nanos(), 2);
}

#[test]
fn elapsed_seconds_are_whole_and_never_negative() {
    let start = Timestamp::new(100, 900_000_000).unwrap();
    assert_eq!(Timestamp::new(102, 0).unwrap().seconds_since(&start), 1);
    assert_eq!(Timestamp::new(90, 0).unwrap().seconds_since(&start), 0);
}

#[test]
fn commit_messages_name_their_phase() {
    let id = PhaseId::parse("02").unwrap();
    assert_eq!(commit_message(&id, "Domain types"), "[pitboss] phase 02: Domain types");
    assert_eq!(
        commit_message_sweep(&id, 3),
        "[pitboss] sweep after phase 02: 3 deferred items resolved"
    );
    assert_eq!(
        branch_name("pitboss/play/", at("2026-04-29T14:30:22Z")),
        "pitboss/play/20260429T143022Z"
    );
}

#[test]
fn colours_wrap_only_when_asked() {
    assert_eq!(col(false, Style::Red, "halt"), "halt");
    assert_eq!(col(true, Style::Red, "halt"), "\u{1b}[31mhalt\u{1b}[0m");
}

#[test]
fn paths_join_and_split() {
    assert_eq!(join("/repo", "a/b.md"), "/repo/a/b.md");
    assert_eq!(relative_to("/repo", "/repo/a/b.md"), "a/b.md");
    assert_eq!(with_extension("/repo/session-0001.log", "fixer.log"), "/repo/session-0001.fixer.log");
}

#[test]
fn tables_are_kept_in_key_order() {
    let mut t: Table<u32> = Table::new();
    t.insert("b", 2);
    t.insert("a", 1);
    t.insert("b", 3);
    assert_eq!(t.len(), 2);
    assert_eq!(t.entry(0), ("a", &1));
    assert_eq!(t.entry(1), ("b", &3));
    t.remove("a");
    assert!(!t.contains_key("a"));
    assert_eq!(t.get("b"), Some(&3));
}
