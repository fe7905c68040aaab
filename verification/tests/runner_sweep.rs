use pitboss::config::SweepConfig;
use pitboss::deferred::{DeferredDoc, DeferredItem, DeferredPhase};
use pitboss::plan::PhaseId;
use pitboss::prompts::StaleItem;
use pitboss::runner::sweep::{
    clamp_pending_items, phases_block_canonical, should_run_deferred_sweep, stale_items,
    unchecked_count, update_sweep_staleness,
};
use pitboss::table::Table;

fn doc(items: &[(&str, bool)]) -> DeferredDoc {
    DeferredDoc {
        items: items
            .iter()
            .map(|(text, done)| DeferredItem { text: text.to_string(), done: *done })
            .collect(),
        phases: Vec::new(),
    }
}

fn config() -> SweepConfig {
    SweepConfig {
        enabled: true,
        trigger_min_items: 2,
        max_consecutive: 1,
        audit_enabled: true,
        escalate_after: 2,
        final_sweep_enabled: true,
        final_sweep_max_iterations: 3,
    }
}

fn texts(items: &[&str]) -> Vec<String> {
    items.iter().map(|s| s.to_string()).collect()
}

#[test]
fn a_sweep_is_due_once_enough_is_pending() {
    let two = doc(&[("a", false), ("b", false), ("c", true)]);
    assert_eq!(unchecked_count(&two), 2);
    assert!(should_run_deferred_sweep(&two, &config(), 0));
    assert!(!should_run_deferred_sweep(&two, &config(), 1));
    assert!(!should_run_deferred_sweep(&doc(&[("a", false)]), &config(), 0));
    let off = SweepConfig { enabled: false, ..config() };
    assert!(!should_run_deferred_sweep(&two, &off, 0));
}

#[test]
fn an_item_is_reported_stale_once() {
    let mut attempts: Table<u32> = Table::new();
    let pre = texts(&["a", "b"]);
    assert!(update_sweep_staleness(&mut attempts, &pre, &texts(&["a", "b"]), 2).is_empty());
    let crossed = update_sweep_staleness(&mut attempts, &pre, &texts(&["a"]), 2);
    assert_eq!(crossed, vec![("a".to_string(), 2)]);
    assert_eq!(attempts.get("a"), Some(&2));
    // `b` was resolved and is forgotten.
    assert_eq!(attempts.get("b"), None);
    assert!(update_sweep_staleness(&mut attempts, &texts(&["a"]), &texts(&["a"]), 2).is_empty());
    assert_eq!(attempts.get("a"), Some(&3));
}

#[test]
fn stale_items_come_with_the_most_attempts_first() {
    let mut attempts: Table<u32> = Table::new();
    attempts.insert("young", 1);
    attempts.insert("old", 5);
    attempts.insert("mid-b", 3);
    attempts.insert("mid-a", 3);
    assert_eq!(
        stale_items(&attempts, 2),
        vec![
            StaleItem { text: "old".to_string(), attempts: 5 },
            StaleItem { text: "mid-a".to_string(), attempts: 3 },
            StaleItem { text: "mid-b".to_string(), attempts: 3 },
        ]
    );
}

#[test]
fn clamping_keeps_the_first_pending_items() {
    let d = doc(&[("a", false), ("x", true), ("b", false), ("c", false)]);
    let clamped = clamp_pending_items(&d, 2);
    assert_eq!(clamped.unchecked_texts(), texts(&["a", "b"]));
    assert_eq!(clamp_pending_items(&d, 9).unchecked_texts(), d.unchecked_texts());
}

#[test]
fn the_phases_block_ignores_the_items() {
    let mut d = doc(&[("a", false)]);
    assert_eq!(phases_block_canonical(&d), "");
    d.phases.push(DeferredPhase {
        source_phase: PhaseId::parse("07").unwrap(),
        title: "t".to_string(),
        body: "b\n".to_string(),
    });
    let block = phases_block_canonical(&d);
    assert_eq!(block, "## Deferred phases\n\n### From phase 07: t\nb\n");
    d.items.clear();
    assert_eq!(phases_block_canonical(&d), block);
}
