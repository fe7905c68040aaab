use pitboss::grind::worktree::{
    merge_conflict_summary, merge_scratchpad_into_run, parallel_safe_violation_summary,
    session_branch_name, sweep_stale_session_worktrees, ParallelSafeViolationSite,
};

#[test]
fn session_branch_name_uses_canonical_pattern() {
    assert_eq!(
        session_branch_name("20260430T120000Z-aaaa", 7),
        "pitboss/grind/20260430T120000Z-aaaa-session-0007"
    );
}

#[test]
fn merge_conflict_summary_names_prompt_and_includes_first_error_line() {
    let err = "stash failed\nstderr: CONFLICT (content)";
    let s = merge_conflict_summary("fp-hunter", err);
    assert!(s.contains("fp-hunter"), "summary missing prompt name: {s}");
    assert!(s.contains("merge conflict"), "summary missing label: {s}");
    assert!(
        s.contains("stash failed"),
        "summary missing first err line: {s}"
    );
    assert!(
        !s.contains("CONFLICT"),
        "summary leaked tail of multi-line err: {s}"
    );
}

#[test]
fn parallel_safe_violation_summary_names_prompt_and_site() {
    assert_eq!(
        parallel_safe_violation_summary("fp-hunter", ParallelSafeViolationSite::WorktreeSync),
        "parallel_safe contract violated by prompt fp-hunter (worktree sync)"
    );
    assert_eq!(
        parallel_safe_violation_summary("fp-hunter", ParallelSafeViolationSite::RunBranchMerge),
        "parallel_safe contract violated by prompt fp-hunter (run-branch merge)"
    );
}

#[test]
fn sweep_removes_only_seqs_above_last_session_seq() {
    // Five session-NNNN worktrees plus the forensic `failed/` and unrelated
    // entries. With last_session_seq = 2, entries 1 and 2 stay and 3/4/5 leave.
    let mut entries: Vec<(String, bool)> = Vec::new();
    for seq in 1..=5u32 {
        entries.push((format!("session-{seq:04}"), true));
    }
    entries.push(("failed".to_string(), true));
    entries.push(("scratch".to_string(), true));
    entries.push(("loose-file".to_string(), false));
    let removed = sweep_stale_session_worktrees(&entries, "rid", 2);
    assert_eq!(removed.len(), 3, "expected to remove session-0003..0005");
    let names: Vec<&str> = removed.iter().map(|w| entries[w.index].0.as_str()).collect();
    assert_eq!(names, vec!["session-0003", "session-0004", "session-0005"]);
    let branches: Vec<&str> = removed.iter().map(|w| w.branch.as_str()).collect();
    assert_eq!(
        branches,
        vec![
            "pitboss/grind/rid-session-0003",
            "pitboss/grind/rid-session-0004",
            "pitboss/grind/rid-session-0005",
        ]
    );
}

#[test]
fn sweep_no_op_when_worktrees_dir_missing() {
    assert!(sweep_stale_session_worktrees(&[], "rid", 0).is_empty());
}

#[test]
fn merge_scratchpad_noop_when_session_did_not_touch_view() {
    let seed = "seed\n";
    assert_eq!(merge_scratchpad_into_run("run state\n", seed, seed, 1), None);
}

#[test]
fn merge_scratchpad_fast_merges_when_run_level_is_unchanged() {
    let seed = "seed\n";
    let session_view = "seed\n- session 1 added a line\n";
    assert_eq!(
        merge_scratchpad_into_run("seed\n", session_view, seed, 1).as_deref(),
        Some(session_view)
    );
}

#[test]
fn merge_scratchpad_appends_labeled_view_on_concurrent_modification() {
    // Another session already merged its update.
    let run_pad = "seed\n- session 1 added a line\n";
    let seed = "seed\n";
    let session_view = "seed\n- session 2 added a different line\n";
    let after = merge_scratchpad_into_run(run_pad, session_view, seed, 2).unwrap();
    assert!(after.contains("- session 1 added a line"));
    assert!(after.contains("<!-- pitboss:session-0002 -->"));
    assert!(after.contains("- session 2 added a different line"));
    assert!(after.contains("<!-- /pitboss:session-0002 -->"));
}
