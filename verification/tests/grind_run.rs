use pitboss::grind::run::{
    compose_user_prompt, run_branch_name, standing_instruction_block, tail_lines, GrindShutdown,
    SCRATCHPAD_CLOSE, SCRATCHPAD_OPEN, SESSION_LOG_CLOSE, SESSION_LOG_OPEN,
};
use pitboss::grind::session::read_summary_or_fallback;
use pitboss::grind::verify::render_grind_fixer_prompt;

#[test]
fn run_branch_name_uses_canonical_prefix() {
    assert_eq!(
        run_branch_name("20260430T120000Z-1a2b"),
        "pitboss/grind/20260430T120000Z-1a2b"
    );
}

#[test]
fn compose_user_prompt_stamps_all_three_marker_blocks() {
    let out = compose_user_prompt("STANDING", "session log row", "scratchpad note", "body");
    assert!(out.starts_with("STANDING\n\n"));
    assert!(out.contains(SESSION_LOG_OPEN));
    assert!(out.contains(SESSION_LOG_CLOSE));
    assert!(out.contains(SCRATCHPAD_OPEN));
    assert!(out.contains(SCRATCHPAD_CLOSE));
    assert!(out.contains("session log row"));
    assert!(out.contains("scratchpad note"));
    assert!(out.contains("body"));
    // Body lands at the end.
    let body_pos = out.find("body").unwrap();
    assert!(body_pos > out.find(SCRATCHPAD_CLOSE).unwrap());
}

#[test]
fn compose_user_prompt_substitutes_empty_blocks() {
    let out = compose_user_prompt("STANDING", "", "", "do the thing");
    assert!(out.contains("(no prior sessions)"));
    assert!(out.contains("(scratchpad is empty)"));
    assert!(out.contains("do the thing"));
}

#[test]
fn standing_instruction_block_carries_markers() {
    let s = standing_instruction_block();
    assert!(
        s.contains("<!-- pitboss:standing-instruction:start -->"),
        "instruction missing start marker"
    );
    assert!(
        s.contains("<!-- pitboss:standing-instruction:end -->"),
        "instruction missing end marker"
    );
    assert!(s.contains("$PITBOSS_SUMMARY_FILE"));
    assert!(s.contains("$PITBOSS_SCRATCHPAD"));
    assert!(s.contains("$PITBOSS_RUN_ID"));
}

#[test]
fn tail_lines_keeps_last_n() {
    let text = "a\nb\nc\nd\ne\n";
    assert_eq!(tail_lines(text, 3), "c\nd\ne\n");
    assert_eq!(tail_lines(text, 10), "a\nb\nc\nd\ne\n");
    assert_eq!(tail_lines("", 5), "");
}

#[test]
fn read_summary_falls_back_when_file_is_missing_or_empty() {
    assert_eq!(read_summary_or_fallback(None), "(no summary provided)");
    assert_eq!(read_summary_or_fallback(Some("   \n  \n")), "(no summary provided)");
    assert_eq!(read_summary_or_fallback(Some("did the thing\n")), "did the thing");
}

#[test]
fn shutdown_drain_and_abort_signals_propagate() {
    let mut s = GrindShutdown::new();
    assert!(!s.is_draining());
    assert!(!s.is_aborted());

    s.drain();
    assert!(s.is_draining());
    assert!(!s.is_aborted());

    s.abort();
    assert!(s.is_draining());
    assert!(s.is_aborted());
}

#[test]
fn grind_fixer_prompt_substitutes_all_placeholders() {
    let rendered = render_grind_fixer_prompt(
        "fp-hunter",
        "Find every false-positive lint warning and silence it.",
        "test_widget ... FAILED\n  expected 5, got 6",
    );
    assert!(rendered.contains("fp-hunter"));
    assert!(rendered.contains("Find every false-positive"));
    assert!(rendered.contains("test_widget ... FAILED"));
    // No placeholder leakage.
    assert!(!rendered.contains("{prompt_name}"));
    assert!(!rendered.contains("{prompt_body}"));
    assert!(!rendered.contains("{test_output}"));
}
