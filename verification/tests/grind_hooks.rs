use pitboss::grind::hooks::{
    banner_close, banner_open, default_hook_env_passthrough, hook_environment, hook_timeout,
    settle, transcript_line, HookEnd, HookKind, HookOutcome,
};
use pitboss::table::Table;
use pitboss::time::Timestamp;

fn at(text: &str) -> Timestamp {
    let t = chrono::DateTime::parse_from_rfc3339(text).unwrap();
    Timestamp::new(t.timestamp(), t.timestamp_subsec_nanos()).unwrap()
}

#[test]
fn hook_outcome_descriptions_are_human_readable() {
    assert_eq!(HookOutcome::Success.description(), "ok");
    assert_eq!(HookOutcome::Failed { exit_code: 2 }.description(), "non-zero exit 2");
    assert_eq!(HookOutcome::Timeout { secs: 30 }.description(), "timed out after 30s");
    assert_eq!(HookOutcome::SpawnError("boom".into()).description(), "spawn failed: boom");
}

#[test]
fn the_way_a_hook_ends_decides_its_outcome() {
    assert_eq!(settle(HookEnd::Exited { success: true, code: Some(0) }, 5), HookOutcome::Success);
    assert_eq!(
        settle(HookEnd::Exited { success: false, code: Some(7) }, 5),
        HookOutcome::Failed { exit_code: 7 }
    );
    assert_eq!(
        settle(HookEnd::Exited { success: false, code: None }, 5),
        HookOutcome::Failed { exit_code: -1 }
    );
    assert_eq!(settle(HookEnd::OutOfTime, 5), HookOutcome::Timeout { secs: 5 });
    assert!(matches!(settle(HookEnd::NotSpawned("x".into()), 5), HookOutcome::SpawnError(_)));
    assert!(matches!(settle(HookEnd::NotWaited("x".into()), 5), HookOutcome::SpawnError(_)));
    assert!(HookOutcome::Success.is_success());
    assert!(!HookOutcome::Timeout { secs: 5 }.is_success());
}

#[test]
fn a_hook_gets_at_least_a_second() {
    assert_eq!(hook_timeout(0), 1);
    assert_eq!(hook_timeout(60), 60);
}

#[test]
fn hooks_see_only_what_is_passed_through() {
    let mut parent: Table<String> = Table::new();
    parent.insert("PATH", "/bin".to_string());
    parent.insert("SECRET", "s".to_string());
    parent.insert("EXTRA", "e".to_string());
    let mut own: Table<String> = Table::new();
    own.insert("PITBOSS_RUN_ID", "rid".to_string());
    assert!(default_hook_env_passthrough().contains(&"HOME".to_string()));
    let env = hook_environment(&parent, &["EXTRA".to_string()], &own);
    assert_eq!(env.get("PATH").map(String::as_str), Some("/bin"));
    assert_eq!(env.get("EXTRA").map(String::as_str), Some("e"));
    assert_eq!(env.get("PITBOSS_RUN_ID").map(String::as_str), Some("rid"));
    assert_eq!(env.get("SECRET"), None);
}

#[test]
fn transcripts_frame_what_a_hook_prints() {
    let now = at("2026-04-30T18:05:00Z");
    let open = banner_open(HookKind::PreSession, "echo hi", now);
    assert!(open.contains("pre_session") && open.contains("echo hi"));
    assert!(open.contains("2026-04-30T18:05:00Z"));
    let close = banner_close(HookKind::OnFailure, &HookOutcome::Failed { exit_code: 3 }, now);
    assert!(close.contains("on_failure") && close.contains("non-zero exit 3"));
    let out = transcript_line(HookKind::PostSession, false, "hello");
    let err = transcript_line(HookKind::PostSession, true, "hello");
    assert!(out.contains("hello") && err.contains("hello") && out != err);
}
