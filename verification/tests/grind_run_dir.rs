use pitboss::grind::run_dir::{
    render_sessions_md, RunDir, RunDirError, RunDirProbe, RunIds, RunPaths, SessionLog,
    SessionRecord, SessionStatus,
};
use pitboss::money::Usd;
use pitboss::state::{RoleUsage, TokenUsage};
use pitboss::table::Table;
use pitboss::time::Timestamp;
use std::collections::HashSet;

fn at(text: &str) -> Timestamp {
    let t = chrono::DateTime::parse_from_rfc3339(text).unwrap();
    Timestamp::new(t.timestamp(), t.timestamp_subsec_nanos()).unwrap()
}

fn fixture_record(seq: u32, run_id: &str, status: SessionStatus) -> SessionRecord {
    let started = at("2026-04-30T18:05:00Z");
    let ended = at("2026-04-30T18:06:30Z");
    let mut by_role = Table::new();
    by_role.insert(
        "implementer",
        RoleUsage {
            input: 1000,
            output: 500,
        },
    );
    let tokens = TokenUsage {
        input: 1000,
        output: 500,
        by_role,
    };
    SessionRecord {
        seq,
        run_id: run_id.to_string(),
        prompt: "fp-hunter".to_string(),
        started_at: started,
        ended_at: ended,
        status,
        summary: Some("fixed the foo bug in bar.rs".to_string()),
        commit: Some(format!("abc1234{seq:033}")),
        tokens,
        cost_usd: Usd::from_micros(12_300),
        transcript_path: format!("transcripts/session-{seq:04}.log"),
    }
}

fn whole() -> RunDirProbe {
    RunDirProbe {
        root_is_dir: true,
        has_sessions_jsonl: true,
        has_sessions_md: true,
        has_scratchpad: true,
        transcripts_is_dir: true,
    }
}

#[test]
fn create_lays_out_expected_files_and_dirs() {
    let dir = RunDir::create("/repo", "20260430T180000Z-aaaa", false).unwrap();
    let p = dir.paths();
    let root = "/repo/.pitboss/grind/20260430T180000Z-aaaa";
    assert_eq!(p.root, root);
    assert_eq!(p.state, format!("{root}/state.json"));
    assert_eq!(p.sessions_jsonl, format!("{root}/sessions.jsonl"));
    assert_eq!(p.sessions_md, format!("{root}/sessions.md"));
    assert_eq!(p.scratchpad, format!("{root}/scratchpad.md"));
    assert_eq!(p.transcripts, format!("{root}/transcripts"));
    assert_eq!(p.worktrees, format!("{root}/worktrees"));
    assert_eq!(dir.scratchpad().path_for_agent(), format!("{root}/scratchpad.md"));
}

#[test]
fn create_refuses_when_directory_already_exists() {
    let err = RunDir::create("/repo", "rid", true).unwrap_err();
    assert!(err.message().contains("already exists"), "got: {}", err.message());
}

#[test]
fn open_rejects_missing_directory() {
    let probe = RunDirProbe { root_is_dir: false, ..whole() };
    let err = RunDir::open("/repo", "no-such-run", &probe).unwrap_err();
    assert!(err.message().contains("does not exist"), "got: {}", err.message());
}

#[test]
fn open_finds_an_existing_run() {
    let opened = RunDir::open("/repo", "rid", &whole()).unwrap();
    assert_eq!(opened.paths().root, "/repo/.pitboss/grind/rid");
}

#[test]
fn open_names_what_is_missing() {
    let missing = |probe: RunDirProbe| RunDir::open("/repo", "rid", &probe).unwrap_err();
    let root = "/repo/.pitboss/grind/rid".to_string();
    for (probe, file) in [
        (RunDirProbe { has_sessions_jsonl: false, ..whole() }, "sessions.jsonl"),
        (RunDirProbe { has_sessions_md: false, ..whole() }, "sessions.md"),
        (RunDirProbe { has_scratchpad: false, ..whole() }, "scratchpad.md"),
    ] {
        assert_eq!(
            missing(probe),
            RunDirError::MissingFile { root: root.clone(), file: format!("{root}/{file}") }
        );
    }
    assert_eq!(
        missing(RunDirProbe { transcripts_is_dir: false, ..whole() }),
        RunDirError::MissingTranscripts { root }
    );
}

#[test]
fn session_log_lines_are_numbered_and_skip_blanks() {
    let lines = SessionLog::lines("{\"seq\":1}\n\n{\"seq\":2}\n");
    assert_eq!(
        lines,
        vec![(1, "{\"seq\":1}".to_string()), (3, "{\"seq\":2}".to_string())]
    );
}

#[test]
fn append_rerenders_sessions_md_from_full_stream() {
    let r1 = fixture_record(1, "rid", SessionStatus::Okay);
    let r2 = fixture_record(2, "rid", SessionStatus::Aborted);
    let after_one = render_sessions_md(&[r1.copy()]);
    let after_two = render_sessions_md(&[r1, r2]);
    assert!(after_one.contains("session-0001"));
    assert!(!after_one.contains("session-0002"));
    assert!(after_two.contains("session-0001"));
    assert!(after_two.contains("session-0002"));
    assert!(after_two.starts_with(&after_one));
}

#[test]
fn render_sessions_md_empty_snapshot() {
    assert_eq!(render_sessions_md(&[]), "# Sessions\n\n_No sessions recorded yet._\n");
}

#[test]
fn render_sessions_md_two_rows_snapshot() {
    let r1 = fixture_record(1, "rid", SessionStatus::Okay);
    let mut r2 = fixture_record(2, "rid", SessionStatus::Error);
    r2.summary = None;
    r2.commit = None;
    let s = render_sessions_md(&[r1, r2]);
    let expected = "# Sessions\n\n\
        ## session-0001 — fp-hunter (ok)\n\n\
        - started: 2026-04-30T18:05:00Z\n\
        - ended: 2026-04-30T18:06:30Z\n\
        - duration: 90s\n\
        - commit: abc1234\n\
        - tokens: 1500 (in 1000 / out 500)\n\
        - cost: $0.0123\n\
        - transcript: transcripts/session-0001.log\n\
        - summary:\n\n    fixed the foo bug in bar.rs\n\n\
        ## session-0002 — fp-hunter (error)\n\n\
        - started: 2026-04-30T18:05:00Z\n\
        - ended: 2026-04-30T18:06:30Z\n\
        - duration: 90s\n\
        - commit: (none)\n\
        - tokens: 1500 (in 1000 / out 500)\n\
        - cost: $0.0123\n\
        - transcript: transcripts/session-0002.log\n\
        - summary: (none)\n\n";
    assert_eq!(s, expected);
}

#[test]
fn generate_run_id_is_unique_within_process() {
    let mut seen: HashSet<String> = HashSet::new();
    let mut ids = RunIds::new();
    for _ in 0..200 {
        let id = ids.generate_run_id();
        assert!(id.contains('-'), "run id should have a hex suffix: {id}");
        let suffix = id.rsplit('-').next().unwrap();
        assert_eq!(suffix.len(), 4, "suffix should be 4 hex chars: {id}");
        assert!(
            suffix.chars().all(|c| c.is_ascii_hexdigit()),
            "suffix should be hex: {id}"
        );
        assert!(seen.insert(id), "run id collision");
    }
}

#[test]
fn commit_ids_are_cut_behind_their_seventh_byte() {
    let shown = |commit: &str| {
        let mut r = fixture_record(1, "rid", SessionStatus::Okay);
        r.commit = Some(commit.to_string());
        let md = render_sessions_md(&[r]);
        let line = md.lines().find(|l| l.starts_with("- commit: ")).unwrap().to_string();
        line["- commit: ".len()..].to_string()
    };
    assert_eq!(shown("abc"), "abc");
    assert_eq!(shown("abcdefg"), "abcdefg");
    assert_eq!(shown("abcdefgh"), "abcdefg");
    assert_eq!(shown("é€éx"), "é€é");
    assert_eq!(shown("😀€!"), "😀€");
    assert_eq!(shown("é"), "é");
}

#[test]
fn run_ids_count_on_from_the_seed() {
    let mut ids = RunIds::new();
    let t = Timestamp::new(at("2026-04-30T18:05:22Z").secs(), 0x1_1a2b).unwrap();
    assert_eq!(ids.run_id_at(t), "20260430T180522Z-1a2b");
    assert_eq!(ids.run_id_at(t), "20260430T180522Z-1a2c");
    let later = at("2026-04-30T18:06:00Z");
    assert_eq!(ids.run_id_at(later), "20260430T180600Z-1a2d");
}

#[test]
fn run_ids_carry_the_clock() {
    let before = Timestamp::now().to_compact();
    let id = RunIds::new().generate_run_id();
    let after = Timestamp::now().to_compact();
    let stamp = id.split('-').next().unwrap();
    assert!(before.as_str() <= stamp && stamp <= after.as_str());
    // Well past the day on which this was written.
    assert!(Timestamp::new(1_700_000_000, 0).unwrap().is_before(&Timestamp::now()));
}

#[test]
fn transcript_for_uses_zero_padded_seq() {
    let p = RunPaths::for_run("/tmp/repo", "rid");
    assert_eq!(
        p.transcript_for(7),
        "/tmp/repo/.pitboss/grind/rid/transcripts/session-0007.log"
    );
}
