use pitboss::plan::{snapshot, verify_unchanged, Snapshot, SnapshotError};

const PATH: &str = "/repo/plan.md";

fn read(bytes: &[u8]) -> Result<Vec<u8>, String> {
    Ok(bytes.to_vec())
}

#[test]
fn detects_byte_for_byte_equality() {
    let file = read(b"hello");
    let snap = snapshot(PATH, &file).unwrap();
    verify_unchanged(PATH, &file, &snap).unwrap();
}

#[test]
fn detects_whitespace_only_changes() {
    let snap = snapshot(PATH, &read(b"hello\n")).unwrap();
    // Add a single trailing space — content drifted.
    let err = verify_unchanged(PATH, &read(b"hello \n"), &snap).unwrap_err();
    assert!(matches!(err, SnapshotError::Mismatch { .. }));
}

#[test]
fn detects_content_changes() {
    let snap = snapshot(PATH, &read(b"original")).unwrap();
    let err = verify_unchanged(PATH, &read(b"tampered"), &snap).unwrap_err();
    assert!(matches!(err, SnapshotError::Mismatch { .. }));
}

#[test]
fn missing_file_is_io_error() {
    let gone: Result<Vec<u8>, String> = Err("No such file or directory (os error 2)".to_string());
    let err = snapshot("/repo/does-not-exist.md", &gone).unwrap_err();
    assert!(matches!(err, SnapshotError::Io { .. }));
}

#[test]
fn hex_is_lowercase_64_chars() {
    let s = Snapshot::of_bytes(b"abc");
    let h = s.hex();
    assert_eq!(h.len(), 64);
    assert!(h.chars().all(|c| c.is_ascii_hexdigit() && !c.is_ascii_uppercase()));
}

#[test]
fn hex_is_the_sha256_digest() {
    assert_eq!(
        Snapshot::of_bytes(b"abc").hex(),
        "ba7816bf8f01cfea414140de5dae2223b00361a396177a9cb410ff61f20015ad"
    );
}

#[test]
fn snapshots_round_trip_via_bytes() {
    let a = Snapshot::of_bytes(b"hello");
    let b = Snapshot::of_bytes(b"hello");
    assert_eq!(a, b);
    assert!(a.same(&b));
    let c = Snapshot::of_bytes(b"helloX");
    assert_ne!(a, c);
    assert!(!a.same(&c));
}

#[test]
fn snapshot_errors_name_the_path() {
    let io = SnapshotError::Io { path: PATH.to_string(), source: "denied".to_string() };
    assert_eq!(io.message(), "snapshot: failed to read \"/repo/plan.md\": denied");
    let changed = SnapshotError::Mismatch { path: PATH.to_string() };
    assert!(changed.message().contains("\"/repo/plan.md\""));
}
