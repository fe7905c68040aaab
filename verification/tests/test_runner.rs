use pitboss::test_runner::{detect, Layout, TestRunner, TestRunnerKind};

const WORKDIR: &str = "/tmp/project";

fn empty_layout() -> Layout {
    Layout {
        cargo_toml: false,
        package_json: None,
        pnpm_lock: false,
        yarn_lock: false,
        pyproject_toml: false,
        setup_py: false,
        go_mod: false,
    }
}

fn touch(layout: &mut Layout, rel: &str) {
    match rel {
        "Cargo.toml" => layout.cargo_toml = true,
        "pyproject.toml" => layout.pyproject_toml = true,
        "setup.py" => layout.setup_py = true,
        "go.mod" => layout.go_mod = true,
        "pnpm-lock.yaml" => layout.pnpm_lock = true,
        "yarn.lock" => layout.yarn_lock = true,
        other => panic!("no such marker: {other}"),
    }
}

fn write(layout: &mut Layout, rel: &str, contents: &str) {
    assert_eq!(rel, "package.json");
    layout.package_json = Some(contents.to_string());
}

#[test]
fn detect_returns_none_for_unrecognized_layout() {
    let dir = empty_layout();
    assert!(detect(WORKDIR, None, &dir).is_none());
}

#[test]
fn detect_cargo_when_cargo_toml_present() {
    let mut dir = empty_layout();
    touch(&mut dir, "Cargo.toml");
    let runner = detect(WORKDIR, None, &dir).unwrap();
    assert_eq!(runner.kind, TestRunnerKind::Cargo);
    assert_eq!(runner.program, "cargo");
    assert_eq!(runner.args, vec!["test".to_string()]);
    assert_eq!(runner.workdir, WORKDIR);
}

#[test]
fn detect_pytest_via_pyproject_toml() {
    let mut dir = empty_layout();
    touch(&mut dir, "pyproject.toml");
    let runner = detect(WORKDIR, None, &dir).unwrap();
    assert_eq!(runner.kind, TestRunnerKind::Pytest);
    assert_eq!(runner.program, "pytest");
    assert!(runner.args.is_empty());
}

#[test]
fn detect_pytest_via_setup_py_when_pyproject_missing() {
    let mut dir = empty_layout();
    touch(&mut dir, "setup.py");
    let runner = detect(WORKDIR, None, &dir).unwrap();
    assert_eq!(runner.kind, TestRunnerKind::Pytest);
}

#[test]
fn detect_go_when_go_mod_present() {
    let mut dir = empty_layout();
    touch(&mut dir, "go.mod");
    let runner = detect(WORKDIR, None, &dir).unwrap();
    assert_eq!(runner.kind, TestRunnerKind::Go);
    assert_eq!(runner.program, "go");
    assert_eq!(runner.args, vec!["test".to_string(), "./...".to_string()]);
}

#[test]
fn detect_npm_when_package_json_has_test_script() {
    let mut dir = empty_layout();
    write(&mut dir, "package.json", r#"{"scripts":{"test":"jest"}}"#);
    let runner = detect(WORKDIR, None, &dir).unwrap();
    assert_eq!(runner.kind, TestRunnerKind::Npm);
    assert_eq!(runner.program, "npm");
    assert_eq!(runner.args, vec!["test".to_string()]);
}

#[test]
fn detect_pnpm_when_pnpm_lock_present() {
    let mut dir = empty_layout();
    write(
        &mut dir,
        "package.json",
        r#"{"scripts":{"test":"vitest"}}"#,
    );
    touch(&mut dir, "pnpm-lock.yaml");
    let runner = detect(WORKDIR, None, &dir).unwrap();
    assert_eq!(runner.kind, TestRunnerKind::Pnpm);
    assert_eq!(runner.program, "pnpm");
}

#[test]
fn detect_yarn_when_yarn_lock_present_but_no_pnpm() {
    let mut dir = empty_layout();
    write(&mut dir, "package.json", r#"{"scripts":{"test":"jest"}}"#);
    touch(&mut dir, "yarn.lock");
    let runner = detect(WORKDIR, None, &dir).unwrap();
    assert_eq!(runner.kind, TestRunnerKind::Yarn);
    assert_eq!(runner.program, "yarn");
}

#[test]
fn detect_pnpm_wins_over_yarn_when_both_lockfiles_present() {
    let mut dir = empty_layout();
    write(
        &mut dir,
        "package.json",
        r#"{"scripts":{"test":"vitest"}}"#,
    );
    touch(&mut dir, "pnpm-lock.yaml");
    touch(&mut dir, "yarn.lock");
    let runner = detect(WORKDIR, None, &dir).unwrap();
    assert_eq!(runner.kind, TestRunnerKind::Pnpm);
}

#[test]
fn detect_skips_node_when_no_test_script() {
    let mut dir = empty_layout();
    write(&mut dir, "package.json", r#"{"scripts":{"build":"tsc"}}"#);
    // No fallback in this layout, so detection returns None entirely.
    assert!(detect(WORKDIR, None, &dir).is_none());
}

#[test]
fn detect_skips_node_when_test_script_is_empty_string() {
    let mut dir = empty_layout();
    write(&mut dir, "package.json", r#"{"scripts":{"test":"   "}}"#);
    assert!(detect(WORKDIR, None, &dir).is_none());
}

#[test]
fn detect_treats_malformed_package_json_as_no_match() {
    let mut dir = empty_layout();
    write(&mut dir, "package.json", "{ not valid json");
    assert!(detect(WORKDIR, None, &dir).is_none());
}

#[test]
fn detect_priority_cargo_over_node() {
    let mut dir = empty_layout();
    touch(&mut dir, "Cargo.toml");
    write(&mut dir, "package.json", r#"{"scripts":{"test":"jest"}}"#);
    let runner = detect(WORKDIR, None, &dir).unwrap();
    assert_eq!(runner.kind, TestRunnerKind::Cargo);
}

#[test]
fn override_bypasses_detection_entirely() {
    let mut dir = empty_layout();
    // Cargo would otherwise win.
    touch(&mut dir, "Cargo.toml");
    let runner = detect(WORKDIR, Some("make check"), &dir).unwrap();
    assert_eq!(runner.kind, TestRunnerKind::Override);
    assert_eq!(runner.program, "make");
    assert_eq!(runner.args, vec!["check".to_string()]);
}

#[test]
fn override_with_only_whitespace_falls_back_to_detection() {
    let mut dir = empty_layout();
    touch(&mut dir, "Cargo.toml");
    // Empty/whitespace override yields no runner, so detection runs.
    let runner = detect(WORKDIR, Some("   "), &dir).unwrap();
    assert_eq!(runner.kind, TestRunnerKind::Cargo);
}

#[test]
fn override_with_no_args_uses_program_only() {
    let runner = TestRunner::from_override("./run-tests", "/tmp").unwrap();
    assert_eq!(runner.program, "./run-tests");
    assert!(runner.args.is_empty());
}
