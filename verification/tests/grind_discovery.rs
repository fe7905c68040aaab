use pitboss::grind::discovery::{
    discover_prompts, grind_prompts_dir, has_markdown_extension, prompt_files,
    resolve_home_prompts_dir, sources, DiscoveryOptions, DiscoveryResult,
};
use pitboss::grind::prompt::{PromptDoc, PromptMeta, PromptParseError, PromptSource};

const ROOT: &str = "/work/root";
const HOME: &str = "/work/home";

/// A file of a made-up tree: its path and, when it parses, its prompt.
struct File {
    path: String,
    parsed: Option<(String, String)>,
}

fn write_prompt(tree: &mut Vec<File>, dir: &str, file_name: &str, name: &str, body: &str) -> String {
    let path = format!("{dir}/{file_name}");
    tree.push(File { path: path.clone(), parsed: Some((name.to_string(), body.to_string())) });
    path
}

fn write_raw(tree: &mut Vec<File>, dir: &str, file_name: &str) -> String {
    let path = format!("{dir}/{file_name}");
    tree.push(File { path: path.clone(), parsed: None });
    path
}

fn project_dir() -> String {
    grind_prompts_dir(ROOT)
}

fn global_dir() -> String {
    grind_prompts_dir(HOME)
}

fn doc(file: &File, kind: PromptSource) -> Result<PromptDoc, PromptParseError> {
    match &file.parsed {
        None => Err(PromptParseError::MissingFrontmatter { path: file.path.clone() }),
        Some((name, body)) => Ok(PromptDoc {
            meta: PromptMeta {
                name: name.clone(),
                description: "test prompt".to_string(),
                weight: 1,
                every: 1,
                max_runs: None,
                verify: false,
                parallel_safe: false,
                tags: Vec::new(),
                max_session_seconds: None,
                max_session_cost_usd: None,
            },
            body: body.clone(),
            source_path: file.path.clone(),
            source_kind: kind,
        }),
    }
}

/// Lists every source directory of the tree, loads the files that the library
/// asks for and hands them over in order.
fn discover(tree: &[File], opts: &DiscoveryOptions) -> DiscoveryResult {
    let mut loaded = Vec::new();
    for (dir, kind) in sources(opts) {
        let mut entries: Vec<(String, bool)> = Vec::new();
        for file in tree {
            if let Some(rest) = file.path.strip_prefix(&format!("{dir}/")) {
                match rest.split_once('/') {
                    None => entries.push((file.path.clone(), true)),
                    Some((nested, _)) => entries.push((format!("{dir}/{nested}"), false)),
                }
            }
        }
        for path in prompt_files(&entries) {
            let file = tree.iter().find(|f| f.path == path).unwrap();
            loaded.push((path, doc(file, kind)));
        }
    }
    discover_prompts(loaded)
}

fn opts(home: Option<&str>, override_dir: Option<&str>) -> DiscoveryOptions {
    DiscoveryOptions {
        project_root: ROOT.to_string(),
        home_dir: home.map(str::to_string),
        override_dir: override_dir.map(str::to_string),
    }
}

fn names(res: &DiscoveryResult) -> Vec<&str> {
    res.prompts.iter().map(|p| p.meta.name.as_str()).collect()
}

#[test]
fn project_only_sources_are_loaded() {
    let mut tree = Vec::new();
    write_prompt(&mut tree, &project_dir(), "alpha.md", "alpha", "hi");
    write_prompt(&mut tree, &project_dir(), "bravo.md", "bravo", "hi");

    let res = discover(&tree, &opts(None, None));

    assert!(res.errors.is_empty());
    assert_eq!(names(&res), vec!["alpha", "bravo"]);
    assert!(res.prompts.iter().all(|p| p.source_kind == PromptSource::Project));
}

#[test]
fn global_only_sources_are_loaded_when_project_is_empty() {
    let mut tree = Vec::new();
    write_prompt(&mut tree, &global_dir(), "triage.md", "triage", "hi");

    let res = discover(&tree, &opts(Some(HOME), None));

    assert!(res.errors.is_empty());
    assert_eq!(res.prompts.len(), 1);
    assert_eq!(res.prompts[0].meta.name, "triage");
    assert_eq!(res.prompts[0].source_kind, PromptSource::Global);
}

#[test]
fn project_shadows_global_for_same_name() {
    let mut tree = Vec::new();
    let project_path =
        write_prompt(&mut tree, &project_dir(), "fp.md", "fp-hunter", "project body");
    write_prompt(&mut tree, &global_dir(), "fp.md", "fp-hunter", "global body");
    // Distinct global-only entry survives.
    write_prompt(&mut tree, &global_dir(), "lint.md", "lint", "global body");

    let res = discover(&tree, &opts(Some(HOME), None));

    assert!(res.errors.is_empty());
    assert_eq!(names(&res), vec!["fp-hunter", "lint"]);
    let fp = res.prompts.iter().find(|p| p.meta.name == "fp-hunter").unwrap();
    assert_eq!(fp.source_kind, PromptSource::Project);
    assert_eq!(fp.source_path, project_path);
    assert!(fp.body.contains("project body"));
    let lint = res.prompts.iter().find(|p| p.meta.name == "lint").unwrap();
    assert_eq!(lint.source_kind, PromptSource::Global);
}

#[test]
fn override_dir_replaces_project_and_global_entirely() {
    let mut tree = Vec::new();
    write_prompt(&mut tree, &project_dir(), "p.md", "from-project", "x");
    write_prompt(&mut tree, &global_dir(), "g.md", "from-global", "x");
    let override_path = write_prompt(&mut tree, "/work/override", "o.md", "from-override", "x");

    let res = discover(&tree, &opts(Some(HOME), Some("/work/override")));

    assert!(res.errors.is_empty());
    assert_eq!(res.prompts.len(), 1);
    let only = &res.prompts[0];
    assert_eq!(only.meta.name, "from-override");
    assert_eq!(only.source_kind, PromptSource::Override);
    assert_eq!(only.source_path, override_path);
}

#[test]
fn invalid_files_are_collected_and_valid_files_still_returned() {
    let mut tree = Vec::new();
    write_prompt(&mut tree, &project_dir(), "good.md", "good", "ok");
    // Missing frontmatter entirely.
    let bad = write_raw(&mut tree, &project_dir(), "bad.md");

    let res = discover(&tree, &opts(None, None));

    assert_eq!(res.prompts.len(), 1);
    assert_eq!(res.prompts[0].meta.name, "good");
    assert_eq!(res.errors.len(), 1);
    assert_eq!(res.errors[0].0, bad);
    assert!(matches!(res.errors[0].1, PromptParseError::MissingFrontmatter { .. }));
}

#[test]
fn missing_directories_yield_empty_result() {
    let res = discover(&[], &opts(Some("/work/root/nonexistent-home"), None));
    assert!(res.prompts.is_empty());
    assert!(res.errors.is_empty());
}

#[test]
fn missing_override_dir_yields_empty_result() {
    let mut tree = Vec::new();
    // Project would have prompts, but override is set to a nonexistent dir,
    // which by the precedence rule still suppresses the project source.
    write_prompt(&mut tree, &project_dir(), "p.md", "from-project", "x");

    let res = discover(&tree, &opts(None, Some("/work/root/nope")));
    assert!(res.prompts.is_empty());
    assert!(res.errors.is_empty());
}

#[test]
fn non_md_files_are_ignored() {
    let mut tree = Vec::new();
    let dir = project_dir();
    write_prompt(&mut tree, &dir, "keep.md", "keep", "ok");
    write_raw(&mut tree, &dir, "README.txt");
    write_raw(&mut tree, &dir, "notes");
    // Subdirectory with a prompt should also be ignored (no recursion).
    write_prompt(&mut tree, &format!("{dir}/nested"), "deep.md", "deep", "ok");

    let res = discover(&tree, &opts(None, None));
    assert_eq!(names(&res), vec!["keep"]);
}

#[test]
fn discovery_is_deterministic_across_runs() {
    let mut tree = Vec::new();
    let dir = project_dir();
    // Write in a non-sorted order to make sure ordering comes from us, not
    // from the order in which the directory was listed.
    write_prompt(&mut tree, &dir, "zeta.md", "zeta", "z");
    write_prompt(&mut tree, &dir, "alpha.md", "alpha", "a");
    write_prompt(&mut tree, &dir, "mike.md", "mike", "m");
    write_prompt(&mut tree, &dir, "bravo.md", "bravo", "b");

    let first = discover(&tree, &opts(None, None));
    let second = discover(&tree, &opts(None, None));
    assert_eq!(names(&first), vec!["alpha", "bravo", "mike", "zeta"]);
    assert_eq!(names(&first), names(&second));
}

#[test]
fn within_directory_first_filename_wins_on_duplicate_name() {
    let mut tree = Vec::new();
    let dir = project_dir();
    // Both files declare the same prompt name; alphabetically first wins.
    let first = write_prompt(&mut tree, &dir, "01-first.md", "dup", "first body");
    write_prompt(&mut tree, &dir, "02-second.md", "dup", "second body");

    let res = discover(&tree, &opts(None, None));
    assert!(res.errors.is_empty());
    assert_eq!(res.prompts.len(), 1);
    assert_eq!(res.prompts[0].source_path, first);
    assert!(res.prompts[0].body.contains("first body"));
}

#[test]
fn resolve_home_prompts_dir_uses_home_env() {
    assert_eq!(
        resolve_home_prompts_dir(Some("/home/me")).as_deref(),
        Some("/home/me/.pitboss/grind/prompts")
    );
    assert_eq!(resolve_home_prompts_dir(None), None);
}

#[test]
fn markdown_extension_is_exact() {
    assert!(has_markdown_extension("/a/b.md"));
    assert!(!has_markdown_extension("/a/b.MD"));
    assert!(!has_markdown_extension("/a/.md"));
    assert!(!has_markdown_extension("/a/b.md.txt"));
}
