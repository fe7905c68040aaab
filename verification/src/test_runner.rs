//! Project test runner detection.
//!
//! [`detect`] looks at what a workspace holds and gives a [`TestRunner`]
//! preconfigured to invoke the right command. The probe is best-effort; a
//! configured `[tests] command = "..."` overrides detection entirely, in which
//! case the configured command is used verbatim.
//!
//! ## Detection priority
//!
//! 1. `Cargo.toml`             → `cargo test`
//! 2. `package.json` (with a `test` script) → `npm` / `pnpm` / `yarn` `test`
//!    (chosen by the lock file present)
//! 3. `pyproject.toml` or `setup.py` → `pytest`
//! 4. `go.mod`                 → `go test ./...`
//!
//! Detection stops at the first match. A workspace with both `Cargo.toml` and
//! `package.json` resolves to cargo — pick whichever language is canonical and
//! set `[tests] command = "..."` to override.

use vstd::prelude::*;
use vstd::string::StringExecFns;

use crate::text;

verus! {

/// Maximum number of trailing log lines included in a failure summary. Keeps
/// prompts and CLI output bounded; the full log is always on disk.
pub const FAILURE_TAIL_LINES: usize = 40;

/// Which built-in detector matched, if any.
#[derive(Debug, Clone, Copy, PartialEq, Eq, Structural)]
pub enum TestRunnerKind {
    /// `cargo test` — chosen when `Cargo.toml` is present.
    Cargo,
    /// `npm test` — JS workspace with no other lock file.
    Npm,
    /// `pnpm test` — JS workspace with `pnpm-lock.yaml`.
    Pnpm,
    /// `yarn test` — JS workspace with `yarn.lock`.
    Yarn,
    /// `pytest` — Python workspace (`pyproject.toml` or `setup.py`).
    Pytest,
    /// `go test ./...` — Go workspace (`go.mod`).
    Go,
    /// User-supplied `[tests] command = "..."`. Bypassed detection.
    Override,
}

/// The short name of a kind.
pub open spec fn kind_text(k: TestRunnerKind) -> Seq<char> {
    match k {
        TestRunnerKind::Cargo => "cargo test"@,
        TestRunnerKind::Npm => "npm test"@,
        TestRunnerKind::Pnpm => "pnpm test"@,
        TestRunnerKind::Yarn => "yarn test"@,
        TestRunnerKind::Pytest => "pytest"@,
        TestRunnerKind::Go => "go test"@,
        TestRunnerKind::Override => "tests"@,
    }
}

impl TestRunnerKind {
    /// Short name used in summaries and log lines.
    pub fn label(self) -> (r: &'static str)
        ensures
            r@ == kind_text(self),
    {
        match self {
            TestRunnerKind::Cargo => "cargo test",
            TestRunnerKind::Npm => "npm test",
            TestRunnerKind::Pnpm => "pnpm test",
            TestRunnerKind::Yarn => "yarn test",
            TestRunnerKind::Pytest => "pytest",
            TestRunnerKind::Go => "go test",
            TestRunnerKind::Override => "tests",
        }
    }
}

/// A resolved test invocation: program, arguments, and the workspace to run
/// it from.
#[derive(Debug, PartialEq, Eq)]
pub struct TestRunner {
    /// Detector that produced this runner, or `Override` for user-supplied.
    pub kind: TestRunnerKind,
    /// Program to spawn (e.g., `"cargo"`, `"sh"` if the user wrapped it).
    pub program: String,
    /// Arguments passed to the program.
    pub args: Vec<String>,
    /// Working directory the process is spawned in.
    pub workdir: String,
}

/// A [`TestRunner`] as a mathematical value.
#[verifier::ext_equal]
pub struct RunnerModel {
    pub kind: TestRunnerKind,
    pub program: Seq<char>,
    pub args: Seq<Seq<char>>,
    pub workdir: Seq<char>,
}

impl View for TestRunner {
    type V = RunnerModel;

    open spec fn view(&self) -> RunnerModel {
        RunnerModel {
            kind: self.kind,
            program: self.program@,
            args: text::views(self.args@),
            workdir: self.workdir@,
        }
    }
}

/// What a workspace holds, as far as detection looks.
#[derive(Debug, PartialEq, Eq)]
pub struct Layout {
    /// There is a `Cargo.toml`.
    pub cargo_toml: bool,
    /// The text of `package.json`, if it can be read.
    pub package_json: Option<String>,
    /// There is a `pnpm-lock.yaml`.
    pub pnpm_lock: bool,
    /// There is a `yarn.lock`.
    pub yarn_lock: bool,
    /// There is a `pyproject.toml`.
    pub pyproject_toml: bool,
    /// There is a `setup.py`.
    pub setup_py: bool,
    /// There is a `go.mod`.
    pub go_mod: bool,
}

// ---------------------------------------------------------------------------
// The override
// ---------------------------------------------------------------------------

/// The end of the word that `s` holds at `from`.
pub open spec fn word_end(s: Seq<char>, from: int) -> int
    decreases s.len() - from,
{
    if from < 0 || from >= s.len() || text::is_space(s[from]) {
        from
    } else {
        word_end(s, from + 1)
    }
}

/// The words of `s` from the index `from` on.
pub open spec fn words_from(s: Seq<char>, from: int) -> Seq<Seq<char>>
    decreases s.len() - from,
    via words_shrink
{
    if from < 0 || from >= s.len() {
        Seq::empty()
    } else if text::is_space(s[from]) {
        words_from(s, from + 1)
    } else {
        seq![s.subrange(from, word_end(s, from))] + words_from(s, word_end(s, from))
    }
}

#[via_fn]
proof fn words_shrink(s: Seq<char>, from: int) {
    word_end_bounds(s, from);
}

proof fn word_end_bounds(s: Seq<char>, from: int)
    ensures
        0 <= from <= s.len() ==> from <= word_end(s, from) <= s.len(),
        0 <= from < s.len() && !text::is_space(s[from]) ==> from < word_end(s, from),
    decreases s.len() - from,
{
    if 0 <= from < s.len() && !text::is_space(s[from]) {
        word_end_bounds(s, from + 1);
    }
}

/// The maximal runs of characters in `s` that are not whitespace.
pub open spec fn words(s: Seq<char>) -> Seq<Seq<char>> {
    words_from(s, 0)
}

/// The maximal runs of characters in `s` that are not whitespace.
pub fn split_words(s: &str) -> (r: Vec<String>)
    ensures
        text::views(r@) == words(s@),
{
    let v = text::chars_of(s);
    let n: usize = v.len();
    let mut out: Vec<String> = Vec::new();
    let mut i: usize = 0;
    assert(text::views(out@) + words_from(s@, 0) =~= words(s@));
    while i < n
        invariant
            v@ == s@,
            n == v@.len(),
            i <= n,
            text::views(out@) + words_from(s@, i as int) == words(s@),
        decreases n - i,
    {
        if text::space(v[i]) {
            i = i + 1;
        } else {
            let start: usize = i;
            let ghost done = text::views(out@);
            while i < n && !text::space(v[i])
                invariant
                    v@ == s@,
                    n == v@.len(),
                    start <= i <= n,
                    word_end(s@, start as int) == word_end(s@, i as int),
                decreases n - i,
            {
                i = i + 1;
            }
            let word = text::slice(v.as_slice(), start, i);
            proof {
                word_end_bounds(s@, start as int);
                assert(word_end(s@, start as int) == i);
            }
            out.push(word);
            assert(text::views(out@) =~= done.push(word@));
            assert(text::views(out@) + words_from(s@, i as int) =~= done + words_from(
                s@,
                start as int,
            ));
        }
    }
    assert(text::views(out@) + words_from(s@, i as int) =~= text::views(out@));
    out
}

/// The runner of a user-supplied command line.
pub open spec fn override_runner(command: Seq<char>, workdir: Seq<char>) -> Option<RunnerModel> {
    let all = words(command);
    if all.len() == 0 {
        None
    } else {
        Some(
            RunnerModel {
                kind: TestRunnerKind::Override,
                program: all[0],
                args: all.skip(1),
                workdir,
            },
        )
    }
}

/// The model of an optional runner.
pub open spec fn runner_view(r: Option<TestRunner>) -> Option<RunnerModel> {
    match r {
        Some(t) => Some(t@),
        None => None,
    }
}

impl TestRunner {
    /// Build a runner from a user-supplied shell-style command line.
    ///
    /// The command is whitespace-split into program + args; shell features
    /// (pipes, env-var assignments, glob expansion) require an explicit
    /// `sh -c "..."` wrapper. Returns `None` when the command is empty or
    /// contains only whitespace.
    pub fn from_override(command: &str, workdir: &str) -> (r: Option<Self>)
        ensures
            runner_view(r) == override_runner(command@, workdir@),
    {
        let mut all = split_words(command);
        let ghost given = text::views(all@);
        if all.len() == 0 {
            return None;
        }
        let program = all.remove(0);
        assert(text::views(all@) =~= given.skip(1));
        Some(
            TestRunner {
                kind: TestRunnerKind::Override,
                program,
                args: all,
                workdir: text::owned(workdir),
            },
        )
    }

    /// The line that a test log starts with, so the log file is
    /// self-describing.
    pub fn log_header(&self) -> (r: String)
        ensures
            r@ == "$ "@ + self@.program + (if self@.args.len() == 0 {
                ""@
            } else {
                " "@
            }) + text::join(self@.args, " "@) + " (cwd: "@ + self@.workdir + ")\n"@,
    {
        let mut out = text::owned("$ ");
        out.append(self.program.as_str());
        out.append(
            if self.args.len() == 0 {
                ""
            } else {
                " "
            },
        );
        out.append(text::joined(&self.args, " ").as_str());
        out.append(" (cwd: ");
        out.append(self.workdir.as_str());
        out.append(")\n");
        out
    }
}

// ---------------------------------------------------------------------------
// Detection
// ---------------------------------------------------------------------------

/// The text that `serde_json` finds in the JSON document `text` under the key
/// `inner` of the object under the key `outer`.
pub uninterp spec fn json_text(text: Seq<char>, outer: Seq<char>, inner: Seq<char>) -> Option<
    Seq<char>,
>;

/// `serde_json::from_str` into a `Value`, then `Value::get` twice and
/// `Value::as_str`: `None` where the text is no JSON document, a key is
/// missing, or what stands there is no string. The result is a function of the
/// text and the keys alone; the JSON grammar itself is not stated.
#[verifier::external_body]
fn json_text_at(text: &str, outer: &str, inner: &str) -> (r: Option<String>)
    ensures
        text::view_of(r) == json_text(text@, outer@, inner@),
{
    let value: serde_json::Value = serde_json::from_str(text).ok()?;
    Some(value.get(outer)?.get(inner)?.as_str()?.to_string())
}

/// `package.json` holds a `scripts.test` string that is not blank.
pub open spec fn has_test_script(package_json: Seq<char>) -> bool {
    json_text(package_json, "scripts"@, "test"@) matches Some(script) && text::trim(script).len()
        > 0
}

/// A script counts where it is there and is not blank.
pub proof fn only_a_script_with_text_counts(package_json: Seq<char>, script: Seq<char>)
    ensures
        json_text(package_json, "scripts"@, "test"@) is None ==> !has_test_script(package_json),
        json_text(package_json, "scripts"@, "test"@) == Some(script) ==> (has_test_script(
            package_json,
        ) <==> exists|i: int| 0 <= i < script.len() && !text::is_space(#[trigger] script[i])),
{
    if json_text(package_json, "scripts"@, "test"@) == Some(script) {
        let mid = text::trim(script);
        text::trimming_takes_off_only_space(script);
        let (a, b) = choose|a: Seq<char>, b: Seq<char>|
            #![trigger a + mid + b]
            script == a + mid + b && (forall|i: int|
                0 <= i < a.len() ==> text::is_space(#[trigger] a[i])) && forall|i: int|
                0 <= i < b.len() ==> text::is_space(#[trigger] b[i]);
        if mid.len() > 0 {
            assert(script[a.len() as int] == mid[0]);
        } else {
            assert forall|i: int| 0 <= i < script.len() implies text::is_space(
                #[trigger] script[i],
            ) by {
                if i < a.len() {
                    assert(script[i] == a[i]);
                } else {
                    assert(script[i] == b[i - a.len()]);
                }
            }
        }
    }
}

/// Whether a `scripts.test` entry names something to run.
pub fn names_test(script: Option<&str>) -> (r: bool)
    ensures
        r == (script matches Some(s) && text::trim(s@).len() > 0),
{
    match script {
        Some(s) => !text::trimmed(s).as_str().is_empty(),
        None => false,
    }
}

/// `true` when `package.json` parses as JSON and contains a non-empty
/// `scripts.test` string. A malformed `package.json` is treated as "no
/// recognizable test script" rather than a hard error — detection stays
/// best-effort.
pub fn package_json_has_test_script(package_json: &str) -> (r: bool)
    ensures
        r == has_test_script(package_json@),
{
    let script = json_text_at(package_json, "scripts", "test");
    names_test(
        match &script {
            Some(s) => Some(s.as_str()),
            None => None,
        },
    )
}

/// The detector that matches a layout, `node` being whether its `package.json`
/// names a test script.
pub open spec fn kind_of(layout: Layout, node: bool) -> Option<TestRunnerKind> {
    if layout.cargo_toml {
        Some(TestRunnerKind::Cargo)
    } else if node {
        if layout.pnpm_lock {
            Some(TestRunnerKind::Pnpm)
        } else if layout.yarn_lock {
            Some(TestRunnerKind::Yarn)
        } else {
            Some(TestRunnerKind::Npm)
        }
    } else if layout.pyproject_toml || layout.setup_py {
        Some(TestRunnerKind::Pytest)
    } else if layout.go_mod {
        Some(TestRunnerKind::Go)
    } else {
        None
    }
}

/// The program of a detected runner.
pub open spec fn program_of(k: TestRunnerKind) -> Seq<char> {
    match k {
        TestRunnerKind::Cargo => "cargo"@,
        TestRunnerKind::Npm => "npm"@,
        TestRunnerKind::Pnpm => "pnpm"@,
        TestRunnerKind::Yarn => "yarn"@,
        TestRunnerKind::Pytest => "pytest"@,
        TestRunnerKind::Go => "go"@,
        TestRunnerKind::Override => ""@,
    }
}

/// The arguments of a detected runner.
pub open spec fn args_of(k: TestRunnerKind) -> Seq<Seq<char>> {
    match k {
        TestRunnerKind::Pytest => Seq::empty(),
        TestRunnerKind::Go => seq!["test"@, "./..."@],
        TestRunnerKind::Override => Seq::empty(),
        _ => seq!["test"@],
    }
}

/// The runner that a layout gives, `node` being whether its `package.json`
/// names a test script.
pub open spec fn detected(workdir: Seq<char>, layout: Layout, node: bool) -> Option<RunnerModel> {
    match kind_of(layout, node) {
        Some(kind) => Some(
            RunnerModel { kind, program: program_of(kind), args: args_of(kind), workdir },
        ),
        None => None,
    }
}

/// The runner that a layout gives, `node` being whether its `package.json`
/// names a test script.
pub fn detect_layout(workdir: &str, layout: &Layout, node: bool) -> (r: Option<TestRunner>)
    ensures
        runner_view(r) == detected(workdir@, *layout, node),
{
    let (kind, program) = if layout.cargo_toml {
        (TestRunnerKind::Cargo, "cargo")
    } else if node {
        if layout.pnpm_lock {
            (TestRunnerKind::Pnpm, "pnpm")
        } else if layout.yarn_lock {
            (TestRunnerKind::Yarn, "yarn")
        } else {
            (TestRunnerKind::Npm, "npm")
        }
    } else if layout.pyproject_toml || layout.setup_py {
        (TestRunnerKind::Pytest, "pytest")
    } else if layout.go_mod {
        (TestRunnerKind::Go, "go")
    } else {
        return None;
    };
    let mut args: Vec<String> = Vec::new();
    if kind != TestRunnerKind::Pytest {
        args.push(text::owned("test"));
    }
    if kind == TestRunnerKind::Go {
        args.push(text::owned("./..."));
    }
    assert(text::views(args@) =~= args_of(kind));
    Some(TestRunner { kind, program: text::owned(program), args, workdir: text::owned(workdir) })
}

/// The runner of a workspace that holds `layout`, `command` being what the user
/// configured, if anything.
pub open spec fn runner_for(
    workdir: Seq<char>,
    command: Option<Seq<char>>,
    layout: Layout,
) -> Option<RunnerModel> {
    let node = layout.package_json matches Some(text) && has_test_script(text@);
    match command {
        Some(line) if override_runner(line, workdir) is Some => override_runner(line, workdir),
        _ => detected(workdir, layout, node),
    }
}

/// What the user configured comes first: a command line with a word in it is what
/// is run, whatever the workspace holds. Without one, or with a blank one, the
/// workspace decides; a `package.json` counts only where its test script is not
/// blank.
pub proof fn a_configured_command_comes_first(
    workdir: Seq<char>,
    command: Option<Seq<char>>,
    layout: Layout,
    other: Layout,
)
    ensures
        command matches Some(line) ==> (words(line).len() > 0 ==> (runner_for(
            workdir,
            command,
            layout,
        ) matches Some(r) && r.kind == TestRunnerKind::Override && seq![r.program] + r.args
            == words(line) && runner_for(workdir, command, other) == Some(r))),
        command is None || words(command->0).len() == 0 ==> runner_for(workdir, command, layout)
            == runner_for(workdir, None, layout),
        layout.package_json is None ==> runner_for(workdir, None, layout) == detected(
            workdir,
            layout,
            false,
        ),
        layout.package_json matches Some(text) ==> runner_for(workdir, None, layout) == detected(
            workdir,
            layout,
            json_text(text@, "scripts"@, "test"@) matches Some(script) && text::trim(script).len()
                > 0,
        ),
{
    if let Some(line) = command {
        overrides_are_run_as_they_stand(line, workdir);
    }
}

/// Pick a [`TestRunner`] for `workdir`, which holds `layout`.
///
/// `override_command` is consulted first: when `Some`, the result is built via
/// [`TestRunner::from_override`] without looking at the layout. When `None`
/// (or when the override is empty), the layouts are tried in the order listed
/// in the module docs and the first match wins.
///
/// Returns `None` only when no override is given and no recognized layout is
/// present — the runner treats that as "tests skipped" rather than a failure.
pub fn detect(workdir: &str, override_command: Option<&str>, layout: &Layout) -> (r: Option<
    TestRunner,
>)
    ensures
        runner_view(r) == runner_for(
            workdir@,
            match override_command {
                Some(command) => Some(command@),
                None => None,
            },
            *layout,
        ),
{
    if let Some(command) = override_command {
        let runner = TestRunner::from_override(command, workdir);
        if runner.is_some() {
            return runner;
        }
    }
    let node = match &layout.package_json {
        Some(text) => package_json_has_test_script(text.as_str()),
        None => false,
    };
    detect_layout(workdir, layout, node)
}

/// Every layout that is recognised gives a runner; only one with none of the
/// files gives none.
pub proof fn recognised_layouts_are_detected(workdir: Seq<char>, layout: Layout, node: bool)
    ensures
        detected(workdir, layout, node) is None <==> !layout.cargo_toml && !node
            && !layout.pyproject_toml && !layout.setup_py && !layout.go_mod,
{
}

/// The command line of a detected runner is the one that its kind is named
/// after: the program and its arguments, joined with spaces, are `cargo test`,
/// `npm test`, `pnpm test`, `yarn test`, `pytest` or `go test ./...`. It starts
/// with the name of the kind, and is run in the workspace.
pub proof fn runners_run_what_they_are_named_after(
    workdir: Seq<char>,
    layout: Layout,
    node: bool,
)
    ensures
        detected(workdir, layout, node) matches Some(r) ==> {
            let line = text::join(seq![r.program] + r.args, " "@);
            &&& r.kind == TestRunnerKind::Cargo ==> line == "cargo test"@
            &&& r.kind == TestRunnerKind::Npm ==> line == "npm test"@
            &&& r.kind == TestRunnerKind::Pnpm ==> line == "pnpm test"@
            &&& r.kind == TestRunnerKind::Yarn ==> line == "yarn test"@
            &&& r.kind == TestRunnerKind::Pytest ==> line == "pytest"@
            &&& r.kind == TestRunnerKind::Go ==> line == "go test ./..."@
            &&& r.kind != TestRunnerKind::Override
            &&& kind_text(r.kind).len() <= line.len()
            &&& line.take(kind_text(r.kind).len() as int) == kind_text(r.kind)
            &&& r.workdir == workdir
        },
{
    reveal_strlit(" ");
    reveal_strlit("test");
    reveal_strlit("./...");
    reveal_strlit("cargo");
    reveal_strlit("npm");
    reveal_strlit("pnpm");
    reveal_strlit("yarn");
    reveal_strlit("go");
    reveal_strlit("pytest");
    reveal_strlit("cargo test");
    reveal_strlit("npm test");
    reveal_strlit("pnpm test");
    reveal_strlit("yarn test");
    reveal_strlit("go test");
    reveal_strlit("go test ./...");
    if let Some(r) = detected(workdir, layout, node) {
        let words = seq![r.program] + r.args;
        let line = text::join(words, " "@);
        let name = kind_text(r.kind);
        if r.kind == TestRunnerKind::Pytest {
            assert(words =~= seq!["pytest"@]);
            assert(line =~= "pytest"@);
        } else if r.kind == TestRunnerKind::Go {
            assert(words =~= seq!["go"@, "test"@, "./..."@]);
            assert(words.drop_last() =~= seq!["go"@, "test"@]);
            assert(words.drop_last().drop_last() =~= seq!["go"@]);
            assert(text::join(seq!["go"@], " "@) == "go"@);
            assert(text::join(words.drop_last(), " "@) =~= "go test"@);
            assert(line =~= "go test ./..."@);
        } else {
            assert(words =~= seq![r.program, "test"@]);
            assert(words.drop_last() =~= seq![r.program]);
            assert(text::join(seq![r.program], " "@) == r.program);
            assert(line =~= name);
        }
        assert(line.take(name.len() as int) =~= name);
    }
}

/// Which runner a workspace gets. A `Cargo.toml` makes it cargo, whatever else
/// there is. Else a `package.json` with a test script makes it a JavaScript
/// workspace, whose lock file chooses: pnpm's comes before yarn's, and npm is for
/// neither. Else a `pyproject.toml` or a `setup.py` makes it pytest, and else a
/// `go.mod` makes it go.
pub proof fn the_first_matching_file_decides(workdir: Seq<char>, layout: Layout, node: bool)
    ensures
        ({
            let r = detected(workdir, layout, node);
            let js = !layout.cargo_toml && node;
            let python = layout.pyproject_toml || layout.setup_py;
            &&& layout.cargo_toml ==> r is Some && r->0.kind == TestRunnerKind::Cargo
            &&& js && layout.pnpm_lock ==> r is Some && r->0.kind == TestRunnerKind::Pnpm
            &&& js && !layout.pnpm_lock && layout.yarn_lock ==> r is Some && r->0.kind
                == TestRunnerKind::Yarn
            &&& js && !layout.pnpm_lock && !layout.yarn_lock ==> r is Some && r->0.kind
                == TestRunnerKind::Npm
            &&& !layout.cargo_toml && !node && python ==> r is Some && r->0.kind
                == TestRunnerKind::Pytest
            &&& !layout.cargo_toml && !node && !python && layout.go_mod ==> r is Some && r->0.kind
                == TestRunnerKind::Go
        }),
{
}

/// A command line of the user is run as it stands: its words are what stands
/// between its white space, the first is the program and the rest are its
/// arguments, in order. Only a command line without a word gives no runner.
pub proof fn overrides_are_run_as_they_stand(command: Seq<char>, workdir: Seq<char>)
    ensures
        override_runner(command, workdir) is None <==> words(command).len() == 0,
        override_runner(command, workdir) matches Some(r) ==> {
            &&& r.kind == TestRunnerKind::Override
            &&& seq![r.program] + r.args == words(command)
            &&& r.workdir == workdir
        },
{
    let all = words(command);
    if all.len() > 0 {
        assert(seq![all[0]] + all.skip(1) =~= all);
    }
}

/// What the words of a text are. A text without white space is one word, an
/// empty one has none, and a character of white space does nothing but part the
/// words before it from those behind it.
pub proof fn spaces_part_words(a: Seq<char>, space: char, b: Seq<char>)
    requires
        text::is_space(space),
    ensures
        words(a + seq![space] + b) == words(a) + words(b),
        (forall|i: int| 0 <= i < a.len() ==> !text::is_space(#[trigger] a[i])) && a.len() > 0
            ==> words(a) == seq![a],
        words(Seq::empty()).len() == 0,
{
    words_part_at(a, space, b, 0);
    if (forall|i: int| 0 <= i < a.len() ==> !text::is_space(#[trigger] a[i])) && a.len() > 0 {
        word_end_stops(a, 0);
        assert(a.subrange(0, a.len() as int) =~= a);
        assert(words_from(a, a.len() as int).len() == 0);
        assert(words(a) =~= seq![a]);
    }
}

proof fn words_part_at(a: Seq<char>, space: char, b: Seq<char>, from: int)
    requires
        text::is_space(space),
        0 <= from <= a.len(),
    ensures
        words_from(a + seq![space] + b, from) == words_from(a, from) + words(b),
    decreases a.len() - from,
{
    let s = a + seq![space] + b;
    if from == a.len() {
        assert(s[from] == space);
        words_behind(a + seq![space], b, 0);
        assert(words_from(a, from) + words(b) =~= words(b));
    } else if text::is_space(a[from]) {
        assert(s[from] == a[from]);
        words_part_at(a, space, b, from + 1);
    } else {
        assert(s[from] == a[from]);
        word_end_stops(a, from);
        word_end_bounds(a, from);
        word_ends_alike(a, space, b, from);
        let to = word_end(a, from);
        words_part_at(a, space, b, to);
        assert(s.subrange(from, to) =~= a.subrange(from, to));
        assert(words_from(s, from) =~= words_from(a, from) + words(b));
    }
}

proof fn words_behind(a: Seq<char>, b: Seq<char>, from: int)
    requires
        0 <= from <= b.len(),
    ensures
        words_from(a + b, a.len() + from) == words_from(b, from),
    decreases b.len() - from,
{
    let s = a + b;
    if from < b.len() {
        assert(s[a.len() + from] == b[from]);
        if text::is_space(b[from]) {
            words_behind(a, b, from + 1);
        } else {
            word_end_behind(a, b, from);
            word_end_bounds(b, from);
            let to = word_end(b, from);
            words_behind(a, b, to);
            assert(s.subrange(a.len() + from, a.len() + to) =~= b.subrange(from, to));
        }
    }
}

proof fn word_end_behind(a: Seq<char>, b: Seq<char>, from: int)
    requires
        0 <= from <= b.len(),
    ensures
        word_end(a + b, a.len() + from) == a.len() + word_end(b, from),
    decreases b.len() - from,
{
    if from < b.len() {
        assert((a + b)[a.len() + from] == b[from]);
        if !text::is_space(b[from]) {
            word_end_behind(a, b, from + 1);
        }
    }
}

proof fn word_ends_alike(a: Seq<char>, space: char, b: Seq<char>, from: int)
    requires
        text::is_space(space),
        0 <= from <= a.len(),
    ensures
        word_end(a + seq![space] + b, from) == word_end(a, from),
    decreases a.len() - from,
{
    let s = a + seq![space] + b;
    if from < a.len() {
        assert(s[from] == a[from]);
        if !text::is_space(a[from]) {
            word_ends_alike(a, space, b, from + 1);
        }
    } else {
        assert(s[from] == space);
    }
}

proof fn word_end_stops(s: Seq<char>, from: int)
    requires
        0 <= from <= s.len(),
    ensures
        forall|j: int| from <= j < word_end(s, from) ==> !text::is_space(#[trigger] s[j]),
        from <= word_end(s, from) <= s.len(),
        word_end(s, from) == s.len() || text::is_space(s[word_end(s, from)]),
    decreases s.len() - from,
{
    if from < s.len() && !text::is_space(s[from]) {
        word_end_stops(s, from + 1);
    }
}

// ---------------------------------------------------------------------------
// The outcome of a run
// ---------------------------------------------------------------------------

/// Result of executing a [`TestRunner`].
#[derive(Debug, PartialEq, Eq)]
pub struct TestOutcome {
    /// `true` when the underlying process exited with status 0.
    pub passed: bool,
    /// Short description of the run.
    pub summary: String,
    /// Path to the combined stdout+stderr log written during the run.
    pub log_path: String,
}

/// The last lines of an output after one more line.
pub open spec fn tail_after(tail: Seq<String>, line: String) -> Seq<String> {
    if tail.len() == FAILURE_TAIL_LINES {
        tail.skip(1).push(line)
    } else {
        tail.push(line)
    }
}

/// The tail keeps the newest lines in their order: the new line comes last, the
/// lines before it stay next to each other, and only once the tail is full the
/// oldest one goes.
pub proof fn the_newest_lines_are_kept(tail: Seq<String>, line: String)
    ensures
        tail_after(tail, line).len() > 0 && tail_after(tail, line).last() == line,
        tail.len() < FAILURE_TAIL_LINES ==> tail_after(tail, line).drop_last() == tail,
        tail.len() == FAILURE_TAIL_LINES ==> {
            &&& tail_after(tail, line).len() == FAILURE_TAIL_LINES
            &&& forall|i: int|
                0 <= i < FAILURE_TAIL_LINES - 1 ==> #[trigger] tail_after(tail, line)[i] == tail[i
                    + 1]
        },
{
    assert(tail.push(line).drop_last() =~= tail);
}

/// The last lines of the output `lines`, line by line.
pub open spec fn tail_of(lines: Seq<String>) -> Seq<String>
    decreases lines.len(),
{
    if lines.len() == 0 {
        Seq::empty()
    } else {
        tail_after(tail_of(lines.drop_last()), lines.last())
    }
}

/// Taking the lines in one by one keeps exactly the last
/// [`FAILURE_TAIL_LINES`] of them.
pub proof fn tail_keeps_the_last(lines: Seq<String>)
    ensures
        tail_of(lines) == if lines.len() <= FAILURE_TAIL_LINES {
            lines
        } else {
            lines.skip(lines.len() - FAILURE_TAIL_LINES)
        },
    decreases lines.len(),
{
    if lines.len() > 0 {
        let front = lines.drop_last();
        tail_keeps_the_last(front);
        assert(front.push(lines.last()) =~= lines);
        if lines.len() > FAILURE_TAIL_LINES {
            assert(tail_of(lines) =~= lines.skip(lines.len() - FAILURE_TAIL_LINES));
        } else {
            assert(tail_of(lines) =~= lines);
        }
    } else {
        assert(tail_of(lines) =~= lines);
    }
}

/// Bounded ring of trailing lines used to build the failure summary.
pub fn push_tail(tail: &mut Vec<String>, line: String)
    ensures
        final(tail)@ == tail_after(old(tail)@, line),
{
    let ghost given = tail@;
    if tail.len() == FAILURE_TAIL_LINES {
        tail.remove(0);
        assert(tail@ =~= given.skip(1));
    }
    tail.push(line);
}

/// A line of a run's output as the log shows it.
pub fn log_line(is_stderr: bool, line: &str) -> (r: String)
    ensures
        r@ == (if is_stderr {
            "[stderr] "@
        } else {
            ""@
        }) + line@,
{
    let mut out = text::owned(
        if is_stderr {
            "[stderr] "
        } else {
            ""
        },
    );
    out.append(line);
    out
}

/// The lines, each closed by a line break.
pub open spec fn closed_lines(lines: Seq<String>) -> Seq<char>
    decreases lines.len(),
{
    if lines.len() == 0 {
        Seq::empty()
    } else {
        closed_lines(lines.drop_last()) + lines.last()@ + "\n"@
    }
}

/// The summary of a run that exited as `exit`: `Some` code, or `None` where a
/// signal ended it.
pub open spec fn summary_text(
    kind: TestRunnerKind,
    passed: bool,
    exit: Option<i32>,
    line_count: nat,
    tail: Seq<String>,
) -> Seq<char> {
    if passed {
        kind_text(kind) + ": passed ("@ + text::decimal(line_count) + " lines captured)"@
    } else {
        kind_text(kind) + ": failed (exit "@ + (match exit {
            Some(c) => text::signed_decimal(c as int),
            None => "signal"@,
        }) + ")"@ + (if tail.len() == 0 {
            Seq::empty()
        } else {
            "\n"@ + closed_lines(tail)
        })
    }
}

/// What the summary of a run tells. It starts with the name of its runner. One that
/// passed says how many lines were captured, and nothing of its output. One that
/// failed carries its exit code, or that a signal ended it, and behind that its
/// last lines, each on a line of its own.
pub proof fn summaries_tell_how_a_run_ended(
    kind: TestRunnerKind,
    exit: Option<i32>,
    count: nat,
    tail: Seq<String>,
    other: Seq<String>,
    line: String,
)
    ensures
        summary_text(kind, true, exit, count, tail) == kind_text(kind) + ": passed ("@
            + text::decimal(count) + " lines captured)"@,
        summary_text(kind, true, exit, count, tail) == summary_text(kind, true, exit, count, other),
        exit matches Some(c) ==> text::contains(
            summary_text(kind, false, exit, count, tail),
            ": failed (exit "@ + text::signed_decimal(c as int) + ")"@,
        ),
        exit is None ==> text::contains(
            summary_text(kind, false, exit, count, tail),
            ": failed (exit "@ + "signal"@ + ")"@,
        ),
        tail.len() > 0 ==> summary_text(kind, false, exit, count, tail.push(line)) == summary_text(
            kind,
            false,
            exit,
            count,
            tail,
        ) + line@ + "\n"@,
{
    let code = match exit {
        Some(c) => text::signed_decimal(c as int),
        None => "signal"@,
    };
    let whole = summary_text(kind, false, exit, count, tail);
    let end = if tail.len() == 0 {
        Seq::empty()
    } else {
        "\n"@ + closed_lines(tail)
    };
    text::parts_are_held(kind_text(kind), ": failed (exit "@ + code + ")"@, end, whole);
    assert(tail.push(line).drop_last() =~= tail);
    if tail.len() > 0 {
        let more = summary_text(kind, false, exit, count, tail.push(line));
        assert(more =~= whole + line@ + "\n"@);
    }
}

/// The summary of a run: its runner and how it exited, with how many lines it
/// printed for a success and its last lines for a failure.
pub fn summarize(
    kind: TestRunnerKind,
    passed: bool,
    exit: Option<i32>,
    line_count: usize,
    tail: &Vec<String>,
) -> (r: String)
    ensures
        r@ == summary_text(kind, passed, exit, line_count as nat, tail@),
{
    let mut out = text::owned(kind.label());
    if passed {
        out.append(": passed (");
        out.append(text::decimal_usize(line_count).as_str());
        out.append(" lines captured)");
        return out;
    }
    out.append(": failed (exit ");
    match exit {
        Some(c) => {
            out.append(text::decimal_i32(c).as_str());
        },
        None => {
            out.append("signal");
        },
    }
    out.append(")");
    if tail.len() > 0 {
        let mut lines = String::new();
        assert(lines@ =~= closed_lines(tail@.take(0)));
        for i in 0..tail.len()
            invariant
                lines@ == closed_lines(tail@.take(i as int)),
        {
            assert(tail@.take(i + 1).drop_last() =~= tail@.take(i as int));
            assert(tail@.take(i + 1).last() == tail@[i as int]);
            lines.append(tail[i].as_str());
            lines.append("\n");
        }
        assert(tail@.take(tail@.len() as int) =~= tail@);
        let mut more = text::owned("\n");
        more.append(lines.as_str());
        out.append(more.as_str());
    } else {
        assert(out@ =~= summary_text(kind, passed, exit, line_count as nat, tail@));
    }
    out
}

} // verus!
