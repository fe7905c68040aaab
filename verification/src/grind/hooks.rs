//! Plan-level shell hooks fired around each grind session.
//!
//! Three kinds — [`HookKind::PreSession`], [`HookKind::PostSession`], and
//! [`HookKind::OnFailure`] — load from the plan's `[hooks]` table (or
//! inherit from `[grind.hooks]` in `config.toml`) and run as
//! `sh -c "<cmd>"` children of the pitboss process.
//!
//! Each hook receives the same env vars the agent sees plus
//! `PITBOSS_SESSION_PROMPT`. `post_session` and `on_failure` additionally
//! receive `PITBOSS_SESSION_STATUS` and `PITBOSS_SESSION_SUMMARY`. All
//! stdout/stderr is forwarded into the per-session transcript with a labeled
//! banner so a post-mortem can reconstruct exactly what the hook saw.

use vstd::prelude::*;
use vstd::string::StringExecFns;

use crate::table::Table;
use crate::text;
use crate::time::Timestamp;

verus! {

/// Which hook in the session lifecycle is firing.
#[derive(Debug, Clone, Copy, PartialEq, Eq, Structural)]
pub enum HookKind {
    /// Runs before the agent dispatch. Non-zero exit skips dispatch and
    /// records the session as `Error`.
    PreSession,
    /// Runs after the session resolves, regardless of status.
    PostSession,
    /// Runs after the session resolves, only when the status is not `Okay`.
    OnFailure,
}

/// The label of a hook.
pub open spec fn hook_label(k: HookKind) -> Seq<char> {
    match k {
        HookKind::PreSession => "pre_session"@,
        HookKind::PostSession => "post_session"@,
        HookKind::OnFailure => "on_failure"@,
    }
}

/// Each hook has its own label, the key that configures it.
pub proof fn hooks_go_by_their_keys(a: HookKind, b: HookKind)
    ensures
        a is PreSession <==> hook_label(a) == "pre_session"@,
        a is PostSession <==> hook_label(a) == "post_session"@,
        a is OnFailure <==> hook_label(a) == "on_failure"@,
        hook_label(a) == hook_label(b) ==> a == b,
{
    reveal_strlit("pre_session");
    reveal_strlit("post_session");
    reveal_strlit("on_failure");
    assert("pre_session"@.len() == 11 && "post_session"@.len() == 12 && "on_failure"@.len() == 10);
}

impl HookKind {
    /// Stable lower_snake_case label used in transcript banners and tracing
    /// fields. Matches the TOML key the user wrote in `[hooks]`.
    pub fn label(self) -> (r: &'static str)
        ensures
            r@ == hook_label(self),
    {
        match self {
            HookKind::PreSession => "pre_session",
            HookKind::PostSession => "post_session",
            HookKind::OnFailure => "on_failure",
        }
    }
}

/// Resolved outcome of running a hook.
#[derive(Debug, PartialEq, Eq)]
pub enum HookOutcome {
    /// Process exited with code `0`.
    Success,
    /// Process exited with a non-zero code.
    Failed {
        /// Exit code returned by the child, or `-1` if the child died from a
        /// signal without producing a code.
        exit_code: i32,
    },
    /// Process exceeded the configured wall-clock cap and was killed.
    Timeout {
        /// Cap (in seconds) that fired.
        secs: u64,
    },
    /// `sh -c "<cmd>"` could not be spawned, or the child's status could not
    /// be retrieved. Carries the underlying error message so callers can log
    /// it.
    SpawnError(String),
}

/// The one-line description of an outcome.
pub open spec fn outcome_text(o: HookOutcome) -> Seq<char> {
    match o {
        HookOutcome::Success => "ok"@,
        HookOutcome::Failed { exit_code } => "non-zero exit "@ + text::signed_decimal(
            exit_code as int,
        ),
        HookOutcome::Timeout { secs } => "timed out after "@ + text::decimal(secs as nat) + "s"@,
        HookOutcome::SpawnError(msg) => "spawn failed: "@ + msg@,
    }
}

/// The description of an outcome carries its exit code, its cap or its message.
pub proof fn outcomes_carry_their_detail(o: HookOutcome)
    ensures
        o matches HookOutcome::Failed { exit_code } ==> text::contains(
            outcome_text(o),
            "non-zero exit "@ + text::signed_decimal(exit_code as int),
        ),
        o matches HookOutcome::Timeout { secs } ==> text::contains(
            outcome_text(o),
            "timed out after "@ + text::decimal(secs as nat) + "s"@,
        ),
        o matches HookOutcome::SpawnError(msg) ==> text::contains(outcome_text(o), msg@),
        o is Success ==> outcome_text(o) == "ok"@,
{
    match o {
        HookOutcome::Failed { exit_code } => {
            text::parts_are_held(
                Seq::<char>::empty(),
                "non-zero exit "@ + text::signed_decimal(exit_code as int),
                Seq::<char>::empty(),
                outcome_text(o),
            );
        },
        HookOutcome::Timeout { secs } => {
            text::parts_are_held(
                Seq::<char>::empty(),
                "timed out after "@ + text::decimal(secs as nat) + "s"@,
                Seq::<char>::empty(),
                outcome_text(o),
            );
        },
        HookOutcome::SpawnError(msg) => {
            text::parts_are_held("spawn failed: "@, msg@, Seq::<char>::empty(), outcome_text(o));
        },
        _ => {},
    }
}

impl HookOutcome {
    /// `true` only for [`HookOutcome::Success`].
    pub fn is_success(&self) -> (r: bool)
        ensures
            r == (self is Success),
    {
        match self {
            HookOutcome::Success => true,
            _ => false,
        }
    }

    /// One-line description suitable for embedding in a transcript banner or
    /// a tracing field.
    pub fn description(&self) -> (r: String)
        ensures
            r@ == outcome_text(*self),
    {
        match self {
            HookOutcome::Success => text::owned("ok"),
            HookOutcome::Failed { exit_code } => {
                let mut out = text::owned("non-zero exit ");
                out.append(text::decimal_i32(*exit_code).as_str());
                out
            },
            HookOutcome::Timeout { secs } => {
                let mut out = text::owned("timed out after ");
                out.append(text::decimal_u64(*secs).as_str());
                out.append("s");
                out
            },
            HookOutcome::SpawnError(msg) => {
                let mut out = text::owned("spawn failed: ");
                out.append(msg.as_str());
                out
            },
        }
    }
}

// ---------------------------------------------------------------------------
// Running a hook
// ---------------------------------------------------------------------------

/// How the child process of a hook came to its end.
#[derive(Debug, PartialEq, Eq)]
pub enum HookEnd {
    /// It could not be spawned.
    NotSpawned(String),
    /// It outlived its wall-clock cap.
    OutOfTime,
    /// It exited.
    Exited {
        /// With success.
        success: bool,
        /// With this code, where a signal did not end it.
        code: Option<i32>,
    },
    /// Its status could not be retrieved.
    NotWaited(String),
}

/// The outcome that an end of the child process comes to, `timeout_secs` being
/// the cap that was set.
pub open spec fn settled(end: HookEnd, timeout_secs: u64, o: HookOutcome) -> bool {
    match end {
        HookEnd::NotSpawned(msg) => o matches HookOutcome::SpawnError(m) && m@ == msg@,
        HookEnd::OutOfTime => o == (HookOutcome::Timeout { secs: timeout_secs }),
        HookEnd::Exited { success, code } => if success {
            o is Success
        } else {
            o matches HookOutcome::Failed { exit_code } && exit_code == match code {
                Some(c) => c,
                None => -1i32,
            }
        },
        HookEnd::NotWaited(msg) => o matches HookOutcome::SpawnError(m) && m@ == "wait failed: "@
            + msg@,
    }
}

/// An outcome keeps what ended the hook: its exit code, its cap, or the message of
/// what went wrong.
pub proof fn outcomes_keep_what_happened(end: HookEnd, timeout_secs: u64, o: HookOutcome)
    requires
        settled(end, timeout_secs, o),
    ensures
        end is OutOfTime ==> o == (HookOutcome::Timeout { secs: timeout_secs }),
        end matches HookEnd::Exited { success: false, code: Some(c) } ==> o == (
        HookOutcome::Failed { exit_code: c }),
        end matches HookEnd::Exited { success: false, code: None } ==> o is Failed,
        end matches HookEnd::NotSpawned(msg) ==> o matches HookOutcome::SpawnError(m) && m@
            == msg@,
        end matches HookEnd::NotWaited(msg) ==> o matches HookOutcome::SpawnError(m)
            && text::contains(m@, msg@),
{
    if let HookEnd::NotWaited(msg) = end {
        text::parts_are_held("wait failed: "@, msg@, Seq::empty(), "wait failed: "@ + msg@);
    }
}

/// A hook succeeds exactly where its child process exited with success. Any other
/// exit is a failure with its code, or with minus one where a signal ended it; a
/// child that outlived its cap timed out after that cap; one that could not be run
/// or waited for is reported as that.
pub proof fn only_a_clean_exit_is_success(end: HookEnd, timeout_secs: u64, o: HookOutcome)
    requires
        settled(end, timeout_secs, o),
    ensures
        o is Success <==> (end matches HookEnd::Exited { success, code } && success),
        end matches HookEnd::Exited { success, code } ==> (!success ==> (o matches
            HookOutcome::Failed { exit_code } && (code matches Some(c) ==> exit_code == c) && (code
            is None ==> exit_code == -1))),
        end is OutOfTime ==> o == (HookOutcome::Timeout { secs: timeout_secs }),
        end is NotSpawned || end is NotWaited ==> o is SpawnError,
        end matches HookEnd::NotSpawned(msg) ==> (o matches HookOutcome::SpawnError(m) && m@
            == msg@),
{
}

/// The outcome that an end of the child process comes to.
pub fn settle(end: HookEnd, timeout_secs: u64) -> (r: HookOutcome)
    ensures
        settled(end, timeout_secs, r),
{
    match end {
        HookEnd::NotSpawned(msg) => HookOutcome::SpawnError(msg),
        HookEnd::OutOfTime => HookOutcome::Timeout { secs: timeout_secs },
        HookEnd::Exited { success, code } => {
            if success {
                HookOutcome::Success
            } else {
                HookOutcome::Failed {
                    exit_code: match code {
                        Some(c) => c,
                        None => -1,
                    },
                }
            }
        },
        HookEnd::NotWaited(msg) => {
            let mut m = text::owned("wait failed: ");
            m.append(msg.as_str());
            HookOutcome::SpawnError(m)
        },
    }
}

/// The cap on a hook's run time in seconds; a configured zero counts as one.
pub fn hook_timeout(configured_secs: u64) -> (r: u64)
    ensures
        r == if configured_secs == 0 {
            1
        } else {
            configured_secs
        },
{
    if configured_secs == 0 {
        1
    } else {
        configured_secs
    }
}

// ---------------------------------------------------------------------------
// The environment of a hook
// ---------------------------------------------------------------------------

/// The variables that every hook child gets from the parent's environment.
/// Keeps the surface small but covers the basics a hook needs to talk to
/// anything outside its own process. Anything else (credentials, custom
/// tooling) is opt-in.
pub open spec fn is_default_passthrough(key: Seq<char>) -> bool {
    key == "HOME"@ || key == "USER"@ || key == "LANG"@ || key == "SHELL"@ || key
        == "SSH_AUTH_SOCK"@
}

/// The variables that every hook child gets from the parent's environment.
pub fn default_hook_env_passthrough() -> (r: Vec<String>)
    ensures
        text::views(r@) == seq!["HOME"@, "USER"@, "LANG"@, "SHELL"@, "SSH_AUTH_SOCK"@],
        forall|k: Seq<char>| #[trigger]
            text::views(r@).contains(k) <==> is_default_passthrough(k),
{
    let r: Vec<String> = vec![
        text::owned("HOME"),
        text::owned("USER"),
        text::owned("LANG"),
        text::owned("SHELL"),
        text::owned("SSH_AUTH_SOCK"),
    ];
    proof {
        let v = text::views(r@);
        assert(v =~= seq!["HOME"@, "USER"@, "LANG"@, "SHELL"@, "SSH_AUTH_SOCK"@]);
        assert forall|k: Seq<char>| #[trigger] v.contains(k) <==> is_default_passthrough(k) by {
            assert(v[0] == "HOME"@ && v[1] == "USER"@ && v[2] == "LANG"@ && v[3] == "SHELL"@
                && v[4] == "SSH_AUTH_SOCK"@);
        }
    }
    r
}

/// The view of a table of texts.
pub open spec fn text_map(m: Map<Seq<char>, String>) -> Map<Seq<char>, Seq<char>> {
    m.map_values(|s: String| s@)
}

/// The environment of a hook: `env` as it stands; else the default variables
/// and those of `extras` from the parent; and a `PATH` in any case. Nothing
/// else of the parent's environment is handed on, so a stale variable of an
/// outer run cannot shadow this run's.
pub open spec fn hook_value(
    parent: Map<Seq<char>, String>,
    extras: Seq<Seq<char>>,
    env: Map<Seq<char>, String>,
    key: Seq<char>,
) -> Option<Seq<char>> {
    if env.contains_key(key) {
        Some(env[key]@)
    } else if (is_default_passthrough(key) || extras.contains(key)) && parent.contains_key(key) {
        Some(parent[key]@)
    } else if key == "PATH"@ {
        if parent.contains_key(key) {
            Some(parent[key]@)
        } else {
            Some("/usr/bin:/bin"@)
        }
    } else {
        None
    }
}

/// What a hook sees of the environment. What the session sets, it sees as it was
/// set, whatever the parent has. Of the parent it sees `HOME`, `USER`, `LANG`,
/// `SHELL`, `SSH_AUTH_SOCK`, `PATH` and what was asked for, and nothing else. A
/// `PATH` it has in any case.
pub proof fn hooks_see_little_of_the_parent(
    parent: Map<Seq<char>, String>,
    extras: Seq<Seq<char>>,
    env: Map<Seq<char>, String>,
    key: Seq<char>,
)
    ensures
        ({
            let v = hook_value(parent, extras, env, key);
            let listed = key == "HOME"@ || key == "USER"@ || key == "LANG"@ || key == "SHELL"@
                || key == "SSH_AUTH_SOCK"@ || key == "PATH"@ || extras.contains(key);
            &&& env.contains_key(key) ==> v == Some(env[key]@)
            &&& !env.contains_key(key) && listed && parent.contains_key(key) ==> v == Some(
                parent[key]@,
            )
            &&& !env.contains_key(key) && !listed ==> v is None
            &&& !env.contains_key(key) && !parent.contains_key(key) && key != "PATH"@ ==> v is None
            &&& key == "PATH"@ ==> v is Some
            &&& key == "PATH"@ && !env.contains_key(key) && !parent.contains_key(key) ==> v == Some(
                "/usr/bin:/bin"@,
            )
        }),
{
}

/// The value that `m` has for `key`.
pub open spec fn value_in(m: Map<Seq<char>, String>, key: Seq<char>) -> Option<Seq<char>> {
    if m.contains_key(key) {
        Some(m[key]@)
    } else {
        None
    }
}

fn pass_through(out: &mut Table<String>, parent: &Table<String>, keys: &[String])
    ensures
        forall|k: Seq<char>| #[trigger]
            value_in(final(out)@, k) == if text::views(keys@).contains(k)
                && parent@.contains_key(k) {
                Some(parent@[k]@)
            } else {
                value_in(old(out)@, k)
            },
{
    let ghost all = text::views(keys@);
    let ghost before = out@;
    for i in 0..keys.len()
        invariant
            all == text::views(keys@),
            before == old(out)@,
            forall|k: Seq<char>| #[trigger]
                value_in(out@, k) == if (exists|j: int| 0 <= j < i && all[j] == k)
                    && parent@.contains_key(k) {
                    Some(parent@[k]@)
                } else {
                    value_in(before, k)
                },
    {
        let ghost now = out@;
        assert(all[i as int] == keys@[i as int]@);
        match parent.get(keys[i].as_str()) {
            Some(v) => {
                out.insert(keys[i].as_str(), v.clone());
            },
            None => {},
        }
        assert forall|k: Seq<char>| #[trigger]
            value_in(out@, k) == if (exists|j: int| 0 <= j < i + 1 && all[j] == k)
                && parent@.contains_key(k) {
                Some(parent@[k]@)
            } else {
                value_in(before, k)
            } by {
            if k == all[i as int] {
                if !parent@.contains_key(k) {
                    assert(value_in(now, k) == value_in(out@, k));
                }
            } else {
                assert(value_in(now, k) == value_in(out@, k));
            }
        }
    }
    assert forall|k: Seq<char>| #[trigger]
        value_in(out@, k) == if all.contains(k) && parent@.contains_key(k) {
            Some(parent@[k]@)
        } else {
            value_in(before, k)
        } by {
        if all.contains(k) {
            let j = choose|j: int| 0 <= j < all.len() && all[j] == k;
            assert(0 <= j < keys@.len() && all[j] == k);
        }
    }
}

/// Assembles the environment that a hook child runs with. `parent` is the
/// environment of this process, `extras` the configured extra variables to
/// hand on, and `env` the run's own variables, which win.
pub fn hook_environment(parent: &Table<String>, extras: &[String], env: &Table<String>) -> (r:
    Table<String>)
    ensures
        forall|k: Seq<char>| #[trigger]
            value_in(r@, k) == hook_value(parent@, text::views(extras@), env@, k),
{
    let mut out: Table<String> = Table::new();
    let path = match parent.get("PATH") {
        Some(p) => p.clone(),
        None => text::owned("/usr/bin:/bin"),
    };
    out.insert("PATH", path);
    let defaults = default_hook_env_passthrough();
    let ghost base = out@;
    pass_through(&mut out, parent, defaults.as_slice());
    let ghost first = out@;
    pass_through(&mut out, parent, extras);
    let ghost second = out@;
    proof {
        assert forall|k: Seq<char>| #[trigger]
            value_in(second, k) == if (is_default_passthrough(k) || text::views(extras@).contains(
                k,
            )) && parent@.contains_key(k) {
                Some(parent@[k]@)
            } else if k == "PATH"@ {
                Some(path@)
            } else {
                None
            } by {
            assert(text::views(defaults@).contains(k) <==> is_default_passthrough(k));
            assert(value_in(first, k) == if is_default_passthrough(k) && parent@.contains_key(k) {
                Some(parent@[k]@)
            } else {
                value_in(base, k)
            });
        }
    }
    let n: usize = env.len();
    let ghost keys = env.keys();
    for i in 0..n
        invariant
            n == keys.len(),
            keys == env.keys(),
            forall|k: Seq<char>| #[trigger]
                value_in(out@, k) == if exists|j: int| 0 <= j < i && keys[j] == k {
                    Some(env@[k]@)
                } else {
                    value_in(second, k)
                },
    {
        let ghost now = out@;
        let (k, v) = env.entry(i);
        out.insert(k, v.clone());
        assert forall|q: Seq<char>| #[trigger]
            value_in(out@, q) == if exists|j: int| 0 <= j < i + 1 && keys[j] == q {
                Some(env@[q]@)
            } else {
                value_in(second, q)
            } by {
            if q == keys[i as int] {
            } else {
                assert(value_in(now, q) == value_in(out@, q));
            }
        }
    }
    proof {
        assert forall|k: Seq<char>| #[trigger]
            value_in(out@, k) == hook_value(parent@, text::views(extras@), env@, k) by {
            if env@.contains_key(k) {
                assert(keys.contains(k));
                let j = choose|j: int| 0 <= j < keys.len() && keys[j] == k;
                assert(0 <= j < n && keys[j] == k);
            } else {
                assert(!(exists|j: int| 0 <= j < n && keys[j] == k)) by {
                    if exists|j: int| 0 <= j < n && keys[j] == k {
                        let j = choose|j: int| 0 <= j < n && keys[j] == k;
                        assert(keys.contains(keys[j]));
                    }
                }
            }
            assert(value_in(second, k) == value_in(second, k));
        }
    }
    out
}

// ---------------------------------------------------------------------------
// The transcript of a hook
// ---------------------------------------------------------------------------

/// The banner that a hook's output begins with.
pub fn banner_open(kind: HookKind, cmd: &str, now: Timestamp) -> (r: String)
    ensures
        r@ == "\n=== pitboss hook: "@ + hook_label(kind) + " (cmd: "@ + cmd@ + ") [start "@
            + now.rfc3339() + "] ===\n"@,
{
    let mut out = text::owned("\n=== pitboss hook: ");
    out.append(kind.label());
    out.append(" (cmd: ");
    out.append(cmd);
    out.append(") [start ");
    out.append(now.to_rfc3339().as_str());
    out.append("] ===\n");
    out
}

/// The banner that a hook's output ends with.
pub fn banner_close(kind: HookKind, outcome: &HookOutcome, now: Timestamp) -> (r: String)
    ensures
        r@ == "=== pitboss hook: "@ + hook_label(kind) + " "@ + outcome_text(*outcome) + " [end "@
            + now.rfc3339() + "] ===\n"@,
{
    let mut out = text::owned("=== pitboss hook: ");
    out.append(kind.label());
    out.append(" ");
    out.append(outcome.description().as_str());
    out.append(" [end ");
    out.append(now.to_rfc3339().as_str());
    out.append("] ===\n");
    out
}

/// One line of a hook's output as the transcript shows it.
pub fn transcript_line(kind: HookKind, is_stderr: bool, line: &str) -> (r: String)
    ensures
        r@ == "[hook:"@ + hook_label(kind) + (if is_stderr {
            ":stderr] "@
        } else {
            "] "@
        }) + line@ + "\n"@,
{
    let mut out = text::owned("[hook:");
    out.append(kind.label());
    out.append(if is_stderr {
        ":stderr] "
    } else {
        "] "
    });
    out.append(line);
    out.append("\n");
    out
}

} // verus!
