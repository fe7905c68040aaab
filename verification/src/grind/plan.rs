//! Grind plan files plus the synthesized default plan.
//!
//! A grind plan pins which prompts participate in a rotation, applies per-plan
//! overrides on top of frontmatter defaults, and carries the hooks and budgets
//! the runner enforces. Plans live at `.pitboss/plans/<name>.toml`; the file
//! stem becomes the plan's [`GrindPlan::name`] (the body never carries a
//! `name` key — that source of truth is the path on disk). When no plan file
//! is selected, [`default_plan_from_dir`] synthesizes one that rotates through
//! every discovered prompt with no overrides.

use vstd::prelude::*;
use vstd::string::StringExecFns;

use super::prompt::PromptDoc;
use crate::money::Usd;
use crate::text;
use crate::time::Timestamp;

verus! {

/// Synthesized plan name used by [`default_plan_from_dir`] when no plan file
/// has been selected.
pub const DEFAULT_PLAN_NAME: &'static str = "default";

/// A loaded or synthesized grind plan.
#[derive(Debug, PartialEq, Eq)]
pub struct GrindPlan {
    /// Plan name. Always set from the file stem on load (or
    /// [`DEFAULT_PLAN_NAME`] for the synthesized default plan); it is never
    /// read from the TOML body.
    pub name: String,
    /// Prompts pinned by this plan, in author-supplied order. Each entry may
    /// override the prompt's frontmatter weight / every / max_runs.
    pub prompts: Vec<PlanPromptRef>,
    /// Cap on concurrently-running sessions for this plan. Defaults to
    /// [`default_max_parallel`] (sequential).
    pub max_parallel: u32,
    /// Plan-level shell hooks fired around each session.
    pub hooks: Hooks,
    /// Plan-level budgets applied across the whole run.
    pub budgets: PlanBudgets,
}

/// One prompt entry inside a [`GrindPlan`]. Overrides null out per-prompt
/// frontmatter values when explicitly set; `None` means "inherit".
#[derive(Debug, PartialEq, Eq)]
pub struct PlanPromptRef {
    /// Name of the prompt this entry refers to. Must match a discovered prompt
    /// when the plan is later validated against the prompt set.
    pub name: String,
    /// Plan-level override for the prompt's `weight` frontmatter.
    pub weight_override: Option<u32>,
    /// Plan-level override for the prompt's `every` frontmatter.
    pub every_override: Option<u32>,
    /// Plan-level override for the prompt's `max_runs` frontmatter.
    pub max_runs_override: Option<u32>,
}

/// Plan- or config-level shell hooks. Each value is a raw shell string
/// executed by the runner around a session.
#[derive(Debug, PartialEq, Eq)]
pub struct Hooks {
    /// Runs before the agent dispatch. Non-zero exit skips the session.
    pub pre_session: Option<String>,
    /// Runs after the session resolves, regardless of status.
    pub post_session: Option<String>,
    /// Runs after the session resolves, only when status is non-`Ok`.
    pub on_failure: Option<String>,
}

/// Plan- or config-level budgets. Any combination may be set; the first to
/// trip wins at runtime.
#[derive(Debug, Clone, Copy, PartialEq, Eq, Structural)]
pub struct PlanBudgets {
    /// Hard cap on number of sessions dispatched.
    pub max_iterations: Option<u32>,
    /// Hard wall-clock cutoff. Once reached, no further sessions are
    /// dispatched.
    pub until: Option<Timestamp>,
    /// Hard cap on cumulative agent cost.
    pub max_cost_usd: Option<Usd>,
    /// Hard cap on cumulative tokens (input + output) across all roles.
    pub max_tokens: Option<u64>,
}

/// Errors produced while a plan file is loaded.
#[derive(Debug)]
pub enum PlanLoadError {
    /// The plan file could not be read from disk.
    Io {
        /// Display path of the offending file.
        path: String,
        /// What the operating system said.
        source: String,
    },
    /// The path had no UTF-8 file stem to derive the plan's name from.
    MissingName {
        /// Display path of the offending file.
        path: String,
    },
    /// The TOML body did not parse, or did not match the plan schema.
    Malformed {
        /// Display path of the offending file.
        path: String,
        /// One-line diagnostic.
        message: String,
    },
    /// The same `name` appeared in `prompts` more than once.
    DuplicatePrompt {
        /// Display path of the offending file.
        path: String,
        /// The duplicated prompt name.
        name: String,
    },
    /// A semantic constraint (e.g., `max_parallel >= 1`) was violated.
    Invalid {
        /// Display path of the offending file.
        path: String,
        /// One-line diagnostic.
        message: String,
    },
}

/// What a [`PlanLoadError`] says, as a mathematical value. Two I/O errors on
/// one path count as the same.
pub enum PlanLoadFault {
    Io { path: Seq<char> },
    MissingName { path: Seq<char> },
    Malformed { path: Seq<char>, message: Seq<char> },
    DuplicatePrompt { path: Seq<char>, name: Seq<char> },
    Invalid { path: Seq<char>, message: Seq<char> },
}

/// The message of a plan load error.
pub open spec fn plan_load_message(e: PlanLoadError) -> Seq<char> {
    match e {
        PlanLoadError::Io { path, source } => "failed to read plan file "@ + path@ + ": "@
            + source@,
        PlanLoadError::MissingName { path } => "plan path has no UTF-8 file stem: "@ + path@,
        PlanLoadError::Malformed { path, message } => path@ + ": malformed plan: "@ + message@,
        PlanLoadError::DuplicatePrompt { path, name } => path@ + ": duplicate prompt entry "@
            + text::debug_text(name@),
        PlanLoadError::Invalid { path, message } => path@ + ": invalid plan: "@ + message@,
    }
}

impl PlanLoadError {
    /// The message of the error.
    pub fn message(&self) -> (r: String)
        ensures
            r@ == plan_load_message(*self),
    {
        match self {
            PlanLoadError::Io { path, source } => {
                let mut out = text::owned("failed to read plan file ");
                out.append(path.as_str());
                out.append(": ");
                out.append(source.as_str());
                out
            },
            PlanLoadError::MissingName { path } => {
                let mut out = text::owned("plan path has no UTF-8 file stem: ");
                out.append(path.as_str());
                out
            },
            PlanLoadError::Malformed { path, message } => {
                let mut out = text::owned(path.as_str());
                out.append(": malformed plan: ");
                out.append(message.as_str());
                out
            },
            PlanLoadError::DuplicatePrompt { path, name } => {
                let mut out = text::owned(path.as_str());
                out.append(": duplicate prompt entry ");
                out.append(text::quoted(name.as_str()).as_str());
                out
            },
            PlanLoadError::Invalid { path, message } => {
                let mut out = text::owned(path.as_str());
                out.append(": invalid plan: ");
                out.append(message.as_str());
                out
            },
        }
    }
}

impl View for PlanLoadError {
    type V = PlanLoadFault;

    open spec fn view(&self) -> PlanLoadFault {
        match *self {
            PlanLoadError::Io { path, .. } => PlanLoadFault::Io { path: path@ },
            PlanLoadError::MissingName { path } => PlanLoadFault::MissingName { path: path@ },
            PlanLoadError::Malformed { path, message } => PlanLoadFault::Malformed {
                path: path@,
                message: message@,
            },
            PlanLoadError::DuplicatePrompt { path, name } => PlanLoadFault::DuplicatePrompt {
                path: path@,
                name: name@,
            },
            PlanLoadError::Invalid { path, message } => PlanLoadFault::Invalid {
                path: path@,
                message: message@,
            },
        }
    }
}

impl PartialEq for PlanLoadError {
    fn eq(&self, other: &Self) -> (r: bool) {
        match (self, other) {
            (PlanLoadError::Io { path: a, .. }, PlanLoadError::Io { path: b, .. }) => text::same(
                a.as_str(),
                b.as_str(),
            ),
            (PlanLoadError::MissingName { path: a }, PlanLoadError::MissingName { path: b }) =>
            text::same(a.as_str(), b.as_str()),
            (
                PlanLoadError::Malformed { path: a, message: x },
                PlanLoadError::Malformed { path: b, message: y },
            ) => text::same(a.as_str(), b.as_str()) && text::same(x.as_str(), y.as_str()),
            (
                PlanLoadError::DuplicatePrompt { path: a, name: x },
                PlanLoadError::DuplicatePrompt { path: b, name: y },
            ) => text::same(a.as_str(), b.as_str()) && text::same(x.as_str(), y.as_str()),
            (
                PlanLoadError::Invalid { path: a, message: x },
                PlanLoadError::Invalid { path: b, message: y },
            ) => text::same(a.as_str(), b.as_str()) && text::same(x.as_str(), y.as_str()),
            _ => false,
        }
    }
}

impl vstd::std_specs::cmp::PartialEqSpecImpl for PlanLoadError {
    open spec fn obeys_eq_spec() -> bool {
        true
    }

    open spec fn eq_spec(&self, other: &Self) -> bool {
        self@ == other@
    }
}

/// Errors produced by [`GrindPlan::validate_against`].
#[derive(Debug, PartialEq, Eq)]
pub enum PlanValidationError {
    /// A `prompts` entry referenced a name that was not in the discovered
    /// prompt set.
    UnknownPrompt {
        /// Plan whose entry is dangling.
        plan: String,
        /// Referenced prompt name that does not exist.
        prompt: String,
    },
}

/// The message of a plan validation error.
pub open spec fn plan_validation_message(e: PlanValidationError) -> Seq<char> {
    match e {
        PlanValidationError::UnknownPrompt { plan, prompt } => "plan "@ + text::debug_text(plan@)
            + " references unknown prompt "@ + text::debug_text(prompt@),
    }
}

/// The message names the plan and the prompt that it asks for.
pub proof fn validation_errors_name_plan_and_prompt(e: PlanValidationError)
    ensures
        e matches PlanValidationError::UnknownPrompt { plan, prompt } ==> {
            &&& text::contains(plan_validation_message(e), "plan "@ + text::debug_text(plan@))
            &&& text::contains(
                plan_validation_message(e),
                "unknown prompt "@ + text::debug_text(prompt@),
            )
        },
{
    let PlanValidationError::UnknownPrompt { plan, prompt } = e;
    let whole = plan_validation_message(e);
    let head = "plan "@ + text::debug_text(plan@);
    let mid = " references unknown prompt "@;
    let name = text::debug_text(prompt@);
    text::parts_are_held(Seq::empty(), head, mid + name, whole);
    reveal_strlit(" references unknown prompt ");
    reveal_strlit("unknown prompt ");
    assert(mid =~= mid.take(12) + "unknown prompt "@);
    text::parts_are_held(head + mid.take(12), "unknown prompt "@ + name, Seq::empty(), whole);
}

impl PlanValidationError {
    /// The message of the error.
    pub fn message(&self) -> (r: String)
        ensures
            r@ == plan_validation_message(*self),
    {
        match self {
            PlanValidationError::UnknownPrompt { plan, prompt } => {
                let mut out = text::owned("plan ");
                out.append(text::quoted(plan.as_str()).as_str());
                out.append(" references unknown prompt ");
                out.append(text::quoted(prompt.as_str()).as_str());
                out
            },
        }
    }
}

/// The sessions that a plan which says nothing of them may run at once.
pub fn default_max_parallel() -> (r: u32)
    ensures
        r == 1,
{
    1
}

impl Hooks {
    /// No hooks.
    pub fn none() -> (r: Self)
        ensures
            r.pre_session is None,
            r.post_session is None,
            r.on_failure is None,
    {
        Hooks { pre_session: None, post_session: None, on_failure: None }
    }

    /// A copy of the hooks.
    pub fn copy(&self) -> (r: Self)
        ensures
            r == *self,
    {
        Hooks {
            pre_session: text::copy_option(&self.pre_session),
            post_session: text::copy_option(&self.post_session),
            on_failure: text::copy_option(&self.on_failure),
        }
    }
}

impl PlanBudgets {
    /// No budgets.
    pub fn none() -> (r: Self)
        ensures
            r == (PlanBudgets {
                max_iterations: None,
                until: None,
                max_cost_usd: None,
                max_tokens: None,
            }),
    {
        PlanBudgets { max_iterations: None, until: None, max_cost_usd: None, max_tokens: None }
    }
}

impl PlanPromptRef {
    /// A copy of the entry.
    pub fn copy(&self) -> (r: Self)
        ensures
            r == *self,
    {
        PlanPromptRef {
            name: self.name.clone(),
            weight_override: self.weight_override,
            every_override: self.every_override,
            max_runs_override: self.max_runs_override,
        }
    }
}

// ---------------------------------------------------------------------------
// Loading
// ---------------------------------------------------------------------------

/// Entry `i` names a prompt that an earlier entry names.
pub open spec fn entry_repeats(entries: Seq<PlanPromptRef>, i: int) -> bool {
    exists|j: int| 0 <= j < i && (#[trigger] entries[j]).name@ == entries[i].name@
}

/// What is wrong with entry `i`, if anything.
pub open spec fn entry_fault(entries: Seq<PlanPromptRef>, i: int, path: Seq<char>) -> Option<
    PlanLoadFault,
> {
    let entry = entries[i];
    if entry_repeats(entries, i) {
        Some(PlanLoadFault::DuplicatePrompt { path, name: entry.name@ })
    } else if entry.weight_override == Some(0u32) {
        Some(
            PlanLoadFault::Invalid {
                path,
                message: "prompts["@ + text::debug_text(entry.name@)
                    + "].weight_override must be >= 1"@,
            },
        )
    } else if entry.every_override == Some(0u32) {
        Some(
            PlanLoadFault::Invalid {
                path,
                message: "prompts["@ + text::debug_text(entry.name@)
                    + "].every_override must be >= 1"@,
            },
        )
    } else {
        None
    }
}

/// What is wrong with the first faulty entry from index `from` on.
pub open spec fn entries_fault(entries: Seq<PlanPromptRef>, from: int, path: Seq<char>) -> Option<
    PlanLoadFault,
>
    decreases entries.len() - from,
{
    if from >= entries.len() {
        None
    } else if entry_fault(entries, from, path) is Some {
        entry_fault(entries, from, path)
    } else {
        entries_fault(entries, from + 1, path)
    }
}

/// What is wrong with a decoded plan, if anything. Without this check,
/// `every_override = 0` would make the scheduler skip the prompt forever, and
/// `weight_override = 0` would produce a score-0 candidate that can still win
/// alphabetical tiebreaks.
pub open spec fn plan_fault(plan: GrindPlan, path: Seq<char>) -> Option<PlanLoadFault> {
    if plan.max_parallel == 0 {
        Some(PlanLoadFault::Invalid { path, message: "max_parallel must be >= 1"@ })
    } else {
        entries_fault(plan.prompts@, 0, path)
    }
}

/// A plan is sound exactly where sessions can run, no prompt is named twice, and
/// no entry gives its prompt a weight or a cadence of zero.
pub proof fn a_sound_plan_can_run(plan: GrindPlan, path: Seq<char>)
    ensures
        plan_fault(plan, path) is None <==> {
            &&& plan.max_parallel >= 1
            &&& forall|i: int, j: int|
                0 <= i < j < plan.prompts@.len() ==> (#[trigger] plan.prompts@[i]).name@ != (
                #[trigger] plan.prompts@[j]).name@
            &&& forall|i: int|
                0 <= i < plan.prompts@.len() ==> ((#[trigger] plan.prompts@[i]).weight_override
                    matches Some(w) ==> w >= 1)
            &&& forall|i: int|
                0 <= i < plan.prompts@.len() ==> ((#[trigger] plan.prompts@[i]).every_override
                    matches Some(n) ==> n >= 1)
        },
{
    let entries = plan.prompts@;
    first_entry_fault(entries, 0, path);
    if plan_fault(plan, path) is None {
        assert forall|i: int, j: int| 0 <= i < j < entries.len() implies (
        #[trigger] entries[i]).name@ != (#[trigger] entries[j]).name@ by {
            assert(entry_fault(entries, j, path) is None);
        }
        assert forall|i: int| 0 <= i < entries.len() implies ((
        #[trigger] entries[i]).weight_override matches Some(w) ==> w >= 1) by {
            assert(entry_fault(entries, i, path) is None);
        }
        assert forall|i: int| 0 <= i < entries.len() implies ((
        #[trigger] entries[i]).every_override matches Some(n) ==> n >= 1) by {
            assert(entry_fault(entries, i, path) is None);
        }
    }
}

/// The fault that is reported is that of the first faulty entry: a name that
/// stands before it is reported as a duplicate, and only then a weight of zero,
/// and only then a cadence of zero.
pub proof fn the_first_faulty_entry_is_reported(plan: GrindPlan, path: Seq<char>, i: int)
    requires
        plan.max_parallel >= 1,
        0 <= i < plan.prompts@.len(),
        forall|j: int|
            0 <= j < i ==> entry_fault(plan.prompts@, j, path) is None,
    ensures
        ({
            let e = plan.prompts@[i];
            let twice = exists|j: int|
                0 <= j < i && (#[trigger] plan.prompts@[j]).name@ == e.name@;
            &&& twice ==> plan_fault(plan, path) == Some(
                PlanLoadFault::DuplicatePrompt { path, name: e.name@ },
            )
            &&& !twice && e.weight_override == Some(0u32) ==> plan_fault(plan, path) == Some(
                PlanLoadFault::Invalid {
                    path,
                    message: "prompts["@ + text::debug_text(e.name@)
                        + "].weight_override must be >= 1"@,
                },
            )
            &&& !twice && e.weight_override != Some(0u32) && e.every_override == Some(0u32)
                ==> plan_fault(plan, path) == Some(
                PlanLoadFault::Invalid {
                    path,
                    message: "prompts["@ + text::debug_text(e.name@)
                        + "].every_override must be >= 1"@,
                },
            )
        }),
{
    skip_sound_entries(plan.prompts@, 0, i, path);
}

proof fn skip_sound_entries(entries: Seq<PlanPromptRef>, from: int, i: int, path: Seq<char>)
    requires
        0 <= from <= i < entries.len(),
        forall|j: int| from <= j < i ==> entry_fault(entries, j, path) is None,
    ensures
        entries_fault(entries, from, path) == entries_fault(entries, i, path),
    decreases i - from,
{
    if from < i {
        assert(entry_fault(entries, from, path) is None);
        skip_sound_entries(entries, from + 1, i, path);
    }
}

proof fn first_entry_fault(entries: Seq<PlanPromptRef>, from: int, path: Seq<char>)
    requires
        0 <= from <= entries.len(),
    ensures
        entries_fault(entries, from, path) is None <==> forall|j: int|
            from <= j < entries.len() ==> entry_fault(entries, j, path) is None,
    decreases entries.len() - from,
{
    if from < entries.len() {
        first_entry_fault(entries, from + 1, path);
    }
}

fn zero_override(path: &str, name: &str, field: &str) -> (r: PlanLoadError)
    ensures
        r@ == (PlanLoadFault::Invalid {
            path: path@,
            message: "prompts["@ + text::debug_text(name@) + field@,
        }),
{
    let mut message = text::owned("prompts[");
    message.append(text::quoted(name).as_str());
    message.append(field);
    PlanLoadError::Invalid { path: text::owned(path), message }
}

/// Checks a plan body that was decoded from TOML, or turns the decoder's
/// message into an error. `name` becomes [`GrindPlan::name`]; `display` is used
/// only in errors.
pub fn parse_plan_str(decoded: Result<GrindPlan, String>, name: String, display: &str) -> (r:
    Result<GrindPlan, PlanLoadError>)
    ensures
        match (decoded, r) {
            (Err(message), Err(e)) => e@ == (PlanLoadFault::Malformed {
                path: display@,
                message: text::first_line_trimmed(message@),
            }),
            (Ok(given), Err(e)) => plan_fault(given, display@) == Some(e@),
            (Ok(given), Ok(plan)) => {
                &&& plan_fault(given, display@) is None
                &&& plan.name == name
                &&& plan.prompts == given.prompts
                &&& plan.max_parallel == given.max_parallel
                &&& plan.hooks == given.hooks
                &&& plan.budgets == given.budgets
            },
            (Err(_), Ok(_)) => false,
        },
{
    let given = match decoded {
        Ok(plan) => plan,
        Err(message) => {
            return Err(
                PlanLoadError::Malformed {
                    path: text::owned(display),
                    message: text::one_line(message.as_str()),
                },
            );
        },
    };
    if given.max_parallel == 0 {
        return Err(
            PlanLoadError::Invalid {
                path: text::owned(display),
                message: text::owned("max_parallel must be >= 1"),
            },
        );
    }
    let ghost entries = given.prompts@;
    for i in 0..given.prompts.len()
        invariant
            decoded == Ok::<GrindPlan, String>(given),
            given.max_parallel != 0,
            entries == given.prompts@,
            entries_fault(entries, 0, display@) == entries_fault(entries, i as int, display@),
    {
        let entry = &given.prompts[i];
        for j in 0..i
            invariant
                decoded == Ok::<GrindPlan, String>(given),
                given.max_parallel != 0,
                entries == given.prompts@,
                i < entries.len(),
                entry == entries[i as int],
                entries_fault(entries, 0, display@) == entries_fault(entries, i as int, display@),
                forall|k: int|
                    0 <= k < j ==> (#[trigger] entries[k]).name@ != entries[i as int].name@,
        {
            if text::same(given.prompts[j].name.as_str(), entry.name.as_str()) {
                assert(entries[j as int].name@ == entries[i as int].name@);
                return Err(
                    PlanLoadError::DuplicatePrompt {
                        path: text::owned(display),
                        name: entry.name.clone(),
                    },
                );
            }
        }
        if let Some(w) = entry.weight_override {
            if w == 0 {
                return Err(
                    zero_override(display, entry.name.as_str(), "].weight_override must be >= 1"),
                );
            }
        }
        if let Some(n) = entry.every_override {
            if n == 0 {
                return Err(
                    zero_override(display, entry.name.as_str(), "].every_override must be >= 1"),
                );
            }
        }
    }
    Ok(
        GrindPlan {
            name,
            prompts: given.prompts,
            max_parallel: given.max_parallel,
            hooks: given.hooks,
            budgets: given.budgets,
        },
    )
}

// ---------------------------------------------------------------------------
// The default plan
// ---------------------------------------------------------------------------

/// The names of `prompts`, in order.
pub open spec fn prompt_names(prompts: Seq<PromptDoc>) -> Seq<Seq<char>> {
    prompts.map_values(|p: PromptDoc| p.meta.name@)
}

/// The names of `entries`, in order.
pub open spec fn entry_names(entries: Seq<PlanPromptRef>) -> Seq<Seq<char>> {
    entries.map_values(|e: PlanPromptRef| e.name@)
}

/// `names` with each repeated name left out but for its first occurrence.
pub open spec fn distinct(names: Seq<Seq<char>>) -> Seq<Seq<char>>
    decreases names.len(),
{
    if names.len() == 0 {
        Seq::empty()
    } else {
        let front = distinct(names.drop_last());
        if front.contains(names.last()) {
            front
        } else {
            front.push(names.last())
        }
    }
}

/// [`distinct`] keeps every name and repeats none.
pub proof fn distinct_is_duplicate_free(names: Seq<Seq<char>>)
    ensures
        distinct(names).no_duplicates(),
        forall|n: Seq<char>| names.contains(n) <==> #[trigger] distinct(names).contains(n),
    decreases names.len(),
{
    if names.len() > 0 {
        let front = distinct(names.drop_last());
        let last = names.last();
        distinct_is_duplicate_free(names.drop_last());
        assert forall|n: Seq<char>| names.contains(n) <==> #[trigger] distinct(names).contains(
            n,
        ) by {
            if names.contains(n) {
                let i = choose|i: int| 0 <= i < names.len() && names[i] == n;
                if i < names.len() - 1 {
                    assert(names.drop_last()[i] == n);
                    assert(front.contains(n));
                    let k = choose|k: int| 0 <= k < front.len() && front[k] == n;
                    assert(distinct(names)[k] == n);
                } else if !front.contains(last) {
                    assert(distinct(names)[front.len() as int] == n);
                }
            }
            if distinct(names).contains(n) {
                let k = choose|k: int| 0 <= k < distinct(names).len() && distinct(names)[k] == n;
                if k < front.len() {
                    assert(front[k] == n);
                    assert(front.contains(n));
                    let i = choose|i: int|
                        0 <= i < names.drop_last().len() && names.drop_last()[i] == n;
                    assert(names[i] == n);
                } else {
                    assert(names[names.len() - 1] == n);
                }
            }
        }
    }
}

/// [`distinct`] goes through the names in order: one that stood before adds
/// nothing, and a new one comes last.
pub proof fn first_occurrences_stay_in_order(names: Seq<Seq<char>>, n: Seq<char>)
    ensures
        names.contains(n) ==> distinct(names.push(n)) == distinct(names),
        !names.contains(n) ==> distinct(names.push(n)) == distinct(names).push(n),
        distinct(Seq::<Seq<char>>::empty()).len() == 0,
{
    assert(names.push(n).drop_last() =~= names);
    distinct_is_duplicate_free(names);
}

/// `entry` overrides nothing.
pub open spec fn plain_entry(entry: PlanPromptRef) -> bool {
    entry.weight_override is None && entry.every_override is None && entry.max_runs_override
        is None
}

/// An entry overrides nothing exactly where none of its three overrides is set.
pub proof fn plain_entries_override_nothing(entry: PlanPromptRef)
    ensures
        plain_entry(entry) <==> !(entry.weight_override is Some || entry.every_override is Some
            || entry.max_runs_override is Some),
{
}

/// Synthesize a plan that rotates through every discovered prompt once, with
/// no overrides. The resulting plan's `name` is [`DEFAULT_PLAN_NAME`].
///
/// Duplicate prompt names in the input (which discovery already de-dupes by
/// precedence) are silently collapsed to first occurrence so this helper is
/// tolerant of any list the caller hands in.
pub fn default_plan_from_dir(prompts: &[PromptDoc]) -> (r: GrindPlan)
    ensures
        r.name@ == DEFAULT_PLAN_NAME@,
        entry_names(r.prompts@) == distinct(prompt_names(prompts@)),
        forall|i: int| 0 <= i < r.prompts@.len() ==> plain_entry(#[trigger] r.prompts@[i]),
        r.prompts@.len() <= prompts@.len(),
        r.max_parallel == 1,
        r.hooks == (Hooks { pre_session: None, post_session: None, on_failure: None }),
        r.budgets == (PlanBudgets {
            max_iterations: None,
            until: None,
            max_cost_usd: None,
            max_tokens: None,
        }),
{
    let ghost names = prompt_names(prompts@);
    let mut refs: Vec<PlanPromptRef> = Vec::new();
    for i in 0..prompts.len()
        invariant
            names == prompt_names(prompts@),
            entry_names(refs@) == distinct(names.take(i as int)),
            forall|k: int| 0 <= k < refs@.len() ==> plain_entry(#[trigger] refs@[k]),
            refs@.len() <= i,
    {
        let name = &prompts[i].meta.name;
        let ghost seen = entry_names(refs@);
        let mut known: bool = false;
        for j in 0..refs.len()
            invariant
                seen == entry_names(refs@),
                known == exists|k: int| 0 <= k < j && #[trigger] seen[k] == name@,
        {
            assert(seen[j as int] == refs@[j as int].name@);
            if text::same(refs[j].name.as_str(), name.as_str()) {
                known = true;
            }
        }
        proof {
            assert(names.take(i + 1).drop_last() =~= names.take(i as int));
            assert(names.take(i + 1).last() == name@);
            assert(known == seen.contains(name@));
        }
        if !known {
            let ghost before = refs@;
            refs.push(
                PlanPromptRef {
                    name: name.clone(),
                    weight_override: None,
                    every_override: None,
                    max_runs_override: None,
                },
            );
            assert(entry_names(refs@) =~= seen.push(name@));
        }
    }
    assert(names.take(names.len() as int) =~= names);
    GrindPlan {
        name: text::owned(DEFAULT_PLAN_NAME),
        prompts: refs,
        max_parallel: 1,
        hooks: Hooks::none(),
        budgets: PlanBudgets::none(),
    }
}

// ---------------------------------------------------------------------------
// Validation
// ---------------------------------------------------------------------------

/// The first index at or after `from` whose entry names none of `names`.
pub open spec fn first_unknown(
    entries: Seq<PlanPromptRef>,
    names: Seq<Seq<char>>,
    from: int,
) -> Option<int>
    decreases entries.len() - from,
{
    if from >= entries.len() {
        None
    } else if !names.contains(entries[from].name@) {
        Some(from)
    } else {
        first_unknown(entries, names, from + 1)
    }
}

impl GrindPlan {
    /// A copy of the plan.
    pub fn copy(&self) -> (r: Self)
        ensures
            r.name == self.name,
            r.prompts@ == self.prompts@,
            r.max_parallel == self.max_parallel,
            r.hooks == self.hooks,
            r.budgets == self.budgets,
    {
        let mut prompts: Vec<PlanPromptRef> = Vec::new();
        for i in 0..self.prompts.len()
            invariant
                prompts@ == self.prompts@.take(i as int),
        {
            prompts.push(self.prompts[i].copy());
            assert(prompts@ =~= self.prompts@.take(i + 1));
        }
        assert(self.prompts@.take(self.prompts@.len() as int) =~= self.prompts@);
        GrindPlan {
            name: self.name.clone(),
            prompts,
            max_parallel: self.max_parallel,
            hooks: self.hooks.copy(),
            budgets: self.budgets,
        }
    }

    /// Cross-check that every `prompts` entry refers to a discovered prompt.
    /// Stops at the first dangling reference.
    pub fn validate_against(&self, prompts: &[PromptDoc]) -> (r: Result<(), PlanValidationError>)
        ensures
            match (r, first_unknown(self.prompts@, prompt_names(prompts@), 0)) {
                (Ok(_), None) => true,
                (Err(PlanValidationError::UnknownPrompt { plan, prompt }), Some(i)) => plan@
                    == self.name@ && prompt@ == self.prompts@[i].name@,
                _ => false,
            },
    {
        let ghost names = prompt_names(prompts@);
        let ghost entries = self.prompts@;
        for i in 0..self.prompts.len()
            invariant
                names == prompt_names(prompts@),
                entries == self.prompts@,
                first_unknown(entries, names, 0) == first_unknown(entries, names, i as int),
        {
            let wanted = &self.prompts[i].name;
            let mut known: bool = false;
            for j in 0..prompts.len()
                invariant
                    names == prompt_names(prompts@),
                    known == exists|k: int| 0 <= k < j && #[trigger] names[k] == wanted@,
            {
                assert(names[j as int] == prompts@[j as int].meta.name@);
                if text::same(prompts[j].meta.name.as_str(), wanted.as_str()) {
                    known = true;
                }
            }
            assert(known == names.contains(wanted@));
            if !known {
                return Err(
                    PlanValidationError::UnknownPrompt {
                        plan: self.name.clone(),
                        prompt: wanted.clone(),
                    },
                );
            }
        }
        Ok(())
    }
}

/// A plan fits the prompts exactly where every entry names one of them; else the
/// first entry that does not is the one that is reported.
pub proof fn every_entry_must_name_a_prompt(
    entries: Seq<PlanPromptRef>,
    names: Seq<Seq<char>>,
    from: int,
)
    requires
        0 <= from <= entries.len(),
    ensures
        match first_unknown(entries, names, from) {
            None => forall|i: int|
                from <= i < entries.len() ==> names.contains((#[trigger] entries[i]).name@),
            Some(k) => from <= k < entries.len() && !names.contains(entries[k].name@) && forall|
                i: int,
            |
                from <= i < k ==> names.contains((#[trigger] entries[i]).name@),
        },
    decreases entries.len() - from,
{
    if from < entries.len() && names.contains(entries[from].name@) {
        every_entry_must_name_a_prompt(entries, names, from + 1);
    }
}

/// A plan that [`default_plan_from_dir`] makes names only discovered prompts,
/// and no prompt twice, so it passes both [`GrindPlan::validate_against`] and
/// the checks of [`parse_plan_str`].
pub proof fn default_plan_is_valid(plan: GrindPlan, prompts: Seq<PromptDoc>, path: Seq<char>)
    requires
        entry_names(plan.prompts@) == distinct(prompt_names(prompts)),
        forall|i: int| 0 <= i < plan.prompts@.len() ==> plain_entry(#[trigger] plan.prompts@[i]),
        plan.max_parallel == 1,
    ensures
        first_unknown(plan.prompts@, prompt_names(prompts), 0) is None,
        plan_fault(plan, path) is None,
{
    distinct_is_duplicate_free(prompt_names(prompts));
    default_entries_known(plan.prompts@, prompt_names(prompts), 0);
    default_entries_sound(plan.prompts@, path, 0);
}

proof fn default_entries_known(entries: Seq<PlanPromptRef>, names: Seq<Seq<char>>, from: int)
    requires
        0 <= from,
        entry_names(entries) == distinct(names),
    ensures
        first_unknown(entries, names, from) is None,
    decreases entries.len() - from,
{
    if from < entries.len() {
        distinct_is_duplicate_free(names);
        assert(distinct(names)[from] == entries[from].name@);
        assert(distinct(names).contains(entries[from].name@));
        default_entries_known(entries, names, from + 1);
    }
}

proof fn default_entries_sound(entries: Seq<PlanPromptRef>, path: Seq<char>, from: int)
    requires
        0 <= from,
        entry_names(entries).no_duplicates(),
        forall|i: int| 0 <= i < entries.len() ==> plain_entry(#[trigger] entries[i]),
    ensures
        entries_fault(entries, from, path) is None,
    decreases entries.len() - from,
{
    if from < entries.len() {
        assert(plain_entry(entries[from]));
        assert(!entry_repeats(entries, from)) by {
            let names = entry_names(entries);
            assert(forall|j: int| 0 <= j < from ==> names[j] == (#[trigger] entries[j]).name@);
            assert(names[from] == entries[from].name@);
        }
        default_entries_sound(entries, path, from + 1);
    }
}

} // verus!
