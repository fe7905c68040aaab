//! Strict parser and serializer for `plan.md`.
//!
//! The parser is intentionally narrow: it accepts a YAML frontmatter delimited
//! by `---` fences, an optional preamble, and one or more `# Phase NN: Title`
//! blocks. Anything outside that shape is rejected with a typed
//! [`PlanParseError`] so the runner can react (e.g., halt the run and restore
//! a snapshot if the agent produced an invalid plan).
//!
//! [`serialize`] is a pure inverse of [`parse`] for canonical inputs; the two
//! directions are stated by [`serialize_undoes_parse`] and
//! [`parse_undoes_serialize`].

use vstd::prelude::*;
use vstd::string::StringExecFns;

use super::id;
use super::new_plan;
use super::{Phase, PhaseId, PhaseIdParseError, PhaseModel, Plan, PlanModel};
use crate::text;

verus! {

/// Errors produced by [`parse`].
#[derive(Debug, PartialEq, Eq)]
pub enum PlanParseError {
    /// The opening `---\n` fence was missing or unterminated.
    MissingFrontmatter,
    /// The frontmatter parsed as YAML but was structurally invalid (not a
    /// mapping, missing `current_phase`, wrong type, etc.) or YAML itself was
    /// malformed.
    BadFrontmatter(String),
    /// `current_phase` was a string but did not parse as a [`PhaseId`].
    BadCurrentPhase(PhaseIdParseError),
    /// `current_phase` referenced a phase that does not exist in the file.
    UnknownCurrentPhase(String),
    /// The file contained no `# Phase NN:` headings.
    NoPhases,
    /// A `# Phase` heading line could not be split into `<id>: <title>`.
    BadHeading {
        /// 1-based line number of the offending heading.
        line: usize,
        /// The raw heading line (without trailing newline).
        raw: String,
    },
    /// A `# Phase` heading carried an unparsable id.
    BadHeadingId {
        /// 1-based line number of the offending heading.
        line: usize,
        /// The underlying [`PhaseIdParseError`].
        source: PhaseIdParseError,
    },
    /// Two `# Phase` headings shared the same id.
    DuplicatePhaseId(String),
}

/// What a [`PlanParseError`] says, as a mathematical value.
pub enum PlanFault {
    MissingFrontmatter,
    BadFrontmatter(Seq<char>),
    BadCurrentPhase(id::PhaseIdFault),
    UnknownCurrentPhase(Seq<char>),
    NoPhases,
    BadHeading { line: nat, raw: Seq<char> },
    BadHeadingId { line: nat, source: id::PhaseIdFault },
    DuplicatePhaseId(Seq<char>),
}

/// The message of a plan parse error.
pub open spec fn plan_message(e: PlanParseError) -> Seq<char> {
    match e {
        PlanParseError::MissingFrontmatter => "plan.md is missing a YAML frontmatter (expected ---\\n…\\n---\\n)"@,
        PlanParseError::BadFrontmatter(message) => "plan.md frontmatter is invalid: "@ + message@,
        PlanParseError::BadCurrentPhase(source) => "plan.md current_phase is not a valid phase id: "@
            + id::id_fault_message(source@),
        PlanParseError::UnknownCurrentPhase(name) => "plan.md current_phase "@
            + text::debug_text(name@) + " does not match any # Phase heading"@,
        PlanParseError::NoPhases => "plan.md contains no # Phase NN: headings"@,
        PlanParseError::BadHeading { line, raw } => "plan.md heading on line "@
            + text::decimal(line as nat) + " is malformed: "@ + text::debug_text(raw@)
            + " (expected `# Phase <id>: <title>`)"@,
        PlanParseError::BadHeadingId { line, source } => "plan.md heading on line "@
            + text::decimal(line as nat) + " has invalid phase id: "@
            + id::id_fault_message(source@),
        PlanParseError::DuplicatePhaseId(name) => "plan.md contains duplicate phase id "@
            + text::debug_text(name@),
    }
}

/// The message of an error names its line, its id, or what was wrong.
pub proof fn errors_carry_their_detail(e: PlanParseError)
    ensures
        e matches PlanParseError::BadFrontmatter(message) ==> text::contains(
            plan_message(e),
            message@,
        ),
        e matches PlanParseError::BadCurrentPhase(source) ==> text::contains(
            plan_message(e),
            id::id_fault_message(source@),
        ),
        e matches PlanParseError::UnknownCurrentPhase(name) ==> text::contains(
            plan_message(e),
            "plan.md current_phase "@ + text::debug_text(name@),
        ),
        e matches PlanParseError::BadHeading { line, raw } ==> {
            &&& text::contains(
                plan_message(e),
                "plan.md heading on line "@ + text::decimal(line as nat),
            )
            &&& text::contains(plan_message(e), " is malformed: "@ + text::debug_text(raw@))
        },
        e matches PlanParseError::BadHeadingId { line, source } ==> {
            &&& text::contains(
                plan_message(e),
                "plan.md heading on line "@ + text::decimal(line as nat),
            )
            &&& text::contains(
                plan_message(e),
                " has invalid phase id: "@ + id::id_fault_message(source@),
            )
        },
        e matches PlanParseError::DuplicatePhaseId(name) ==> text::contains(
            plan_message(e),
            text::debug_text(name@),
        ),
{
    match e {
        PlanParseError::BadFrontmatter(message) => {
            text::parts_are_held(
                "plan.md frontmatter is invalid: "@,
                message@,
                Seq::<char>::empty(),
                plan_message(e),
            );
        },
        PlanParseError::BadCurrentPhase(source) => {
            text::parts_are_held(
                "plan.md current_phase is not a valid phase id: "@,
                id::id_fault_message(source@),
                Seq::<char>::empty(),
                plan_message(e),
            );
        },
        PlanParseError::UnknownCurrentPhase(name) => {
            text::parts_are_held(
                Seq::<char>::empty(),
                "plan.md current_phase "@ + text::debug_text(name@),
                " does not match any # Phase heading"@,
                plan_message(e),
            );
        },
        PlanParseError::BadHeading { line, raw } => {
            text::parts_are_held(
                Seq::<char>::empty(),
                "plan.md heading on line "@ + text::decimal(line as nat),
                " is malformed: "@ + text::debug_text(raw@)
                    + " (expected `# Phase <id>: <title>`)"@,
                plan_message(e),
            );
            text::parts_are_held(
                "plan.md heading on line "@ + text::decimal(line as nat),
                " is malformed: "@ + text::debug_text(raw@),
                " (expected `# Phase <id>: <title>`)"@,
                plan_message(e),
            );
        },
        PlanParseError::BadHeadingId { line, source } => {
            text::parts_are_held(
                Seq::<char>::empty(),
                "plan.md heading on line "@ + text::decimal(line as nat),
                " has invalid phase id: "@ + id::id_fault_message(source@),
                plan_message(e),
            );
            text::parts_are_held(
                "plan.md heading on line "@ + text::decimal(line as nat),
                " has invalid phase id: "@ + id::id_fault_message(source@),
                Seq::<char>::empty(),
                plan_message(e),
            );
        },
        PlanParseError::DuplicatePhaseId(name) => {
            text::parts_are_held(
                "plan.md contains duplicate phase id "@,
                text::debug_text(name@),
                Seq::<char>::empty(),
                plan_message(e),
            );
        },
        _ => {},
    }
}

impl PlanParseError {
    /// The message of the error.
    pub fn message(&self) -> (r: String)
        ensures
            r@ == plan_message(*self),
    {
        match self {
            PlanParseError::MissingFrontmatter => text::owned("plan.md is missing a YAML frontmatter (expected ---\\n…\\n---\\n)"),
            PlanParseError::BadFrontmatter(message) => {
                let mut out = text::owned("plan.md frontmatter is invalid: ");
                out.append(message.as_str());
                out
            },
            PlanParseError::BadCurrentPhase(source) => {
                let mut out = text::owned("plan.md current_phase is not a valid phase id: ");
                out.append(source.message().as_str());
                out
            },
            PlanParseError::UnknownCurrentPhase(name) => {
                let mut out = text::owned("plan.md current_phase ");
                out.append(text::quoted(name.as_str()).as_str());
                out.append(" does not match any # Phase heading");
                out
            },
            PlanParseError::NoPhases => text::owned("plan.md contains no # Phase NN: headings"),
            PlanParseError::BadHeading { line, raw } => {
                let mut out = text::owned("plan.md heading on line ");
                out.append(text::decimal_usize(*line).as_str());
                out.append(" is malformed: ");
                out.append(text::quoted(raw.as_str()).as_str());
                out.append(" (expected `# Phase <id>: <title>`)");
                out
            },
            PlanParseError::BadHeadingId { line, source } => {
                let mut out = text::owned("plan.md heading on line ");
                out.append(text::decimal_usize(*line).as_str());
                out.append(" has invalid phase id: ");
                out.append(source.message().as_str());
                out
            },
            PlanParseError::DuplicatePhaseId(name) => {
                let mut out = text::owned("plan.md contains duplicate phase id ");
                out.append(text::quoted(name.as_str()).as_str());
                out
            },
        }
    }
}

impl View for PlanParseError {
    type V = PlanFault;

    open spec fn view(&self) -> PlanFault {
        match *self {
            PlanParseError::MissingFrontmatter => PlanFault::MissingFrontmatter,
            PlanParseError::BadFrontmatter(s) => PlanFault::BadFrontmatter(s@),
            PlanParseError::BadCurrentPhase(e) => PlanFault::BadCurrentPhase(e@),
            PlanParseError::UnknownCurrentPhase(s) => PlanFault::UnknownCurrentPhase(s@),
            PlanParseError::NoPhases => PlanFault::NoPhases,
            PlanParseError::BadHeading { line, raw } => PlanFault::BadHeading {
                line: line as nat,
                raw: raw@,
            },
            PlanParseError::BadHeadingId { line, source } => PlanFault::BadHeadingId {
                line: line as nat,
                source: source@,
            },
            PlanParseError::DuplicatePhaseId(s) => PlanFault::DuplicatePhaseId(s@),
        }
    }
}

// ---------------------------------------------------------------------------
// Line endings and fences
// ---------------------------------------------------------------------------

/// The line that opens and closes the frontmatter.
pub const FENCE: &'static str = "---\n";

/// `s` with each carriage return that is followed by a newline left out.
pub open spec fn with_lf(s: Seq<char>) -> Seq<char> {
    text::replace(s, "\r\n"@, "\n"@)
}

/// A fence line begins at index `k` of `s`.
pub open spec fn fence_at(s: Seq<char>, k: int) -> bool {
    text::occurs_at(s, FENCE@, k) && (k == 0 || s[k - 1] == '\n')
}

/// The least index at or after `from` at which a fence line begins.
pub open spec fn fence_from(s: Seq<char>, from: int) -> Option<int>
    decreases s.len() - from,
{
    if from >= s.len() {
        None
    } else if fence_at(s, from) {
        Some(from)
    } else {
        fence_from(s, from + 1)
    }
}

/// The frontmatter and the body of a document, if it has both fences.
pub open spec fn document_parts(s: Seq<char>) -> Option<(Seq<char>, Seq<char>)> {
    if !text::occurs_at(s, FENCE@, 0) {
        None
    } else {
        let after = s.skip(FENCE@.len() as int);
        match fence_from(after, 0) {
            Some(k) => Some((after.take(k), after.skip(k + FENCE@.len()))),
            None => None,
        }
    }
}

pub proof fn fence_from_bounds(s: Seq<char>, from: int)
    requires
        0 <= from,
    ensures
        match fence_from(s, from) {
            Some(k) => {
                &&& from <= k
                &&& fence_at(s, k)
                &&& forall|j: int| from <= j < k ==> !fence_at(s, j)
            },
            None => forall|j: int| from <= j ==> !fence_at(s, j),
        },
    decreases s.len() - from,
{
    reveal_strlit("---\n");
    if from < s.len() && !fence_at(s, from) {
        fence_from_bounds(s, from + 1);
    }
}

/// Where the closing fence begins in the text that follows the opening one.
/// Empty frontmatter is permitted.
pub fn find_closing_fence(after_open: &str) -> (r: Option<usize>)
    ensures
        match r {
            Some(k) => fence_from(after_open@, 0) == Some(k as int),
            None => fence_from(after_open@, 0) is None,
        },
{
    let v = text::chars_of(after_open);
    closing_fence(v.as_slice(), 0)
}

fn closing_fence(v: &[char], from: usize) -> (r: Option<usize>)
    ensures
        match r {
            Some(k) => fence_from(v@, from as int) == Some(k as int),
            None => fence_from(v@, from as int) is None,
        },
{
    let fence = text::chars_of(FENCE);
    let n: usize = v.len();
    let mut i: usize = from;
    while i < n
        invariant
            from <= i,
            n == v@.len(),
            fence@ == FENCE@,
            fence_from(v@, from as int) == fence_from(v@, i as int),
        decreases n - i,
    {
        if text::occurs(v, fence.as_slice(), i) && (i == 0 || v[i - 1] == '\n') {
            return Some(i);
        }
        i = i + 1;
    }
    None
}

/// Normalizes CRLF line endings to LF and splits a document at its fences into
/// the raw frontmatter and the body.
pub fn split_document(input: &str) -> (r: Option<(String, String)>)
    ensures
        match r {
            Some((frontmatter, body)) => {
                &&& document_parts(with_lf(input@)) == Some((frontmatter@, body@))
                &&& frontmatter@.len() + body@.len() + 8 <= usize::MAX
            },
            None => document_parts(with_lf(input@)) is None,
        },
{
    proof {
        reveal_strlit("\r\n");
        reveal_strlit("---\n");
    }
    let normalized = text::replaced(input, "\r\n", "\n");
    let v = text::chars_of(normalized.as_str());
    let n: usize = v.len();
    let fence = text::chars_of(FENCE);
    if !text::occurs(v.as_slice(), fence.as_slice(), 0) {
        return None;
    }
    let after = text::slice(v.as_slice(), 4, n);
    assert(after@ =~= v@.skip(4));
    match find_closing_fence(after.as_str()) {
        None => None,
        Some(k) => {
            proof {
                fence_from_bounds(after@, 0);
            }
            let frontmatter = text::slice(v.as_slice(), 4, 4 + k);
            let body = text::slice(v.as_slice(), 4 + k + 4, n);
            assert(frontmatter@ =~= after@.take(k as int));
            assert(body@ =~= after@.skip(k + 4));
            Some((frontmatter, body))
        },
    }
}

// ---------------------------------------------------------------------------
// Frontmatter
// ---------------------------------------------------------------------------

/// What `serde_yaml` reads from a text: the message of its error, or the
/// entries of the top-level mapping in document order where the value is one,
/// each key and each value as its text where it is a string.
pub uninterp spec fn yaml_mapping(raw: Seq<char>) -> Result<
    Option<Seq<(Option<Seq<char>>, Option<Seq<char>>)>>,
    Seq<char>,
>;

/// The views of the entries of a mapping.
pub open spec fn entry_views(entries: Seq<(Option<String>, Option<String>)>) -> Seq<
    (Option<Seq<char>>, Option<Seq<char>>),
> {
    entries.map_values(
        |e: (Option<String>, Option<String>)| (text::view_of(e.0), text::view_of(e.1)),
    )
}

/// The view of what was read from a frontmatter.
pub open spec fn mapping_view(
    m: Result<Option<Vec<(Option<String>, Option<String>)>>, String>,
) -> Result<Option<Seq<(Option<Seq<char>>, Option<Seq<char>>)>>, Seq<char>> {
    match m {
        Ok(Some(entries)) => Ok(Some(entry_views(entries@))),
        Ok(None) => Ok(None),
        Err(e) => Err(e@),
    }
}

/// The mapping with the one key `current_phase` and the value `id`.
pub open spec fn pointer_mapping(id: Seq<char>) -> Seq<(Option<Seq<char>>, Option<Seq<char>>)> {
    seq![(Some("current_phase"@), Some(id))]
}

/// Where `raw` is nothing but the pointer line of a phase id, `m` is the mapping
/// that the line writes.
pub open spec fn reads_pointer(
    raw: Seq<char>,
    m: Result<Option<Seq<(Option<Seq<char>>, Option<Seq<char>>)>>, Seq<char>>,
) -> bool {
    forall|id: Seq<char>|
        raw == #[trigger] super::pointer_line(id) + "\n"@ && id::is_phase_id(id) ==> (m matches Ok(
            Some(entries),
        ) && entries == pointer_mapping(id))
}

/// `serde_yaml::from_str` into a `Value`, then `Value::as_mapping` and
/// `Value::as_str` on each entry. The result is a function of the text alone;
/// the YAML grammar itself is not stated, but for one line: a double-quoted
/// phase id, which has no character that YAML escapes, is read as the string
/// between the quotes.
#[verifier::external_body]
fn read_yaml_mapping(raw: &str) -> (r: Result<
    Option<Vec<(Option<String>, Option<String>)>>,
    String,
>)
    ensures
        mapping_view(r) == yaml_mapping(raw@),
        reads_pointer(raw@, mapping_view(r)),
{
    match serde_yaml::from_str::<serde_yaml::Value>(raw) {
        Ok(value) => Ok(value.as_mapping().map(|m| {
            m.iter()
                .map(|(k, v)| (k.as_str().map(String::from), v.as_str().map(String::from)))
                .collect()
        })),
        Err(e) => Err(e.to_string()),
    }
}

/// The pointer that the entries from index `i` on name, when `found` is the
/// one that the entries before name.
pub open spec fn pointer_of(
    entries: Seq<(Option<Seq<char>>, Option<Seq<char>>)>,
    i: int,
    found: Option<Seq<char>>,
) -> Result<Seq<char>, Seq<char>>
    decreases entries.len() - i,
{
    if i >= entries.len() {
        match found {
            Some(id) => Ok(id),
            None => Err("frontmatter is missing current_phase"@),
        }
    } else {
        match entries[i].0 {
            None => Err("frontmatter keys must be strings"@),
            Some(key) => if key == "current_phase"@ {
                match entries[i].1 {
                    None => Err("current_phase must be a string"@),
                    Some(id) => pointer_of(entries, i + 1, Some(id)),
                }
            } else {
                pointer_of(entries, i + 1, found)
            },
        }
    }
}

/// The pointer that a frontmatter names, or what is wrong with it.
pub open spec fn frontmatter_pointer(
    m: Result<Option<Seq<(Option<Seq<char>>, Option<Seq<char>>)>>, Seq<char>>,
) -> Result<Seq<char>, Seq<char>> {
    match m {
        Err(e) => Err("invalid YAML: "@ + e),
        Ok(None) => Err("frontmatter must be a YAML mapping"@),
        Ok(Some(entries)) => pointer_of(entries, 0, None),
    }
}

/// The pointer of a frontmatter is the value of its last `current_phase` entry.
/// There is one exactly where every key is a string, such an entry is there, and
/// the value of each such entry is a string.
pub proof fn the_last_current_phase_counts(
    entries: Seq<(Option<Seq<char>>, Option<Seq<char>>)>,
)
    ensures
        ({
            let key = Some("current_phase"@);
            match frontmatter_pointer(Ok(Some(entries))) {
                Ok(id) => {
                    &&& forall|i: int| 0 <= i < entries.len() ==> (#[trigger] entries[i]).0 is Some
                    &&& exists|i: int|
                        0 <= i < entries.len() && #[trigger] entries[i] == (key, Some(id))
                            && forall|j: int|
                            i < j < entries.len() ==> (#[trigger] entries[j]).0 != key
                },
                Err(_) => {
                    ||| exists|i: int| 0 <= i < entries.len() && (#[trigger] entries[i]).0 is None
                    ||| exists|i: int|
                        0 <= i < entries.len() && (#[trigger] entries[i]).0 == key && entries[i].1
                            is None
                    ||| forall|i: int|
                        0 <= i < entries.len() ==> (#[trigger] entries[i]).0 != key
                },
            }
        }),
{
    pointer_from(entries, 0, None);
}

proof fn pointer_from(
    entries: Seq<(Option<Seq<char>>, Option<Seq<char>>)>,
    from: int,
    found: Option<Seq<char>>,
)
    requires
        0 <= from <= entries.len(),
    ensures
        ({
            let key = Some("current_phase"@);
            match pointer_of(entries, from, found) {
                Ok(id) => {
                    &&& forall|i: int|
                        from <= i < entries.len() ==> (#[trigger] entries[i]).0 is Some
                    &&& {
                        ||| exists|i: int|
                            from <= i < entries.len() && #[trigger] entries[i] == (key, Some(id))
                                && forall|j: int|
                                i < j < entries.len() ==> (#[trigger] entries[j]).0 != key
                        ||| found == Some(id) && forall|j: int|
                            from <= j < entries.len() ==> (#[trigger] entries[j]).0 != key
                    }
                },
                Err(_) => {
                    ||| exists|i: int|
                        from <= i < entries.len() && (#[trigger] entries[i]).0 is None
                    ||| exists|i: int|
                        from <= i < entries.len() && (#[trigger] entries[i]).0 == key
                            && entries[i].1 is None
                    ||| found is None && forall|i: int|
                        from <= i < entries.len() ==> (#[trigger] entries[i]).0 != key
                },
            }
        }),
    decreases entries.len() - from,
{
    if from < entries.len() {
        let key = Some("current_phase"@);
        if entries[from].0 is Some {
            if entries[from].0 == key {
                if entries[from].1 is Some {
                    pointer_from(entries, from + 1, entries[from].1);
                    if let Ok(id) = pointer_of(entries, from, found) {
                        if entries[from].1 == Some(id) {
                            assert(entries[from] == (key, Some(id)));
                        }
                    }
                }
            } else {
                pointer_from(entries, from + 1, found);
            }
        }
    }
}

/// Picks the `current_phase` value out of what was read from a frontmatter.
/// Keys other than `current_phase` are accepted and ignored.
pub fn parse_frontmatter(
    mapping: Result<Option<Vec<(Option<String>, Option<String>)>>, String>,
) -> (r: Result<String, PlanParseError>)
    ensures
        match (r, frontmatter_pointer(mapping_view(mapping))) {
            (Ok(id), Ok(wanted)) => id@ == wanted,
            (Err(e), Err(why)) => e@ == PlanFault::BadFrontmatter(why),
            _ => false,
        },
{
    let entries = match mapping {
        Err(e) => {
            let mut message = text::owned("invalid YAML: ");
            message.append(e.as_str());
            return Err(PlanParseError::BadFrontmatter(message));
        },
        Ok(None) => {
            return Err(
                PlanParseError::BadFrontmatter(text::owned("frontmatter must be a YAML mapping")),
            );
        },
        Ok(Some(entries)) => entries,
    };
    let ghost all = entry_views(entries@);
    let mut found: Option<String> = None;
    for i in 0..entries.len()
        invariant
            all == entry_views(entries@),
            frontmatter_pointer(mapping_view(mapping)) == pointer_of(all, 0, None),
            pointer_of(all, 0, None) == pointer_of(all, i as int, text::view_of(found)),
    {
        assert(all[i as int] == (text::view_of(entries@[i as int].0), text::view_of(entries@[i as int].1)));
        match &entries[i].0 {
            None => {
                return Err(
                    PlanParseError::BadFrontmatter(text::owned("frontmatter keys must be strings")),
                );
            },
            Some(key) => {
                if text::same(key.as_str(), "current_phase") {
                    match &entries[i].1 {
                        None => {
                            return Err(
                                PlanParseError::BadFrontmatter(
                                    text::owned("current_phase must be a string"),
                                ),
                            );
                        },
                        Some(id) => {
                            found = Some(id.clone());
                        },
                    }
                }
            },
        }
    }
    match found {
        Some(id) => Ok(id),
        None => Err(
            PlanParseError::BadFrontmatter(text::owned("frontmatter is missing current_phase")),
        ),
    }
}

// ---------------------------------------------------------------------------
// Headings and phases
// ---------------------------------------------------------------------------

/// What one line of the body is.
pub enum Line {
    /// No heading.
    Text,
    /// A `# Phase` line that cannot be split into `<id>: <title>`.
    Malformed,
    /// A `# Phase` line with an unparsable id.
    BadId(id::PhaseIdFault),
    /// A phase heading.
    Heading { id: Seq<char>, title: Seq<char> },
}

/// What `line`, given without its newline, is.
pub open spec fn line_kind(line: Seq<char>) -> Line {
    if !text::occurs_at(line, "# Phase "@, 0) {
        Line::Text
    } else {
        let rest = line.skip("# Phase "@.len() as int);
        match text::part_index(rest, ": "@, 0) {
            None => Line::Malformed,
            Some(k) => match id::id_fault(rest.take(k)) {
                Some(fault) => Line::BadId(fault),
                None => Line::Heading { id: rest.take(k), title: rest.skip(k + ": "@.len()) },
            },
        }
    }
}

/// The first line of `s` without its newline.
pub open spec fn first_line(s: Seq<char>) -> Seq<char> {
    s.take(text::next_index(s, '\n', 0))
}

/// What follows the first line of `s` and its newline.
pub open spec fn after_line(s: Seq<char>) -> Seq<char> {
    s.skip(text::line_end(s, 0))
}

/// Splits `s` into the text before its first heading and its phases. Line
/// numbers in errors count from `line`; the first offending heading is the one
/// reported.
pub open spec fn blocks(s: Seq<char>, line: nat) -> Result<
    (Seq<char>, Seq<PhaseModel>),
    PlanFault,
>
    decreases s.len(),
    via blocks_decreases
{
    if s.len() == 0 {
        Ok((Seq::empty(), Seq::empty()))
    } else {
        match line_kind(first_line(s)) {
            Line::Malformed => Err(PlanFault::BadHeading { line, raw: first_line(s) }),
            Line::BadId(source) => Err(PlanFault::BadHeadingId { line, source }),
            Line::Text => match blocks(after_line(s), line + 1) {
                Err(e) => Err(e),
                Ok((lead, phases)) => Ok((s.take(text::line_end(s, 0)) + lead, phases)),
            },
            Line::Heading { id, title } => match blocks(after_line(s), line + 1) {
                Err(e) => Err(e),
                Ok((lead, phases)) => Ok(
                    (Seq::empty(), seq![PhaseModel { id, title, body: lead }] + phases),
                ),
            },
        }
    }
}

#[via_fn]
proof fn blocks_decreases(s: Seq<char>, line: nat) {
    text::next_index_bounds(s, '\n', 0);
}

/// The preamble and the phases of a body, of which there must be at least one.
pub open spec fn body_parts(s: Seq<char>, line: nat) -> Result<
    (Seq<char>, Seq<PhaseModel>),
    PlanFault,
> {
    match blocks(s, line) {
        Err(e) => Err(e),
        Ok((lead, phases)) => if phases.len() == 0 {
            Err(PlanFault::NoPhases)
        } else {
            Ok((lead, phases))
        },
    }
}

/// How many newlines `s` holds.
pub open spec fn newlines(s: Seq<char>) -> nat
    decreases s.len(),
{
    if s.len() == 0 {
        0
    } else {
        newlines(s.drop_last()) + if s.last() == '\n' {
            1nat
        } else {
            0nat
        }
    }
}

/// What has been split so far, `head` being the heading that `text` follows,
/// completed by the split of the rest.
pub open spec fn completed(
    lead: Seq<char>,
    done: Seq<PhaseModel>,
    head: Option<(Seq<char>, Seq<char>)>,
    text: Seq<char>,
    rest: Result<(Seq<char>, Seq<PhaseModel>), PlanFault>,
) -> Result<(Seq<char>, Seq<PhaseModel>), PlanFault> {
    match rest {
        Err(e) => Err(e),
        Ok((more, phases)) => match head {
            None => Ok((text + more, phases)),
            Some((id, title)) => Ok(
                (lead, done.push(PhaseModel { id, title, body: text + more }) + phases),
            ),
        },
    }
}

/// Reads a heading line, given without its newline: `None` where it is no
/// heading, else its id and title, or the error for it on line `line`.
pub fn read_heading(raw: &str, line: usize) -> (r: Result<
    Option<(PhaseId, String)>,
    PlanParseError,
>)
    ensures
        match (line_kind(raw@), r) {
            (Line::Text, Ok(None)) => true,
            (Line::Malformed, Err(e)) => e@ == (PlanFault::BadHeading {
                line: line as nat,
                raw: raw@,
            }),
            (Line::BadId(source), Err(e)) => e@ == (PlanFault::BadHeadingId {
                line: line as nat,
                source,
            }),
            (Line::Heading { id, title }, Ok(Some((i, t)))) => i@ == id && t@ == title,
            _ => false,
        },
{
    proof {
        reveal_strlit("# Phase ");
        reveal_strlit(": ");
    }
    let v = text::chars_of(raw);
    let n: usize = v.len();
    let mark = text::chars_of("# Phase ");
    if !text::occurs(v.as_slice(), mark.as_slice(), 0) {
        return Ok(None);
    }
    let rest = text::slice(v.as_slice(), 8, n);
    assert(rest@ =~= raw@.skip(8));
    let w = text::chars_of(rest.as_str());
    let colon = text::chars_of(": ");
    match text::find_part(w.as_slice(), colon.as_slice(), 0) {
        None => Err(PlanParseError::BadHeading { line, raw: text::owned(raw) }),
        Some(k) => {
            let name = text::slice(w.as_slice(), 0, k);
            let title = text::slice(w.as_slice(), k + 2, w.len());
            assert(name@ =~= rest@.take(k as int));
            assert(title@ =~= rest@.skip(k + 2));
            match PhaseId::parse(name.as_str()) {
                Ok(id) => Ok(Some((id, title))),
                Err(source) => Err(PlanParseError::BadHeadingId { line, source }),
            }
        },
    }
}

/// The view of a heading.
pub open spec fn head_view(h: Option<(PhaseId, String)>) -> Option<(Seq<char>, Seq<char>)> {
    match h {
        Some((id, title)) => Some((id@, title@)),
        None => None,
    }
}

/// Splits a body into its preamble and its phases. `first` is the number of
/// its first line in the document.
pub fn split_phases(body: &str, first: usize) -> (r: Result<(String, Vec<Phase>), PlanParseError>)
    requires
        first + body@.len() <= usize::MAX,
    ensures
        match (r, body_parts(body@, first as nat)) {
            (Ok((preamble, phases)), Ok(wanted)) => {
                &&& preamble@ == wanted.0
                &&& super::phase_models(phases@) == wanted.1
            },
            (Err(e), Err(fault)) => e@ == fault,
            _ => false,
        },
{
    let v = text::chars_of(body);
    let n: usize = v.len();
    let mut preamble = String::new();
    let mut phases: Vec<Phase> = Vec::new();
    let mut head: Option<(PhaseId, String)> = None;
    let mut gathered = String::new();
    let mut line: usize = first;
    let mut i: usize = 0;
    proof {
        assert(body@.skip(0) =~= body@);
        match blocks(body@, first as nat) {
            Ok((more, _)) => assert(gathered@ + more =~= more),
            Err(_) => {},
        }
    }
    while i < n
        invariant
            n == v@.len(),
            v@ == body@,
            i <= n,
            first + n <= usize::MAX,
            first <= line <= first + i,
            head is None ==> phases@.len() == 0,
            blocks(body@, first as nat) == completed(
                preamble@,
                super::phase_models(phases@),
                head_view(head),
                gathered@,
                blocks(body@.skip(i as int), line as nat),
            ),
        decreases n - i,
    {
        let ghost here = body@.skip(i as int);
        let ghost rest = blocks(after_line(here), (line + 1) as nat);
        let ghost was_done = super::phase_models(phases@);
        let ghost was_gathered = gathered@;
        let k = text::find_from(v.as_slice(), '\n', i);
        let next: usize = if k < n {
            k + 1
        } else {
            n
        };
        let raw = text::slice(v.as_slice(), i, k);
        proof {
            text::next_index_skip(body@, '\n', i as int);
            assert(raw@ =~= first_line(here));
            assert(after_line(here) =~= body@.skip(next as int));
        }
        match read_heading(raw.as_str(), line) {
            Err(e) => {
                return Err(e);
            },
            Ok(None) => {
                text::push_slice(&mut gathered, v.as_slice(), i, next);
                proof {
                    let lead = here.take(text::line_end(here, 0));
                    assert(lead =~= body@.subrange(i as int, next as int));
                    match rest {
                        Ok((more, _)) => assert(was_gathered + (lead + more) =~= gathered@ + more),
                        Err(_) => {},
                    }
                }
            },
            Ok(Some((id, title))) => {
                match head {
                    None => {
                        preamble = gathered;
                    },
                    Some((old_id, old_title)) => {
                        let p = Phase { id: old_id, title: old_title, body: gathered };
                        proof {
                            assert(super::phase_models(phases@.push(p)) =~= was_done.push(p@));
                        }
                        phases.push(p);
                    },
                }
                proof {
                    let one = PhaseModel { id: id@, title: title@, body: Seq::<char>::empty() };
                    match rest {
                        Ok((more, later)) => {
                            let found = PhaseModel { id: id@, title: title@, body: more };
                            assert(was_gathered + Seq::<char>::empty() =~= was_gathered);
                            assert(Seq::<char>::empty() + more =~= more);
                            assert(super::phase_models(phases@) + (seq![found]
                                + later) =~= super::phase_models(
                                phases@,
                            ).push(found) + later);
                        },
                        Err(_) => {},
                    }
                }
                head = Some((id, title));
                gathered = String::new();
            },
        }
        line = line + 1;
        i = next;
    }
    proof {
        assert(body@.skip(n as int) =~= Seq::<char>::empty());
        assert(gathered@ + Seq::<char>::empty() =~= gathered@);
    }
    match head {
        None => Err(PlanParseError::NoPhases),
        Some((id, title)) => {
            let ghost done = super::phase_models(phases@);
            let p = Phase { id, title, body: gathered };
            phases.push(p);
            proof {
                assert(super::phase_models(phases@) =~= done.push(p@));
                assert(done.push(p@) + Seq::<PhaseModel>::empty() =~= done.push(p@));
            }
            Ok((preamble, phases))
        },
    }
}

// ---------------------------------------------------------------------------
// Whole documents
// ---------------------------------------------------------------------------

/// The phase at index `i` repeats the identifier of an earlier one.
pub open spec fn repeats(phases: Seq<PhaseModel>, i: int) -> bool {
    exists|j: int| 0 <= j < i && (#[trigger] phases[j]).id == phases[i].id
}

/// The first index at or after `from` whose phase repeats an identifier.
pub open spec fn first_repeat(phases: Seq<PhaseModel>, from: int) -> Option<int>
    decreases phases.len() - from,
{
    if from >= phases.len() {
        None
    } else if repeats(phases, from) {
        Some(from)
    } else {
        first_repeat(phases, from + 1)
    }
}

/// A phase of `phases` has the identifier `id`.
pub open spec fn has_phase(phases: Seq<PhaseModel>, id: Seq<char>) -> bool {
    exists|j: int| 0 <= j < phases.len() && (#[trigger] phases[j]).id == id
}

/// The plan that a frontmatter and a body make, `mapping` being what was read
/// from the frontmatter. The faults are looked for in this order.
pub open spec fn assembled(
    frontmatter: Seq<char>,
    body: Seq<char>,
    mapping: Result<Option<Seq<(Option<Seq<char>>, Option<Seq<char>>)>>, Seq<char>>,
) -> Result<PlanModel, PlanFault> {
    match frontmatter_pointer(mapping) {
        Err(why) => Err(PlanFault::BadFrontmatter(why)),
        Ok(current) => match id::id_fault(current) {
            Some(fault) => Err(PlanFault::BadCurrentPhase(fault)),
            None => match body_parts(body, newlines(frontmatter) + 3) {
                Err(fault) => Err(fault),
                Ok((preamble, phases)) => match first_repeat(phases, 0) {
                    Some(i) => Err(PlanFault::DuplicatePhaseId(phases[i].id)),
                    None => if has_phase(phases, current) {
                        Ok(
                            PlanModel {
                                current_phase: current,
                                frontmatter: text::trim_end_char(frontmatter, '\n'),
                                preamble,
                                phases,
                            },
                        )
                    } else {
                        Err(PlanFault::UnknownCurrentPhase(current))
                    },
                },
            },
        },
    }
}

/// What [`parse`] makes of a text.
pub open spec fn parsed(input: Seq<char>) -> Result<PlanModel, PlanFault> {
    match document_parts(with_lf(input)) {
        None => Err(PlanFault::MissingFrontmatter),
        Some((frontmatter, body)) => assembled(frontmatter, body, yaml_mapping(frontmatter)),
    }
}

/// A plan that was read is sound: it has a phase, no two of its phases have one
/// id, it points to one of them, and every id is a phase id.
pub proof fn plans_that_are_read_are_sound(input: Seq<char>, plan: PlanModel, i: int, j: int)
    requires
        parsed(input) == Ok::<PlanModel, PlanFault>(plan),
    ensures
        plan.phases.len() > 0,
        0 <= i < j < plan.phases.len() ==> plan.phases[i].id != plan.phases[j].id,
        exists|k: int|
            0 <= k < plan.phases.len() && (#[trigger] plan.phases[k]).id == plan.current_phase,
        id::is_phase_id(plan.current_phase),
        0 <= i < plan.phases.len() ==> id::is_phase_id(plan.phases[i].id),
{
    let (frontmatter, body) = document_parts(with_lf(input))->0;
    no_repeat_is_distinct(plan.phases, 0);
    if 0 <= i < j < plan.phases.len() {
        assert(!repeats(plan.phases, j));
    }
    headings_hold_ids(body, newlines(frontmatter) + 3);
}

proof fn no_repeat_is_distinct(phases: Seq<PhaseModel>, from: int)
    requires
        0 <= from <= phases.len(),
        first_repeat(phases, from) is None,
    ensures
        forall|k: int| from <= k < phases.len() ==> !repeats(phases, k),
    decreases phases.len() - from,
{
    if from < phases.len() {
        no_repeat_is_distinct(phases, from + 1);
    }
}

proof fn headings_hold_ids(s: Seq<char>, line: nat)
    ensures
        blocks(s, line) matches Ok((lead, phases)) ==> forall|i: int|
            0 <= i < phases.len() ==> id::is_phase_id((#[trigger] phases[i]).id),
    decreases s.len(),
{
    if s.len() > 0 {
        text::next_index_bounds(s, '\n', 0);
        headings_hold_ids(after_line(s), line + 1);
        if let Ok((lead, phases)) = blocks(s, line) {
            if let Line::Heading { id, title } = line_kind(first_line(s)) {
                let (more, rest) = blocks(after_line(s), line + 1)->Ok_0;
                assert(phases =~= seq![PhaseModel { id, title, body: more }] + rest);
                assert forall|i: int| 0 <= i < phases.len() implies id::is_phase_id(
                    (#[trigger] phases[i]).id,
                ) by {
                    if i > 0 {
                        assert(phases[i] == rest[i - 1]);
                    }
                }
            }
        }
    }
}

/// What a line of the body is. Only a line that starts with `# Phase ` can be a
/// heading. One whose rest has no `: ` is malformed. Else what stands before the
/// first `: ` is its id, and everything behind it is its title.
pub proof fn headings_split_at_the_first_colon(
    line: Seq<char>,
    name: Seq<char>,
    title: Seq<char>,
)
    ensures
        !text::occurs_at(line, "# Phase "@, 0) ==> line_kind(line) is Text,
        !text::contains(name, ": "@) ==> line_kind("# Phase "@ + name) is Malformed,
        id::is_phase_id(name) ==> line_kind("# Phase "@ + name + ": "@ + title) == (Line::Heading {
            id: name,
            title,
        }),
{
    reveal_strlit("# Phase ");
    reveal_strlit(": ");
    let (mark, colon) = ("# Phase "@, ": "@);
    let a = mark + name;
    assert(a.subrange(0, 8) =~= mark);
    assert(a.skip(8) =~= name);
    text::part_index_bounds(name, colon, 0);
    if id::is_phase_id(name) {
        let b = mark + name + colon + title;
        let rest = name + colon + title;
        assert(b.subrange(0, 8) =~= mark);
        assert(b.skip(8) =~= rest);
        super::round_trip::id_holds_no_colon(name);
        let n = name.len() as int;
        assert(rest.subrange(n, n + 2) =~= colon);
        assert forall|j: int| 0 <= j < n implies !text::occurs_at(rest, colon, j) by {
            if text::occurs_at(rest, colon, j) {
                assert(rest.subrange(j, j + 2)[0] == colon[0]);
                assert(rest[j] == name[j]);
            }
        }
        text::part_index_unique(rest, colon, 0, n);
        assert(rest.take(n) =~= name);
        assert(rest.skip(n + 2) =~= title);
    }
}

/// The text of one phase block.
pub open spec fn block_text(p: PhaseModel) -> Seq<char> {
    "# Phase "@ + p.id + ": "@ + p.title + "\n"@ + p.body
}

/// The texts of `phases`, one after the other.
pub open spec fn blocks_text(phases: Seq<PhaseModel>) -> Seq<char>
    decreases phases.len(),
{
    if phases.len() == 0 {
        Seq::empty()
    } else {
        block_text(phases[0]) + blocks_text(phases.skip(1))
    }
}

/// `s`, ended by a newline.
pub open spec fn ended(s: Seq<char>) -> Seq<char> {
    if s.len() > 0 && s.last() == '\n' {
        s
    } else {
        s + "\n"@
    }
}

/// The text of a plan.
pub open spec fn document(plan: PlanModel) -> Seq<char> {
    FENCE@ + ended(plan.frontmatter) + FENCE@ + plan.preamble + blocks_text(plan.phases)
}

fn count_newlines(s: &str) -> (r: usize)
    ensures
        r == newlines(s@),
        r <= s@.len(),
{
    let v = text::chars_of(s);
    let mut n: usize = 0;
    for i in 0..v.len()
        invariant
            v@ == s@,
            n == newlines(s@.take(i as int)),
            n <= i,
    {
        assert(s@.take(i + 1).drop_last() =~= s@.take(i as int));
        if v[i] == '\n' {
            n = n + 1;
        }
    }
    assert(s@.take(s@.len() as int) =~= s@);
    n
}

/// The first phase that repeats the identifier of an earlier one.
fn find_repeat(phases: &Vec<Phase>) -> (r: Option<usize>)
    ensures
        match r {
            Some(i) => first_repeat(super::phase_models(phases@), 0) == Some(i as int) && i
                < phases@.len(),
            None => first_repeat(super::phase_models(phases@), 0) is None,
        },
{
    let ghost models = super::phase_models(phases@);
    for i in 0..phases.len()
        invariant
            models == super::phase_models(phases@),
            first_repeat(models, 0) == first_repeat(models, i as int),
    {
        for j in 0..i
            invariant
                i < phases@.len(),
                models == super::phase_models(phases@),
                first_repeat(models, 0) == first_repeat(models, i as int),
                forall|k: int| 0 <= k < j ==> (#[trigger] models[k]).id != models[i as int].id,
        {
            if phases[i].id.same(&phases[j].id) {
                assert(models[j as int].id == models[i as int].id);
                return Some(i);
            }
        }
    }
    None
}

/// Builds the plan out of a raw frontmatter, what was read from it, and a body.
pub fn assemble(
    frontmatter: &str,
    body: &str,
    mapping: Result<Option<Vec<(Option<String>, Option<String>)>>, String>,
) -> (r: Result<Plan, PlanParseError>)
    requires
        frontmatter@.len() + body@.len() + 3 <= usize::MAX,
    ensures
        match (r, assembled(frontmatter@, body@, mapping_view(mapping))) {
            (Ok(plan), Ok(wanted)) => plan@ == wanted,
            (Err(e), Err(fault)) => e@ == fault,
            _ => false,
        },
{
    let pointer = match parse_frontmatter(mapping) {
        Ok(pointer) => pointer,
        Err(e) => {
            return Err(e);
        },
    };
    let current_phase = match PhaseId::parse(pointer.as_str()) {
        Ok(id) => id,
        Err(e) => {
            return Err(PlanParseError::BadCurrentPhase(e));
        },
    };
    let first: usize = count_newlines(frontmatter) + 3;
    let (preamble, phases) = match split_phases(body, first) {
        Ok(parts) => parts,
        Err(e) => {
            return Err(e);
        },
    };
    let ghost models = super::phase_models(phases@);
    match find_repeat(&phases) {
        Some(i) => {
            return Err(PlanParseError::DuplicatePhaseId(text::owned(phases[i].id.as_str())));
        },
        None => {},
    }
    let mut known: bool = false;
    for i in 0..phases.len()
        invariant
            models == super::phase_models(phases@),
            known == exists|j: int| 0 <= j < i && (#[trigger] models[j]).id == current_phase@,
    {
        if phases[i].id.same(&current_phase) {
            known = true;
            assert(models[i as int].id == current_phase@);
        } else {
            assert(models[i as int].id != current_phase@);
        }
    }
    if !known {
        return Err(PlanParseError::UnknownCurrentPhase(text::owned(current_phase.as_str())));
    }
    let frontmatter = text::without_trailing(frontmatter, '\n');
    Ok(Plan { current_phase, frontmatter, preamble, phases })
}

/// Parse `plan.md` content into a [`Plan`].
///
/// CRLF line endings are normalized to LF before parsing. Unknown frontmatter
/// keys (anything other than `current_phase`) are accepted so we don't break on
/// benign user additions.
///
/// A plan that [`Plan::new`] made and [`serialize`] wrote is read back as it
/// was.
pub fn parse(input: &str) -> (r: Result<Plan, PlanParseError>)
    ensures
        match (r, parsed(input@)) {
            (Ok(plan), Ok(wanted)) => plan@ == wanted,
            (Err(e), Err(fault)) => e@ == fault,
            _ => false,
        },
        forall|current: Seq<char>, phases: Seq<Phase>|
            input@ == document(#[trigger] new_plan::new_plan(current, phases))
                && new_plan::writable(current, phases) ==> (r matches Ok(plan) && plan@
                == new_plan::new_plan(current, phases)),
{
    match split_document(input) {
        None => {
            proof {
                assert forall|current: Seq<char>, phases: Seq<Phase>|
                    input@ == document(#[trigger] new_plan::new_plan(current, phases)) implies
                    !new_plan::writable(current, phases) by {
                    if new_plan::writable(current, phases) {
                        new_plan::new_plan_is_canonical(current, phases);
                    }
                }
            }
            Err(PlanParseError::MissingFrontmatter)
        },
        Some((frontmatter, body)) => {
            let mapping = read_yaml_mapping(frontmatter.as_str());
            proof {
                assert forall|current: Seq<char>, phases: Seq<Phase>|
                    input@ == document(#[trigger] new_plan::new_plan(current, phases))
                        && new_plan::writable(current, phases) implies parsed(input@) == Ok::<
                    PlanModel,
                    PlanFault,
                >(new_plan::new_plan(current, phases)) by {
                    new_plan::new_plan_is_canonical(current, phases);
                    assert(frontmatter@ == super::pointer_line(current) + "\n"@);
                    let entries = pointer_mapping(current);
                    assert(pointer_of(entries, 0, None) == pointer_of(entries, 1, Some(current)));
                    new_plan::new_plan_reads_back(current, phases);
                }
            }
            assemble(frontmatter.as_str(), body.as_str(), mapping)
        },
    }
}

/// Serialize a [`Plan`] back to `plan.md` text. Always emits LF line endings.
pub fn serialize(plan: &Plan) -> (r: String)
    ensures
        r@ == document(plan@),
{
    proof {
        reveal_strlit("\n");
    }
    let mut out = text::owned(FENCE);
    out.append(plan.frontmatter.as_str());
    let v = text::chars_of(plan.frontmatter.as_str());
    if v.len() == 0 || v[v.len() - 1] != '\n' {
        out.append("\n");
    }
    assert(out@ =~= FENCE@ + ended(plan.frontmatter@));
    out.append(FENCE);
    out.append(plan.preamble.as_str());
    let ghost models = super::phase_models(plan.phases@);
    let ghost whole = out@ + blocks_text(models);
    proof {
        assert(models.skip(0) =~= models);
    }
    for i in 0..plan.phases.len()
        invariant
            models == super::phase_models(plan.phases@),
            out@ + blocks_text(models.skip(i as int)) == whole,
    {
        let ghost before = out@;
        let p = &plan.phases[i];
        out.append("# Phase ");
        out.append(p.id.as_str());
        out.append(": ");
        out.append(p.title.as_str());
        out.append("\n");
        out.append(p.body.as_str());
        proof {
            let rest = models.skip(i as int);
            assert(rest[0] == p@);
            assert(rest.skip(1) =~= models.skip(i + 1));
            assert(out@ =~= before + block_text(p@));
            assert(out@ + blocks_text(models.skip(i + 1)) =~= before + blocks_text(rest));
        }
    }
    proof {
        assert(models.skip(models.len() as int) =~= Seq::<PhaseModel>::empty());
        assert(out@ + Seq::<char>::empty() =~= out@);
    }
    out
}

} // verus!
