//! Grind prompt files: YAML frontmatter + markdown body.
//!
//! A grind prompt is a user-authored markdown file. The frontmatter declares
//! how the prompt participates in a rotation (weight, cadence, run cap, time
//! and cost ceilings) and the body is the instruction text the agent receives.
//!
//! This is deliberately distinct from [`crate::prompts`], which holds the
//! built-in templates the runner feeds the agent. Those live in the binary;
//! these live on disk and are authored by the user.
//!
//! Reading a file takes three steps: [`open_prompt`] frames the document, the
//! caller decodes the frontmatter into a [`PromptMeta`], and [`finish_prompt`]
//! checks what came out.

use vstd::prelude::*;
use vstd::string::StringExecFns;

use crate::money::Usd;
use crate::plan::parse;
use crate::text;

verus! {

/// Where a [`PromptDoc`] was loaded from. Drives precedence in discovery
/// (override > project > global).
#[derive(Debug, Clone, Copy, PartialEq, Eq, Structural)]
pub enum PromptSource {
    /// `./.pitboss/grind/prompts/<name>.md` inside the current repo.
    Project,
    /// `~/.pitboss/grind/prompts/<name>.md` in the user's home directory.
    Global,
    /// Explicit `--prompts-dir <path>` override on the command line.
    Override,
}

/// Frontmatter metadata for a grind prompt.
///
/// Run-time invariants beyond what decoding can express live in
/// [`PromptMeta::validate`].
#[derive(Debug, PartialEq, Eq)]
pub struct PromptMeta {
    /// Stable identifier; matches `^[a-z0-9][a-z0-9_-]*$`. Used as the prompt's
    /// filename stem and as the key for plan overrides and run-count tracking.
    pub name: String,
    /// One-line human description. Surfaced in `pitboss prompts ls`.
    pub description: String,
    /// Relative weight for the rotation scheduler. Defaults to
    /// [`default_weight`] when omitted.
    pub weight: u32,
    /// Run once every N rotations. Defaults to [`default_every`].
    pub every: u32,
    /// Optional ceiling on the number of times this prompt is dispatched in a
    /// run. `None` means no cap.
    pub max_runs: Option<u32>,
    /// If `true`, the runner reuses the existing test/fixer cycle after this
    /// prompt's session.
    pub verify: bool,
    /// If `true`, multiple sessions of this prompt can run concurrently in
    /// separate worktrees.
    pub parallel_safe: bool,
    /// Free-form labels for filtering and reporting.
    pub tags: Vec<String>,
    /// Per-prompt wall-clock cap (seconds). `None` means inherit.
    pub max_session_seconds: Option<u64>,
    /// Per-prompt cost cap. `None` means inherit.
    pub max_session_cost_usd: Option<Usd>,
}

/// A parsed grind prompt: frontmatter + body + provenance.
#[derive(Debug, PartialEq, Eq)]
pub struct PromptDoc {
    /// Parsed and validated frontmatter.
    pub meta: PromptMeta,
    /// Markdown body following the closing `---` fence. Preserved verbatim,
    /// including any leading newline.
    pub body: String,
    /// Path the prompt was loaded from.
    pub source_path: String,
    /// Which discovery source produced this prompt.
    pub source_kind: PromptSource,
}

/// A [`PromptDoc`] as a mathematical value.
pub struct PromptModel {
    pub name: Seq<char>,
    pub description: Seq<char>,
    pub weight: u32,
    pub every: u32,
    pub max_runs: Option<u32>,
    pub verify: bool,
    pub parallel_safe: bool,
    pub tags: Seq<Seq<char>>,
    pub max_session_seconds: Option<u64>,
    pub max_session_cost_usd: Option<Usd>,
    pub body: Seq<char>,
    pub source_path: Seq<char>,
    pub source_kind: PromptSource,
}

impl View for PromptDoc {
    type V = PromptModel;

    open spec fn view(&self) -> PromptModel {
        PromptModel {
            name: self.meta.name@,
            description: self.meta.description@,
            weight: self.meta.weight,
            every: self.meta.every,
            max_runs: self.meta.max_runs,
            verify: self.meta.verify,
            parallel_safe: self.meta.parallel_safe,
            tags: text::views(self.meta.tags@),
            max_session_seconds: self.meta.max_session_seconds,
            max_session_cost_usd: self.meta.max_session_cost_usd,
            body: self.body@,
            source_path: self.source_path@,
            source_kind: self.source_kind,
        }
    }
}

/// Validation failures for [`PromptMeta::validate`].
#[derive(Debug, PartialEq, Eq)]
pub enum PromptMetaValidationError {
    /// `name` did not match `^[a-z0-9][a-z0-9_-]*$`.
    InvalidName(String),
    /// `weight` was zero.
    WeightTooSmall,
    /// `every` was zero.
    EveryTooSmall,
    /// `max_session_cost_usd` was negative.
    NegativeCost,
}

/// What a [`PromptMetaValidationError`] says, as a mathematical value.
pub enum MetaFault {
    InvalidName(Seq<char>),
    WeightTooSmall,
    EveryTooSmall,
    NegativeCost,
}

impl View for PromptMetaValidationError {
    type V = MetaFault;

    open spec fn view(&self) -> MetaFault {
        match *self {
            PromptMetaValidationError::InvalidName(s) => MetaFault::InvalidName(s@),
            PromptMetaValidationError::WeightTooSmall => MetaFault::WeightTooSmall,
            PromptMetaValidationError::EveryTooSmall => MetaFault::EveryTooSmall,
            PromptMetaValidationError::NegativeCost => MetaFault::NegativeCost,
        }
    }
}

/// Errors produced while a prompt file is read.
#[derive(Debug)]
pub enum PromptParseError {
    /// The file could not be read.
    Io {
        /// Display path of the offending file.
        path: String,
        /// What the operating system said.
        source: String,
    },
    /// No leading `---\n…\n---` block was found.
    MissingFrontmatter {
        /// Display path of the offending file.
        path: String,
    },
    /// `name` was missing from the frontmatter.
    MissingName {
        /// Display path of the offending file.
        path: String,
    },
    /// The same key appeared twice in the frontmatter.
    DuplicateField {
        /// Display path of the offending file.
        path: String,
        /// Name of the duplicated key.
        field: String,
    },
    /// The frontmatter parsed as YAML but did not match the expected shape, or
    /// YAML itself was malformed.
    BadFrontmatter {
        /// Display path of the offending file.
        path: String,
        /// One-line diagnostic.
        message: String,
    },
    /// A field passed YAML decoding but failed semantic validation.
    InvalidMeta {
        /// Display path of the offending file.
        path: String,
        /// Underlying validation error.
        source: PromptMetaValidationError,
    },
}

/// What a [`PromptParseError`] says, as a mathematical value. Two I/O errors on
/// one path count as the same.
pub enum PromptFault {
    Io { path: Seq<char> },
    MissingFrontmatter { path: Seq<char> },
    MissingName { path: Seq<char> },
    DuplicateField { path: Seq<char>, field: Seq<char> },
    BadFrontmatter { path: Seq<char>, message: Seq<char> },
    InvalidMeta { path: Seq<char>, source: MetaFault },
}

/// The message of a prompt parse error.
pub open spec fn prompt_message(e: PromptParseError) -> Seq<char> {
    match e {
        PromptParseError::Io { path, source } => "failed to read prompt file "@ + path@ + ": "@
            + source@,
        PromptParseError::MissingFrontmatter { path } => path@
            + ": missing YAML frontmatter (expected ---\\n…\\n---\\n)"@,
        PromptParseError::MissingName { path } => path@
            + ": frontmatter is missing required field `name`"@,
        PromptParseError::DuplicateField { path, field } => path@
            + ": duplicate frontmatter field `"@ + field@ + "`"@,
        PromptParseError::BadFrontmatter { path, message } => path@ + ": invalid frontmatter: "@
            + message@,
        PromptParseError::InvalidMeta { path, source } => path@ + ": invalid frontmatter: "@
            + meta_message(source@),
    }
}

impl PromptParseError {
    /// The message of the error.
    pub fn message(&self) -> (r: String)
        ensures
            r@ == prompt_message(*self),
    {
        match self {
            PromptParseError::Io { path, source } => {
                let mut out = text::owned("failed to read prompt file ");
                out.append(path.as_str());
                out.append(": ");
                out.append(source.as_str());
                out
            },
            PromptParseError::MissingFrontmatter { path } => {
                let mut out = text::owned(path.as_str());
                out.append(": missing YAML frontmatter (expected ---\\n…\\n---\\n)");
                out
            },
            PromptParseError::MissingName { path } => {
                let mut out = text::owned(path.as_str());
                out.append(": frontmatter is missing required field `name`");
                out
            },
            PromptParseError::DuplicateField { path, field } => {
                let mut out = text::owned(path.as_str());
                out.append(": duplicate frontmatter field `");
                out.append(field.as_str());
                out.append("`");
                out
            },
            PromptParseError::BadFrontmatter { path, message } => {
                let mut out = text::owned(path.as_str());
                out.append(": invalid frontmatter: ");
                out.append(message.as_str());
                out
            },
            PromptParseError::InvalidMeta { path, source } => {
                let mut out = text::owned(path.as_str());
                out.append(": invalid frontmatter: ");
                out.append(source.message().as_str());
                out
            },
        }
    }
}

impl View for PromptParseError {
    type V = PromptFault;

    open spec fn view(&self) -> PromptFault {
        match *self {
            PromptParseError::Io { path, .. } => PromptFault::Io { path: path@ },
            PromptParseError::MissingFrontmatter { path } => PromptFault::MissingFrontmatter {
                path: path@,
            },
            PromptParseError::MissingName { path } => PromptFault::MissingName { path: path@ },
            PromptParseError::DuplicateField { path, field } => PromptFault::DuplicateField {
                path: path@,
                field: field@,
            },
            PromptParseError::BadFrontmatter { path, message } => PromptFault::BadFrontmatter {
                path: path@,
                message: message@,
            },
            PromptParseError::InvalidMeta { path, source } => PromptFault::InvalidMeta {
                path: path@,
                source: source@,
            },
        }
    }
}

impl PromptMetaValidationError {
    /// Whether two validation failures are the same.
    pub fn same(&self, other: &Self) -> (r: bool)
        ensures
            r == (self@ == other@),
    {
        match (self, other) {
            (
                PromptMetaValidationError::InvalidName(a),
                PromptMetaValidationError::InvalidName(b),
            ) => text::same(a.as_str(), b.as_str()),
            (
                PromptMetaValidationError::WeightTooSmall,
                PromptMetaValidationError::WeightTooSmall,
            ) => true,
            (
                PromptMetaValidationError::EveryTooSmall,
                PromptMetaValidationError::EveryTooSmall,
            ) => true,
            (PromptMetaValidationError::NegativeCost, PromptMetaValidationError::NegativeCost) =>
            true,
            _ => false,
        }
    }

    /// The failure as a sentence.
    pub fn message(&self) -> (r: String)
        ensures
            r@ == meta_message(self@),
    {
        match self {
            PromptMetaValidationError::InvalidName(name) => {
                let mut out = text::owned("invalid name ");
                out.append(text::quoted(name.as_str()).as_str());
                out.append(": must match ^[a-z0-9][a-z0-9_-]*$");
                out
            },
            PromptMetaValidationError::WeightTooSmall => text::owned("weight must be >= 1"),
            PromptMetaValidationError::EveryTooSmall => text::owned("every must be >= 1"),
            PromptMetaValidationError::NegativeCost => text::owned(
                "max_session_cost_usd must be >= 0",
            ),
        }
    }
}

/// The sentence that reports a validation failure.
pub open spec fn meta_message(f: MetaFault) -> Seq<char> {
    match f {
        MetaFault::InvalidName(name) => "invalid name "@ + text::debug_text(name)
            + ": must match ^[a-z0-9][a-z0-9_-]*$"@,
        MetaFault::WeightTooSmall => "weight must be >= 1"@,
        MetaFault::EveryTooSmall => "every must be >= 1"@,
        MetaFault::NegativeCost => "max_session_cost_usd must be >= 0"@,
    }
}

/// The message of an invalid name carries it; the others name the key at fault.
pub proof fn meta_errors_name_what_is_wrong(f: MetaFault)
    ensures
        f matches MetaFault::InvalidName(name) ==> text::contains(
            meta_message(f),
            "invalid name "@ + text::debug_text(name),
        ),
        f is WeightTooSmall ==> meta_message(f) == "weight must be >= 1"@,
        f is EveryTooSmall ==> meta_message(f) == "every must be >= 1"@,
        f is NegativeCost ==> meta_message(f) == "max_session_cost_usd must be >= 0"@,
{
    if let MetaFault::InvalidName(name) = f {
        text::parts_are_held(
            Seq::empty(),
            "invalid name "@ + text::debug_text(name),
            ": must match ^[a-z0-9][a-z0-9_-]*$"@,
            meta_message(f),
        );
    }
}

impl PartialEq for PromptParseError {
    fn eq(&self, other: &Self) -> (r: bool) {
        match (self, other) {
            (PromptParseError::Io { path: a, .. }, PromptParseError::Io { path: b, .. }) =>
            text::same(a.as_str(), b.as_str()),
            (
                PromptParseError::MissingFrontmatter { path: a },
                PromptParseError::MissingFrontmatter { path: b },
            ) => text::same(a.as_str(), b.as_str()),
            (PromptParseError::MissingName { path: a }, PromptParseError::MissingName { path: b }) =>
            text::same(a.as_str(), b.as_str()),
            (
                PromptParseError::DuplicateField { path: a, field: x },
                PromptParseError::DuplicateField { path: b, field: y },
            ) => text::same(a.as_str(), b.as_str()) && text::same(x.as_str(), y.as_str()),
            (
                PromptParseError::BadFrontmatter { path: a, message: x },
                PromptParseError::BadFrontmatter { path: b, message: y },
            ) => text::same(a.as_str(), b.as_str()) && text::same(x.as_str(), y.as_str()),
            (
                PromptParseError::InvalidMeta { path: a, source: x },
                PromptParseError::InvalidMeta { path: b, source: y },
            ) => text::same(a.as_str(), b.as_str()) && x.same(y),
            _ => false,
        }
    }
}

impl vstd::std_specs::cmp::PartialEqSpecImpl for PromptParseError {
    open spec fn obeys_eq_spec() -> bool {
        true
    }

    open spec fn eq_spec(&self, other: &Self) -> bool {
        self@ == other@
    }
}

// ---------------------------------------------------------------------------
// Metadata
// ---------------------------------------------------------------------------

/// The weight of a prompt that declares none.
pub fn default_weight() -> (r: u32)
    ensures
        r == 1,
{
    1
}

/// The cadence of a prompt that declares none.
pub fn default_every() -> (r: u32)
    ensures
        r == 1,
{
    1
}

/// A lowercase ASCII letter or a digit.
pub open spec fn is_name_start(c: char) -> bool {
    'a' <= c <= 'z' || '0' <= c <= '9'
}

/// `s` matches `^[a-z0-9][a-z0-9_-]*$`.
pub open spec fn is_prompt_name(s: Seq<char>) -> bool {
    &&& s.len() > 0
    &&& is_name_start(s[0])
    &&& forall|i: int|
        0 <= i < s.len() ==> is_name_start(#[trigger] s[i]) || s[i] == '_' || s[i] == '-'
}

/// What a name is made of: it starts with a lower-case letter or a digit, and goes on
/// with those, underscores and hyphens.
pub proof fn names_grow_by_plain_characters(s: Seq<char>, c: char)
    ensures
        !is_prompt_name(Seq::empty()),
        is_prompt_name(seq![c]) <==> 'a' <= c <= 'z' || '0' <= c <= '9',
        s.len() > 0 ==> (is_prompt_name(s.push(c)) <==> is_prompt_name(s) && ('a' <= c <= 'z'
            || '0' <= c <= '9' || c == '_' || c == '-')),
{
    assert(seq![c][0] == c);
    if s.len() > 0 {
        let t = s.push(c);
        assert(t[s.len() as int] == c);
        if is_prompt_name(t) {
            assert forall|i: int| 0 <= i < s.len() implies is_name_start(#[trigger] s[i]) || s[i]
                == '_' || s[i] == '-' by {
                assert(t[i] == s[i]);
            }
            assert(t[0] == s[0]);
        }
    }
}

/// What is wrong with a prompt's metadata, if anything. The checks are made in
/// this order.
pub open spec fn meta_fault(meta: PromptMeta) -> Option<MetaFault> {
    if !is_prompt_name(meta.name@) {
        Some(MetaFault::InvalidName(meta.name@))
    } else if meta.weight < 1 {
        Some(MetaFault::WeightTooSmall)
    } else if meta.every < 1 {
        Some(MetaFault::EveryTooSmall)
    } else if meta.max_session_cost_usd matches Some(cost) && cost.pico < 0 {
        Some(MetaFault::NegativeCost)
    } else {
        None
    }
}

/// A prompt's metadata is sound exactly where its name is a small letter or a digit
/// followed by such, `_` and `-`, its weight and its cadence are at least one, and
/// its cost cap, if any, is not negative. The name is reported first, then the
/// weight, the cadence and the cost.
pub proof fn sound_metadata_can_be_scheduled(meta: PromptMeta)
    ensures
        ({
            let s = meta.name@;
            let named = s.len() > 0 && s[0] != '_' && s[0] != '-' && forall|i: int|
                0 <= i < s.len() ==> 'a' <= #[trigger] s[i] <= 'z' || '0' <= s[i] <= '9' || s[i]
                    == '_' || s[i] == '-';
            let owed = meta.max_session_cost_usd matches Some(cost) && cost.pico < 0;
            &&& meta_fault(meta) is None <==> named && meta.weight >= 1 && meta.every >= 1 && !owed
            &&& !named ==> meta_fault(meta) == Some(MetaFault::InvalidName(s))
            &&& named && meta.weight == 0 ==> meta_fault(meta) == Some(MetaFault::WeightTooSmall)
            &&& named && meta.weight >= 1 && meta.every == 0 ==> meta_fault(meta) == Some(
                MetaFault::EveryTooSmall,
            )
            &&& named && meta.weight >= 1 && meta.every >= 1 && owed ==> meta_fault(meta) == Some(
                MetaFault::NegativeCost,
            )
        }),
{
}

/// Whether `s` matches `^[a-z0-9][a-z0-9_-]*$`.
pub fn is_valid_name(s: &str) -> (r: bool)
    ensures
        r == is_prompt_name(s@),
{
    let v = text::chars_of(s);
    if v.len() == 0 {
        return false;
    }
    let first = v[0];
    if !(('a' <= first && first <= 'z') || ('0' <= first && first <= '9')) {
        return false;
    }
    for i in 0..v.len()
        invariant
            v@ == s@,
            v@.len() > 0,
            forall|j: int|
                0 <= j < i ==> is_name_start(#[trigger] s@[j]) || s@[j] == '_' || s@[j] == '-',
    {
        let c = v[i];
        if !(('a' <= c && c <= 'z') || ('0' <= c && c <= '9') || c == '_' || c == '-') {
            assert(!(is_name_start(s@[i as int]) || s@[i as int] == '_' || s@[i as int] == '-'));
            return false;
        }
    }
    true
}

impl PromptMeta {
    /// Run semantic checks beyond what decoding enforces.
    pub fn validate(&self) -> (r: Result<(), PromptMetaValidationError>)
        ensures
            match r {
                Ok(_) => meta_fault(*self) is None,
                Err(e) => meta_fault(*self) == Some(e@),
            },
    {
        if !is_valid_name(self.name.as_str()) {
            return Err(PromptMetaValidationError::InvalidName(self.name.clone()));
        }
        if self.weight < 1 {
            return Err(PromptMetaValidationError::WeightTooSmall);
        }
        if self.every < 1 {
            return Err(PromptMetaValidationError::EveryTooSmall);
        }
        if let Some(cost) = self.max_session_cost_usd {
            if cost.pico < 0 {
                return Err(PromptMetaValidationError::NegativeCost);
            }
        }
        Ok(())
    }
}

impl PromptDoc {
    /// A copy of the prompt.
    pub fn copy(&self) -> (r: Self)
        ensures
            r@ == self@,
    {
        let meta = PromptMeta {
            name: self.meta.name.clone(),
            description: self.meta.description.clone(),
            weight: self.meta.weight,
            every: self.meta.every,
            max_runs: self.meta.max_runs,
            verify: self.meta.verify,
            parallel_safe: self.meta.parallel_safe,
            tags: text::copy_all(&self.meta.tags),
            max_session_seconds: self.meta.max_session_seconds,
            max_session_cost_usd: self.meta.max_session_cost_usd,
        };
        PromptDoc {
            meta,
            body: self.body.clone(),
            source_path: self.source_path.clone(),
            source_kind: self.source_kind,
        }
    }
}

// ---------------------------------------------------------------------------
// Frontmatter
// ---------------------------------------------------------------------------

/// The key that a frontmatter line gives a value to at the top level, where
/// the line is of the plain form `key: ...`.
pub open spec fn line_key(line: Seq<char>) -> Option<Seq<char>> {
    let body = text::trim_end(line);
    let colon = text::next_index(body, ':', 0);
    let key = text::trim(body.take(colon));
    if line.len() > 0 && (line[0] == ' ' || line[0] == '\t' || line[0] == '-') {
        None
    } else if body.len() == 0 || body[0] == '#' || colon >= body.len() {
        None
    } else if key.len() == 0 || exists|i: int|
        0 <= i < key.len() && (#[trigger] key[i] == '"' || key[i] == '\'' || key[i] == ' ') {
        None
    } else {
        Some(key)
    }
}

/// Line `i` gives a value to a key that an earlier line gave one to.
pub open spec fn key_repeats(lines: Seq<Seq<char>>, i: int) -> bool {
    &&& line_key(lines[i]) is Some
    &&& exists|j: int| 0 <= j < i && line_key(#[trigger] lines[j]) == line_key(lines[i])
}

/// The first line at or after `from` that repeats a key.
pub open spec fn first_key_repeat(lines: Seq<Seq<char>>, from: int) -> Option<int>
    decreases lines.len() - from,
{
    if from >= lines.len() {
        None
    } else if key_repeats(lines, from) {
        Some(from)
    } else {
        first_key_repeat(lines, from + 1)
    }
}

/// A line of the form `key: value` gives its value to that key, whatever the value
/// is. A line that is indented, is a list item, a comment or blank, or has no
/// colon, gives none.
pub proof fn plain_lines_name_their_key(key: Seq<char>, value: Seq<char>, line: Seq<char>)
    ensures
        key.len() > 0 && key[0] != '-' && key[0] != '#' && (forall|i: int|
            0 <= i < key.len() ==> !text::is_space(#[trigger] key[i]) && key[i] != ':' && key[i]
                != '"' && key[i] != '\'') ==> line_key(key + ":"@ + value) == Some(key),
        line.len() > 0 && (line[0] == ' ' || line[0] == '\t' || line[0] == '-' || line[0] == '#')
            ==> line_key(line) is None,
        (forall|i: int| 0 <= i < line.len() ==> #[trigger] line[i] != ':') ==> line_key(line)
            is None,
        line.len() == 0 ==> line_key(line) is None,
{
    reveal_strlit(":");
    if key.len() > 0 && key[0] != '-' && key[0] != '#' && (forall|i: int|
        0 <= i < key.len() ==> !text::is_space(#[trigger] key[i]) && key[i] != ':' && key[i] != '"'
            && key[i] != '\'') {
        let s = key + ":"@ + value;
        let n = key.len() as int;
        assert(s[n] == ':');
        assert(!text::is_space(':'));
        trim_end_keeps(s, n);
        let body = text::trim_end(s);
        text::trim_end_is_prefix(s);
        assert forall|j: int| 0 <= j < n implies body[j] != ':' by {
            assert(body[j] == s[j] && s[j] == key[j]);
        }
        assert(body[n] == s[n]);
        text::next_index_unique(body, ':', 0, n);
        assert(body.take(n) =~= key);
        assert(text::trim_start(key) == key);
        assert(text::trim_end(key) == key);
        assert(s[0] == key[0] && body[0] == key[0]);
        assert(key[0] != ' ' && key[0] != '\t') by {
            assert(!text::is_space(key[0]));
        }
        assert(forall|i: int|
            0 <= i < key.len() ==> !(#[trigger] key[i] == '"' || key[i] == '\'' || key[i] == ' ')) by {
            assert forall|i: int| 0 <= i < key.len() implies !(#[trigger] key[i] == '"' || key[i]
                == '\'' || key[i] == ' ') by {
                assert(!text::is_space(key[i]));
            }
        }
    }
    text::trim_end_is_prefix(line);
    let body = text::trim_end(line);
    if line.len() > 0 && line[0] == '#' && body.len() > 0 {
        assert(body[0] == line[0]);
    }
    if forall|i: int| 0 <= i < line.len() ==> #[trigger] line[i] != ':' {
        assert forall|j: int| 0 <= j < body.len() implies body[j] != ':' by {
            assert(body[j] == line[j]);
        }
        text::next_index_unique(body, ':', 0, body.len() as int);
    }
}

proof fn trim_end_keeps(s: Seq<char>, n: int)
    requires
        0 <= n < s.len(),
        !text::is_space(s[n]),
    ensures
        n < text::trim_end(s).len(),
    decreases s.len(),
{
    if text::is_space(s.last()) {
        trim_end_keeps(s.drop_last(), n);
    }
}

/// A frontmatter is accepted exactly where no key gets two values; else the first
/// line that gives one to a key that has one is the one that is reported.
pub proof fn no_key_has_two_values(lines: Seq<Seq<char>>)
    ensures
        match first_key_repeat(lines, 0) {
            None => forall|i: int, j: int|
                0 <= i < j < lines.len() && line_key(#[trigger] lines[i]) is Some ==> line_key(
                    lines[i],
                ) != line_key(#[trigger] lines[j]),
            Some(k) => 0 <= k < lines.len() && line_key(lines[k]) is Some && exists|j: int|
                0 <= j < k && line_key(#[trigger] lines[j]) == line_key(lines[k]),
        },
{
    first_repeat_is_first(lines, 0);
    if first_key_repeat(lines, 0) is None {
        assert forall|i: int, j: int|
            0 <= i < j < lines.len() && line_key(#[trigger] lines[i]) is Some implies line_key(
            lines[i],
        ) != line_key(#[trigger] lines[j]) by {
            assert(!key_repeats(lines, j));
        }
    }
}

proof fn first_repeat_is_first(lines: Seq<Seq<char>>, from: int)
    requires
        0 <= from <= lines.len(),
    ensures
        match first_key_repeat(lines, from) {
            None => forall|i: int| from <= i < lines.len() ==> !key_repeats(lines, i),
            Some(k) => from <= k < lines.len() && key_repeats(lines, k) && forall|i: int|
                from <= i < k ==> !key_repeats(lines, i),
        },
    decreases lines.len() - from,
{
    if from < lines.len() && !key_repeats(lines, from) {
        first_repeat_is_first(lines, from + 1);
    }
}

/// The key that a frontmatter line gives a value to at the top level.
pub fn top_level_key(line: &str) -> (r: Option<String>)
    ensures
        match r {
            Some(key) => line_key(line@) == Some(key@),
            None => line_key(line@) is None,
        },
{
    let v = text::chars_of(line);
    if v.len() > 0 && (v[0] == ' ' || v[0] == '\t' || v[0] == '-') {
        return None;
    }
    let body = text::trimmed_end(line);
    let w = text::chars_of(body.as_str());
    if w.len() == 0 || w[0] == '#' {
        return None;
    }
    let colon = text::find_from(w.as_slice(), ':', 0);
    if colon >= w.len() {
        return None;
    }
    let front = text::slice(w.as_slice(), 0, colon);
    assert(front@ =~= body@.take(colon as int));
    let key = text::trimmed(front.as_str());
    let k = text::chars_of(key.as_str());
    if k.len() == 0 {
        return None;
    }
    for i in 0..k.len()
        invariant
            k@ == key@,
            key@ == text::trim(text::trim_end(line@).take(text::next_index(text::trim_end(line@), ':', 0))),
            forall|j: int|
                0 <= j < i ==> !(#[trigger] key@[j] == '"' || key@[j] == '\'' || key@[j] == ' '),
    {
        if k[i] == '"' || k[i] == '\'' || k[i] == ' ' {
            assert(key@[i as int] == '"' || key@[i as int] == '\'' || key@[i as int] == ' ');
            return None;
        }
    }
    Some(key)
}

/// The view of an optional key.
pub open spec fn key_view(k: Option<String>) -> Option<Seq<char>> {
    match k {
        Some(s) => Some(s@),
        None => None,
    }
}

/// Rejects a frontmatter that gives two values to one top-level key.
pub fn check_no_duplicate_keys(frontmatter: &str, path: &str) -> (r: Result<(), PromptParseError>)
    ensures
        match (r, first_key_repeat(text::lines(frontmatter@), 0)) {
            (Ok(_), None) => true,
            (Err(e), Some(i)) => e@ == (PromptFault::DuplicateField {
                path: path@,
                field: line_key(text::lines(frontmatter@)[i])->0,
            }),
            _ => false,
        },
{
    let all = text::lines_of(frontmatter);
    let ghost lines = text::lines(frontmatter@);
    assert(lines.len() == all@.len());
    let mut keys: Vec<Option<String>> = Vec::new();
    for i in 0..all.len()
        invariant
            lines == text::lines(frontmatter@),
            lines == text::views(all@),
            keys@.len() == i,
            forall|j: int| 0 <= j < i ==> key_view(#[trigger] keys@[j]) == line_key(lines[j]),
            first_key_repeat(lines, 0) == first_key_repeat(lines, i as int),
    {
        let key = top_level_key(all[i].as_str());
        assert(lines[i as int] == all@[i as int]@);
        if let Some(name) = &key {
            for j in 0..keys.len()
                invariant
                    lines == text::lines(frontmatter@),
                    i < lines.len(),
                    keys@.len() == i,
                    line_key(lines[i as int]) == Some(name@),
                    first_key_repeat(lines, 0) == first_key_repeat(lines, i as int),
                    forall|k: int|
                        0 <= k < i ==> key_view(#[trigger] keys@[k]) == line_key(lines[k]),
                    forall|k: int|
                        0 <= k < j ==> line_key(#[trigger] lines[k]) != line_key(lines[i as int]),
            {
                assert(key_view(keys@[j as int]) == line_key(lines[j as int]));
                if let Some(seen) = &keys[j] {
                    if text::same(seen.as_str(), name.as_str()) {
                        assert(key_repeats(lines, i as int));
                        return Err(
                            PromptParseError::DuplicateField {
                                path: text::owned(path),
                                field: name.clone(),
                            },
                        );
                    }
                }
            }
        }
        keys.push(key);
    }
    Ok(())
}

/// The error for a frontmatter that could not be decoded, `message` being what
/// the decoder said.
pub open spec fn decode_fault(message: Seq<char>, path: Seq<char>) -> PromptFault {
    if text::contains(text::ascii_lower(message), "missing field `name`"@) {
        PromptFault::MissingName { path }
    } else {
        PromptFault::BadFrontmatter { path, message: text::first_line_trimmed(message) }
    }
}

/// Turns what the YAML decoder said into an error.
pub fn classify_yaml_error(message: &str, path: &str) -> (r: PromptParseError)
    ensures
        r@ == decode_fault(message@, path@),
{
    let lower = text::lowered(message);
    if text::has_part(lower.as_str(), "missing field `name`") {
        return PromptParseError::MissingName { path: text::owned(path) };
    }
    PromptParseError::BadFrontmatter { path: text::owned(path), message: text::one_line(message) }
}

// ---------------------------------------------------------------------------
// Whole files
// ---------------------------------------------------------------------------

/// Splits a prompt file, whose line endings may be CRLF, into its raw
/// frontmatter and its body.
pub fn open_prompt(input: &str, path: &str) -> (r: Result<(String, String), PromptParseError>)
    ensures
        match (r, parse::document_parts(parse::with_lf(input@))) {
            (Ok((frontmatter, body)), Some(parts)) => {
                &&& frontmatter@ == parts.0
                &&& body@ == parts.1
                &&& first_key_repeat(text::lines(parts.0), 0) is None
            },
            (Err(e), Some(parts)) => {
                &&& first_key_repeat(text::lines(parts.0), 0) matches Some(i)
                    && e@ == (PromptFault::DuplicateField {
                    path: path@,
                    field: line_key(text::lines(parts.0)[i])->0,
                })
            },
            (Err(e), None) => e@ == (PromptFault::MissingFrontmatter { path: path@ }),
            (Ok(_), None) => false,
        },
{
    match parse::split_document(input) {
        None => Err(PromptParseError::MissingFrontmatter { path: text::owned(path) }),
        Some((frontmatter, body)) => {
            match check_no_duplicate_keys(frontmatter.as_str(), path) {
                Ok(_) => Ok((frontmatter, body)),
                Err(e) => Err(e),
            }
        },
    }
}

/// Builds the prompt out of its decoded frontmatter, or the decoder's message,
/// and its body.
pub fn finish_prompt(
    decoded: Result<PromptMeta, String>,
    body: String,
    source_path: &str,
    source_kind: PromptSource,
) -> (r: Result<PromptDoc, PromptParseError>)
    ensures
        match (decoded, r) {
            (Err(message), Err(e)) => e@ == decode_fault(message@, source_path@),
            (Ok(meta), Err(e)) => {
                &&& meta_fault(meta) matches Some(source)
                    && e@ == (PromptFault::InvalidMeta { path: source_path@, source })
            },
            (Ok(meta), Ok(doc)) => {
                &&& meta_fault(meta) is None
                &&& doc.meta == meta
                &&& doc.body == body
                &&& doc.source_path@ == source_path@
                &&& doc.source_kind == source_kind
            },
            (Err(_), Ok(_)) => false,
        },
{
    match decoded {
        Err(message) => Err(classify_yaml_error(message.as_str(), source_path)),
        Ok(meta) => {
            match meta.validate() {
                Err(source) => Err(
                    PromptParseError::InvalidMeta { path: text::owned(source_path), source },
                ),
                Ok(_) => Ok(
                    PromptDoc { meta, body, source_path: text::owned(source_path), source_kind },
                ),
            }
        },
    }
}

} // verus!
