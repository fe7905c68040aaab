//! Discovery of grind prompt files across project, global, and override roots.
//!
//! Three sources are recognised, in decreasing precedence:
//!
//! 1. `--prompts-dir <path>` (override). When set, project and global sources
//!    are skipped entirely.
//! 2. `./.pitboss/grind/prompts/` under the project root.
//! 3. `~/.pitboss/grind/prompts/` in the user's home directory.
//!
//! Project entries shadow global entries that share a `name`. Within a single
//! directory, files are walked in sorted filename order so duplicate-name
//! collisions resolve deterministically (first-by-filename wins).
//!
//! Per-file parse failures are collected into [`DiscoveryResult::errors`] so
//! callers can report every bad file in one pass instead of stopping at the
//! first.
//!
//! No recursion: only `*.md` files at the top level of each directory are
//! considered. Missing directories are not errors — they yield an empty
//! contribution.

use vstd::prelude::*;

use super::prompt::{PromptDoc, PromptParseError, PromptSource};
use crate::paths;
use crate::table;
use crate::table::Table;
use crate::text;

verus! {

/// Where to look for prompts. All paths are absolute or relative to the
/// caller's current working directory; nothing is canonicalised.
#[derive(Debug, PartialEq, Eq)]
pub struct DiscoveryOptions {
    /// Repository root. The project source is
    /// `<project_root>/.pitboss/grind/prompts/`.
    pub project_root: String,
    /// Optional home directory. The global source is
    /// `<home_dir>/.pitboss/grind/prompts/`. `None` disables the global
    /// source.
    pub home_dir: Option<String>,
    /// When `Some`, only this directory is consulted; project and global
    /// sources are ignored.
    pub override_dir: Option<String>,
}

/// Result of a discovery pass: the surviving prompts plus a list of files that
/// failed to read or parse, in walk order.
#[derive(Debug)]
pub struct DiscoveryResult {
    /// Prompts in deterministic order (sorted by `meta.name`).
    pub prompts: Vec<PromptDoc>,
    /// Files that failed to load, paired with their error.
    pub errors: Vec<(String, PromptParseError)>,
}

/// The prompts directory below a root.
pub open spec fn prompts_dir(root: Seq<char>) -> Seq<char> {
    paths::joined(root, ".pitboss/grind/prompts"@)
}

/// The prompts of a root lie below it.
pub proof fn prompts_lie_below_their_root(root: Seq<char>)
    ensures
        root.is_prefix_of(prompts_dir(root)),
        text::contains(prompts_dir(root), ".pitboss/grind/prompts"@),
{
    reveal_strlit(".pitboss/grind/prompts");
    paths::joining_shows_both(root, ".pitboss/grind/prompts"@, root);
}

/// The prompts directory below a project root or a home directory.
pub fn grind_prompts_dir(root: &str) -> (r: String)
    ensures
        r@ == prompts_dir(root@),
{
    paths::join(root, ".pitboss/grind/prompts")
}

/// Resolve the conventional global prompts directory, `home` being the value
/// of the `HOME` variable. `None` if it is unset or empty.
pub fn resolve_home_prompts_dir(home: Option<&str>) -> (r: Option<String>)
    ensures
        match home {
            Some(h) => if h@.len() == 0 {
                r is None
            } else {
                r matches Some(d) && d@ == prompts_dir(h@)
            },
            None => r is None,
        },
{
    match home {
        Some(h) => {
            if h.is_empty() {
                None
            } else {
                Some(grind_prompts_dir(h))
            }
        },
        None => None,
    }
}

/// The directories to consult, in decreasing precedence.
pub open spec fn source_dirs(opts: DiscoveryOptions) -> Seq<(Seq<char>, PromptSource)> {
    match opts.override_dir {
        Some(dir) => seq![(dir@, PromptSource::Override)],
        None => {
            let project = seq![(prompts_dir(opts.project_root@), PromptSource::Project)];
            match opts.home_dir {
                Some(home) => project.push((prompts_dir(home@), PromptSource::Global)),
                None => project,
            }
        },
    }
}

/// Where prompts come from: an override directory alone where one is given, and
/// else the project's directory and, behind it, the one below the home directory
/// where there is one.
pub proof fn an_override_is_the_only_source(opts: DiscoveryOptions)
    ensures
        ({
            let d = source_dirs(opts);
            let below = ".pitboss/grind/prompts"@;
            &&& opts.override_dir matches Some(dir) ==> d.len() == 1 && d[0] == (
                dir@,
                PromptSource::Override,
            )
            &&& opts.override_dir is None ==> d.len() > 0 && d[0] == (
                paths::joined(opts.project_root@, below),
                PromptSource::Project,
            )
            &&& opts.override_dir is None && opts.home_dir is None ==> d.len() == 1
            &&& opts.override_dir is None ==> (opts.home_dir matches Some(home) ==> d.len() == 2
                && d[1] == (paths::joined(home@, below), PromptSource::Global))
        }),
{
}

/// The directories to consult, in decreasing precedence.
pub fn sources(opts: &DiscoveryOptions) -> (r: Vec<(String, PromptSource)>)
    ensures
        r@.map_values(|s: (String, PromptSource)| (s.0@, s.1)) == source_dirs(*opts),
{
    let mut out: Vec<(String, PromptSource)> = Vec::new();
    match &opts.override_dir {
        Some(dir) => {
            out.push((dir.clone(), PromptSource::Override));
        },
        None => {
            out.push((grind_prompts_dir(opts.project_root.as_str()), PromptSource::Project));
            if let Some(home) = &opts.home_dir {
                out.push((grind_prompts_dir(home.as_str()), PromptSource::Global));
            }
        },
    }
    assert(out@.map_values(|s: (String, PromptSource)| (s.0@, s.1)) =~= source_dirs(*opts));
    out
}

/// The name of the file at `path` has the extension `md`.
pub open spec fn is_markdown(path: Seq<char>) -> bool {
    let name = path.skip(paths::behind_last(path, '/', path.len() as int));
    name.len() > 3 && name.skip(name.len() - 3) == ".md"@
}

/// Whether the name of the file at `path` has the extension `md`.
pub fn has_markdown_extension(path: &str) -> (r: bool)
    ensures
        r == is_markdown(path@),
{
    let v = text::chars_of(path);
    let n: usize = v.len();
    let mut start: usize = n;
    while start > 0 && v[start - 1] != '/'
        invariant
            start <= n,
            n == v@.len(),
            v@ == path@,
            paths::behind_last(path@, '/', n as int) == paths::behind_last(path@, '/', start as int),
        decreases start,
    {
        start = start - 1;
    }
    let ghost name = path@.skip(start as int);
    if n - start <= 3 {
        return false;
    }
    let ext = text::slice(v.as_slice(), n - 3, n);
    assert(ext@ =~= name.skip(name.len() - 3));
    text::same(ext.as_str(), ".md")
}

/// An entry of a directory listing: its path, and whether it is a file.
pub open spec fn entry_views(entries: Seq<(String, bool)>) -> Seq<(Seq<char>, bool)> {
    entries.map_values(|e: (String, bool)| (e.0@, e.1))
}

/// The files of a directory listing to load, in the order in which to load
/// them.
pub fn prompt_files(entries: &[(String, bool)]) -> (r: Vec<String>)
    ensures
        table::ascending(text::views(r@)),
        forall|p: Seq<char>| #[trigger]
            text::views(r@).contains(p) <==> entry_views(entries@).contains((p, true))
                && is_markdown(p),
{
    let ghost all = entry_views(entries@);
    let mut kept: Table<bool> = Table::new();
    for i in 0..entries.len()
        invariant
            all == entry_views(entries@),
            forall|p: Seq<char>| #[trigger]
                kept@.contains_key(p) <==> (exists|j: int| 0 <= j < i && all[j] == (p, true))
                    && is_markdown(p),
    {
        let ghost before = kept@;
        let (path, is_file) = &entries[i];
        assert(all[i as int] == (path@, *is_file));
        if *is_file && has_markdown_extension(path.as_str()) {
            kept.insert(path.as_str(), true);
        }
        assert forall|p: Seq<char>| #[trigger]
            kept@.contains_key(p) <==> (exists|j: int| 0 <= j < i + 1 && all[j] == (p, true))
                && is_markdown(p) by {
            assert(before.contains_key(p) ==> kept@.contains_key(p));
            if all[i as int] == (p, true) {
            } else {
                assert(kept@.contains_key(p) <==> before.contains_key(p));
            }
        }
    }
    let n: usize = kept.len();
    let ghost keys = kept.keys();
    let mut out: Vec<String> = Vec::new();
    for i in 0..n
        invariant
            n == keys.len(),
            keys == kept.keys(),
            text::views(out@) == keys.take(i as int),
    {
        let ghost before = text::views(out@);
        let (path, _) = kept.entry(i);
        out.push(text::owned(path));
        proof {
            assert(text::views(out@) =~= before.push(keys[i as int]));
            assert(keys.take(i + 1) =~= keys.take(i as int).push(keys[i as int]));
        }
    }
    proof {
        assert(keys.take(n as int) =~= keys);
        assert forall|p: Seq<char>| #[trigger]
            text::views(out@).contains(p) <==> all.contains((p, true)) && is_markdown(p) by {
            assert(kept@.contains_key(p) <==> keys.contains(p));
            if all.contains((p, true)) {
                let j = choose|j: int| 0 <= j < all.len() && all[j] == (p, true);
                assert(0 <= j < entries@.len() && all[j] == (p, true));
            }
        }
    }
    out
}

// ---------------------------------------------------------------------------
// Merging what was loaded
// ---------------------------------------------------------------------------

/// What loading a file gave: its path, and the prompt or the error.
pub type Loaded = (String, Result<PromptDoc, PromptParseError>);

/// The prompts by name: of those with one name, the first that was loaded.
pub open spec fn by_name(loaded: Seq<Loaded>) -> Map<Seq<char>, PromptDoc>
    decreases loaded.len(),
{
    if loaded.len() == 0 {
        Map::empty()
    } else {
        let front = by_name(loaded.drop_last());
        match loaded.last().1 {
            Ok(doc) => if front.contains_key(doc.meta.name@) {
                front
            } else {
                front.insert(doc.meta.name@, doc)
            },
            Err(_) => front,
        }
    }
}

/// The files that failed to load, in order.
pub open spec fn failures(loaded: Seq<Loaded>) -> Seq<(String, PromptParseError)>
    decreases loaded.len(),
{
    if loaded.len() == 0 {
        Seq::empty()
    } else {
        let front = failures(loaded.drop_last());
        match loaded.last().1 {
            Ok(_) => front,
            Err(e) => front.push((loaded.last().0, e)),
        }
    }
}

/// A prompt that was loaded earlier shadows every later one of its name: it is
/// how the project shadows the global directory, and how duplicates in one
/// directory resolve to the first file.
pub proof fn earlier_shadows_later(loaded: Seq<Loaded>, more: Loaded, name: Seq<char>)
    requires
        by_name(loaded).contains_key(name),
    ensures
        by_name(loaded.push(more)).contains_key(name),
        by_name(loaded.push(more))[name] == by_name(loaded)[name],
{
    assert(loaded.push(more).drop_last() =~= loaded);
}

/// The prompt under a name is the first that loaded with that name: one is there
/// exactly where a file gave a prompt of that name, and no file before it did.
pub proof fn the_first_of_a_name_is_taken(loaded: Seq<Loaded>, name: Seq<char>)
    ensures
        by_name(loaded).contains_key(name) <==> exists|i: int| gives(loaded, i, name),
        by_name(loaded).contains_key(name) ==> exists|i: int| #[trigger]
            gives(loaded, i, name) && by_name(loaded)[name] == loaded[i].1->Ok_0 && forall|j: int|
                0 <= j < i ==> !gives(loaded, j, name),
    decreases loaded.len(),
{
    if loaded.len() > 0 {
        let front = loaded.drop_last();
        the_first_of_a_name_is_taken(front, name);
        let n = loaded.len() - 1;
        assert forall|j: int| gives(front, j, name) <==> j < n && gives(loaded, j, name) by {
            if 0 <= j < n {
                assert(front[j] == loaded[j]);
            }
        }
        if by_name(front).contains_key(name) {
            let i = choose|i: int| #[trigger]
                gives(front, i, name) && by_name(front)[name] == front[i].1->Ok_0 && forall|j: int|
                    0 <= j < i ==> !gives(front, j, name);
            assert(gives(loaded, i, name));
            assert(front[i] == loaded[i]);
            assert forall|j: int| 0 <= j < i implies !gives(loaded, j, name) by {
                assert(!gives(front, j, name));
            }
        } else {
            assert forall|j: int| 0 <= j < n implies !gives(loaded, j, name) by {
                assert(!gives(front, j, name));
            }
            if gives(loaded, n, name) {
                assert(by_name(loaded)[name] == loaded[n].1->Ok_0);
            } else {
                assert forall|j: int| !gives(loaded, j, name) by {
                    assert(j < n || j == n || !gives(loaded, j, name));
                    if j < n {
                        assert(!gives(front, j, name));
                    }
                }
            }
        }
    }
}

/// The file at index `i` gave a prompt of that name.
pub open spec fn gives(loaded: Seq<Loaded>, i: int, name: Seq<char>) -> bool {
    0 <= i < loaded.len() && (loaded[i].1 matches Ok(doc) && doc.meta.name@ == name)
}

/// Every file that failed to load is reported, with its own error, in the order
/// in which they were loaded, and no other file is.
pub proof fn every_failure_is_reported(loaded: Seq<Loaded>, more: Loaded)
    ensures
        more.1 is Ok ==> failures(loaded.push(more)) == failures(loaded),
        more.1 is Err ==> failures(loaded.push(more)) == failures(loaded).push(
            (more.0, more.1->Err_0),
        ),
        failures(Seq::<Loaded>::empty()).len() == 0,
        failures(loaded).len() == loaded.filter(|l: Loaded| l.1 is Err).len(),
    decreases loaded.len(),
{
    reveal(Seq::filter);
    assert(loaded.push(more).drop_last() =~= loaded);
    if loaded.len() > 0 {
        every_failure_is_reported(loaded.drop_last(), loaded.last());
    }
}

/// A prompt file is one whose name ends in `.md` with something before it,
/// whatever directory it lies in.
pub proof fn markdown_is_told_by_its_name(dir: Seq<char>, stem: Seq<char>, end: Seq<char>)
    requires
        dir.len() == 0 || dir.last() == '/',
        forall|i: int| 0 <= i < stem.len() ==> #[trigger] stem[i] != '/',
        end.len() == 3,
        forall|i: int| 0 <= i < end.len() ==> #[trigger] end[i] != '/',
    ensures
        is_markdown(dir + stem + end) <==> stem.len() > 0 && end == ".md"@,
{
    let path = dir + stem + end;
    let n = dir.len() as int;
    last_slash(path, path.len() as int, n);
    let name = path.skip(n);
    assert(name =~= stem + end);
    assert(name.skip(name.len() - 3) =~= end);
}

proof fn last_slash(s: Seq<char>, end: int, k: int)
    requires
        0 <= k <= end <= s.len(),
        k > 0 ==> s[k - 1] == '/',
        forall|i: int| k <= i < end ==> #[trigger] s[i] != '/',
    ensures
        paths::behind_last(s, '/', end) == k,
    decreases end,
{
    if k < end {
        assert(s[end - 1] != '/');
        last_slash(s, end - 1, k);
    }
}

/// Merges what loading the files of all sources gave, in the order in which
/// they were loaded.
pub fn discover_prompts(loaded: Vec<Loaded>) -> (r: DiscoveryResult)
    ensures
        table::ascending(super::plan::prompt_names(r.prompts@)),
        forall|n: Seq<char>| #[trigger]
            super::plan::prompt_names(r.prompts@).contains(n) <==> by_name(
                loaded@,
            ).contains_key(n),
        forall|i: int|
            0 <= i < r.prompts@.len() ==> (#[trigger] r.prompts@[i])@ == by_name(
                loaded@,
            )[r.prompts@[i].meta.name@]@,
        r.errors@ == failures(loaded@),
{
    let ghost all = loaded@;
    let mut rest = loaded;
    let mut found: Table<PromptDoc> = Table::new();
    let mut errors: Vec<(String, PromptParseError)> = Vec::new();
    let ghost mut done: int = 0;
    while rest.len() > 0
        invariant
            0 <= done <= all.len(),
            rest@ == all.skip(done),
            found@ == by_name(all.take(done)),
            errors@ == failures(all.take(done)),
        decreases rest@.len(),
    {
        let (path, outcome) = rest.remove(0);
        proof {
            assert(all.take(done + 1).drop_last() =~= all.take(done));
            assert(all.take(done + 1).last() == (path, outcome));
            assert(rest@ =~= all.skip(done + 1));
        }
        match outcome {
            Ok(doc) => {
                let name = doc.meta.name.clone();
                if !found.contains_key(name.as_str()) {
                    found.insert(name.as_str(), doc);
                }
            },
            Err(e) => {
                errors.push((path, e));
            },
        }
        proof {
            done = done + 1;
        }
    }
    assert(all.take(all.len() as int) =~= all);
    let n: usize = found.len();
    let ghost keys = found.keys();
    let mut prompts: Vec<PromptDoc> = Vec::new();
    proof {
        names_match(all);
    }
    for i in 0..n
        invariant
            n == keys.len(),
            keys == found.keys(),
            found@ == by_name(all),
            forall|k: Seq<char>| #[trigger]
                found@.contains_key(k) ==> found@[k].meta.name@ == k,
            super::plan::prompt_names(prompts@) == keys.take(i as int),
            forall|j: int|
                0 <= j < prompts@.len() ==> (#[trigger] prompts@[j])@ == by_name(
                    all,
                )[prompts@[j].meta.name@]@,
    {
        let ghost before = super::plan::prompt_names(prompts@);
        let (_, doc) = found.entry(i);
        let copy = doc.copy();
        assert(copy@.name == doc@.name);
        prompts.push(copy);
        proof {
            assert(super::plan::prompt_names(prompts@) =~= before.push(keys[i as int]));
            assert(keys.take(i + 1) =~= keys.take(i as int).push(keys[i as int]));
        }
    }
    assert(keys.take(n as int) =~= keys);
    DiscoveryResult { prompts, errors }
}

proof fn names_match(loaded: Seq<Loaded>)
    ensures
        forall|k: Seq<char>| #[trigger]
            by_name(loaded).contains_key(k) ==> by_name(loaded)[k].meta.name@ == k,
    decreases loaded.len(),
{
    if loaded.len() > 0 {
        names_match(loaded.drop_last());
        assert forall|k: Seq<char>| #[trigger] by_name(loaded).contains_key(k) implies by_name(
            loaded,
        )[k].meta.name@ == k by {
            assert(by_name(loaded.drop_last()).contains_key(k) || by_name(loaded)[k].meta.name@
                == k);
        }
    }
}

} // verus!
