//! Paths as texts, joined with `/`.

use vstd::prelude::*;
use vstd::string::StringExecFns;

use crate::text;

verus! {

/// `rel` below `base`; an absolute `rel` stands for itself.
pub open spec fn joined(base: Seq<char>, rel: Seq<char>) -> Seq<char> {
    if rel.len() > 0 && rel[0] == '/' {
        rel
    } else if base.len() == 0 || base.last() == '/' {
        base + rel
    } else {
        base + "/"@ + rel
    }
}

/// `rel` below `base`; an absolute `rel` stands for itself.
pub fn join(base: &str, rel: &str) -> (r: String)
    ensures
        r@ == joined(base@, rel@),
{
    let b = text::chars_of(base);
    let v = text::chars_of(rel);
    if v.len() > 0 && v[0] == '/' {
        return text::owned(rel);
    }
    let mut out = text::owned(base);
    if b.len() > 0 && b[b.len() - 1] != '/' {
        out.append("/");
    }
    out.append(rel);
    out
}

/// `full` without the directory `base` in front, or `full` itself where it
/// does not lie below `base`.
pub open spec fn below(base: Seq<char>, full: Seq<char>) -> Seq<char> {
    let dir = if base.len() == 0 || base.last() == '/' {
        base
    } else {
        base + "/"@
    };
    if full == base {
        Seq::empty()
    } else if text::occurs_at(full, dir, 0) && (base.len() > 0 || full.len() == 0 || full[0]
        != '/') {
        full.skip(dir.len() as int)
    } else {
        full
    }
}

/// `full` without the directory `base` in front, or `full` itself where it
/// does not lie below `base`.
pub fn relative_to(base: &str, full: &str) -> (r: String)
    ensures
        r@ == below(base@, full@),
{
    if text::same(base, full) {
        return String::new();
    }
    let b = text::chars_of(base);
    let v = text::chars_of(full);
    let mut dir = text::owned(base);
    if b.len() > 0 && b[b.len() - 1] != '/' {
        dir.append("/");
    }
    let d = text::chars_of(dir.as_str());
    if text::occurs(v.as_slice(), d.as_slice(), 0) && (b.len() > 0 || v.len() == 0 || v[0] != '/') {
        let r = text::slice(v.as_slice(), d.len(), v.len());
        assert(r@ =~= full@.skip(d@.len() as int));
        r
    } else {
        text::owned(full)
    }
}

/// What [`relative_to`] takes away, [`join`] puts back: a relative path that
/// was joined to a directory is found again.
pub proof fn below_undoes_joined(base: Seq<char>, rel: Seq<char>)
    requires
        rel.len() > 0,
        rel[0] != '/',
    ensures
        below(base, joined(base, rel)) == rel,
{
    reveal_strlit("/");
    let dir = if base.len() == 0 || base.last() == '/' {
        base
    } else {
        base + "/"@
    };
    let full = joined(base, rel);
    assert(full =~= dir + rel);
    assert(full.subrange(0, dir.len() as int) =~= dir);
    assert(full.skip(dir.len() as int) =~= rel);
    assert(full.len() > base.len());
}

/// A relative path is put below its base with one `/` between the two; an
/// absolute one stands for itself.
pub proof fn joining_puts_one_slash_between(base: Seq<char>, rel: Seq<char>)
    ensures
        rel.len() > 0 && rel[0] == '/' ==> joined(base, rel) == rel,
        (rel.len() == 0 || rel[0] != '/') && base.len() > 0 && base.last() != '/' ==> joined(
            base,
            rel,
        ) == base.push('/') + rel,
        (rel.len() == 0 || rel[0] != '/') && (base.len() == 0 || base.last() == '/') ==> joined(
            base,
            rel,
        ) == base + rel,
{
    reveal_strlit("/");
    assert(base.push('/') + rel =~= base + "/"@ + rel);
}

/// What is put below a base: the path starts with the base, ends as what was put
/// there, and holds it and whatever the base holds.
pub proof fn joining_shows_both(base: Seq<char>, rel: Seq<char>, held: Seq<char>)
    requires
        rel.len() > 0,
        rel[0] != '/',
    ensures
        base.is_prefix_of(joined(base, rel)),
        joined(base, rel).last() == rel.last(),
        text::contains(joined(base, rel), rel),
        text::contains(base, held) ==> text::contains(joined(base, rel), held),
{
    let whole = joined(base, rel);
    let none = Seq::<char>::empty();
    let mid = if base.len() == 0 || base.last() == '/' {
        none
    } else {
        "/"@
    };
    assert(whole =~= base + mid + rel);
    text::parts_are_held(base + mid, rel, none, whole);
    if text::contains(base, held) {
        text::held_in_a_part(none, base, mid + rel, whole, held);
    }
}

/// A path that does not lie below a directory is not cut.
pub proof fn paths_elsewhere_stay(base: Seq<char>, full: Seq<char>)
    requires
        base.len() > 0,
        full != base,
        base.last() == '/' ==> !text::occurs_at(full, base, 0),
        base.last() != '/' ==> !text::occurs_at(full, base.push('/'), 0),
    ensures
        below(base, full) == full,
{
    reveal_strlit("/");
    assert(base.push('/') =~= base + "/"@);
}

/// The index behind the last `c` of `s` below `end`, or zero.
pub open spec fn behind_last(s: Seq<char>, c: char, end: int) -> int
    decreases end,
{
    if end <= 0 {
        0
    } else if s[end - 1] == c {
        end
    } else {
        behind_last(s, c, end - 1)
    }
}

/// `path`, which names a file, with the extension of the file replaced by
/// `ext`. A leading dot of the file's name begins no extension.
pub open spec fn with_extension_text(path: Seq<char>, ext: Seq<char>) -> Seq<char> {
    let name = behind_last(path, '/', path.len() as int);
    let dot = behind_last(path, '.', path.len() as int);
    let stem = if dot > name + 1 {
        path.take(dot - 1)
    } else {
        path
    };
    stem + "."@ + ext
}

/// A new extension takes the place of what stands behind the last dot of a file's
/// name; the directory and the rest of the name stay. A name without a dot behind
/// its first character keeps all of it.
pub proof fn extensions_are_replaced(
    dir: Seq<char>,
    stem: Seq<char>,
    old_ext: Seq<char>,
    ext: Seq<char>,
)
    requires
        dir.len() == 0 || dir.last() == '/',
        stem.len() > 0,
        forall|i: int| 0 <= i < stem.len() ==> #[trigger] stem[i] != '/',
        forall|i: int|
            0 <= i < old_ext.len() ==> #[trigger] old_ext[i] != '/' && old_ext[i] != '.',
    ensures
        with_extension_text(dir + stem + "."@ + old_ext, ext) == dir + stem + "."@ + ext,
        (forall|i: int| 1 <= i < stem.len() ==> #[trigger] stem[i] != '.') ==> with_extension_text(
            dir + stem,
            ext,
        ) == dir + stem + "."@ + ext,
{
    reveal_strlit(".");
    let path = dir + stem + "."@ + old_ext;
    let name = dir.len() as int;
    let dot = (dir + stem).len() as int;
    behind_last_is(path, '/', path.len() as int, name);
    behind_last_is(path, '.', path.len() as int, dot + 1);
    assert(path.take(dot) =~= dir + stem);
    if forall|i: int| 1 <= i < stem.len() ==> #[trigger] stem[i] != '.' {
        let whole = dir + stem;
        behind_last_is(whole, '/', whole.len() as int, name);
        behind_last_bound(whole, '.', whole.len() as int);
        let k = behind_last(whole, '.', whole.len() as int);
        if k > name + 1 {
            assert(whole[k - 1] == stem[k - 1 - name]);
        }
    }
}

proof fn behind_last_is(s: Seq<char>, c: char, end: int, k: int)
    requires
        0 <= k <= end <= s.len(),
        k > 0 ==> s[k - 1] == c,
        forall|i: int| k <= i < end ==> #[trigger] s[i] != c,
    ensures
        behind_last(s, c, end) == k,
    decreases end,
{
    if k < end {
        assert(s[end - 1] != c);
        behind_last_is(s, c, end - 1, k);
    }
}

proof fn behind_last_bound(s: Seq<char>, c: char, end: int)
    requires
        0 <= end <= s.len(),
    ensures
        0 <= behind_last(s, c, end) <= end,
        behind_last(s, c, end) > 0 ==> s[behind_last(s, c, end) - 1] == c,
    decreases end,
{
    if end > 0 && s[end - 1] != c {
        behind_last_bound(s, c, end - 1);
    }
}

fn last_behind(v: &[char], c: char) -> (r: usize)
    ensures
        r == behind_last(v@, c, v@.len() as int),
        r <= v@.len(),
{
    let mut i: usize = v.len();
    while i > 0 && v[i - 1] != c
        invariant
            i <= v@.len(),
            behind_last(v@, c, v@.len() as int) == behind_last(v@, c, i as int),
        decreases i,
    {
        i = i - 1;
    }
    i
}

/// `path`, which names a file, with the extension of the file replaced by
/// `ext`.
pub fn with_extension(path: &str, ext: &str) -> (r: String)
    ensures
        r@ == with_extension_text(path@, ext@),
{
    let v = text::chars_of(path);
    let name = last_behind(v.as_slice(), '/');
    let dot = last_behind(v.as_slice(), '.');
    let end: usize = if dot > 0 && dot - 1 > name {
        dot - 1
    } else {
        v.len()
    };
    let mut out = text::slice(v.as_slice(), 0, end);
    assert(out@ =~= path@.take(end as int));
    assert(path@.take(path@.len() as int) =~= path@);
    out.append(".");
    out.append(ext);
    out
}

} // verus!
