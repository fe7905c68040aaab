//! The placeholder substituter behind every prompt template.
//!
//! `{name}` is replaced with the value matching `name` in the supplied list,
//! and the escapes `{{` and `}}` produce literal braces. There is no logic, no
//! loops, no conditionals — anything that needs branching belongs in Rust, not
//! in the template.

use vstd::prelude::*;
use vstd::string::StringExecFns;

use crate::text;

verus! {

/// The names and values of a list of substitutions.
pub open spec fn var_views(vars: Seq<(&str, &str)>) -> Seq<(Seq<char>, Seq<char>)> {
    vars.map_values(|v: (&str, &str)| (v.0@, v.1@))
}

/// The value of the first substitution from index `from` on that has the name
/// `name`.
pub open spec fn value_of(
    vars: Seq<(Seq<char>, Seq<char>)>,
    name: Seq<char>,
    from: int,
) -> Option<Seq<char>>
    decreases vars.len() - from,
{
    if from >= vars.len() {
        None
    } else if vars[from].0 == name {
        Some(vars[from].1)
    } else {
        value_of(vars, name, from + 1)
    }
}

/// `rest`, where there is one, with `lead` in front.
pub open spec fn led(lead: Seq<char>, rest: Option<Seq<char>>) -> Option<Seq<char>> {
    match rest {
        Some(r) => Some(lead + r),
        None => None,
    }
}

/// The text that the template `t` stands for from index `i` on; `None` where
/// it holds an unknown placeholder, an unmatched `{` or an unmatched `}`.
pub open spec fn expand(t: Seq<char>, vars: Seq<(Seq<char>, Seq<char>)>, i: int) -> Option<
    Seq<char>,
>
    decreases t.len() - i,
{
    if i >= t.len() {
        Some(Seq::empty())
    } else if t[i] == '{' && i + 1 < t.len() && t[i + 1] == '{' {
        led(seq!['{'], expand(t, vars, i + 2))
    } else if t[i] == '}' && i + 1 < t.len() && t[i + 1] == '}' {
        led(seq!['}'], expand(t, vars, i + 2))
    } else if t[i] == '{' {
        let k = text::next_index(t, '}', i + 1);
        if i < k < t.len() {
            match value_of(vars, t.subrange(i + 1, k), 0) {
                Some(value) => led(value, expand(t, vars, k + 1)),
                None => None,
            }
        } else {
            None
        }
    } else if t[i] == '}' {
        None
    } else {
        led(seq![t[i]], expand(t, vars, i + 1))
    }
}

/// The text that the template `t` stands for.
pub open spec fn rendered(t: Seq<char>, vars: Seq<(Seq<char>, Seq<char>)>) -> Option<Seq<char>> {
    expand(t, vars, 0)
}

/// What rendering does, piece by piece. A character that is no brace stays. A
/// doubled brace gives that brace. A name between braces gives way to the value of
/// that name, which is not looked at again. The rest of the template is treated
/// alike, and a template whose rest cannot be rendered cannot be.
pub proof fn rendering_fills_each_hole(
    c: char,
    name: Seq<char>,
    rest: Seq<char>,
    vars: Seq<(Seq<char>, Seq<char>)>,
)
    ensures
        rendered(Seq::empty(), vars) == Some(Seq::<char>::empty()),
        c != '{' && c != '}' ==> rendered(seq![c] + rest, vars) == led(
            seq![c],
            rendered(rest, vars),
        ),
        rendered(seq!['{', '{'] + rest, vars) == led(seq!['{'], rendered(rest, vars)),
        rendered(seq!['}', '}'] + rest, vars) == led(seq!['}'], rendered(rest, vars)),
        name.len() > 0 && (forall|i: int|
            0 <= i < name.len() ==> #[trigger] name[i] != '{' && name[i] != '}') ==> rendered(
            seq!['{'] + name + seq!['}'] + rest,
            vars,
        ) == match value_of(vars, name, 0) {
            Some(value) => led(value, rendered(rest, vars)),
            None => None,
        },
        rest.len() == 0 || rest[0] != '}' ==> rendered(seq!['}'] + rest, vars) is None,
{
    let one = seq![c] + rest;
    expand_behind(one, vars, 1, 0);
    assert(one.skip(1) =~= rest);
    let open = seq!['{', '{'] + rest;
    expand_behind(open, vars, 2, 0);
    assert(open.skip(2) =~= rest);
    let close = seq!['}', '}'] + rest;
    expand_behind(close, vars, 2, 0);
    assert(close.skip(2) =~= rest);
    if name.len() > 0 && (forall|i: int|
        0 <= i < name.len() ==> #[trigger] name[i] != '{' && name[i] != '}') {
        let hole = seq!['{'] + name + seq!['}'] + rest;
        let k = name.len() as int + 1;
        assert(hole[0] == '{' && hole[1] == name[0] && hole[k] == '}');
        assert forall|j: int| 1 <= j < k implies hole[j] != '}' by {
            assert(hole[j] == name[j - 1]);
        }
        text::next_index_unique(hole, '}', 1, k);
        assert(hole.subrange(1, k) =~= name);
        expand_behind(hole, vars, k + 1, 0);
        assert(hole.skip(k + 1) =~= rest);
    }
    if rest.len() == 0 || rest[0] != '}' {
        let stray = seq!['}'] + rest;
        if rest.len() > 0 {
            assert(stray[1] == rest[0]);
        }
    }
}

proof fn expand_behind(t: Seq<char>, vars: Seq<(Seq<char>, Seq<char>)>, from: int, i: int)
    requires
        0 <= from,
        0 <= i,
        from + i <= t.len(),
    ensures
        expand(t, vars, from + i) == expand(t.skip(from), vars, i),
    decreases t.len() - from - i,
{
    let u = t.skip(from);
    if from + i < t.len() {
        assert(t[from + i] == u[i]);
        if i + 1 < u.len() {
            assert(t[from + i + 1] == u[i + 1]);
        }
        if u[i] == '{' && i + 1 < u.len() && u[i + 1] == '{' || u[i] == '}' && i + 1 < u.len()
            && u[i + 1] == '}' {
            expand_behind(t, vars, from, i + 2);
        } else if u[i] == '{' {
            text::next_index_skip(t, '}', from + i + 1);
            text::next_index_skip(u, '}', i + 1);
            assert(t.skip(from + i + 1) =~= u.skip(i + 1));
            text::next_index_bounds(u, '}', i + 1);
            let k = text::next_index(u, '}', i + 1);
            assert(text::next_index(t, '}', from + i + 1) == from + k);
            if k < u.len() {
                assert(t.subrange(from + i + 1, from + k) =~= u.subrange(i + 1, k));
                expand_behind(t, vars, from, k + 1);
            }
        } else if u[i] != '}' {
            expand_behind(t, vars, from, i + 1);
        }
    }
}

/// The value of a name is that of the first substitution with that very name, and
/// there is none only where no substitution has it.
pub proof fn the_first_value_of_a_name_counts(
    vars: Seq<(Seq<char>, Seq<char>)>,
    name: Seq<char>,
    from: int,
)
    requires
        0 <= from <= vars.len(),
    ensures
        match value_of(vars, name, from) {
            Some(v) => exists|k: int|
                from <= k < vars.len() && #[trigger] vars[k] == (name, v) && forall|j: int|
                    from <= j < k ==> (#[trigger] vars[j]).0 != name,
            None => forall|j: int| from <= j < vars.len() ==> (#[trigger] vars[j]).0 != name,
        },
    decreases vars.len() - from,
{
    if from < vars.len() {
        if vars[from].0 == name {
            assert(vars[from] == (name, vars[from].1));
        } else {
            the_first_value_of_a_name_counts(vars, name, from + 1);
        }
    }
}

/// Substitute `{name}` placeholders in `template` with the matching values
/// from `vars`. `{{` and `}}` produce literal `{` and `}` in the output.
///
/// The template holds no unknown placeholder name, no unmatched `{` and no
/// unmatched `}` — the invariants belong to the developer authoring the
/// template, not to runtime data.
pub fn render(template: &str, vars: &[(&str, &str)]) -> (r: String)
    requires
        rendered(template@, var_views(vars@)) is Some,
    ensures
        rendered(template@, var_views(vars@)) == Some(r@),
{
    let t = text::chars_of(template);
    let n: usize = t.len();
    let ghost all = var_views(vars@);
    let mut out = String::new();
    let mut i: usize = 0;
    proof {
        let whole = rendered(template@, all)->0;
        assert(out@ + whole =~= whole);
    }
    while i < n
        invariant
            n == t@.len(),
            t@ == template@,
            all == var_views(vars@),
            i <= n,
            expand(t@, all, i as int) is Some,
            led(out@, expand(t@, all, i as int)) == rendered(template@, all),
        decreases n - i,
    {
        let ghost done = out@;
        if t[i] == '{' && i + 1 < n && t[i + 1] == '{' {
            out.push('{');
            proof {
                let rest = expand(t@, all, i + 2)->0;
                assert(out@ + rest =~= done + (seq!['{'] + rest));
            }
            i = i + 2;
        } else if t[i] == '}' && i + 1 < n && t[i + 1] == '}' {
            out.push('}');
            proof {
                let rest = expand(t@, all, i + 2)->0;
                assert(out@ + rest =~= done + (seq!['}'] + rest));
            }
            i = i + 2;
        } else if t[i] == '{' {
            let k = text::find_from(t.as_slice(), '}', i + 1);
            let name = text::slice(t.as_slice(), i + 1, k);
            let value = find_value(vars, name.as_str());
            out.append(value);
            proof {
                let rest = expand(t@, all, k + 1)->0;
                assert(out@ + rest =~= done + (value@ + rest));
            }
            i = k + 1;
        } else {
            out.push(t[i]);
            proof {
                let rest = expand(t@, all, i + 1)->0;
                assert(out@ + rest =~= done + (seq![t@[i as int]] + rest));
            }
            i = i + 1;
        }
    }
    assert(out@ + Seq::<char>::empty() =~= out@);
    out
}

/// The value of the first substitution named `name`.
fn find_value<'a>(vars: &[(&str, &'a str)], name: &str) -> (r: &'a str)
    requires
        value_of(var_views(vars@), name@, 0) is Some,
    ensures
        value_of(var_views(vars@), name@, 0) == Some(r@),
{
    let ghost all = var_views(vars@);
    for i in 0..vars.len()
        invariant
            all == var_views(vars@),
            value_of(all, name@, 0) is Some,
            value_of(all, name@, 0) == value_of(all, name@, i as int),
    {
        let (key, value) = vars[i];
        assert(all[i as int] == (key@, value@));
        if text::same(key, name) {
            return value;
        }
    }
    ""
}

// ---------------------------------------------------------------------------
// Templates that always render
// ---------------------------------------------------------------------------

/// `part` stands in `t` at index `i`, character by character.
pub open spec fn stands_at(t: Seq<char>, part: Seq<char>, i: int) -> bool {
    &&& 0 <= i
    &&& i + part.len() <= t.len()
    &&& forall|j: int| 0 <= j < part.len() ==> t[i + j] == #[trigger] part[j]
}

/// The placeholder for `name` begins at index `i` of `t`.
pub open spec fn hole_at(t: Seq<char>, name: Seq<char>, i: int) -> bool {
    &&& stands_at(t, name, i + 1)
    &&& 0 <= i
    &&& t[i] == '{'
    &&& i + name.len() + 1 < t.len()
    &&& t[i + name.len() + 1] == '}'
}

/// `name` can stand in a placeholder.
pub open spec fn is_name(name: Seq<char>) -> bool {
    name.len() > 0 && forall|j: int| 0 <= j < name.len() ==> name[j] != '{' && name[j] != '}'
}

/// Every brace of `t` belongs to a placeholder for one of `names`.
#[verifier::opaque]
pub open spec fn only_holes(t: Seq<char>, names: Seq<Seq<char>>) -> bool {
    &&& forall|k: int| 0 <= k < names.len() ==> is_name(#[trigger] names[k])
    &&& forall|i: int|
        0 <= i < t.len() && #[trigger] t[i] == '{' ==> exists|k: int|
            0 <= k < names.len() && hole_at(t, #[trigger] names[k], i)
    &&& forall|i: int|
        0 <= i < t.len() && #[trigger] t[i] == '}' ==> exists|k: int|
            0 <= k < names.len() && hole_at(t, #[trigger] names[k], i - 1 - names[k].len())
}

/// `vars` has a value for each of `names`.
pub open spec fn covers(vars: Seq<(Seq<char>, Seq<char>)>, names: Seq<Seq<char>>) -> bool {
    forall|k: int| 0 <= k < names.len() ==> value_of(vars, #[trigger] names[k], 0) is Some
}

/// Every placeholder that begins before `i` ends before `i`.
spec fn outside_holes(t: Seq<char>, i: int) -> bool {
    forall|p: int| 0 <= p < i && p < t.len() && #[trigger] t[p] == '{' ==> text::next_index(
            t,
            '}',
            p + 1,
        ) < i
}

proof fn hole_end(t: Seq<char>, name: Seq<char>, i: int)
    requires
        is_name(name),
        hole_at(t, name, i),
    ensures
        text::next_index(t, '}', i + 1) == i + 1 + name.len(),
        t.subrange(i + 1, i + 1 + name.len()) == name,
        t[i + 1] != '{',
{
    let k = i + 1 + name.len();
    assert forall|j: int| i + 1 <= j < k implies t[j] != '}' && t[j] != '{' by {
        assert(t[i + 1 + (j - i - 1)] == name[j - i - 1]);
    }
    text::next_index_unique(t, '}', i + 1, k);
    assert(t.subrange(i + 1, k) =~= name);
}

proof fn open_brace_begins_hole(t: Seq<char>, names: Seq<Seq<char>>, i: int) -> (name: Seq<char>)
    requires
        only_holes(t, names),
        0 <= i < t.len(),
        t[i] == '{',
    ensures
        is_name(name),
        hole_at(t, name, i),
        exists|k: int| 0 <= k < names.len() && #[trigger] names[k] == name,
{
    reveal(only_holes);
    let k = choose|k: int| 0 <= k < names.len() && hole_at(t, #[trigger] names[k], i);
    names[k]
}

proof fn close_brace_ends_hole(t: Seq<char>, names: Seq<Seq<char>>, i: int)
    requires
        only_holes(t, names),
        0 <= i < t.len(),
        t[i] == '}',
    ensures
        !outside_holes(t, i),
{
    reveal(only_holes);
    let k = choose|k: int|
        0 <= k < names.len() && hole_at(t, #[trigger] names[k], i - 1 - names[k].len());
    let p = i - 1 - names[k].len();
    hole_end(t, names[k], p);
    assert(t[p] == '{');
}

proof fn outside_after_hole(t: Seq<char>, name: Seq<char>, i: int)
    requires
        is_name(name),
        hole_at(t, name, i),
        outside_holes(t, i),
    ensures
        outside_holes(t, i + name.len() + 2),
{
    hole_end(t, name, i);
    let e = i + 1 + name.len();
    assert forall|p: int| 0 <= p < e + 1 && p < t.len() && #[trigger] t[p] == '{' implies
        text::next_index(t, '}', p + 1) < e + 1 by {
        if p > i && p < e {
            assert(t[i + 1 + (p - i - 1)] == name[p - i - 1]);
        }
    }
}

proof fn holes_expand(
    t: Seq<char>,
    names: Seq<Seq<char>>,
    vars: Seq<(Seq<char>, Seq<char>)>,
    i: int,
)
    requires
        only_holes(t, names),
        covers(vars, names),
        0 <= i,
        outside_holes(t, i),
    ensures
        expand(t, vars, i) is Some,
    decreases t.len() - i,
{
    if i < t.len() {
        if t[i] == '{' {
            let name = open_brace_begins_hole(t, names, i);
            hole_end(t, name, i);
            outside_after_hole(t, name, i);
            holes_expand(t, names, vars, i + name.len() + 2);
        } else if t[i] == '}' {
            close_brace_ends_hole(t, names, i);
        } else {
            holes_expand(t, names, vars, i + 1);
        }
    }
}

/// A template whose braces all belong to placeholders for known names renders.
pub proof fn only_holes_renders(
    t: Seq<char>,
    names: Seq<Seq<char>>,
    vars: Seq<(Seq<char>, Seq<char>)>,
)
    requires
        only_holes(t, names),
        covers(vars, names),
    ensures
        rendered(t, vars) is Some,
{
    holes_expand(t, names, vars, 0);
}

} // verus!
