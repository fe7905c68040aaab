//! A plan that [`Plan::new`](super::Plan::new) made reads back once it was
//! written.

use vstd::prelude::*;

use super::id;
use super::parse;
use super::round_trip;
use super::{Phase, PhaseModel, PlanModel};
use crate::text;

verus! {

/// The plan that [`Plan::new`](super::Plan::new) makes.
pub open spec fn new_plan(current: Seq<char>, phases: Seq<Phase>) -> PlanModel {
    PlanModel {
        current_phase: current,
        frontmatter: super::pointer_line(current),
        preamble: Seq::empty(),
        phases: super::phase_models(super::sorted(phases)),
    }
}

/// `c` occurs nowhere in `s`.
pub open spec fn free_of(s: Seq<char>, c: char) -> bool {
    forall|i: int| 0 <= i < s.len() ==> #[trigger] s[i] != c
}

/// No line of `s` begins with `# Phase `.
pub open spec fn no_heading_line(s: Seq<char>) -> bool {
    forall|k: int|
        0 <= k < s.len() && (k == 0 || s[k - 1] == '\n') ==> !#[trigger] text::occurs_at(
            s,
            "# Phase "@,
            k,
        )
}

/// The phase can be written: its title is one line, its body is empty or ended
/// and holds no heading, and neither holds a carriage return.
pub open spec fn writable_phase(p: PhaseModel) -> bool {
    &&& id::is_phase_id(p.id)
    &&& free_of(p.title, '\n') && free_of(p.title, '\r')
    &&& round_trip::at_line_end(p.body) && no_heading_line(p.body) && free_of(p.body, '\r')
}

/// The phases can be written: each can, no two have the same id, and `current`
/// is the id of one.
pub open spec fn writable(current: Seq<char>, phases: Seq<Phase>) -> bool {
    &&& forall|i: int| 0 <= i < phases.len() ==> writable_phase((#[trigger] phases[i])@)
    &&& forall|i: int, j: int|
        0 <= i < j < phases.len() ==> (#[trigger] phases[i]).id@ != (#[trigger] phases[j]).id@
    &&& exists|i: int| 0 <= i < phases.len() && (#[trigger] phases[i]).id@ == current
}

proof fn no_heading_line_is_heading_free(s: Seq<char>, line: nat)
    requires
        no_heading_line(s),
    ensures
        parse::blocks(s, line) matches Ok((_, phases)) && phases.len() == 0,
    decreases s.len(),
{
    if s.len() > 0 {
        text::next_index_bounds(s, '\n', 0);
        let first = parse::first_line(s);
        let end = text::line_end(s, 0);
        let rest = parse::after_line(s);
        if text::occurs_at(first, "# Phase "@, 0) {
            assert(first.subrange(0, "# Phase "@.len() as int) =~= s.subrange(
                0,
                "# Phase "@.len() as int,
            ));
            assert(text::occurs_at(s, "# Phase "@, 0));
        }
        assert forall|k: int| 0 <= k < rest.len() && (k == 0 || rest[k - 1] == '\n') implies
            !#[trigger] text::occurs_at(rest, "# Phase "@, k) by {
            if text::occurs_at(rest, "# Phase "@, k) {
                assert(rest.subrange(k, k + "# Phase "@.len()) =~= s.subrange(
                    end + k,
                    end + k + "# Phase "@.len(),
                ));
                assert(text::occurs_at(s, "# Phase "@, end + k));
                assert(s[end + k - 1] == '\n');
            }
        }
        no_heading_line_is_heading_free(rest, line + 1);
    }
}

proof fn id_is_plain(s: Seq<char>)
    requires
        id::is_phase_id(s),
    ensures
        free_of(s, '\r'),
        free_of(s, '\n'),
{
    id::digits_end_bounds(s, 0);
    let e = id::digits_end(s, 0);
    assert forall|j: int| 0 <= j < s.len() implies #[trigger] s[j] != '\r' && s[j] != '\n' by {
        if j < e {
            assert(id::is_digit(s[j]));
        } else {
            assert(id::suffix(s)[j - e] == s[j]);
        }
    }
}

proof fn blocks_free_of_cr(phases: Seq<PhaseModel>)
    requires
        forall|i: int| 0 <= i < phases.len() ==> writable_phase(#[trigger] phases[i]),
    ensures
        free_of(parse::blocks_text(phases), '\r'),
    decreases phases.len(),
{
    if phases.len() > 0 {
        reveal_strlit("# Phase ");
        reveal_strlit(": ");
        reveal_strlit("\n");
        let p = phases[0];
        let rest = phases.skip(1);
        assert(writable_phase(p));
        id_is_plain(p.id);
        assert forall|i: int| 0 <= i < rest.len() implies writable_phase(#[trigger] rest[i]) by {
            assert(rest[i] == phases[i + 1]);
        }
        blocks_free_of_cr(rest);
        assert(free_of("# Phase "@ + p.id, '\r'));
        assert(free_of("# Phase "@ + p.id + ": "@, '\r'));
        assert(free_of("# Phase "@ + p.id + ": "@ + p.title, '\r'));
        assert(free_of("# Phase "@ + p.id + ": "@ + p.title + "\n"@, '\r'));
        assert(free_of(parse::block_text(p), '\r'));
    }
}

/// Sorting keeps what makes phases writable.
proof fn sorted_stays_writable(current: Seq<char>, phases: Seq<Phase>)
    requires
        writable(current, phases),
    ensures
        writable(current, super::sorted(phases)),
{
    broadcast use vstd::seq_lib::group_to_multiset_ensures;

    super::sorted_is_ordered_permutation(phases);
    let out = super::sorted(phases);
    assert forall|p: Phase| out.contains(p) <==> #[trigger] phases.contains(p) by {
        assert(out.to_multiset().count(p) == phases.to_multiset().count(p));
    }
    assert forall|i: int| 0 <= i < out.len() implies writable_phase((#[trigger] out[i])@) by {
        assert(out.contains(out[i]));
        assert(phases.contains(out[i]));
    }
    let at = choose|i: int| 0 <= i < phases.len() && (#[trigger] phases[i]).id@ == current;
    assert(phases.contains(phases[at]));
    assert(out.contains(phases[at]));
    sorted_stays_distinct(phases);
}

proof fn sorted_stays_distinct(phases: Seq<Phase>)
    requires
        forall|i: int, j: int|
            0 <= i < j < phases.len() ==> (#[trigger] phases[i]).id@ != (#[trigger] phases[j]).id@,
    ensures
        forall|i: int, j: int|
            0 <= i < j < super::sorted(phases).len() ==> (#[trigger] super::sorted(phases)[i]).id@
                != (#[trigger] super::sorted(phases)[j]).id@,
    decreases phases.len(),
{
    broadcast use vstd::seq_lib::group_to_multiset_ensures;

    if phases.len() > 0 {
        let front = phases.drop_last();
        let rest = super::sorted(front);
        let x = phases.last();
        let k = super::slot(rest, x.id@);
        sorted_stays_distinct(front);
        super::sorted_is_ordered_permutation(front);
        super::slot_bounds(rest, x.id@);
        let out = rest.insert(k, x);
        assert forall|i: int| 0 <= i < rest.len() implies (#[trigger] rest[i]).id@ != x.id@ by {
            assert(rest.contains(rest[i]));
            assert(front.to_multiset().count(rest[i]) == rest.to_multiset().count(rest[i]));
            assert(front.contains(rest[i]));
            let j = choose|j: int| 0 <= j < front.len() && front[j] == rest[i];
            assert(phases[j] == rest[i]);
        }
        assert forall|i: int, j: int| 0 <= i < j < out.len() implies (#[trigger] out[i]).id@ != (
        #[trigger] out[j]).id@ by {
            if i != k && j != k {
                let a = if i < k {
                    i
                } else {
                    i - 1
                };
                let b = if j < k {
                    j
                } else {
                    j - 1
                };
                assert(out[i] == rest[a] && out[j] == rest[b]);
            } else if i == k {
                assert(out[j] == rest[j - 1]);
            } else {
                assert(out[i] == rest[i]);
            }
        }
    }
}

proof fn distinct_has_no_repeat(phases: Seq<PhaseModel>, from: int)
    requires
        0 <= from,
        forall|i: int, j: int|
            0 <= i < j < phases.len() ==> (#[trigger] phases[i]).id != (#[trigger] phases[j]).id,
    ensures
        parse::first_repeat(phases, from) is None,
    decreases phases.len() - from,
{
    if from < phases.len() {
        distinct_has_no_repeat(phases, from + 1);
    }
}

proof fn pointer_holds_no_fence(current: Seq<char>)
    requires
        id::is_phase_id(current),
    ensures
        super::pointer_line(current).len() > 0,
        super::pointer_line(current).last() == '"',
        free_of(super::pointer_line(current), '\r'),
        forall|k: int| !parse::fence_at(super::pointer_line(current) + "\n"@, k),
{
    reveal_strlit("current_phase: \"");
    reveal_strlit("\"");
    reveal_strlit("\n");
    reveal_strlit("---\n");
    id_is_plain(current);
    let line = super::pointer_line(current);
    let s = line + "\n"@;
    assert(free_of("current_phase: \""@ + current, '\n'));
    assert(free_of(line, '\n') && free_of(line, '\r'));
    assert forall|k: int| !parse::fence_at(s, k) by {
        if parse::fence_at(s, k) {
            assert(s.subrange(k, k + 4)[0] == s[k]);
            assert(s[0] == 'c');
            assert(k > 0);
            assert(s[k - 1] == line[k - 1]);
        }
    }
}

/// All that a plan made by [`Plan::new`](super::Plan::new) needs to read back
/// once it was written, but for what YAML makes of the pointer line: where YAML
/// reads the id from it, the plan is canonical.
pub proof fn new_plan_is_canonical(current: Seq<char>, phases: Seq<Phase>)
    requires
        writable(current, phases),
    ensures
        parse::frontmatter_pointer(
            parse::yaml_mapping(super::pointer_line(current) + "\n"@),
        ) == Ok::<Seq<char>, Seq<char>>(current) <==> round_trip::canonical(
            new_plan(current, phases),
        ),
        parse::document_parts(parse::with_lf(parse::document(new_plan(current, phases)))) == Some(
            (
                super::pointer_line(current) + "\n"@,
                parse::blocks_text(new_plan(current, phases).phases),
            ),
        ),
        id::is_phase_id(current),
{
    let plan = new_plan(current, phases);
    let out = super::sorted(phases);
    let models = plan.phases;
    sorted_stays_writable(current, phases);
    let at = choose|i: int| 0 <= i < out.len() && (#[trigger] out[i]).id@ == current;
    assert(models[at] == out[at]@);
    assert(writable_phase(out[at]@));
    assert forall|i: int| 0 <= i < models.len() implies writable_phase(#[trigger] models[i])
        && round_trip::plain_phase(models[i]) by {
        assert(models[i] == out[i]@);
        no_heading_line_is_heading_free(models[i].body, 0);
    }
    assert forall|i: int, j: int| 0 <= i < j < models.len() implies (#[trigger] models[i]).id != (
    #[trigger] models[j]).id by {
        assert(models[i] == out[i]@ && models[j] == out[j]@);
    }
    distinct_has_no_repeat(models, 0);
    pointer_holds_no_fence(current);
    blocks_free_of_cr(models);
    let line = super::pointer_line(current);
    let body = parse::blocks_text(models);
    assert(parse::document(plan) =~= parse::FENCE@ + (line + "\n"@) + parse::FENCE@ + body);
    assert(free_of(parse::document(plan), '\r')) by {
        reveal_strlit("---\n");
        reveal_strlit("\n");
        assert(free_of(line + "\n"@, '\r'));
        assert(free_of(parse::FENCE@ + (line + "\n"@), '\r'));
        assert(free_of(parse::FENCE@ + (line + "\n"@) + parse::FENCE@, '\r'));
    }
    assert(round_trip::lf_only(parse::document(plan))) by {
        let s = parse::document(plan);
        assert forall|i: int| 0 <= i && i + 1 < s.len() implies !(s[i] == '\r' && #[trigger] s[i
            + 1] == '\n') by {
            assert(s[i] != '\r');
        }
    }
    assert(round_trip::heading_free(plan.preamble));
    round_trip::lf_kept(parse::document(plan));
    assert((line + "\n"@).last() == '\n') by {
        reveal_strlit("\n");
    }
    round_trip::parts_read_back(line + "\n"@, body);
}

/// `parse` gives back a plan that [`Plan::new`](super::Plan::new) made and
/// `serialize` wrote, where YAML reads the id from the pointer line. The
/// contract of [`parse`](super::parse::parse) states it without that premise.
pub proof fn new_plan_reads_back(current: Seq<char>, phases: Seq<Phase>)
    requires
        writable(current, phases),
        parse::frontmatter_pointer(
            parse::yaml_mapping(super::pointer_line(current) + "\n"@),
        ) == Ok::<Seq<char>, Seq<char>>(current),
    ensures
        parse::parsed(parse::document(new_plan(current, phases))) == Ok::<
            PlanModel,
            parse::PlanFault,
        >(new_plan(current, phases)),
{
    new_plan_is_canonical(current, phases);
    round_trip::parse_undoes_serialize(new_plan(current, phases));
}

} // verus!
