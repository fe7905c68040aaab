//! The two directions in which [`serialize`](super::parse::serialize) and
//! [`parse`](super::parse::parse) undo each other.

use vstd::prelude::*;

use super::id;
use super::parse;
use super::parse::{Line, FENCE};
use super::{PhaseModel, PlanModel};
use crate::text;

verus! {

// ---------------------------------------------------------------------------
// Conditions
// ---------------------------------------------------------------------------

/// No carriage return of `s` is followed by a newline.
pub open spec fn lf_only(s: Seq<char>) -> bool {
    forall|i: int| 0 <= i && i + 1 < s.len() ==> !(s[i] == '\r' && #[trigger] s[i + 1] == '\n')
}

/// Each phase heading of `s` is ended by a newline, the one on the last line
/// too.
pub open spec fn headings_ended(s: Seq<char>) -> bool
    decreases s.len(),
    via headings_ended_decreases
{
    if s.len() == 0 {
        true
    } else if text::next_index(s, '\n', 0) == s.len() {
        parse::line_kind(s) is Text
    } else {
        headings_ended(parse::after_line(s))
    }
}

#[via_fn]
proof fn headings_ended_decreases(s: Seq<char>) {
    text::next_index_bounds(s, '\n', 0);
}

/// No line of `s` begins like a phase heading.
pub open spec fn heading_free(s: Seq<char>) -> bool {
    parse::blocks(s, 0) matches Ok((_, phases)) && phases.len() == 0
}

/// `s` ends at the end of a line.
pub open spec fn at_line_end(s: Seq<char>) -> bool {
    s.len() == 0 || s.last() == '\n'
}

/// `p` can stand in a document: its heading reads back, and its body holds no
/// heading.
pub open spec fn plain_phase(p: PhaseModel) -> bool {
    &&& id::is_phase_id(p.id)
    &&& forall|j: int| 0 <= j < p.title.len() ==> p.title[j] != '\n'
    &&& heading_free(p.body)
}

/// `phases` can stand one after the other in a document.
pub open spec fn plain_phases(phases: Seq<PhaseModel>) -> bool {
    &&& forall|i: int| 0 <= i < phases.len() ==> plain_phase(#[trigger] phases[i])
    &&& forall|i: int|
        0 <= i < phases.len() - 1 ==> at_line_end((#[trigger] phases[i]).body)
}

/// `plan` is one that a `plan.md` file can hold.
pub open spec fn canonical(plan: PlanModel) -> bool {
    &&& plan.frontmatter.len() > 0 && plan.frontmatter.last() != '\n'
    &&& forall|k: int| !parse::fence_at(plan.frontmatter + "\n"@, k)
    &&& parse::frontmatter_pointer(parse::yaml_mapping(plan.frontmatter + "\n"@)) == Ok::<
        Seq<char>,
        Seq<char>,
    >(plan.current_phase)
    &&& id::is_phase_id(plan.current_phase)
    &&& heading_free(plan.preamble) && at_line_end(plan.preamble)
    &&& plan.phases.len() > 0
    &&& plain_phases(plan.phases)
    &&& parse::first_repeat(plan.phases, 0) is None
    &&& parse::has_phase(plan.phases, plan.current_phase)
    &&& lf_only(parse::document(plan))
}

// ---------------------------------------------------------------------------
// Line endings
// ---------------------------------------------------------------------------

proof fn lf_kept_from(s: Seq<char>, from: int)
    requires
        0 <= from <= s.len(),
        lf_only(s),
    ensures
        text::replace_from(s, "\r\n"@, "\n"@, from) == s.skip(from),
    decreases s.len() - from,
{
    reveal_strlit("\r\n");
    if from < s.len() {
        lf_kept_from(s, from + 1);
        if text::occurs_at(s, "\r\n"@, from) {
            let pair = s.subrange(from, from + 2);
            assert(pair[0] == s[from] && pair[1] == s[from + 1]);
            assert(false);
        }
        assert(seq![s[from]] + s.skip(from + 1) =~= s.skip(from));
    } else {
        assert(s.skip(from) =~= Seq::<char>::empty());
    }
}

/// Normalizing line endings leaves a text without CRLF as it is.
pub proof fn lf_kept(s: Seq<char>)
    requires
        lf_only(s),
    ensures
        parse::with_lf(s) == s,
{
    lf_kept_from(s, 0);
    assert(s.skip(0) =~= s);
}

// ---------------------------------------------------------------------------
// Parsing, then serializing
// ---------------------------------------------------------------------------

proof fn heading_rebuilds(line: Seq<char>)
    ensures
        parse::line_kind(line) matches Line::Heading { id, title } ==> line == "# Phase "@ + id
            + ": "@ + title,
{
    reveal_strlit("# Phase ");
    reveal_strlit(": ");
    if parse::line_kind(line) is Heading {
        let rest = line.skip(8);
        text::part_index_bounds(rest, ": "@, 0);
        let k = text::part_index(rest, ": "@, 0)->0;
        assert(line.subrange(0, 8) =~= line.take(8));
        assert(rest =~= rest.take(k) + rest.subrange(k, k + 2) + rest.skip(k + 2));
        assert(line =~= line.take(8) + rest);
        assert(line =~= "# Phase "@ + rest.take(k) + ": "@ + rest.skip(k + 2));
    }
}

proof fn one_more_block(p: PhaseModel, phases: Seq<PhaseModel>)
    ensures
        parse::blocks_text(seq![p] + phases) == parse::block_text(p) + parse::blocks_text(phases),
{
    assert((seq![p] + phases).skip(1) =~= phases);
}

/// The preamble and the blocks of a body make up the body again.
proof fn blocks_rebuild(s: Seq<char>, line: nat)
    requires
        headings_ended(s),
    ensures
        parse::blocks(s, line) matches Ok((lead, phases)) ==> lead + parse::blocks_text(phases)
            == s,
    decreases s.len(),
{
    reveal_strlit("\n");
    if s.len() == 0 {
        assert(Seq::<char>::empty() + Seq::<char>::empty() =~= s);
    } else {
        text::next_index_bounds(s, '\n', 0);
        let e = text::next_index(s, '\n', 0);
        let end = text::line_end(s, 0);
        let rest = parse::after_line(s);
        if e == s.len() {
            assert(parse::first_line(s) =~= s);
            assert(rest =~= Seq::<char>::empty());
            assert(headings_ended(rest));
        }
        blocks_rebuild(rest, line + 1);
        assert(s =~= s.take(end) + rest);
        if let Ok((lead, phases)) = parse::blocks(rest, line + 1) {
            match parse::line_kind(parse::first_line(s)) {
                Line::Text => {
                    assert(s.take(end) + lead + parse::blocks_text(phases) =~= s.take(end) + (lead
                        + parse::blocks_text(phases)));
                },
                Line::Heading { id, title } => {
                    let p = PhaseModel { id, title, body: lead };
                    heading_rebuilds(parse::first_line(s));
                    one_more_block(p, phases);
                    assert(s.take(end) =~= parse::first_line(s) + "\n"@);
                    assert(Seq::<char>::empty() + parse::blocks_text(seq![p] + phases) =~= s.take(
                        end,
                    ) + (lead + parse::blocks_text(phases)));
                },
                _ => {},
            }
        }
    }
}

/// `serialize` gives back what `parse` read: the document with LF line
/// endings, character for character. Left out are documents whose frontmatter
/// is not ended by exactly one newline, and those whose last line is a heading
/// without a newline.
pub proof fn serialize_undoes_parse(input: Seq<char>, plan: PlanModel)
    requires
        parse::parsed(input) == Ok::<PlanModel, parse::PlanFault>(plan),
        parse::document_parts(parse::with_lf(input)) matches Some((frontmatter, body))
            && frontmatter == parse::ended(text::trim_end_char(frontmatter, '\n'))
            && headings_ended(body),
    ensures
        parse::document(plan) == parse::with_lf(input),
        lf_only(input) ==> parse::document(plan) == input,
{
    reveal_strlit("---\n");
    let s = parse::with_lf(input);
    let after = s.skip(4);
    parse::fence_from_bounds(after, 0);
    let k = parse::fence_from(after, 0)->0;
    let frontmatter = after.take(k);
    let body = after.skip(k + 4);
    blocks_rebuild(body, parse::newlines(frontmatter) + 3);
    assert(s =~= s.subrange(0, 4) + after);
    assert(after =~= frontmatter + after.subrange(k, k + 4) + body);
    assert(parse::document(plan) =~= s) by {
        assert(plan.preamble + parse::blocks_text(plan.phases) == body);
        assert(parse::document(plan) =~= FENCE@ + frontmatter + FENCE@ + (plan.preamble
            + parse::blocks_text(plan.phases)));
    }
    if lf_only(input) {
        lf_kept(input);
    }
}

// ---------------------------------------------------------------------------
// Serializing, then parsing
// ---------------------------------------------------------------------------

/// Where a split succeeds, line numbers play no part in it.
proof fn blocks_at_any_line(s: Seq<char>, a: nat, b: nat)
    requires
        parse::blocks(s, a) is Ok,
    ensures
        parse::blocks(s, b) == parse::blocks(s, a),
    decreases s.len(),
{
    if s.len() > 0 {
        text::next_index_bounds(s, '\n', 0);
        blocks_at_any_line(parse::after_line(s), a + 1, b + 1);
    }
}

/// A text without headings is all lead.
proof fn heading_free_is_lead(s: Seq<char>, line: nat)
    requires
        heading_free(s),
    ensures
        parse::blocks(s, line) == Ok::<(Seq<char>, Seq<PhaseModel>), parse::PlanFault>(
            (s, Seq::empty()),
        ),
    decreases s.len(),
{
    blocks_at_any_line(s, 0, line);
    if s.len() > 0 {
        text::next_index_bounds(s, '\n', 0);
        let end = text::line_end(s, 0);
        let rest = parse::after_line(s);
        blocks_at_any_line(rest, 1, 0);
        heading_free_is_lead(rest, 1);
        assert(s.take(end) + rest =~= s);
        assert(parse::blocks(s, 0)->Ok_0.1 =~= Seq::<PhaseModel>::empty());
    } else {
        assert(s =~= Seq::<char>::empty());
    }
}

/// Text without headings in front of a body joins the body's lead.
proof fn text_joins_lead(t: Seq<char>, u: Seq<char>, line: nat)
    requires
        heading_free(t),
        at_line_end(t),
        parse::blocks(u, line) is Ok,
    ensures
        parse::blocks(t + u, line) == Ok::<(Seq<char>, Seq<PhaseModel>), parse::PlanFault>(
            (t + parse::blocks(u, line)->Ok_0.0, parse::blocks(u, line)->Ok_0.1),
        ),
    decreases t.len(),
{
    let lead = parse::blocks(u, line)->Ok_0.0;
    if t.len() == 0 {
        assert(t + u =~= u);
        assert(t + lead =~= lead);
    } else {
        text::next_index_bounds(t, '\n', 0);
        let e = text::next_index(t, '\n', 0);
        assert(e < t.len()) by {
            if e == t.len() {
                assert(t[t.len() - 1] != '\n');
            }
        }
        let s = t + u;
        text::next_index_unique(s, '\n', 0, e);
        assert(parse::first_line(s) =~= parse::first_line(t));
        let rest = parse::after_line(t);
        assert(parse::after_line(s) =~= rest + u);
        heading_free_is_lead(t, 0);
        blocks_at_any_line(rest, 1, 0);
        assert(rest.len() > 0 ==> rest.last() == t.last());
        blocks_at_any_line(u, line, line + 1);
        text_joins_lead(rest, u, line + 1);
        assert(s.take(e + 1) + (rest + lead) =~= t + lead);
    }
}

/// A phase id fits in front of a colon, on one line.
pub proof fn id_holds_no_colon(s: Seq<char>)
    requires
        id::is_phase_id(s),
    ensures
        forall|j: int| 0 <= j < s.len() ==> s[j] != ':' && s[j] != '\n',
{
    id::digits_end_bounds(s, 0);
    let e = id::digits_end(s, 0);
    assert forall|j: int| 0 <= j < s.len() implies s[j] != ':' && s[j] != '\n' by {
        if j < e {
            assert(id::is_digit(s[j]));
        } else {
            assert(id::suffix(s)[j - e] == s[j]);
        }
    }
}

/// A heading that is written reads back.
proof fn heading_reads_back(p: PhaseModel)
    requires
        plain_phase(p),
    ensures
        ({
            let line = "# Phase "@ + p.id + ": "@ + p.title;
            &&& parse::line_kind(line) == (Line::Heading { id: p.id, title: p.title })
            &&& forall|j: int| 0 <= j < line.len() ==> line[j] != '\n'
        }),
{
    reveal_strlit("# Phase ");
    reveal_strlit(": ");
    id_holds_no_colon(p.id);
    let line = "# Phase "@ + p.id + ": "@ + p.title;
    let rest = p.id + ": "@ + p.title;
    assert(line.subrange(0, 8) =~= "# Phase "@);
    assert(line.skip(8) =~= rest);
    let k = p.id.len() as int;
    assert(rest.subrange(k, k + 2) =~= ": "@);
    assert forall|j: int| 0 <= j < k implies !text::occurs_at(rest, ": "@, j) by {
        if text::occurs_at(rest, ": "@, j) {
            assert(rest.subrange(j, j + 2)[0] == rest[j]);
            assert(rest[j] == p.id[j]);
        }
    }
    text::part_index_unique(rest, ": "@, 0, k);
    assert(rest.take(k) =~= p.id);
    assert(rest.skip(k + 2) =~= p.title);
}

/// Blocks that are written read back.
proof fn blocks_read_back(phases: Seq<PhaseModel>, line: nat)
    requires
        plain_phases(phases),
    ensures
        parse::blocks(parse::blocks_text(phases), line) == Ok::<
            (Seq<char>, Seq<PhaseModel>),
            parse::PlanFault,
        >((Seq::empty(), phases)),
    decreases phases.len(),
{
    if phases.len() == 0 {
        assert(phases =~= Seq::<PhaseModel>::empty());
    } else {
        reveal_strlit("\n");
        reveal_strlit("# Phase ");
        let p = phases[0];
        let rest = phases.skip(1);
        let s = parse::blocks_text(phases);
        let head = "# Phase "@ + p.id + ": "@ + p.title;
        let tail = p.body + parse::blocks_text(rest);
        assert(plain_phase(p));
        heading_reads_back(p);
        assert(s =~= head + "\n"@ + tail);
        let e = head.len() as int;
        assert(s[e] == '\n');
        assert(forall|j: int| 0 <= j < e ==> s[j] == head[j]);
        text::next_index_unique(s, '\n', 0, e);
        assert(parse::first_line(s) =~= head);
        assert(parse::after_line(s) =~= tail);
        assert forall|i: int| 0 <= i < rest.len() implies plain_phase(#[trigger] rest[i]) by {
            assert(rest[i] == phases[i + 1]);
        }
        assert forall|i: int| 0 <= i < rest.len() - 1 implies at_line_end(
            (#[trigger] rest[i]).body,
        ) by {
            assert(rest[i] == phases[i + 1]);
        }
        blocks_read_back(rest, line + 1);
        if rest.len() == 0 {
            assert(tail =~= p.body);
            heading_free_is_lead(p.body, line + 1);
            assert(rest =~= Seq::<PhaseModel>::empty());
        } else {
            assert(at_line_end(phases[0].body));
            text_joins_lead(p.body, parse::blocks_text(rest), line + 1);
            assert(p.body + Seq::<char>::empty() =~= p.body);
        }
        assert(PhaseModel { id: p.id, title: p.title, body: p.body } == p);
        assert(seq![p] + rest =~= phases);
    }
}

/// A fence line in `text` and what follows it, `text` being ended by a newline,
/// lies in `text` or behind it.
proof fn fence_lies_inside(text: Seq<char>, rest: Seq<char>, j: int)
    requires
        text.len() > 0,
        text.last() == '\n',
        j < text.len(),
        parse::fence_at(text + rest, j),
    ensures
        parse::fence_at(text, j),
{
    reveal_strlit("---\n");
    let s = text + rest;
    let four = s.subrange(j, j + 4);
    let last = text.len() - 1;
    assert(s[last] == '\n');
    assert(four[0] == s[j] && four[1] == s[j + 1] && four[2] == s[j + 2]);
    assert(four[0] == '-' && four[1] == '-' && four[2] == '-');
    assert(last >= j + 3);
    assert(text.subrange(j, j + 4) =~= four);
}

/// The frontmatter that is written is found between its fences again.
pub proof fn parts_read_back(text: Seq<char>, body: Seq<char>)
    requires
        text.len() > 0,
        text.last() == '\n',
        forall|k: int| !parse::fence_at(text, k),
    ensures
        parse::document_parts(FENCE@ + text + FENCE@ + body) == Some((text, body)),
{
    reveal_strlit("---\n");
    let s = FENCE@ + text + FENCE@ + body;
    let after = s.skip(4);
    let k = text.len() as int;
    assert(s.subrange(0, 4) =~= FENCE@);
    assert(after =~= text + (FENCE@ + body));
    assert(after.subrange(k, k + 4) =~= FENCE@);
    assert(after[k - 1] == '\n');
    assert(parse::fence_at(after, k));
    parse::fence_from_bounds(after, 0);
    assert forall|j: int| 0 <= j < k implies !parse::fence_at(after, j) by {
        if parse::fence_at(after, j) {
            fence_lies_inside(text, FENCE@ + body, j);
        }
    }
    assert(parse::fence_from(after, 0) == Some(k));
    assert(after.take(k) =~= text);
    assert(after.skip(k + 4) =~= body);
}

/// `parse` gives back what `serialize` wrote: a plan that a file can hold is
/// read again field by field.
pub proof fn parse_undoes_serialize(plan: PlanModel)
    requires
        canonical(plan),
    ensures
        parse::parsed(parse::document(plan)) == Ok::<PlanModel, parse::PlanFault>(plan),
{
    reveal_strlit("\n");
    let s = parse::document(plan);
    let text = plan.frontmatter + "\n"@;
    let body = plan.preamble + parse::blocks_text(plan.phases);
    let line = parse::newlines(text) + 3;
    lf_kept(s);
    assert(s =~= FENCE@ + text + FENCE@ + body);
    parts_read_back(text, body);
    blocks_read_back(plan.phases, line);
    text_joins_lead(plan.preamble, parse::blocks_text(plan.phases), line);
    assert(plan.preamble + Seq::<char>::empty() =~= plan.preamble);
    assert(text.drop_last() =~= plan.frontmatter);
    assert(text::trim_end_char(text, '\n') == plan.frontmatter) by {
        assert(text::trim_end_char(text, '\n') == text::trim_end_char(text.drop_last(), '\n'));
    }
}

} // verus!
