//! A document that was written reads back.

use vstd::prelude::*;

use super::{
    DeferredFault, DeferredLine, DeferredModel, DeferredPhaseModel, Draft, ItemModel, Section,
};
use crate::plan::id;
use crate::plan::round_trip;
use crate::text;

verus! {

/// `l` is one line.
pub open spec fn one_line(l: Seq<char>) -> bool {
    &&& forall|j: int| 0 <= j < l.len() ==> l[j] != '\n'
    &&& l.len() > 0 ==> l.last() != '\r'
}

/// `l` may stand in the body of a block: it is no heading.
pub open spec fn body_line(l: Seq<char>) -> bool {
    match super::deferred_line(l) {
        DeferredLine::Item(_) | DeferredLine::Blank | DeferredLine::Text => true,
        _ => false,
    }
}

/// `p` can stand in a document: its heading is one line with a phase id, and
/// its body is made of whole lines, none of which is a heading.
pub open spec fn plain_block(p: DeferredPhaseModel) -> bool {
    &&& id::is_phase_id(p.source_phase)
    &&& one_line(p.title)
    &&& round_trip::at_line_end(p.body)
    &&& round_trip::lf_only(p.body)
    &&& forall|i: int|
        0 <= i < text::lines(p.body).len() ==> body_line(#[trigger] text::lines(p.body)[i])
}

/// Each entry of `doc` can stand in a document.
pub open spec fn plain_doc(doc: DeferredModel) -> bool {
    &&& forall|i: int| 0 <= i < doc.items.len() ==> one_line(#[trigger] doc.items[i].text)
    &&& forall|i: int| 0 <= i < doc.phases.len() ==> plain_block(#[trigger] doc.phases[i])
}

/// `t` is made of whole lines, which read as `d`.
spec fn reads(t: Seq<char>, d: Draft) -> bool {
    &&& round_trip::at_line_end(t)
    &&& super::draft_after(text::lines(t), text::lines(t).len()) == Ok::<Draft, DeferredFault>(d)
}

/// Only the lines that were read matter.
proof fn draft_of_prefix(a: Seq<Seq<char>>, b: Seq<Seq<char>>, n: nat)
    requires
        n <= a.len(),
        n <= b.len(),
        forall|i: int| 0 <= i < n ==> a[i] == b[i],
    ensures
        super::draft_after(a, n) == super::draft_after(b, n),
    decreases n,
{
    if n > 0 {
        draft_of_prefix(a, b, (n - 1) as nat);
    }
}

/// One more line.
proof fn reads_line(t: Seq<char>, d: Draft, l: Seq<char>)
    requires
        reads(t, d),
        one_line(l),
    ensures
        super::with_line(d, l, text::lines(t).len() + 1) matches Ok(e) ==> reads(
            t + (l + "\n"@),
            e,
        ),
{
    reveal_strlit("\n");
    let lines = text::lines(t);
    text::lines_append(t, l + "\n"@);
    text::lines_of_one(l);
    assert(text::lines(t + (l + "\n"@)) =~= lines.push(l));
    draft_of_prefix(lines, lines.push(l), lines.len());
}

/// A blank line outside a block.
proof fn reads_blank(t: Seq<char>, d: Draft)
    requires
        reads(t, d),
        d.section != Section::Block,
    ensures
        reads(t + "\n"@, d),
{
    reveal_strlit("- [ ] ");
    reveal_strlit("- [x] ");
    reveal_strlit("- [X] ");
    reveal_strlit("### ");
    reveal_strlit("## Deferred items");
    reveal_strlit("## Deferred phases");
    let l = Seq::<char>::empty();
    assert(super::deferred_line(l) is Blank);
    reads_line(t, d, l);
    assert(l + "\n"@ =~= "\n"@);
}

/// The heading of a section and the blank line under it.
proof fn reads_section(t: Seq<char>, d: Draft, items: bool)
    requires
        reads(t, d),
    ensures
        items ==> reads(
            t + "## Deferred items\n\n"@,
            Draft { section: Section::Items, doc: d.doc },
        ),
        !items ==> reads(
            t + "## Deferred phases\n\n"@,
            Draft { section: Section::Phases, doc: d.doc },
        ),
{
    reveal_strlit("\n");
    reveal_strlit("## Deferred items");
    reveal_strlit("## Deferred phases");
    reveal_strlit("## Deferred items\n\n");
    reveal_strlit("## Deferred phases\n\n");
    if items {
        let l = "## Deferred items"@;
        assert(!text::is_space(l.last()));
        reads_line(t, d, l);
        reads_blank(t + (l + "\n"@), Draft { section: Section::Items, doc: d.doc });
        assert(t + (l + "\n"@) + "\n"@ =~= t + "## Deferred items\n\n"@);
    } else {
        let l = "## Deferred phases"@;
        assert(!text::is_space(l.last()));
        assert(l.len() != "## Deferred items"@.len());
        reads_line(t, d, l);
        reads_blank(t + (l + "\n"@), Draft { section: Section::Phases, doc: d.doc });
        assert(t + (l + "\n"@) + "\n"@ =~= t + "## Deferred phases\n\n"@);
    }
}

/// A line whose third character is no space is no section heading.
proof fn no_section_heading(l: Seq<char>)
    requires
        l.len() > 2,
        l[2] != ' ',
    ensures
        text::trim_end(l) != "## Deferred items"@,
        text::trim_end(l) != "## Deferred phases"@,
{
    reveal_strlit("## Deferred items");
    reveal_strlit("## Deferred phases");
    text::trim_end_is_prefix(l);
    let t = text::trim_end(l);
    assert(t.len() > 2 ==> t[2] == l[2]);
}

/// The line of an item.
proof fn reads_item(t: Seq<char>, d: Draft, item: ItemModel)
    requires
        reads(t, d),
        d.section == Section::Items,
        one_line(item.text),
    ensures
        reads(
            t + super::item_line(item),
            Draft {
                section: Section::Items,
                doc: DeferredModel { items: d.doc.items.push(item), ..d.doc },
            },
        ),
{
    reveal_strlit("- [ ] ");
    reveal_strlit("- [x] ");
    let mark = if item.done {
        "- [x] "@
    } else {
        "- [ ] "@
    };
    let l = mark + item.text;
    assert(l.subrange(0, 6) =~= mark);
    assert(l.skip(6) =~= item.text);
    no_section_heading(l);
    if item.done {
        assert("- [x] "@[3] != "- [ ] "@[3]);
        assert(l.subrange(0, 6) != "- [ ] "@);
    }
    assert(super::deferred_line(l) == DeferredLine::Item(item));
    reads_line(t, d, l);
    assert(l + "\n"@ =~= super::item_line(item));
}

/// The lines of the items.
proof fn reads_items(t: Seq<char>, d: Draft, items: Seq<ItemModel>)
    requires
        reads(t, d),
        d.section == Section::Items,
        forall|i: int| 0 <= i < items.len() ==> one_line(#[trigger] items[i].text),
    ensures
        reads(
            t + super::items_text(items),
            Draft {
                section: Section::Items,
                doc: DeferredModel { items: d.doc.items + items, ..d.doc },
            },
        ),
    decreases items.len(),
{
    if items.len() == 0 {
        assert(t + super::items_text(items) =~= t);
        assert(d.doc.items + items =~= d.doc.items);
    } else {
        let front = items.drop_last();
        let e = Draft {
            section: Section::Items,
            doc: DeferredModel { items: d.doc.items + front, ..d.doc },
        };
        assert forall|i: int| 0 <= i < front.len() implies one_line(#[trigger] front[i].text) by {
            assert(items[i] == front[i]);
        }
        reads_items(t, d, front);
        reads_item(t + super::items_text(front), e, items.last());
        assert(t + super::items_text(front) + super::item_line(items.last()) =~= t
            + super::items_text(items));
        assert((d.doc.items + front).push(items.last()) =~= d.doc.items + items);
    }
}

/// The heading of a block.
proof fn reads_heading(t: Seq<char>, d: Draft, p: DeferredPhaseModel)
    requires
        reads(t, d),
        d.section == Section::Phases || d.section == Section::Block,
        plain_block(p),
    ensures
        reads(
            t + ("### From phase "@ + p.source_phase + ": "@ + p.title + "\n"@),
            Draft {
                section: Section::Block,
                doc: DeferredModel {
                    phases: d.doc.phases.push(DeferredPhaseModel { body: Seq::empty(), ..p }),
                    ..d.doc
                },
            },
        ),
{
    reveal_strlit("### From phase ");
    reveal_strlit("### ");
    reveal_strlit(": ");
    reveal_strlit("- [ ] ");
    reveal_strlit("- [x] ");
    reveal_strlit("- [X] ");
    round_trip::id_holds_no_colon(p.source_phase);
    let l = "### From phase "@ + p.source_phase + ": "@ + p.title;
    let rest = p.source_phase + ": "@ + p.title;
    let k = p.source_phase.len() as int;
    assert(l.subrange(0, 15) =~= "### From phase "@);
    assert(l.subrange(0, 4) =~= "### "@);
    assert(l.skip(15) =~= rest);
    assert(rest.subrange(k, k + 2) =~= ": "@);
    assert forall|j: int| 0 <= j < k implies !text::occurs_at(rest, ": "@, j) by {
        if text::occurs_at(rest, ": "@, j) {
            assert(rest.subrange(j, j + 2)[0] == rest[j]);
            assert(rest[j] == p.source_phase[j]);
        }
    }
    text::part_index_unique(rest, ": "@, 0, k);
    assert(rest.take(k) =~= p.source_phase);
    assert(rest.skip(k + 2) =~= p.title);
    no_section_heading(l);
    assert(l.subrange(0, 6)[0] == l[0]);
    assert(super::deferred_line(l) == (DeferredLine::BlockHeading {
        id: p.source_phase,
        title: p.title,
    }));
    assert(one_line(l)) by {
        assert(p.title.len() > 0 ==> l.last() == p.title.last());
    }
    reads_line(t, d, l);
    assert(l + "\n"@ =~= "### From phase "@ + p.source_phase + ": "@ + p.title + "\n"@);
}

/// The body of a block.
proof fn reads_body(t: Seq<char>, d: Draft, b: Seq<char>)
    requires
        reads(t, d),
        d.section == Section::Block,
        d.doc.phases.len() > 0,
        round_trip::at_line_end(b),
        round_trip::lf_only(b),
        forall|i: int| 0 <= i < text::lines(b).len() ==> body_line(#[trigger] text::lines(b)[i]),
    ensures
        reads(
            t + b,
            Draft {
                section: Section::Block,
                doc: DeferredModel { phases: super::extended(d.doc.phases, b), ..d.doc },
            },
        ),
    decreases b.len(),
{
    reveal_strlit("\n");
    let phases = d.doc.phases;
    if b.len() == 0 {
        assert(t + b =~= t);
        assert(phases.last().body + b =~= phases.last().body);
        assert(super::extended(phases, b) =~= phases);
    } else {
        let k = text::next_index(b, '\n', 0);
        text::next_index_bounds(b, '\n', 0);
        let l = b.take(k);
        let rest = b.skip(k + 1);
        assert(k > 0 ==> !(b[k - 1] == '\r' && b[k - 1 + 1] == '\n'));
        assert(one_line(l));
        text::lines_skip(b, k + 1);
        assert(b.subrange(0, k) =~= l);
        assert(text::lines(b) =~= seq![l] + text::lines(rest));
        assert(text::lines(b)[0] == l);
        assert forall|i: int| 0 <= i < text::lines(rest).len() implies body_line(
            #[trigger] text::lines(rest)[i],
        ) by {
            assert(text::lines(b)[i + 1] == text::lines(rest)[i]);
        }
        assert(round_trip::lf_only(rest)) by {
            assert forall|i: int| 0 <= i && i + 1 < rest.len() implies !(rest[i] == '\r'
                && #[trigger] rest[i + 1] == '\n') by {
                assert(b[i + k + 1 + 1] == rest[i + 1]);
            }
        }
        assert(rest.len() > 0 ==> rest.last() == b.last());
        reads_line(t, d, l);
        let e = Draft {
            section: Section::Block,
            doc: DeferredModel { phases: super::extended(phases, l + "\n"@), ..d.doc },
        };
        reads_body(t + (l + "\n"@), e, rest);
        assert(l + "\n"@ + rest =~= b);
        assert(t + (l + "\n"@) + rest =~= t + b);
        assert(phases.last().body + (l + "\n"@) + rest =~= phases.last().body + b);
        assert(super::extended(super::extended(phases, l + "\n"@), rest) =~= super::extended(
            phases,
            b,
        ));
    }
}

/// The blocks of the deferred phases.
proof fn reads_blocks(t: Seq<char>, d: Draft, phases: Seq<DeferredPhaseModel>)
    requires
        reads(t, d),
        d.section == Section::Phases,
        forall|i: int| 0 <= i < phases.len() ==> plain_block(#[trigger] phases[i]),
    ensures
        exists|section: Section|
            (section == Section::Phases || section == Section::Block) && #[trigger] reads(
                t + super::deferred_blocks(phases),
                Draft {
                    section,
                    doc: DeferredModel { phases: d.doc.phases + phases, ..d.doc },
                },
            ),
    decreases phases.len(),
{
    if phases.len() == 0 {
        assert(t + super::deferred_blocks(phases) =~= t);
        assert(d.doc.phases + phases =~= d.doc.phases);
        assert(reads(
            t + super::deferred_blocks(phases),
            Draft {
                section: d.section,
                doc: DeferredModel { phases: d.doc.phases + phases, ..d.doc },
            },
        ));
    } else {
        let front = phases.drop_last();
        let p = phases.last();
        let before = t + super::deferred_blocks(front);
        assert forall|i: int| 0 <= i < front.len() implies plain_block(#[trigger] front[i]) by {
            assert(phases[i] == front[i]);
        }
        reads_blocks(t, d, front);
        let section = choose|section: Section|
            (section == Section::Phases || section == Section::Block) && #[trigger] reads(
                before,
                Draft {
                    section,
                    doc: DeferredModel { phases: d.doc.phases + front, ..d.doc },
                },
            );
        let e = Draft {
            section,
            doc: DeferredModel { phases: d.doc.phases + front, ..d.doc },
        };
        reads_heading(before, e, p);
        let head = "### From phase "@ + p.source_phase + ": "@ + p.title + "\n"@;
        let opened = (d.doc.phases + front).push(DeferredPhaseModel { body: Seq::empty(), ..p });
        let f = Draft {
            section: Section::Block,
            doc: DeferredModel { phases: opened, ..d.doc },
        };
        reads_body(before + head, f, p.body);
        assert(before + head + p.body =~= t + super::deferred_blocks(phases));
        assert(Seq::<char>::empty() + p.body =~= p.body);
        assert(super::extended(opened, p.body) =~= d.doc.phases + phases);
        assert(reads(
            t + super::deferred_blocks(phases),
            Draft {
                section: Section::Block,
                doc: DeferredModel { phases: d.doc.phases + phases, ..d.doc },
            },
        ));
    }
}

/// A document whose entries can stand in a file reads back as it was written.
pub proof fn parse_undoes_serialize(doc: DeferredModel)
    requires
        plain_doc(doc),
    ensures
        super::parsed_deferred(super::deferred_text(doc)) == Ok::<DeferredModel, DeferredFault>(
            doc,
        ),
{
    let empty = DeferredModel { items: Seq::empty(), phases: Seq::empty() };
    let start = Draft { section: Section::Top, doc: empty };
    let none = Seq::<char>::empty();
    assert(text::lines(none) =~= Seq::<Seq<char>>::empty());
    assert(reads(none, start));
    let with_items = DeferredModel { items: doc.items, phases: Seq::empty() };
    let d = if doc.items.len() == 0 {
        start
    } else {
        Draft { section: Section::Items, doc: with_items }
    };
    let t = if doc.items.len() == 0 {
        none
    } else {
        "## Deferred items\n\n"@ + super::items_text(doc.items)
    };
    if doc.items.len() > 0 {
        reads_section(none, start, true);
        reads_items(
            none + "## Deferred items\n\n"@,
            Draft { section: Section::Items, doc: empty },
            doc.items,
        );
        assert(empty.items + doc.items =~= doc.items);
        assert(none + "## Deferred items\n\n"@ + super::items_text(doc.items) =~= t);
    } else {
        assert(doc.items =~= empty.items);
    }
    assert(reads(t, d));
    assert(d.doc == with_items);
    if doc.phases.len() == 0 {
        assert(doc.phases =~= empty.phases);
        assert(super::deferred_text(doc) =~= t);
    } else {
        let between = if doc.items.len() > 0 {
            "\n"@
        } else {
            none
        };
        if doc.items.len() > 0 {
            reads_blank(t, d);
        } else {
            assert(t + between =~= t);
        }
        reads_section(t + between, d, false);
        let heading = t + between + "## Deferred phases\n\n"@;
        reads_blocks(heading, Draft { section: Section::Phases, doc: d.doc }, doc.phases);
        assert(d.doc.phases + doc.phases =~= doc.phases);
        assert(heading + super::deferred_blocks(doc.phases) =~= super::deferred_text(doc));
    }
}

} // verus!
