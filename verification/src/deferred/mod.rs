//! `deferred.md` domain types, parser and serialization.
//!
//! The file has two sections, each of which may be absent: `## Deferred items`,
//! a checklist, and `## Deferred phases`, a sequence of
//! `### From phase NN: title` blocks.

pub mod round_trip;

use vstd::prelude::*;
use vstd::string::StringExecFns;

use crate::plan::id;
use crate::plan::{PhaseId, PhaseIdParseError};
use crate::text;

verus! {

/// One entry of the `## Deferred items` list.
#[derive(Debug, PartialEq, Eq)]
pub struct DeferredItem {
    /// The text that follows the checkbox.
    pub text: String,
    /// Whether the checkbox is ticked.
    pub done: bool,
}

/// One `### From phase NN: title` block of `## Deferred phases`.
#[derive(Debug, PartialEq, Eq)]
pub struct DeferredPhase {
    /// The phase that deferred the work.
    pub source_phase: PhaseId,
    /// Heading title.
    pub title: String,
    /// Raw markdown body following the heading line.
    pub body: String,
}

/// Parsed `deferred.md`.
#[derive(Debug, PartialEq, Eq)]
pub struct DeferredDoc {
    /// Checklist entries, in document order.
    pub items: Vec<DeferredItem>,
    /// Deferred phase blocks, in document order.
    pub phases: Vec<DeferredPhase>,
}

/// A [`DeferredItem`] as a mathematical value.
pub struct ItemModel {
    pub text: Seq<char>,
    pub done: bool,
}

/// A [`DeferredPhase`] as a mathematical value.
pub struct DeferredPhaseModel {
    pub source_phase: Seq<char>,
    pub title: Seq<char>,
    pub body: Seq<char>,
}

/// A [`DeferredDoc`] as a mathematical value.
pub struct DeferredModel {
    pub items: Seq<ItemModel>,
    pub phases: Seq<DeferredPhaseModel>,
}

impl View for DeferredItem {
    type V = ItemModel;

    open spec fn view(&self) -> ItemModel {
        ItemModel { text: self.text@, done: self.done }
    }
}

impl View for DeferredPhase {
    type V = DeferredPhaseModel;

    open spec fn view(&self) -> DeferredPhaseModel {
        DeferredPhaseModel {
            source_phase: self.source_phase@,
            title: self.title@,
            body: self.body@,
        }
    }
}

impl View for DeferredDoc {
    type V = DeferredModel;

    open spec fn view(&self) -> DeferredModel {
        DeferredModel {
            items: item_models(self.items@),
            phases: deferred_phase_models(self.phases@),
        }
    }
}

/// The models of a list of items.
pub open spec fn item_models(items: Seq<DeferredItem>) -> Seq<ItemModel> {
    items.map_values(|i: DeferredItem| i@)
}

/// The models of a list of deferred phases.
pub open spec fn deferred_phase_models(phases: Seq<DeferredPhase>) -> Seq<DeferredPhaseModel> {
    phases.map_values(|p: DeferredPhase| p@)
}

/// The checklist line of an item.
pub open spec fn item_line(item: ItemModel) -> Seq<char> {
    (if item.done {
        "- [x] "@
    } else {
        "- [ ] "@
    }) + item.text + "\n"@
}

/// The checklist lines of `items`.
pub open spec fn items_text(items: Seq<ItemModel>) -> Seq<char>
    decreases items.len(),
{
    if items.len() == 0 {
        Seq::empty()
    } else {
        items_text(items.drop_last()) + item_line(items.last())
    }
}

/// The block of a deferred phase.
pub open spec fn deferred_block(p: DeferredPhaseModel) -> Seq<char> {
    "### From phase "@ + p.source_phase + ": "@ + p.title + "\n"@ + p.body
}

/// The blocks of `phases`.
pub open spec fn deferred_blocks(phases: Seq<DeferredPhaseModel>) -> Seq<char>
    decreases phases.len(),
{
    if phases.len() == 0 {
        Seq::empty()
    } else {
        deferred_blocks(phases.drop_last()) + deferred_block(phases.last())
    }
}

/// The text of a `deferred.md` file; a section without entries is left out.
pub open spec fn deferred_text(doc: DeferredModel) -> Seq<char> {
    let items = if doc.items.len() == 0 {
        Seq::empty()
    } else {
        "## Deferred items\n\n"@ + items_text(doc.items)
    };
    let between = if doc.items.len() > 0 && doc.phases.len() > 0 {
        "\n"@
    } else {
        Seq::empty()
    };
    let phases = if doc.phases.len() == 0 {
        Seq::empty()
    } else {
        "## Deferred phases\n\n"@ + deferred_blocks(doc.phases)
    };
    items + between + phases
}

/// A section without entries is left out, and the two sections stand apart by one
/// blank line, the items first.
pub proof fn the_sections_stand_apart(items: Seq<ItemModel>, phases: Seq<DeferredPhaseModel>)
    ensures
        deferred_text(DeferredModel { items: Seq::empty(), phases: Seq::empty() }).len() == 0,
        items.len() > 0 ==> deferred_text(DeferredModel { items, phases: Seq::empty() })
            == "## Deferred items\n\n"@ + items_text(items),
        phases.len() > 0 ==> deferred_text(DeferredModel { items: Seq::empty(), phases })
            == "## Deferred phases\n\n"@ + deferred_blocks(phases),
        items.len() > 0 && phases.len() > 0 ==> deferred_text(DeferredModel { items, phases })
            == deferred_text(DeferredModel { items, phases: Seq::empty() }) + "\n"@
            + deferred_text(DeferredModel { items: Seq::empty(), phases }),
{
    let none = Seq::<char>::empty();
    let upper = "## Deferred items\n\n"@ + items_text(items);
    let lower = "## Deferred phases\n\n"@ + deferred_blocks(phases);
    assert(upper + none + none =~= upper);
    assert(none + none + lower =~= lower);
}

impl DeferredDoc {
    /// A document with no entries.
    pub fn empty() -> (r: Self)
        ensures
            r@.items.len() == 0,
            r@.phases.len() == 0,
    {
        DeferredDoc { items: Vec::new(), phases: Vec::new() }
    }
}

/// The unchecked entries of `items`, in order.
pub open spec fn unchecked_items(items: Seq<ItemModel>) -> Seq<ItemModel>
    decreases items.len(),
{
    if items.len() == 0 {
        Seq::empty()
    } else if items.last().done {
        unchecked_items(items.drop_last())
    } else {
        unchecked_items(items.drop_last()).push(items.last())
    }
}

/// What is unchecked is what is not done: exactly the items that are not done
/// stay, each as it is, and in their order.
pub proof fn unchecked_means_not_done(items: Seq<ItemModel>)
    ensures
        unchecked_items(items) == items.filter(|i: ItemModel| !i.done),
        unchecked_items(items).len() <= items.len(),
        unchecked_items(items).len() == 0 <==> forall|i: int|
            0 <= i < items.len() ==> (#[trigger] items[i]).done,
    decreases items.len(),
{
    reveal(Seq::filter);
    if items.len() > 0 {
        let front = items.drop_last();
        unchecked_means_not_done(front);
        if items.last().done {
            assert forall|i: int| 0 <= i < items.len() && unchecked_items(items).len() == 0 implies (
            #[trigger] items[i]).done by {
                if i < front.len() {
                    assert(front[i].done);
                }
            }
            assert forall|i: int|
                0 <= i < front.len() && (forall|j: int|
                    0 <= j < items.len() ==> (#[trigger] items[j]).done) implies (
            #[trigger] front[i]).done by {
                assert(items[i].done);
            }
        } else {
            assert(!items[items.len() - 1].done);
        }
    }
}

/// The texts of `items`.
pub open spec fn item_texts(items: Seq<ItemModel>) -> Seq<Seq<char>> {
    items.map_values(|i: ItemModel| i.text)
}

impl DeferredDoc {
    /// A copy of the document.
    pub fn copy(&self) -> (r: Self)
        ensures
            r@ == self@,
    {
        let mut items: Vec<DeferredItem> = Vec::new();
        for i in 0..self.items.len()
            invariant
                items@.len() == i,
                forall|j: int| 0 <= j < i ==> (#[trigger] items@[j])@ == self.items@[j]@,
        {
            items.push(self.items[i].copy());
        }
        assert(item_models(items@) =~= item_models(self.items@));
        DeferredDoc { items, phases: copy_phases(&self.phases) }
    }

    /// Drops the ticked-off entries.
    pub fn sweep(&mut self)
        ensures
            final(self)@ == (DeferredModel {
                items: unchecked_items(old(self)@.items),
                phases: old(self)@.phases,
            }),
    {
        let ghost all = item_models(self.items@);
        let mut kept: Vec<DeferredItem> = Vec::new();
        assert(item_models(kept@) =~= unchecked_items(all.take(0)));
        for i in 0..self.items.len()
            invariant
                all == item_models(self.items@),
                self.items == old(self).items,
                self.phases == old(self).phases,
                item_models(kept@) == unchecked_items(all.take(i as int)),
        {
            let ghost before = item_models(kept@);
            proof {
                assert(all.take(i + 1).drop_last() =~= all.take(i as int));
                assert(all.take(i + 1).last() == self.items@[i as int]@);
            }
            if !self.items[i].done {
                let item = self.items[i].copy();
                kept.push(item);
                assert(item_models(kept@) =~= before.push(item@));
            }
        }
        assert(all.take(all.len() as int) =~= all);
        self.items = kept;
    }

    /// The texts of the unchecked entries, in document order.
    pub fn unchecked_texts(&self) -> (r: Vec<String>)
        ensures
            text::views(r@) == item_texts(unchecked_items(self@.items)),
    {
        let ghost all = item_models(self.items@);
        let mut out: Vec<String> = Vec::new();
        assert(text::views(out@) =~= item_texts(unchecked_items(all.take(0))));
        for i in 0..self.items.len()
            invariant
                all == item_models(self.items@),
                text::views(out@) == item_texts(unchecked_items(all.take(i as int))),
        {
            let ghost before = text::views(out@);
            let ghost texts = item_texts(unchecked_items(all.take(i as int)));
            proof {
                assert(all.take(i + 1).drop_last() =~= all.take(i as int));
                assert(all.take(i + 1).last() == self.items@[i as int]@);
            }
            if !self.items[i].done {
                out.push(self.items[i].text.clone());
                proof {
                    let t = self.items@[i as int].text@;
                    assert(text::views(out@) =~= before.push(t));
                    assert(item_texts(unchecked_items(all.take(i + 1))) =~= texts.push(t));
                }
            }
        }
        assert(all.take(all.len() as int) =~= all);
        out
    }
}

impl DeferredItem {
    /// A copy of the item.
    pub fn copy(&self) -> (r: Self)
        ensures
            r@ == self@,
    {
        DeferredItem { text: self.text.clone(), done: self.done }
    }
}

impl DeferredPhase {
    /// A copy of the block.
    pub fn copy(&self) -> (r: Self)
        ensures
            r@ == self@,
    {
        DeferredPhase {
            source_phase: self.source_phase.clone(),
            title: self.title.clone(),
            body: self.body.clone(),
        }
    }
}

/// Copies a list of deferred phases.
pub fn copy_phases(phases: &Vec<DeferredPhase>) -> (r: Vec<DeferredPhase>)
    ensures
        deferred_phase_models(r@) == deferred_phase_models(phases@),
{
    let mut out: Vec<DeferredPhase> = Vec::new();
    for i in 0..phases.len()
        invariant
            out@.len() == i,
            forall|j: int| 0 <= j < i ==> (#[trigger] out@[j])@ == phases@[j]@,
    {
        out.push(phases[i].copy());
    }
    assert(deferred_phase_models(out@) =~= deferred_phase_models(phases@));
    out
}

/// Serialize a document back to `deferred.md` text. An empty document is the
/// empty text.
pub fn serialize(doc: &DeferredDoc) -> (r: String)
    ensures
        r@ == deferred_text(doc@),
{
    let mut out = String::new();
    let ghost items = item_models(doc.items@);
    if doc.items.len() > 0 {
        out.append("## Deferred items\n\n");
        let ghost lead = out@;
        assert(lead + items_text(items.take(0)) =~= lead);
        for i in 0..doc.items.len()
            invariant
                items == item_models(doc.items@),
                out@ == lead + items_text(items.take(i as int)),
        {
            let ghost before = out@;
            let item = &doc.items[i];
            if item.done {
                out.append("- [x] ");
            } else {
                out.append("- [ ] ");
            }
            out.append(item.text.as_str());
            out.append("\n");
            proof {
                let now = items.take(i + 1);
                assert(now.drop_last() =~= items.take(i as int));
                assert(now.last() == item@);
                assert(out@ =~= before + item_line(item@));
                assert(out@ =~= lead + items_text(now));
            }
        }
        assert(items.take(items.len() as int) =~= items);
        assert(out@ =~= "## Deferred items\n\n"@ + items_text(items));
        if doc.phases.len() > 0 {
            out.append("\n");
        }
    }
    let ghost front = out@;
    let ghost phases = deferred_phase_models(doc.phases@);
    if doc.phases.len() > 0 {
        out.append("## Deferred phases\n\n");
        let ghost lead = out@;
        assert(lead + deferred_blocks(phases.take(0)) =~= lead);
        for i in 0..doc.phases.len()
            invariant
                phases == deferred_phase_models(doc.phases@),
                out@ == lead + deferred_blocks(phases.take(i as int)),
        {
            let ghost before = out@;
            let p = &doc.phases[i];
            out.append("### From phase ");
            out.append(p.source_phase.as_str());
            out.append(": ");
            out.append(p.title.as_str());
            out.append("\n");
            out.append(p.body.as_str());
            proof {
                let now = phases.take(i + 1);
                assert(now.drop_last() =~= phases.take(i as int));
                assert(now.last() == p@);
                assert(out@ =~= before + deferred_block(p@));
                assert(out@ =~= lead + deferred_blocks(now));
            }
        }
        assert(phases.take(phases.len() as int) =~= phases);
        assert(out@ =~= front + ("## Deferred phases\n\n"@ + deferred_blocks(phases)));
    }
    assert(out@ =~= deferred_text(doc@));
    out
}

// ---------------------------------------------------------------------------
// Parsing
// ---------------------------------------------------------------------------

/// Errors produced by [`parse`]. Line numbers are 1-based.
#[derive(Debug, PartialEq, Eq)]
pub enum DeferredParseError {
    /// A line that has no place where it stands.
    UnexpectedLine {
        /// Line on which it stands.
        line: usize,
        /// The line itself.
        raw: String,
    },
    /// A `###` heading that does not read `### From phase NN: title`.
    BadHeading {
        /// Line on which it stands.
        line: usize,
        /// The line itself.
        raw: String,
    },
    /// A `### From phase NN: title` heading whose `NN` is no phase id.
    BadHeadingId {
        /// Line on which it stands.
        line: usize,
        /// Why the id does not parse.
        source: PhaseIdParseError,
    },
}

/// What a [`DeferredParseError`] says, as a mathematical value.
pub enum DeferredFault {
    UnexpectedLine { line: nat, raw: Seq<char> },
    BadHeading { line: nat, raw: Seq<char> },
    BadHeadingId { line: nat, source: id::PhaseIdFault },
}

impl View for DeferredParseError {
    type V = DeferredFault;

    open spec fn view(&self) -> DeferredFault {
        match *self {
            DeferredParseError::UnexpectedLine { line, raw } => DeferredFault::UnexpectedLine {
                line: line as nat,
                raw: raw@,
            },
            DeferredParseError::BadHeading { line, raw } => DeferredFault::BadHeading {
                line: line as nat,
                raw: raw@,
            },
            DeferredParseError::BadHeadingId { line, source } => DeferredFault::BadHeadingId {
                line: line as nat,
                source: source@,
            },
        }
    }
}

/// The message of a parse error.
pub open spec fn deferred_message(e: DeferredFault) -> Seq<char> {
    match e {
        DeferredFault::UnexpectedLine { line, raw } => "line "@ + text::decimal(line)
            + ": unexpected content "@ + text::debug_text(raw),
        DeferredFault::BadHeading { line, raw } => "line "@ + text::decimal(line)
            + ": malformed heading "@ + text::debug_text(raw),
        DeferredFault::BadHeadingId { line, source } => "line "@ + text::decimal(line)
            + ": invalid phase id: "@ + id::id_fault_message(source),
    }
}

/// The message of an error names its line, and what stands there.
pub proof fn errors_name_their_line(e: DeferredFault)
    ensures
        e matches DeferredFault::UnexpectedLine { line, raw } ==> {
            &&& text::contains(deferred_message(e), "line "@ + text::decimal(line))
            &&& text::contains(
                deferred_message(e),
                ": unexpected content "@ + text::debug_text(raw),
            )
        },
        e matches DeferredFault::BadHeading { line, raw } ==> {
            &&& text::contains(deferred_message(e), "line "@ + text::decimal(line))
            &&& text::contains(deferred_message(e), ": malformed heading "@ + text::debug_text(raw))
        },
        e matches DeferredFault::BadHeadingId { line, source } ==> {
            &&& text::contains(deferred_message(e), "line "@ + text::decimal(line))
            &&& text::contains(
                deferred_message(e),
                ": invalid phase id: "@ + id::id_fault_message(source),
            )
        },
{
    match e {
        DeferredFault::UnexpectedLine { line, raw } => {
            text::parts_are_held(
                Seq::<char>::empty(),
                "line "@ + text::decimal(line),
                ": unexpected content "@ + text::debug_text(raw),
                deferred_message(e),
            );
            text::parts_are_held(
                "line "@ + text::decimal(line),
                ": unexpected content "@ + text::debug_text(raw),
                Seq::<char>::empty(),
                deferred_message(e),
            );
        },
        DeferredFault::BadHeading { line, raw } => {
            text::parts_are_held(
                Seq::<char>::empty(),
                "line "@ + text::decimal(line),
                ": malformed heading "@ + text::debug_text(raw),
                deferred_message(e),
            );
            text::parts_are_held(
                "line "@ + text::decimal(line),
                ": malformed heading "@ + text::debug_text(raw),
                Seq::<char>::empty(),
                deferred_message(e),
            );
        },
        DeferredFault::BadHeadingId { line, source } => {
            text::parts_are_held(
                Seq::<char>::empty(),
                "line "@ + text::decimal(line),
                ": invalid phase id: "@ + id::id_fault_message(source),
                deferred_message(e),
            );
            text::parts_are_held(
                "line "@ + text::decimal(line),
                ": invalid phase id: "@ + id::id_fault_message(source),
                Seq::<char>::empty(),
                deferred_message(e),
            );
        },
    }
}

impl DeferredParseError {
    /// The message of the error.
    pub fn message(&self) -> (r: String)
        ensures
            r@ == deferred_message(self@),
    {
        let mut out = text::owned("line ");
        match self {
            DeferredParseError::UnexpectedLine { line, raw } => {
                out.append(text::decimal_usize(*line).as_str());
                out.append(": unexpected content ");
                out.append(text::quoted(raw.as_str()).as_str());
            },
            DeferredParseError::BadHeading { line, raw } => {
                out.append(text::decimal_usize(*line).as_str());
                out.append(": malformed heading ");
                out.append(text::quoted(raw.as_str()).as_str());
            },
            DeferredParseError::BadHeadingId { line, source } => {
                out.append(text::decimal_usize(*line).as_str());
                out.append(": invalid phase id: ");
                out.append(source.message().as_str());
            },
        }
        out
    }
}

/// The part of the file that a line stands in.
#[derive(Debug, Clone, Copy, PartialEq, Eq, Structural)]
pub enum Section {
    /// Before the first section heading.
    Top,
    /// Under `## Deferred items`.
    Items,
    /// Under `## Deferred phases`, before the first block.
    Phases,
    /// Inside a `### From phase NN: title` block.
    Block,
}

/// What a line is.
pub enum DeferredLine {
    ItemsHeading,
    PhasesHeading,
    Item(ItemModel),
    BlockHeading { id: Seq<char>, title: Seq<char> },
    BadHeading,
    BadHeadingId(id::PhaseIdFault),
    Blank,
    Text,
}

/// What a `### ` line is.
pub open spec fn block_line(l: Seq<char>) -> DeferredLine {
    if !text::occurs_at(l, "### From phase "@, 0) {
        DeferredLine::BadHeading
    } else {
        let rest = l.skip(15);
        match text::part_index(rest, ": "@, 0) {
            None => DeferredLine::BadHeading,
            Some(k) => match id::id_fault(rest.take(k)) {
                Some(fault) => DeferredLine::BadHeadingId(fault),
                None => DeferredLine::BlockHeading { id: rest.take(k), title: rest.skip(k + 2) },
            },
        }
    }
}

/// What the line `l` is.
pub open spec fn deferred_line(l: Seq<char>) -> DeferredLine {
    if text::trim_end(l) == "## Deferred items"@ {
        DeferredLine::ItemsHeading
    } else if text::trim_end(l) == "## Deferred phases"@ {
        DeferredLine::PhasesHeading
    } else if text::occurs_at(l, "- [ ] "@, 0) {
        DeferredLine::Item(ItemModel { text: l.skip(6), done: false })
    } else if text::occurs_at(l, "- [x] "@, 0) || text::occurs_at(l, "- [X] "@, 0) {
        DeferredLine::Item(ItemModel { text: l.skip(6), done: true })
    } else if text::occurs_at(l, "### "@, 0) {
        block_line(l)
    } else if text::trim_end(l).len() == 0 {
        DeferredLine::Blank
    } else {
        DeferredLine::Text
    }
}

/// What has been read so far.
pub struct Draft {
    pub section: Section,
    pub doc: DeferredModel,
}

/// `phases` with `more` at the end of the last body.
pub open spec fn extended(phases: Seq<DeferredPhaseModel>, more: Seq<char>) -> Seq<
    DeferredPhaseModel,
> {
    phases.drop_last().push(
        DeferredPhaseModel { body: phases.last().body + more, ..phases.last() },
    )
}

/// A line under `## Deferred phases` that opens no block. Inside a block it
/// belongs to the block's body.
pub open spec fn in_phases(d: Draft, l: Seq<char>, line: nat) -> Result<Draft, DeferredFault> {
    if d.section == Section::Block {
        Ok(
            Draft {
                section: d.section,
                doc: DeferredModel { phases: extended(d.doc.phases, l + "\n"@), ..d.doc },
            },
        )
    } else if deferred_line(l) is Blank {
        Ok(d)
    } else {
        Err(DeferredFault::UnexpectedLine { line, raw: l })
    }
}

/// The draft after the line `l`, which has the number `line`.
pub open spec fn with_line(d: Draft, l: Seq<char>, line: nat) -> Result<Draft, DeferredFault> {
    match deferred_line(l) {
        DeferredLine::ItemsHeading => Ok(Draft { section: Section::Items, doc: d.doc }),
        DeferredLine::PhasesHeading => Ok(Draft { section: Section::Phases, doc: d.doc }),
        kind => match d.section {
            Section::Top => if kind is Blank {
                Ok(d)
            } else {
                Err(DeferredFault::UnexpectedLine { line, raw: l })
            },
            Section::Items => match kind {
                DeferredLine::Blank => Ok(d),
                DeferredLine::Item(item) => Ok(
                    Draft {
                        section: d.section,
                        doc: DeferredModel { items: d.doc.items.push(item), ..d.doc },
                    },
                ),
                _ => Err(DeferredFault::UnexpectedLine { line, raw: l }),
            },
            _ => match kind {
                DeferredLine::BlockHeading { id, title } => Ok(
                    Draft {
                        section: Section::Block,
                        doc: DeferredModel {
                            phases: d.doc.phases.push(
                                DeferredPhaseModel { source_phase: id, title, body: Seq::empty() },
                            ),
                            ..d.doc
                        },
                    },
                ),
                DeferredLine::BadHeading => Err(DeferredFault::BadHeading { line, raw: l }),
                DeferredLine::BadHeadingId(source) => Err(
                    DeferredFault::BadHeadingId { line, source },
                ),
                _ => in_phases(d, l, line),
            },
        },
    }
}

/// The draft after the first `n` of `lines`.
pub open spec fn draft_after(lines: Seq<Seq<char>>, n: nat) -> Result<Draft, DeferredFault>
    decreases n,
{
    if n == 0 {
        Ok(
            Draft {
                section: Section::Top,
                doc: DeferredModel { items: Seq::empty(), phases: Seq::empty() },
            },
        )
    } else {
        match draft_after(lines, (n - 1) as nat) {
            Err(e) => Err(e),
            Ok(d) => with_line(d, lines[n - 1], n),
        }
    }
}

/// What the text of a `deferred.md` file says.
pub open spec fn parsed_deferred(s: Seq<char>) -> Result<DeferredModel, DeferredFault> {
    match draft_after(text::lines(s), text::lines(s).len()) {
        Err(e) => Err(e),
        Ok(d) => Ok(d.doc),
    }
}

/// After an error nothing more is read.
proof fn error_stays(lines: Seq<Seq<char>>, n: nat, m: nat)
    requires
        n <= m,
        draft_after(lines, n) is Err,
    ensures
        draft_after(lines, m) == draft_after(lines, n),
    decreases m - n,
{
    if n < m {
        error_stays(lines, n, (m - 1) as nat);
    }
}

/// The first line that cannot be read is the one that is reported, with its own
/// number, counted from one; nothing behind it matters.
pub proof fn the_first_bad_line_is_reported(s: Seq<char>, n: nat, d: Draft)
    requires
        n < text::lines(s).len(),
        draft_after(text::lines(s), n) == Ok::<Draft, DeferredFault>(d),
        with_line(d, text::lines(s)[n as int], n + 1) is Err,
    ensures
        parsed_deferred(s) == Err::<DeferredModel, DeferredFault>(
            with_line(d, text::lines(s)[n as int], n + 1)->Err_0,
        ),
{
    error_stays(text::lines(s), n + 1, text::lines(s).len());
}

/// A checklist line is an item with the text behind its box; it is done where the
/// box holds an `x`, small or capital, and not where it is empty.
pub proof fn a_crossed_box_is_done(t: Seq<char>)
    ensures
        deferred_line("- [ ] "@ + t) == DeferredLine::Item(ItemModel { text: t, done: false }),
        deferred_line("- [x] "@ + t) == DeferredLine::Item(ItemModel { text: t, done: true }),
        deferred_line("- [X] "@ + t) == DeferredLine::Item(ItemModel { text: t, done: true }),
{
    reveal_strlit("- [ ] ");
    reveal_strlit("- [x] ");
    reveal_strlit("- [X] ");
    reveal_strlit("## Deferred items");
    reveal_strlit("## Deferred phases");
    let (a, b, c) = ("- [ ] "@ + t, "- [x] "@ + t, "- [X] "@ + t);
    text::trim_end_is_prefix(a);
    text::trim_end_is_prefix(b);
    text::trim_end_is_prefix(c);
    assert(a.subrange(0, 6) =~= "- [ ] "@);
    assert(b.subrange(0, 6) =~= "- [x] "@);
    assert(c.subrange(0, 6) =~= "- [X] "@);
    assert(a.skip(6) =~= t && b.skip(6) =~= t && c.skip(6) =~= t);
    assert(b.subrange(0, 6)[3] != "- [ ] "@[3]);
    assert(c.subrange(0, 6)[3] != "- [ ] "@[3]);
    heading_starts_with_hash(a);
    heading_starts_with_hash(b);
    heading_starts_with_hash(c);
}

proof fn heading_starts_with_hash(l: Seq<char>)
    requires
        l.len() > 0,
        l[0] != '#',
    ensures
        text::trim_end(l) != "## Deferred items"@,
        text::trim_end(l) != "## Deferred phases"@,
{
    reveal_strlit("## Deferred items");
    reveal_strlit("## Deferred phases");
    text::trim_end_is_prefix(l);
    let t = text::trim_end(l);
    if t.len() > 0 {
        assert(t[0] == l[0]);
    }
    assert("## Deferred items"@[0] == '#' && "## Deferred phases"@[0] == '#');
}

/// How a line changes what was read. A section heading opens its section wherever
/// it stands. Under the items an item is put behind the others, and blank lines
/// are passed over; under the phases a block heading opens a block, and every line
/// behind it that opens no other belongs to its body, as it stands. Nothing that
/// was read before is changed but the body that grows.
pub proof fn lines_add_to_their_section(d: Draft, l: Seq<char>, line: nat)
    ensures
        deferred_line(l) is ItemsHeading ==> with_line(d, l, line) == Ok::<Draft, DeferredFault>(
            Draft { section: Section::Items, doc: d.doc },
        ),
        deferred_line(l) is PhasesHeading ==> with_line(d, l, line) == Ok::<Draft, DeferredFault>(
            Draft { section: Section::Phases, doc: d.doc },
        ),
        d.section == Section::Items ==> (deferred_line(l) matches DeferredLine::Item(item)
            ==> with_line(d, l, line) == Ok::<Draft, DeferredFault>(
            Draft {
                section: Section::Items,
                doc: DeferredModel { items: d.doc.items.push(item), phases: d.doc.phases },
            },
        )),
        deferred_line(l) is Blank && d.section != Section::Block ==> with_line(d, l, line) == Ok::<
            Draft,
            DeferredFault,
        >(d),
        d.section == Section::Top && !(deferred_line(l) is ItemsHeading) && !(deferred_line(l)
            is PhasesHeading) && !(deferred_line(l) is Blank) ==> with_line(d, l, line) == Err::<
            Draft,
            DeferredFault,
        >(DeferredFault::UnexpectedLine { line, raw: l }),
        d.section == Section::Phases || d.section == Section::Block ==> (deferred_line(l) matches
            DeferredLine::BlockHeading { id, title } ==> (with_line(d, l, line) matches Ok(n)
            && n.section == Section::Block && n.doc.items == d.doc.items && n.doc.phases
            == d.doc.phases.push(
            DeferredPhaseModel { source_phase: id, title, body: Seq::empty() },
        ))),
        d.section == Section::Block && d.doc.phases.len() > 0 && (deferred_line(l) is Item
            || deferred_line(l) is Blank || deferred_line(l) is Text) ==> (with_line(d, l, line)
            matches Ok(n) && n.section == Section::Block && n.doc.items == d.doc.items
            && n.doc.phases.len() == d.doc.phases.len() && n.doc.phases.drop_last()
            == d.doc.phases.drop_last() && n.doc.phases.last().body == d.doc.phases.last().body + l
            + "\n"@ && n.doc.phases.last().title == d.doc.phases.last().title
            && n.doc.phases.last().source_phase == d.doc.phases.last().source_phase),
{
    if d.section == Section::Block && d.doc.phases.len() > 0 {
        let n = extended(d.doc.phases, l + "\n"@);
        assert(n.drop_last() =~= d.doc.phases.drop_last());
        assert(d.doc.phases.last().body + (l + "\n"@) =~= d.doc.phases.last().body + l + "\n"@);
    }
}

/// A draft inside a block has a block.
proof fn block_is_open(lines: Seq<Seq<char>>, n: nat)
    ensures
        draft_after(lines, n) matches Ok(d) ==> (d.section == Section::Block ==> d.doc.phases.len()
            > 0),
    decreases n,
{
    if n > 0 {
        block_is_open(lines, (n - 1) as nat);
    }
}

/// A line, read.
enum LineRead {
    ItemsHeading,
    PhasesHeading,
    Item(DeferredItem),
    BlockHeading { id: PhaseId, title: String },
    BadHeading,
    BadHeadingId(PhaseIdParseError),
    Blank,
    Text,
}

impl View for LineRead {
    type V = DeferredLine;

    closed spec fn view(&self) -> DeferredLine {
        match *self {
            LineRead::ItemsHeading => DeferredLine::ItemsHeading,
            LineRead::PhasesHeading => DeferredLine::PhasesHeading,
            LineRead::Item(item) => DeferredLine::Item(item@),
            LineRead::BlockHeading { id, title } => DeferredLine::BlockHeading {
                id: id@,
                title: title@,
            },
            LineRead::BadHeading => DeferredLine::BadHeading,
            LineRead::BadHeadingId(e) => DeferredLine::BadHeadingId(e@),
            LineRead::Blank => DeferredLine::Blank,
            LineRead::Text => DeferredLine::Text,
        }
    }
}

fn read_block_line(l: &str) -> (r: LineRead)
    ensures
        r@ == block_line(l@),
{
    proof {
        reveal_strlit("### From phase ");
        reveal_strlit(": ");
    }
    if !text::starts_with(l, "### From phase ") {
        return LineRead::BadHeading;
    }
    let v = text::chars_of(l);
    let rest = text::slice(v.as_slice(), 15, v.len());
    assert(rest@ =~= l@.skip(15));
    let w = text::chars_of(rest.as_str());
    let colon = text::chars_of(": ");
    match text::find_part(w.as_slice(), colon.as_slice(), 0) {
        None => LineRead::BadHeading,
        Some(k) => {
            let name = text::slice(w.as_slice(), 0, k);
            let title = text::slice(w.as_slice(), k + 2, w.len());
            assert(name@ =~= rest@.take(k as int));
            assert(title@ =~= rest@.skip(k + 2));
            match PhaseId::parse(name.as_str()) {
                Ok(id) => LineRead::BlockHeading { id, title },
                Err(e) => LineRead::BadHeadingId(e),
            }
        },
    }
}

fn read_line(l: &str) -> (r: LineRead)
    ensures
        r@ == deferred_line(l@),
{
    proof {
        reveal_strlit("- [ ] ");
        reveal_strlit("- [x] ");
        reveal_strlit("- [X] ");
    }
    let trimmed = text::trimmed_end(l);
    if text::same(trimmed.as_str(), "## Deferred items") {
        LineRead::ItemsHeading
    } else if text::same(trimmed.as_str(), "## Deferred phases") {
        LineRead::PhasesHeading
    } else if text::starts_with(l, "- [ ] ") {
        let v = text::chars_of(l);
        let rest = text::slice(v.as_slice(), 6, v.len());
        assert(rest@ =~= l@.skip(6));
        LineRead::Item(DeferredItem { text: rest, done: false })
    } else if text::starts_with(l, "- [x] ") || text::starts_with(l, "- [X] ") {
        let v = text::chars_of(l);
        let rest = text::slice(v.as_slice(), 6, v.len());
        assert(rest@ =~= l@.skip(6));
        LineRead::Item(DeferredItem { text: rest, done: true })
    } else if text::starts_with(l, "### ") {
        read_block_line(l)
    } else if trimmed.as_str().is_empty() {
        LineRead::Blank
    } else {
        LineRead::Text
    }
}

/// Parse the text of a `deferred.md` file. The empty text is the empty
/// document.
pub fn parse(input: &str) -> (r: Result<DeferredDoc, DeferredParseError>)
    ensures
        match (r, parsed_deferred(input@)) {
            (Ok(doc), Ok(wanted)) => doc@ == wanted,
            (Err(e), Err(fault)) => e@ == fault,
            _ => false,
        },
{
    let lines = text::lines_of(input);
    let ghost all = text::lines(input@);
    let mut section = Section::Top;
    let mut items: Vec<DeferredItem> = Vec::new();
    let mut phases: Vec<DeferredPhase> = Vec::new();
    assert(item_models(items@) =~= Seq::<ItemModel>::empty());
    assert(deferred_phase_models(phases@) =~= Seq::<DeferredPhaseModel>::empty());
    for i in 0..lines.len()
        invariant
            all == text::lines(input@),
            text::views(lines@) == all,
            draft_after(all, i as nat) == Ok::<Draft, DeferredFault>(
                Draft {
                    section,
                    doc: DeferredModel {
                        items: item_models(items@),
                        phases: deferred_phase_models(phases@),
                    },
                },
            ),
    {
        let raw = lines[i].as_str();
        let line: usize = i + 1;
        let ghost old_items = items@;
        let ghost old_phases = phases@;
        proof {
            assert(raw@ == all[i as int]);
            block_is_open(all, i as nat);
            if draft_after(all, (i + 1) as nat) is Err {
                error_stays(all, (i + 1) as nat, all.len());
            }
        }
        match read_line(raw) {
            LineRead::ItemsHeading => {
                section = Section::Items;
            },
            LineRead::PhasesHeading => {
                section = Section::Phases;
            },
            LineRead::Item(item) => {
                if section == Section::Items {
                    items.push(item);
                    assert(item_models(items@) =~= item_models(old_items).push(item@));
                } else if section == Section::Block {
                    append_line(&mut phases, raw);
                } else {
                    return Err(DeferredParseError::UnexpectedLine { line, raw: text::owned(raw) });
                }
            },
            LineRead::BlockHeading { id, title } => {
                if section == Section::Top || section == Section::Items {
                    return Err(DeferredParseError::UnexpectedLine { line, raw: text::owned(raw) });
                }
                section = Section::Block;
                phases.push(DeferredPhase { source_phase: id, title, body: String::new() });
                assert(deferred_phase_models(phases@) =~= deferred_phase_models(old_phases).push(
                    phases@.last()@,
                ));
            },
            LineRead::BadHeading => {
                if section == Section::Top || section == Section::Items {
                    return Err(DeferredParseError::UnexpectedLine { line, raw: text::owned(raw) });
                }
                return Err(DeferredParseError::BadHeading { line, raw: text::owned(raw) });
            },
            LineRead::BadHeadingId(source) => {
                if section == Section::Top || section == Section::Items {
                    return Err(DeferredParseError::UnexpectedLine { line, raw: text::owned(raw) });
                }
                return Err(DeferredParseError::BadHeadingId { line, source });
            },
            LineRead::Blank => {
                if section == Section::Block {
                    append_line(&mut phases, raw);
                }
            },
            LineRead::Text => {
                if section == Section::Block {
                    append_line(&mut phases, raw);
                } else {
                    return Err(DeferredParseError::UnexpectedLine { line, raw: text::owned(raw) });
                }
            },
        }
    }
    Ok(DeferredDoc { items, phases })
}

/// Adds a line to the body of the last block.
fn append_line(phases: &mut Vec<DeferredPhase>, line: &str)
    requires
        old(phases)@.len() > 0,
    ensures
        deferred_phase_models(final(phases)@) == extended(
            deferred_phase_models(old(phases)@),
            line@ + "\n"@,
        ),
{
    let ghost before = phases@;
    match phases.pop() {
        Some(mut last) => {
            let ghost body = last.body@;
            last.body.append(line);
            last.body.append("\n");
            assert(last.body@ =~= body + (line@ + "\n"@));
            phases.push(last);
            assert(deferred_phase_models(phases@) =~= extended(
                deferred_phase_models(before),
                line@ + "\n"@,
            ));
        },
        None => {},
    }
}

} // verus!
