//! System + user prompt templates for each agent role.
//!
//! Each public function in this module pairs one template of
//! [`templates`] with the typed inputs the runner has on hand and returns a
//! single rendered string ready to hand to an agent.

pub mod caveman;
pub mod render;
pub mod templates;

pub use render::render;
pub use templates::TEMPLATE_STATIC_BUDGET;

use vstd::prelude::*;
use vstd::string::StringExecFns;

use crate::deferred;
use crate::deferred::DeferredDoc;
use crate::plan::{Phase, PhaseId, PhaseModel, Plan};
use crate::text;

verus! {

// ---------------------------------------------------------------------------
// Blocks that are embedded in prompts
// ---------------------------------------------------------------------------

/// One stale `## Deferred items` entry: an item that has survived multiple
/// sweep dispatches without flipping to `- [x]`.
#[derive(Debug, PartialEq, Eq)]
pub struct StaleItem {
    /// The item text (the bytes that follow `- [ ]` on disk). Used to match
    /// the entry by exact text — sweep agents are forbidden from rewording
    /// items precisely so this stays a stable identifier.
    pub text: String,
    /// Number of consecutive sweep dispatches in which this item appeared
    /// without being checked off.
    pub attempts: u32,
}

/// The text and the attempts of each stale item.
pub open spec fn stale_views(items: Seq<StaleItem>) -> Seq<(Seq<char>, nat)> {
    items.map_values(|i: StaleItem| (i.text@, i.attempts as nat))
}

/// `deferred.md` as a prompt shows it.
pub open spec fn deferred_block(doc: deferred::DeferredModel) -> Seq<char> {
    if deferred::deferred_text(doc).len() == 0 {
        "(empty)\n"@
    } else {
        deferred::deferred_text(doc)
    }
}

/// A prompt shows the backlog as it is written, and one that has nothing as empty.
pub proof fn the_backlog_is_shown_as_written(doc: deferred::DeferredModel)
    ensures
        deferred::deferred_text(doc).len() > 0 ==> deferred_block(doc) == deferred::deferred_text(
            doc,
        ),
        deferred::deferred_text(doc).len() == 0 ==> deferred_block(doc) == "(empty)\n"@,
{
}

/// One line for each of `items`.
pub open spec fn bullets(items: Seq<Seq<char>>) -> Seq<char>
    decreases items.len(),
{
    if items.len() == 0 {
        Seq::empty()
    } else {
        bullets(items.drop_last()) + ("- "@ + items.last() + "\n"@)
    }
}

/// The list of items that the sweep auditor sees.
pub open spec fn audit_list(items: Seq<Seq<char>>) -> Seq<char> {
    if items.len() == 0 {
        "(none)\n"@
    } else {
        bullets(items)
    }
}

/// The unchecked lines of `items`.
pub open spec fn pending_lines(items: Seq<deferred::ItemModel>) -> Seq<char>
    decreases items.len(),
{
    if items.len() == 0 {
        Seq::empty()
    } else if items.last().done {
        pending_lines(items.drop_last())
    } else {
        pending_lines(items.drop_last()) + ("- [ ] "@ + items.last().text + "\n"@)
    }
}

/// The list of pending items that the sweep implementer sees.
pub open spec fn pending_list(items: Seq<deferred::ItemModel>) -> Seq<char> {
    if pending_lines(items).len() == 0 {
        "(no pending items)\n"@
    } else {
        pending_lines(items)
    }
}

/// Where something is pending the list is made of its lines; where nothing is, it says
/// so.
pub proof fn a_list_is_never_blank(items: Seq<deferred::ItemModel>)
    ensures
        (exists|i: int| 0 <= i < items.len() && !(#[trigger] items[i]).done) ==> pending_list(items)
            == pending_lines(items),
        (forall|i: int| 0 <= i < items.len() ==> (#[trigger] items[i]).done) ==> pending_list(items)
            == "(no pending items)\n"@,
{
    lines_mean_pending(items);
}

proof fn lines_mean_pending(items: Seq<deferred::ItemModel>)
    ensures
        pending_lines(items).len() == 0 <==> forall|i: int|
            0 <= i < items.len() ==> (#[trigger] items[i]).done,
    decreases items.len(),
{
    if items.len() > 0 {
        let front = items.drop_last();
        lines_mean_pending(front);
        reveal_strlit("- [ ] ");
        if items.last().done && pending_lines(front).len() == 0 {
            assert forall|i: int| 0 <= i < items.len() implies (#[trigger] items[i]).done by {
                if i < front.len() {
                    assert(front[i].done);
                }
            }
        }
        if forall|i: int| 0 <= i < items.len() ==> (#[trigger] items[i]).done {
            assert forall|i: int| 0 <= i < front.len() implies (#[trigger] front[i]).done by {
                assert(items[i].done);
            }
            assert(items.last() == items[items.len() - 1]);
        }
    }
}

/// The line of a stale item.
pub open spec fn stale_line(item: (Seq<char>, nat)) -> Seq<char> {
    "- `"@ + item.0 + "` — "@ + text::decimal(item.1) + " sweep attempts without resolution"@
}

/// The line of a stale item shows its text and how many sweeps it survived.
pub proof fn stale_lines_show_text_and_count(item: (Seq<char>, nat))
    ensures
        text::contains(stale_line(item), "`"@ + item.0 + "`"@),
        text::contains(stale_line(item), text::decimal(item.1) + " sweep attempts"@),
{
    let whole = stale_line(item);
    let number = text::decimal(item.1);
    let end = " sweep attempts without resolution"@;
    reveal_strlit("- `");
    reveal_strlit("`");
    reveal_strlit("` — ");
    reveal_strlit(" sweep attempts without resolution");
    reveal_strlit(" sweep attempts");
    let front = "- `"@.take(2);
    let dash = "` — "@.skip(1);
    assert("- `"@ =~= front + "`"@);
    assert("` — "@ =~= "`"@ + dash);
    assert(end =~= " sweep attempts"@ + end.skip(15));
    text::parts_are_held(front, "`"@ + item.0 + "`"@, dash + number + end, whole);
    text::parts_are_held(
        "- `"@ + item.0 + "` — "@,
        number + " sweep attempts"@,
        end.skip(15),
        whole,
    );
}

/// The list of stale items that the sweep agents see.
pub open spec fn stale_list(items: Seq<(Seq<char>, nat)>) -> Seq<char> {
    if items.len() == 0 {
        "(none)"@
    } else {
        text::join(items.map_values(|i: (Seq<char>, nat)| stale_line(i)), "\n"@)
    }
}

/// Stale items stand one to a line in the order of their list; without any the list
/// says so.
pub proof fn every_stale_item_has_its_line(items: Seq<(Seq<char>, nat)>, item: (Seq<char>, nat))
    ensures
        stale_list(Seq::empty()) == "(none)"@,
        stale_list(seq![item]) == stale_line(item),
        items.len() > 0 ==> stale_list(items.push(item)) == stale_list(items) + "\n"@ + stale_line(
            item,
        ),
{
    let lines = items.map_values(|i: (Seq<char>, nat)| stale_line(i));
    let more = items.push(item).map_values(|i: (Seq<char>, nat)| stale_line(i));
    assert(more.drop_last() =~= lines);
    assert(seq![item].map_values(|i: (Seq<char>, nat)| stale_line(i)) =~= seq![stale_line(item)]);
}

/// Where the sweep stands in the run.
pub open spec fn sweep_context(after: Option<Seq<char>>) -> Seq<char> {
    match after {
        Some(id) => "- Most recently completed phase: "@ + id + PLAN_ON_DISK@,
        None => STANDALONE@ + PLAN_ON_DISK@,
    }
}

/// What a sweep with no preceding phase is told about its place.
pub const STANDALONE: &'static str =
    "- Standalone sweep — no preceding phase to anchor on. Treat the deferred list as the whole job.";

/// What every sweep is told about `plan.md`.
pub const PLAN_ON_DISK: &'static str =
    "\n- `plan.md` is on disk if you need to peek for context, but you must not modify it.";

/// What stands for `deferred.md` in a prompt that was not given one.
pub const NO_DEFERRED: &'static str = "(no deferred.md provided yet)";

/// Render an item-list block for the sweep auditor prompt. Empty slice maps to
/// a visible `(none)` marker so the agent isn't tricked by a blank section.
pub fn render_audit_item_list(items: &[String]) -> (r: String)
    ensures
        r@ == audit_list(text::views(items@)),
{
    let ghost all = text::views(items@);
    if items.len() == 0 {
        return text::owned("(none)\n");
    }
    let mut out = String::new();
    for i in 0..items.len()
        invariant
            all == text::views(items@),
            out@ == bullets(all.take(i as int)),
    {
        let ghost before = out@;
        out.append("- ");
        out.append(items[i].as_str());
        out.append("\n");
        proof {
            assert(all.take(i + 1).drop_last() =~= all.take(i as int));
            assert(all.take(i + 1).last() == items@[i as int]@);
            assert(out@ =~= before + ("- "@ + all[i as int] + "\n"@));
        }
    }
    assert(all.take(all.len() as int) =~= all);
    out
}

/// Build the `{deferred_items}` substitution: only `- [ ]` lines from
/// `## Deferred items`. Already-checked items are stripped so the agent's
/// view is exactly the work still pending.
pub fn render_pending_items(doc: &DeferredDoc) -> (r: String)
    ensures
        r@ == pending_list(doc@.items),
{
    let ghost all = deferred::item_models(doc.items@);
    let mut out = String::new();
    for i in 0..doc.items.len()
        invariant
            all == deferred::item_models(doc.items@),
            out@ == pending_lines(all.take(i as int)),
    {
        let ghost before = out@;
        let item = &doc.items[i];
        proof {
            assert(all.take(i + 1).drop_last() =~= all.take(i as int));
            assert(all.take(i + 1).last() == item@);
        }
        if !item.done {
            out.append("- [ ] ");
            out.append(item.text.as_str());
            out.append("\n");
            assert(out@ =~= before + ("- [ ] "@ + item.text@ + "\n"@));
        }
    }
    assert(all.take(all.len() as int) =~= all);
    if out.as_str().is_empty() {
        return text::owned("(no pending items)\n");
    }
    out
}

/// Build the `{stale_items}` substitution. Empty slice → `(none)` so the
/// section renders cleanly. The result has no trailing newline; the template
/// provides the blank line that separates this section from the next.
pub fn render_stale_items(items: &[StaleItem]) -> (r: String)
    ensures
        r@ == stale_list(stale_views(items@)),
{
    let ghost all = stale_views(items@).map_values(|i: (Seq<char>, nat)| stale_line(i));
    if items.len() == 0 {
        return text::owned("(none)");
    }
    let mut lines: Vec<String> = Vec::new();
    for i in 0..items.len()
        invariant
            all == stale_views(items@).map_values(|i: (Seq<char>, nat)| stale_line(i)),
            text::views(lines@) == all.take(i as int),
    {
        let mut line = text::owned("- `");
        line.append(items[i].text.as_str());
        line.append("` — ");
        line.append(text::decimal_u32(items[i].attempts).as_str());
        line.append(" sweep attempts without resolution");
        let ghost before = lines@;
        lines.push(line);
        proof {
            assert(text::views(lines@) =~= text::views(before).push(line@));
            assert(all.take(i + 1) =~= all.take(i as int).push(all[i as int]));
        }
    }
    assert(all.take(all.len() as int) =~= all);
    text::joined(&lines, "\n")
}

/// `deferred.md` as a prompt shows it: a visible marker stands for an empty
/// document.
pub fn serialize_deferred_for_prompt(doc: &DeferredDoc) -> (r: String)
    ensures
        r@ == deferred_block(doc@),
{
    let s = deferred::serialize(doc);
    if s.as_str().is_empty() {
        text::owned("(empty)\n")
    } else {
        s
    }
}

// ---------------------------------------------------------------------------
// Prompts
// ---------------------------------------------------------------------------

/// The substitutions of the implementer template.
pub open spec fn implementer_vars(current: PhaseModel, deferred: Seq<char>) -> Seq<
    (Seq<char>, Seq<char>),
> {
    seq![
        ("phase_id"@, current.id),
        ("phase_title"@, current.title),
        ("phase_body"@, current.body),
        ("deferred"@, deferred),
    ]
}

/// The substitutions of the auditor template.
pub open spec fn auditor_vars(
    current: PhaseModel,
    diff: Seq<char>,
    deferred: Seq<char>,
    limit: nat,
) -> Seq<(Seq<char>, Seq<char>)> {
    seq![
        ("phase_id"@, current.id),
        ("phase_title"@, current.title),
        ("phase_body"@, current.body),
        ("diff"@, diff),
        ("deferred"@, deferred),
        ("small_fix_line_limit"@, text::decimal(limit)),
    ]
}

/// The substitutions of the fixer template.
pub open spec fn fixer_vars(
    current: PhaseModel,
    test_output: Seq<char>,
    deferred: Seq<char>,
) -> Seq<(Seq<char>, Seq<char>)> {
    seq![
        ("phase_id"@, current.id),
        ("phase_title"@, current.title),
        ("phase_body"@, current.body),
        ("test_output"@, test_output),
        ("deferred"@, deferred),
    ]
}

/// The substitutions of the sweep auditor template.
pub open spec fn sweep_auditor_vars(
    after: Seq<char>,
    diff: Seq<char>,
    resolved: Seq<Seq<char>>,
    remaining: Seq<Seq<char>>,
    stale: Seq<(Seq<char>, nat)>,
    deferred: Seq<char>,
    limit: nat,
) -> Seq<(Seq<char>, Seq<char>)> {
    seq![
        ("after"@, after),
        ("diff"@, diff),
        ("resolved"@, audit_list(resolved)),
        ("remaining"@, audit_list(remaining)),
        ("stale_items"@, stale_list(stale)),
        ("deferred"@, deferred),
        ("small_fix_line_limit"@, text::decimal(limit)),
    ]
}

/// Each prompt is given its own: the phase that it is about under the names of the
/// phase, the diff, the output of the tests, the backlog and the limit of small
/// fixes, each under its own name.
pub proof fn prompts_are_given_their_own(
    p: PhaseModel,
    diff: Seq<char>,
    output: Seq<char>,
    backlog: Seq<char>,
    limit: nat,
)
    ensures
        ({
            let v = implementer_vars(p, backlog);
            &&& render::value_of(v, "phase_id"@, 0) == Some(p.id)
            &&& render::value_of(v, "phase_title"@, 0) == Some(p.title)
            &&& render::value_of(v, "phase_body"@, 0) == Some(p.body)
            &&& render::value_of(v, "deferred"@, 0) == Some(backlog)
        }),
        ({
            let v = auditor_vars(p, diff, backlog, limit);
            &&& render::value_of(v, "phase_id"@, 0) == Some(p.id)
            &&& render::value_of(v, "phase_title"@, 0) == Some(p.title)
            &&& render::value_of(v, "phase_body"@, 0) == Some(p.body)
            &&& render::value_of(v, "diff"@, 0) == Some(diff)
            &&& render::value_of(v, "deferred"@, 0) == Some(backlog)
            &&& render::value_of(v, "small_fix_line_limit"@, 0) == Some(text::decimal(limit))
        }),
        ({
            let v = fixer_vars(p, output, backlog);
            &&& render::value_of(v, "phase_id"@, 0) == Some(p.id)
            &&& render::value_of(v, "phase_title"@, 0) == Some(p.title)
            &&& render::value_of(v, "phase_body"@, 0) == Some(p.body)
            &&& render::value_of(v, "test_output"@, 0) == Some(output)
            &&& render::value_of(v, "deferred"@, 0) == Some(backlog)
        }),
{
    reveal_strlit("phase_id");
    reveal_strlit("phase_title");
    reveal_strlit("phase_body");
    reveal_strlit("diff");
    reveal_strlit("deferred");
    reveal_strlit("test_output");
    reveal_strlit("small_fix_line_limit");
    assert("phase_id"@.len() == 8 && "deferred"@.len() == 8 && "phase_id"@[0] == 'p'
        && "deferred"@[0] == 'd');
    assert("phase_title"@.len() == 11 && "test_output"@.len() == 11 && "phase_title"@[0] == 'p'
        && "test_output"@[0] == 't');
    assert("phase_body"@.len() == 10 && "diff"@.len() == 4 && "small_fix_line_limit"@.len() == 20);
    reveal_with_fuel(render::value_of, 7);
}

/// A sweep and its auditor are given their own: the items that are pending, those
/// that were resolved and those that remain, the stale ones, the place of the
/// sweep, the diff and the backlog, each under its own name.
pub proof fn sweep_prompts_are_given_their_own(
    items: Seq<deferred::ItemModel>,
    stale: Seq<(Seq<char>, nat)>,
    after: Seq<char>,
    diff: Seq<char>,
    resolved: Seq<Seq<char>>,
    remaining: Seq<Seq<char>>,
    backlog: Seq<char>,
    limit: nat,
)
    ensures
        ({
            let v = sweep_vars(items, stale, Some(after));
            &&& render::value_of(v, "deferred_items"@, 0) == Some(pending_list(items))
            &&& render::value_of(v, "stale_items"@, 0) == Some(stale_list(stale))
            &&& render::value_of(v, "context"@, 0) == Some(sweep_context(Some(after)))
        }),
        ({
            let v = sweep_auditor_vars(after, diff, resolved, remaining, stale, backlog, limit);
            &&& render::value_of(v, "after"@, 0) == Some(after)
            &&& render::value_of(v, "diff"@, 0) == Some(diff)
            &&& render::value_of(v, "resolved"@, 0) == Some(audit_list(resolved))
            &&& render::value_of(v, "remaining"@, 0) == Some(audit_list(remaining))
            &&& render::value_of(v, "stale_items"@, 0) == Some(stale_list(stale))
            &&& render::value_of(v, "deferred"@, 0) == Some(backlog)
            &&& render::value_of(v, "small_fix_line_limit"@, 0) == Some(text::decimal(limit))
        }),
{
    reveal_strlit("deferred_items");
    reveal_strlit("stale_items");
    reveal_strlit("context");
    reveal_strlit("after");
    reveal_strlit("diff");
    reveal_strlit("resolved");
    reveal_strlit("remaining");
    reveal_strlit("deferred");
    reveal_strlit("small_fix_line_limit");
    assert("deferred_items"@.len() == 14 && "stale_items"@.len() == 11 && "context"@.len() == 7);
    assert("after"@.len() == 5 && "diff"@.len() == 4 && "remaining"@.len() == 9);
    assert("resolved"@.len() == 8 && "deferred"@.len() == 8 && "resolved"@[0] == 'r'
        && "deferred"@[0] == 'd');
    assert("small_fix_line_limit"@.len() == 20);
    reveal_with_fuel(render::value_of, 8);
}

/// A sweep is shown every item that is not done, one line each and in order, and
/// no item that is done.
pub proof fn sweeps_see_what_is_not_done(items: Seq<deferred::ItemModel>, item: deferred::ItemModel)
    ensures
        item.done ==> pending_lines(items.push(item)) == pending_lines(items),
        !item.done ==> pending_lines(items.push(item)) == pending_lines(items) + ("- [ ] "@
            + item.text + "\n"@),
        pending_lines(Seq::<deferred::ItemModel>::empty()).len() == 0,
        pending_lines(items) == pending_lines(items.filter(|i: deferred::ItemModel| !i.done)),
    decreases items.len(),
{
    assert(items.push(item).drop_last() =~= items);
    reveal(Seq::filter);
    if items.len() > 0 {
        let front = items.drop_last();
        sweeps_see_what_is_not_done(front, items.last());
        let open = front.filter(|i: deferred::ItemModel| !i.done);
        if !items.last().done {
            assert(open.push(items.last()).drop_last() =~= open);
        }
    }
}

/// The auditor of a sweep is shown every item of a list, one line each and in
/// order, and a list without items as such.
pub proof fn audit_lists_show_every_item(items: Seq<Seq<char>>, item: Seq<char>)
    ensures
        audit_list(items.push(item)) == (if items.len() == 0 {
            Seq::empty()
        } else {
            audit_list(items)
        }) + ("- "@ + item + "\n"@),
        audit_list(Seq::<Seq<char>>::empty()) == "(none)\n"@,
{
    assert(items.push(item).drop_last() =~= items);
    if items.len() == 0 {
        assert(bullets(items) =~= Seq::<char>::empty());
    }
}

/// Render the implementer prompt. The output instructs the agent to sweep
/// `deferred.md`, then implement the current phase, then re-record any
/// unfinished work, while leaving `plan.md` and `.pitboss/` untouched.
pub fn implementer(_plan: &Plan, deferred: &DeferredDoc, current: &Phase) -> (r: String)
    ensures
        render::rendered(
            templates::IMPLEMENTER_TEMPLATE@,
            implementer_vars(current@, deferred_block(deferred@)),
        ) == Some(r@),
{
    let block = serialize_deferred_for_prompt(deferred);
    let vars = [
        ("phase_id", current.id.as_str()),
        ("phase_title", current.title.as_str()),
        ("phase_body", current.body.as_str()),
        ("deferred", block.as_str()),
    ];
    proof {
        let views = render::var_views(vars@);
        assert(views =~= implementer_vars(current@, block@));
        templates::implementer_renders();
        reveal_with_fuel(render::value_of, 5);
        render::only_holes_renders(
            templates::IMPLEMENTER_TEMPLATE@,
            templates::implementer_names(),
            views,
        );
    }
    render(templates::IMPLEMENTER_TEMPLATE, vars.as_slice())
}

fn auditor_prompt(current: &Phase, diff: &str, deferred: &str, limit: u32) -> (r: String)
    ensures
        render::rendered(
            templates::AUDITOR_TEMPLATE@,
            auditor_vars(current@, diff@, deferred@, limit as nat),
        ) == Some(r@),
{
    let lines = text::decimal_u32(limit);
    let vars = [
        ("phase_id", current.id.as_str()),
        ("phase_title", current.title.as_str()),
        ("phase_body", current.body.as_str()),
        ("diff", diff),
        ("deferred", deferred),
        ("small_fix_line_limit", lines.as_str()),
    ];
    proof {
        let views = render::var_views(vars@);
        assert(views =~= auditor_vars(current@, diff@, deferred@, limit as nat));
        templates::auditor_renders();
        reveal_with_fuel(render::value_of, 7);
        render::only_holes_renders(
            templates::AUDITOR_TEMPLATE@,
            templates::auditor_names(),
            views,
        );
    }
    render(templates::AUDITOR_TEMPLATE, vars.as_slice())
}

/// Render the auditor prompt. `diff` is the implementer's working-tree diff
/// against the run's base branch. `small_fix_line_limit` is the threshold from
/// the audit settings; the auditor inlines changes at or below it and defers
/// anything larger.
pub fn auditor(_plan: &Plan, current: &Phase, diff: &str, small_fix_line_limit: u32) -> (r: String)
    ensures
        render::rendered(
            templates::AUDITOR_TEMPLATE@,
            auditor_vars(current@, diff@, NO_DEFERRED@, small_fix_line_limit as nat),
        ) == Some(r@),
{
    auditor_prompt(current, diff, NO_DEFERRED, small_fix_line_limit)
}

/// Variant of [`auditor`] that accepts an explicit `deferred.md` rendering, so
/// the runner can present the same canonical text the agent will see on disk.
pub fn auditor_with_deferred(
    _plan: &Plan,
    current: &Phase,
    diff: &str,
    deferred: &DeferredDoc,
    small_fix_line_limit: u32,
) -> (r: String)
    ensures
        render::rendered(
            templates::AUDITOR_TEMPLATE@,
            auditor_vars(
                current@,
                diff@,
                deferred_block(deferred@),
                small_fix_line_limit as nat,
            ),
        ) == Some(r@),
{
    let block = serialize_deferred_for_prompt(deferred);
    auditor_prompt(current, diff, block.as_str(), small_fix_line_limit)
}

fn fixer_prompt(current: &Phase, test_output: &str, deferred: &str) -> (r: String)
    ensures
        render::rendered(
            templates::FIXER_TEMPLATE@,
            fixer_vars(current@, test_output@, deferred@),
        ) == Some(r@),
{
    let vars = [
        ("phase_id", current.id.as_str()),
        ("phase_title", current.title.as_str()),
        ("phase_body", current.body.as_str()),
        ("test_output", test_output),
        ("deferred", deferred),
    ];
    proof {
        let views = render::var_views(vars@);
        assert(views =~= fixer_vars(current@, test_output@, deferred@));
        templates::fixer_renders();
        reveal_with_fuel(render::value_of, 6);
        render::only_holes_renders(templates::FIXER_TEMPLATE@, templates::fixer_names(), views);
    }
    render(templates::FIXER_TEMPLATE, vars.as_slice())
}

/// Render the fixer prompt. `test_output` is the captured stdout/stderr from
/// the failing test run that triggered this dispatch.
pub fn fixer(_plan: &Plan, current: &Phase, test_output: &str) -> (r: String)
    ensures
        render::rendered(
            templates::FIXER_TEMPLATE@,
            fixer_vars(current@, test_output@, NO_DEFERRED@),
        ) == Some(r@),
{
    fixer_prompt(current, test_output, NO_DEFERRED)
}

/// Variant of [`fixer`] that accepts an explicit `deferred.md` rendering.
pub fn fixer_with_deferred(
    _plan: &Plan,
    current: &Phase,
    test_output: &str,
    deferred: &DeferredDoc,
) -> (r: String)
    ensures
        render::rendered(
            templates::FIXER_TEMPLATE@,
            fixer_vars(current@, test_output@, deferred_block(deferred@)),
        ) == Some(r@),
{
    let block = serialize_deferred_for_prompt(deferred);
    fixer_prompt(current, test_output, block.as_str())
}

/// Render the planner prompt. `goal` is the user's free-form description of
/// what they want built; `repo_summary` is a short overview of the existing
/// repo layout (top-level files, package manifests, key READMEs) that
/// `pitboss plan` collects before dispatching the agent.
pub fn planner(goal: &str, repo_summary: &str) -> (r: String)
    ensures
        render::rendered(
            templates::PLANNER_TEMPLATE@,
            seq![("goal"@, goal@), ("repo_summary"@, repo_summary@)],
        ) == Some(r@),
{
    let vars = [("goal", goal), ("repo_summary", repo_summary)];
    proof {
        let views = render::var_views(vars@);
        assert(views =~= seq![("goal"@, goal@), ("repo_summary"@, repo_summary@)]);
        templates::planner_renders();
        reveal_with_fuel(render::value_of, 3);
        render::only_holes_renders(
            templates::PLANNER_TEMPLATE@,
            templates::planner_names(),
            views,
        );
    }
    render(templates::PLANNER_TEMPLATE, vars.as_slice())
}

/// Render the questioner prompt used by `pitboss plan --interview`. Asks the
/// agent to produce a numbered list of design questions (at most
/// `max_questions`) tailored to the goal and repo context.
pub fn questioner(goal: &str, repo_summary: &str, max_questions: u32) -> (r: String)
    ensures
        render::rendered(
            templates::QUESTIONER_TEMPLATE@,
            seq![
                ("goal"@, goal@),
                ("repo_summary"@, repo_summary@),
                ("max_questions"@, text::decimal(max_questions as nat)),
            ],
        ) == Some(r@),
{
    let max = text::decimal_u32(max_questions);
    let vars = [("goal", goal), ("repo_summary", repo_summary), ("max_questions", max.as_str())];
    proof {
        let views = render::var_views(vars@);
        assert(views =~= seq![
            ("goal"@, goal@),
            ("repo_summary"@, repo_summary@),
            ("max_questions"@, max@),
        ]);
        templates::questioner_renders();
        reveal_with_fuel(render::value_of, 4);
        render::only_holes_renders(
            templates::QUESTIONER_TEMPLATE@,
            templates::questioner_names(),
            views,
        );
    }
    render(templates::QUESTIONER_TEMPLATE, vars.as_slice())
}

/// Bundled inputs for [`sweep_auditor`]. Grouped into a struct so the renderer
/// reads at the call site as named fields rather than a long positional list.
#[derive(Debug, Clone, Copy)]
pub struct SweepAuditorPrompt<'a> {
    /// Plan threaded through for parity with the phase auditor; the renderer
    /// does not consume it directly.
    pub plan: &'a Plan,
    pub deferred: &'a DeferredDoc,
    pub after: &'a PhaseId,
    pub diff: &'a str,
    pub resolved: &'a [String],
    pub remaining: &'a [String],
    pub stale_items: &'a [StaleItem],
    pub small_fix_line_limit: u32,
}

/// Render the sweep auditor prompt. Mirrors [`auditor_with_deferred`] but is
/// scoped to a deferred-sweep dispatch instead of a plan phase. `resolved` is
/// the list of `## Deferred items` text the sweep implementer flipped from
/// `- [ ]` to `- [x]` in this dispatch; `remaining` is the unchecked-item text
/// still pending after the sweep. `diff` is the staged `git diff --cached`.
/// `stale_items` is the runner's per-item staleness snapshot, so the auditor can
/// be more critical about a `- [x]` claim against an item that has resisted
/// previous sweeps. Empty slice renders a `(none)` marker.
pub fn sweep_auditor(input: SweepAuditorPrompt<'_>) -> (r: String)
    ensures
        render::rendered(
            templates::SWEEP_AUDITOR_TEMPLATE@,
            sweep_auditor_vars(
                input.after@,
                input.diff@,
                text::views(input.resolved@),
                text::views(input.remaining@),
                stale_views(input.stale_items@),
                deferred_block(input.deferred@),
                input.small_fix_line_limit as nat,
            ),
        ) == Some(r@),
{
    let limit = text::decimal_u32(input.small_fix_line_limit);
    let resolved = render_audit_item_list(input.resolved);
    let remaining = render_audit_item_list(input.remaining);
    let stale = render_stale_items(input.stale_items);
    let block = serialize_deferred_for_prompt(input.deferred);
    let vars = [
        ("after", input.after.as_str()),
        ("diff", input.diff),
        ("resolved", resolved.as_str()),
        ("remaining", remaining.as_str()),
        ("stale_items", stale.as_str()),
        ("deferred", block.as_str()),
        ("small_fix_line_limit", limit.as_str()),
    ];
    proof {
        let views = render::var_views(vars@);
        assert(views =~= sweep_auditor_vars(
            input.after@,
            input.diff@,
            text::views(input.resolved@),
            text::views(input.remaining@),
            stale_views(input.stale_items@),
            block@,
            input.small_fix_line_limit as nat,
        ));
        templates::sweep_auditor_renders();
        reveal_with_fuel(render::value_of, 8);
        render::only_holes_renders(
            templates::SWEEP_AUDITOR_TEMPLATE@,
            templates::sweep_auditor_names(),
            views,
        );
    }
    render(templates::SWEEP_AUDITOR_TEMPLATE, vars.as_slice())
}

/// Render the fixer prompt for the deferred-sweep pipeline. Used when a sweep
/// dispatch fails its post-test step: there is no "current phase" to anchor on
/// because the implementer was working through `deferred.md` rather than a
/// plan phase, so the prompt frames the failure around the deferred items the
/// implementer touched and asks the fixer to keep the patch scoped to that
/// sweep.
pub fn fixer_for_sweep(_plan: &Plan, deferred: &DeferredDoc, test_output: &str) -> (r: String)
    ensures
        render::rendered(
            templates::SWEEP_FIXER_TEMPLATE@,
            seq![("test_output"@, test_output@), ("deferred"@, deferred_block(deferred@))],
        ) == Some(r@),
{
    let block = serialize_deferred_for_prompt(deferred);
    let vars = [("test_output", test_output), ("deferred", block.as_str())];
    proof {
        let views = render::var_views(vars@);
        assert(views =~= seq![("test_output"@, test_output@), ("deferred"@, block@)]);
        templates::sweep_fixer_renders();
        reveal_with_fuel(render::value_of, 3);
        render::only_holes_renders(
            templates::SWEEP_FIXER_TEMPLATE@,
            templates::sweep_fixer_names(),
            views,
        );
    }
    render(templates::SWEEP_FIXER_TEMPLATE, vars.as_slice())
}

/// The view of an optional phase id.
pub open spec fn id_view(id: Option<&PhaseId>) -> Option<Seq<char>> {
    match id {
        Some(i) => Some(i@),
        None => None,
    }
}

/// The substitutions of the sweep template.
pub open spec fn sweep_vars(
    items: Seq<deferred::ItemModel>,
    stale: Seq<(Seq<char>, nat)>,
    after: Option<Seq<char>>,
) -> Seq<(Seq<char>, Seq<char>)> {
    seq![
        ("deferred_items"@, pending_list(items)),
        ("stale_items"@, stale_list(stale)),
        ("context"@, sweep_context(after)),
    ]
}

/// Render the sweep prompt. The output instructs the agent to drain pending
/// `## Deferred items` entries, leaving `## Deferred phases`, `plan.md`, and
/// `.pitboss/` untouched.
///
/// `after_phase = Some(id)` flags this as the inter-phase sweep that fired
/// after `id` completed; `None` covers the standalone-sweep entry point
/// (`pitboss sweep` with no run in flight). `stale_items` is the staleness
/// tracker's snapshot.
pub fn sweep(
    _plan: &Plan,
    deferred: &DeferredDoc,
    after_phase: Option<&PhaseId>,
    stale_items: &[StaleItem],
) -> (r: String)
    ensures
        render::rendered(
            templates::SWEEP_TEMPLATE@,
            sweep_vars(deferred@.items, stale_views(stale_items@), id_view(after_phase)),
        ) == Some(r@),
{
    let pending = render_pending_items(deferred);
    let stale = render_stale_items(stale_items);
    let mut context = match after_phase {
        Some(id) => {
            let mut c = text::owned("- Most recently completed phase: ");
            c.append(id.as_str());
            c
        },
        None => text::owned(STANDALONE),
    };
    context.append(PLAN_ON_DISK);
    let vars = [
        ("deferred_items", pending.as_str()),
        ("stale_items", stale.as_str()),
        ("context", context.as_str()),
    ];
    proof {
        let views = render::var_views(vars@);
        assert(views =~= seq![
            ("deferred_items"@, pending@),
            ("stale_items"@, stale@),
            ("context"@, context@),
        ]);
        templates::sweep_renders();
        reveal_with_fuel(render::value_of, 4);
        render::only_holes_renders(templates::SWEEP_TEMPLATE@, templates::sweep_names(), views);
    }
    render(templates::SWEEP_TEMPLATE, vars.as_slice())
}

} // verus!
