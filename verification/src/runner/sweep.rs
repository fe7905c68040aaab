//! Deferred sweeps: when one is due, how stale items are tracked, and the
//! bounded drain after the final phase.

use vstd::prelude::*;

use crate::config::SweepConfig;
use crate::deferred;
use crate::deferred::DeferredDoc;
use crate::prompts;
use crate::prompts::StaleItem;
use crate::table;
use crate::table::Table;
use crate::text;

verus! {

/// Cap on the number of stale `## Deferred items` entries fed into the sweep
/// and sweep-auditor prompts. Past this, the prompt would balloon without
/// adding value: the agent can only meaningfully address a handful of
/// "high-stakes" items per dispatch, and a runaway map (hundreds of stuck
/// items) almost always means the staleness signal needs operator attention,
/// not more agent passes.
pub const STALE_ITEMS_PROMPT_CAP: usize = 10;

/// Cap on the number of stale items each operator-facing surface (the TUI
/// stale panel, `pitboss status`) renders before truncating with a
/// `+N more` footer. Lower than [`STALE_ITEMS_PROMPT_CAP`] because vertical
/// real estate on the operator's screen is tighter than the auditor's
/// prompt budget.
pub const STALE_ITEMS_DISPLAY_CAP: usize = 5;

// ---------------------------------------------------------------------------
// The trigger
// ---------------------------------------------------------------------------

/// The number of unchecked items.
pub open spec fn unchecked(doc: deferred::DeferredModel) -> nat {
    deferred::unchecked_items(doc.items).len()
}

/// The number of unchecked items.
pub fn unchecked_count(doc: &DeferredDoc) -> (r: usize)
    ensures
        r == unchecked(doc@),
{
    let ghost all = deferred::item_models(doc.items@);
    let mut n: usize = 0;
    for i in 0..doc.items.len()
        invariant
            all == deferred::item_models(doc.items@),
            n == deferred::unchecked_items(all.take(i as int)).len(),
            n <= i,
    {
        assert(all.take(i + 1).drop_last() =~= all.take(i as int));
        assert(all.take(i + 1).last() == doc.items@[i as int]@);
        if !doc.items[i].done {
            n = n + 1;
        }
    }
    assert(all.take(all.len() as int) =~= all);
    n
}

/// A sweep is due between two phases: sweeps are enabled, enough items are
/// unchecked, and not too many sweeps ran in a row.
pub open spec fn sweep_due(doc: deferred::DeferredModel, cfg: SweepConfig, consecutive: u32) -> bool {
    cfg.enabled && consecutive < cfg.max_consecutive && unchecked(doc) >= cfg.trigger_min_items
}

/// Whether a sweep is due between two phases.
pub fn should_run_deferred_sweep(doc: &DeferredDoc, cfg: &SweepConfig, consecutive_sweeps: u32) -> (r:
    bool)
    ensures
        r == sweep_due(doc@, *cfg, consecutive_sweeps),
{
    cfg.enabled && consecutive_sweeps < cfg.max_consecutive && unchecked_count(doc) as u64
        >= cfg.trigger_min_items as u64
}

/// A sweep between two phases takes three things together: sweeps are switched
/// on, the items that are not done are at least as many as the trigger asks for,
/// and fewer sweeps ran in a row than the settings allow. With any one of them
/// missing none is due.
pub proof fn a_sweep_takes_three_things(
    doc: deferred::DeferredModel,
    cfg: SweepConfig,
    consecutive: u32,
)
    ensures
        ({
            let open = doc.items.filter(|i: deferred::ItemModel| !i.done).len();
            &&& !cfg.enabled ==> !sweep_due(doc, cfg, consecutive)
            &&& consecutive >= cfg.max_consecutive ==> !sweep_due(doc, cfg, consecutive)
            &&& open < cfg.trigger_min_items ==> !sweep_due(doc, cfg, consecutive)
            &&& cfg.enabled && consecutive < cfg.max_consecutive && open >= cfg.trigger_min_items
                ==> sweep_due(doc, cfg, consecutive)
        }),
{
    deferred::unchecked_means_not_done(doc.items);
}

// ---------------------------------------------------------------------------
// Staleness
// ---------------------------------------------------------------------------

/// The sweep attempts counted for `item`.
pub open spec fn attempts_of(attempts: Map<Seq<char>, u32>, item: Seq<char>) -> u32 {
    if attempts.contains_key(item) {
        attempts[item]
    } else {
        0
    }
}

/// One more attempt; the counter stops at the largest value.
pub open spec fn one_more(n: u32) -> u32 {
    if n < u32::MAX {
        (n + 1) as u32
    } else {
        u32::MAX
    }
}

/// The counters after a sweep over the unchecked items `pre` that left `post`
/// unchecked: items that survived count one attempt more, and items that are no
/// longer pending are forgotten.
pub open spec fn counted(
    attempts: Map<Seq<char>, u32>,
    pre: Seq<Seq<char>>,
    post: Seq<Seq<char>>,
) -> Map<Seq<char>, u32> {
    Map::new(
        |item: Seq<char>|
            post.contains(item) && (pre.contains(item) || attempts.contains_key(item)),
        |item: Seq<char>|
            if pre.contains(item) {
                one_more(attempts_of(attempts, item))
            } else {
                attempts_of(attempts, item)
            },
    )
}

/// The attempts at which an item counts as stale; at least one.
pub open spec fn threshold(escalate_after: u32) -> u32 {
    if escalate_after == 0 {
        1
    } else {
        escalate_after
    }
}

/// The sweep brought `item` to the threshold.
pub open spec fn crosses(
    attempts: Map<Seq<char>, u32>,
    pre: Seq<Seq<char>>,
    post: Seq<Seq<char>>,
    escalate_after: u32,
    item: Seq<char>,
) -> bool {
    &&& pre.contains(item)
    &&& post.contains(item)
    &&& attempts_of(attempts, item) < threshold(escalate_after)
    &&& one_more(attempts_of(attempts, item)) >= threshold(escalate_after)
}

/// An item is reported as stale once: while it stays pending, the next sweep
/// counts on and does not report it again.
pub proof fn stale_is_reported_once(
    attempts: Map<Seq<char>, u32>,
    pre: Seq<Seq<char>>,
    post: Seq<Seq<char>>,
    next_pre: Seq<Seq<char>>,
    next_post: Seq<Seq<char>>,
    escalate_after: u32,
    item: Seq<char>,
)
    requires
        crosses(attempts, pre, post, escalate_after, item),
    ensures
        attempts_of(counted(attempts, pre, post), item) >= threshold(escalate_after),
        !crosses(counted(attempts, pre, post), next_pre, next_post, escalate_after, item),
        next_pre.contains(item) && next_post.contains(item) ==> attempts_of(
            counted(counted(attempts, pre, post), next_pre, next_post),
            item,
        ) >= threshold(escalate_after),
{
}

/// An item that is no longer pending is forgotten: if it turns up again, it
/// starts to count anew.
pub proof fn resolved_is_forgotten(
    attempts: Map<Seq<char>, u32>,
    pre: Seq<Seq<char>>,
    post: Seq<Seq<char>>,
    item: Seq<char>,
)
    requires
        !post.contains(item),
    ensures
        !counted(attempts, pre, post).contains_key(item),
        attempts_of(counted(attempts, pre, post), item) == 0,
{
}

/// What a sweep does to the counter of an item. One that was pending before and
/// still is counts one attempt more, from zero where it had none. One that turned
/// up during the sweep keeps the counter that it had, and gets none where it had
/// none. One that is no longer pending has none.
pub proof fn survivors_count_one_more(
    attempts: Map<Seq<char>, u32>,
    pre: Seq<Seq<char>>,
    post: Seq<Seq<char>>,
    item: Seq<char>,
)
    ensures
        ({
            let now = counted(attempts, pre, post);
            &&& pre.contains(item) && post.contains(item) ==> now.contains_key(item)
            &&& pre.contains(item) && post.contains(item) && !attempts.contains_key(item)
                ==> now[item] == 1
            &&& pre.contains(item) && post.contains(item) && attempts.contains_key(item) ==> now[item]
                == if attempts[item] < u32::MAX {
                attempts[item] + 1
            } else {
                u32::MAX as int
            }
            &&& !pre.contains(item) && post.contains(item) ==> (now.contains_key(item)
                <==> attempts.contains_key(item))
            &&& !pre.contains(item) && post.contains(item) && attempts.contains_key(item)
                ==> now[item] == attempts[item]
            &&& !post.contains(item) ==> !now.contains_key(item)
        }),
{
}

/// An item is reported by the very sweep that brings its counter to the
/// threshold, and by no other: it was pending before and after, and the attempt
/// that was counted is the one that the threshold names. A threshold of zero is
/// taken as one.
pub proof fn the_threshold_is_reached_once(
    attempts: Map<Seq<char>, u32>,
    pre: Seq<Seq<char>>,
    post: Seq<Seq<char>>,
    escalate_after: u32,
    item: Seq<char>,
)
    ensures
        ({
            let had: int = if attempts.contains_key(item) {
                attempts[item] as int
            } else {
                0
            };
            let limit: int = if escalate_after == 0 {
                1
            } else {
                escalate_after as int
            };
            crosses(attempts, pre, post, escalate_after, item) <==> pre.contains(item)
                && post.contains(item) && had + 1 == limit
        }),
        crosses(attempts, pre, post, escalate_after, item) ==> counted(attempts, pre, post)[item]
            == if escalate_after == 0 {
            1
        } else {
            escalate_after
        },
{
}

pub(crate) fn listed(names: &[String], name: &str) -> (r: bool)
    ensures
        r == text::views(names@).contains(name@),
{
    let ghost all = text::views(names@);
    for i in 0..names.len()
        invariant
            all == text::views(names@),
            forall|j: int| 0 <= j < i ==> all[j] != name@,
    {
        assert(all[i as int] == names@[i as int]@);
        if text::same(names[i].as_str(), name) {
            assert(all[i as int] == name@);
            return true;
        }
    }
    false
}

/// `kept` holds of `attempts` what is still pending.
spec fn pruned(attempts: Map<Seq<char>, u32>, post: Seq<Seq<char>>) -> Map<Seq<char>, u32> {
    Map::new(
        |item: Seq<char>| post.contains(item) && attempts.contains_key(item),
        |item: Seq<char>| attempts[item],
    )
}

fn prune(attempts: &Table<u32>, post: &[String]) -> (r: Table<u32>)
    ensures
        r@ == pruned(attempts@, text::views(post@)),
{
    let ghost left = text::views(post@);
    let n: usize = attempts.len();
    let ghost keys = attempts.keys();
    let mut out: Table<u32> = Table::new();
    for i in 0..n
        invariant
            n == keys.len(),
            keys == attempts.keys(),
            left == text::views(post@),
            forall|k: Seq<char>| #[trigger]
                out@.contains_key(k) <==> left.contains(k) && exists|j: int|
                    0 <= j < i && keys[j] == k,
            forall|k: Seq<char>| #[trigger] out@.contains_key(k) ==> out@[k] == attempts@[k],
    {
        let ghost before = out@;
        let (key, count) = attempts.entry(i);
        if listed(post, key) {
            out.insert(key, *count);
        }
        assert forall|k: Seq<char>| #[trigger]
            out@.contains_key(k) <==> left.contains(k) && exists|j: int|
                0 <= j < i + 1 && keys[j] == k by {
            if k == keys[i as int] {
            } else {
                assert(before.contains_key(k) <==> out@.contains_key(k));
            }
        }
    }
    proof {
        let want = pruned(attempts@, left);
        assert forall|k: Seq<char>| #[trigger] out@.contains_key(k) <==> want.contains_key(k) by {
            assert(attempts@.contains_key(k) <==> keys.contains(k));
            if keys.contains(k) {
                let j = choose|j: int| 0 <= j < keys.len() && keys[j] == k;
                assert(0 <= j < n && keys[j] == k);
            }
            if out@.contains_key(k) {
                let j = choose|j: int| 0 <= j < n && keys[j] == k;
                assert(keys.contains(keys[j]));
            }
        }
        assert(out@ =~= want);
    }
    out
}

fn survivors(pre: &[String], post: &[String]) -> (r: Table<bool>)
    ensures
        forall|k: Seq<char>| #[trigger]
            r@.contains_key(k) <==> text::views(pre@).contains(k) && text::views(post@).contains(k),
{
    let ghost all = text::views(pre@);
    let ghost left = text::views(post@);
    let mut out: Table<bool> = Table::new();
    for i in 0..pre.len()
        invariant
            all == text::views(pre@),
            left == text::views(post@),
            forall|k: Seq<char>| #[trigger]
                out@.contains_key(k) <==> left.contains(k) && exists|j: int|
                    0 <= j < i && all[j] == k,
    {
        let ghost before = out@;
        assert(all[i as int] == pre@[i as int]@);
        if listed(post, pre[i].as_str()) {
            out.insert(pre[i].as_str(), true);
        }
        assert forall|k: Seq<char>| #[trigger]
            out@.contains_key(k) <==> left.contains(k) && exists|j: int|
                0 <= j < i + 1 && all[j] == k by {
            if k == all[i as int] {
            } else {
                assert(before.contains_key(k) <==> out@.contains_key(k));
            }
        }
    }
    proof {
        assert forall|k: Seq<char>| #[trigger]
            out@.contains_key(k) <==> all.contains(k) && left.contains(k) by {
            if all.contains(k) {
                let j = choose|j: int| 0 <= j < all.len() && all[j] == k;
                assert(0 <= j < pre@.len() && all[j] == k);
            }
        }
    }
    out
}

/// `item` is one of the first `n` of `keys`.
spec fn seen(keys: Seq<Seq<char>>, n: int, item: Seq<char>) -> bool {
    exists|j: int| 0 <= j < n && keys[j] == item
}

/// The texts of the reported items.
pub open spec fn crossed_texts(items: Seq<(String, u32)>) -> Seq<Seq<char>> {
    items.map_values(|i: (String, u32)| i.0@)
}

/// Counts a sweep over the unchecked items `pre` that left `post` unchecked,
/// and gives the items that it brought to the threshold, in the order of their
/// texts. An item that was at the threshold before is not given again.
pub fn update_sweep_staleness(
    attempts: &mut Table<u32>,
    pre: &[String],
    post: &[String],
    escalate_after: u32,
) -> (r: Vec<(String, u32)>)
    ensures
        final(attempts)@ == counted(old(attempts)@, text::views(pre@), text::views(post@)),
        table::ascending(crossed_texts(r@)),
        forall|item: Seq<char>| #[trigger]
            crossed_texts(r@).contains(item) <==> crosses(
                old(attempts)@,
                text::views(pre@),
                text::views(post@),
                escalate_after,
                item,
            ),
        forall|i: int|
            0 <= i < r@.len() ==> (#[trigger] r@[i]).1 == attempts_of(
                final(attempts)@,
                r@[i].0@,
            ),
{
    let ghost was = attempts@;
    let ghost before_items = text::views(pre@);
    let ghost left = text::views(post@);
    let limit: u32 = if escalate_after == 0 {
        1
    } else {
        escalate_after
    };
    let stay = survivors(pre, post);
    let mut now = prune(attempts, post);
    let n: usize = stay.len();
    let ghost keys = stay.keys();
    let ghost kept = pruned(was, left);
    let mut out: Vec<(String, u32)> = Vec::new();
    for i in 0..n
        invariant
            n == keys.len(),
            keys == stay.keys(),
            table::ascending(keys),
            kept == pruned(was, left),
            was == attempts@,
            limit == threshold(escalate_after),
            left == text::views(post@),
            before_items == text::views(pre@),
            forall|k: Seq<char>| #[trigger]
                stay@.contains_key(k) <==> before_items.contains(k) && left.contains(k),
            forall|k: Seq<char>| #[trigger]
                now@.contains_key(k) <==> kept.contains_key(k) || exists|j: int|
                    0 <= j < i && keys[j] == k,
            forall|k: Seq<char>|
                (forall|j: int| 0 <= j < i ==> keys[j] != k) ==> #[trigger] attempts_of(now@, k)
                    == attempts_of(kept, k),
            forall|j: int|
                0 <= j < i ==> attempts_of(now@, #[trigger] keys[j]) == one_more(
                    attempts_of(was, keys[j]),
                ),
            table::ascending(crossed_texts(out@)),
            forall|k: int|
                0 <= k < out@.len() ==> seen(keys, i as int, (#[trigger] out@[k]).0@),
            forall|item: Seq<char>| #[trigger]
                crossed_texts(out@).contains(item) <==> (exists|j: int|
                    0 <= j < i && keys[j] == item) && crosses(
                    was,
                    before_items,
                    left,
                    escalate_after,
                    item,
                ),
            forall|k: int|
                0 <= k < out@.len() ==> (#[trigger] out@[k]).1 == one_more(
                    attempts_of(was, out@[k].0@),
                ),
    {
        let (key, _) = stay.entry(i);
        let ghost fresh = keys[i as int];
        let ghost before = now@;
        let ghost told = out@;
        proof {
            assert(stay@.contains_key(fresh));
            assert forall|j: int| 0 <= j < i implies #[trigger] keys[j] != fresh by {
                assert(text::precedes(keys[j], keys[i as int]));
                text::precedes_irreflexive(fresh);
            }
        }
        let had: u32 = match attempts.get(key) {
            Some(c) => *c,
            None => 0,
        };
        let count: u32 = had.saturating_add(1);
        now.insert(key, count);
        if had < limit && count >= limit {
            out.push((text::owned(key), count));
        }
        proof {
            assert forall|k: Seq<char>| #[trigger]
                now@.contains_key(k) <==> kept.contains_key(k) || exists|j: int|
                    0 <= j < i + 1 && keys[j] == k by {
                if k == fresh {
                    assert(keys[i as int] == k);
                } else {
                    assert(before.contains_key(k) <==> now@.contains_key(k));
                }
            }
            assert forall|k: Seq<char>|
                (forall|j: int| 0 <= j < i + 1 ==> keys[j] != k) implies #[trigger] attempts_of(
                now@,
                k,
            ) == attempts_of(kept, k) by {
                assert(keys[i as int] != k);
                assert(attempts_of(before, k) == attempts_of(kept, k));
            }
            assert forall|k: int| 0 <= k < out@.len() implies seen(
                keys,
                i + 1,
                (#[trigger] out@[k]).0@,
            ) by {
                if k < told.len() {
                    assert(seen(keys, i as int, told[k].0@));
                    let j = choose|j: int| 0 <= j < i && keys[j] == told[k].0@;
                    assert(keys[j] == out@[k].0@);
                } else {
                    assert(keys[i as int] == out@[k].0@);
                }
            }
            let crossing = crosses(was, before_items, left, escalate_after, fresh);
            assert(crossing == (had < limit && count >= limit));
            if crossing {
                let texts = crossed_texts(told);
                assert(crossed_texts(out@) =~= texts.push(fresh));
                assert forall|a: int, b: int|
                    0 <= a < b < texts.push(fresh).len() implies text::precedes(
                    #[trigger] texts.push(fresh)[a],
                    #[trigger] texts.push(fresh)[b],
                ) by {
                    if b == texts.len() {
                        assert(told[a].0@ == texts[a]);
                        assert(seen(keys, i as int, told[a].0@));
                        let j = choose|j: int| 0 <= j < i && keys[j] == told[a].0@;
                        assert(text::precedes(keys[j], keys[i as int]));
                    } else {
                        assert(text::precedes(texts[a], texts[b]));
                    }
                }
                assert(out@[told.len() as int].0@ == keys[i as int]);
                assert forall|item: Seq<char>| #[trigger]
                    crossed_texts(out@).contains(item) <==> (exists|j: int|
                        0 <= j < i + 1 && keys[j] == item) && crosses(
                        was,
                        before_items,
                        left,
                        escalate_after,
                        item,
                    ) by {
                    if item == fresh {
                        assert(texts.push(fresh)[texts.len() as int] == item);
                    } else {
                        if texts.push(fresh).contains(item) {
                            let a = choose|a: int|
                                0 <= a < texts.push(fresh).len() && texts.push(fresh)[a] == item;
                            assert(texts[a] == item);
                            assert(texts.contains(item));
                        }
                        if texts.contains(item) {
                            let a = choose|a: int| 0 <= a < texts.len() && texts[a] == item;
                            assert(texts.push(fresh)[a] == item);
                        }
                    }
                }
            } else {
                assert(out@ == told);
                assert forall|item: Seq<char>| #[trigger]
                    crossed_texts(out@).contains(item) <==> (exists|j: int|
                        0 <= j < i + 1 && keys[j] == item) && crosses(
                        was,
                        before_items,
                        left,
                        escalate_after,
                        item,
                    ) by {
                    if item == fresh {
                    }
                }
            }
        }
    }
    proof {
        let want = counted(was, before_items, left);
        assert forall|k: Seq<char>| #[trigger]
            now@.contains_key(k) <==> want.contains_key(k) by {
            assert(stay@.contains_key(k) <==> keys.contains(k));
            if keys.contains(k) {
                let j = choose|j: int| 0 <= j < keys.len() && keys[j] == k;
                assert(0 <= j < n && keys[j] == k);
            }
            if exists|j: int| 0 <= j < n && keys[j] == k {
                let j = choose|j: int| 0 <= j < n && keys[j] == k;
                assert(keys.contains(keys[j]));
            }
        }
        assert forall|k: Seq<char>| #[trigger]
            now@.contains_key(k) implies now@[k] == want[k] by {
            assert(now@[k] == attempts_of(now@, k));
            assert(stay@.contains_key(k) <==> keys.contains(k));
            if before_items.contains(k) {
                let j = choose|j: int| 0 <= j < keys.len() && keys[j] == k;
                assert(keys[j] == k);
            } else {
                assert forall|j: int| 0 <= j < n implies keys[j] != k by {
                    assert(keys.contains(keys[j]));
                }
            }
        }
        assert(now@ =~= want);
        assert forall|item: Seq<char>| #[trigger]
            crossed_texts(out@).contains(item) <==> crosses(
                was,
                before_items,
                left,
                escalate_after,
                item,
            ) by {
            if crosses(was, before_items, left, escalate_after, item) {
                assert(stay@.contains_key(item));
                assert(keys.contains(item));
                let j = choose|j: int| 0 <= j < keys.len() && keys[j] == item;
                assert(0 <= j < n && keys[j] == item);
            }
        }
        assert forall|i: int| 0 <= i < out@.len() implies (#[trigger] out@[i]).1 == attempts_of(
            now@,
            out@[i].0@,
        ) by {
            assert(seen(keys, n as int, out@[i].0@));
            let j = choose|j: int| 0 <= j < n && keys[j] == out@[i].0@;
            assert(attempts_of(now@, keys[j]) == one_more(attempts_of(was, keys[j])));
        }
    }
    *attempts = now;
    out
}

/// Item `a` is listed before item `b`: it survived more sweeps, or as many and
/// its text comes first.
pub open spec fn outranks(a: (Seq<char>, nat), b: (Seq<char>, nat)) -> bool {
    a.1 > b.1 || a.1 == b.1 && text::precedes(a.0, b.0)
}

/// Every item is listed before those behind it.
pub open spec fn is_ranking(items: Seq<(Seq<char>, nat)>) -> bool {
    forall|i: int, j: int|
        0 <= i < j < items.len() ==> outranks(#[trigger] items[i], #[trigger] items[j])
}

/// The item counts as stale.
pub open spec fn is_stale(attempts: Map<Seq<char>, u32>, escalate_after: u32, item: Seq<char>) -> bool {
    attempts.contains_key(item) && attempts[item] >= threshold(escalate_after)
}

/// `items` are the stale items of `attempts`, ranked; of more than `cap` the
/// first `cap`.
pub open spec fn is_stale_list(
    items: Seq<(Seq<char>, nat)>,
    attempts: Map<Seq<char>, u32>,
    escalate_after: u32,
    cap: nat,
) -> bool {
    &&& is_ranking(items)
    &&& items.len() <= cap
    &&& forall|i: int|
        0 <= i < items.len() ==> is_stale(attempts, escalate_after, (#[trigger] items[i]).0)
            && items[i].1 == attempts[items[i].0]
    &&& forall|item: Seq<char>| #[trigger]
        is_stale(attempts, escalate_after, item) ==> items.contains((item, attempts[item] as nat))
            || items.len() == cap && forall|i: int|
            0 <= i < items.len() ==> outranks(
                #[trigger] items[i],
                (item, attempts[item] as nat),
            )
}

/// What a list of stale items shows. Each of its items reached the threshold, which
/// is at least one, and stands with its own count. An item that survived more
/// sweeps stands before one that survived fewer, and of two that survived as many
/// the one whose text comes first. An item that reached the threshold is left out
/// only where the list is full, and then none that is shown survived fewer sweeps.
pub proof fn the_stalest_items_are_shown(
    items: Seq<(Seq<char>, nat)>,
    attempts: Map<Seq<char>, u32>,
    escalate_after: u32,
    cap: nat,
    item: Seq<char>,
    i: int,
    j: int,
)
    requires
        is_stale_list(items, attempts, escalate_after, cap),
    ensures
        items.len() <= cap,
        0 <= i < items.len() ==> attempts.contains_key(items[i].0) && items[i].1
            == attempts[items[i].0] && items[i].1 >= 1 && items[i].1 >= escalate_after,
        0 <= i < j < items.len() ==> items[i].1 >= items[j].1,
        0 <= i < j < items.len() && items[i].1 == items[j].1 ==> text::precedes(
            items[i].0,
            items[j].0,
        ),
        attempts.contains_key(item) && attempts[item] >= 1 && attempts[item] >= escalate_after
            && !items.contains((item, attempts[item] as nat)) ==> items.len() == cap && (0 <= i
            < items.len() ==> items[i].1 >= attempts[item]),
{
    if 0 <= i < j < items.len() {
        assert(outranks(items[i], items[j]));
    }
    if attempts.contains_key(item) && attempts[item] >= 1 && attempts[item] >= escalate_after {
        assert(is_stale(attempts, escalate_after, item));
    }
}

fn insert_ranked(list: &mut Vec<StaleItem>, x: StaleItem)
    requires
        is_ranking(prompts::stale_views(old(list)@)),
        forall|i: int|
            0 <= i < old(list)@.len() ==> text::precedes((#[trigger] old(list)@[i]).text@, x.text@),
    ensures
        is_ranking(prompts::stale_views(final(list)@)),
        final(list)@.len() == old(list)@.len() + 1,
        forall|item: (Seq<char>, nat)| #[trigger]
            prompts::stale_views(final(list)@).contains(item) <==> prompts::stale_views(
                old(list)@,
            ).contains(item) || item == (x.text@, x.attempts as nat),
{
    let ghost was = prompts::stale_views(list@);
    let ghost new = (x.text@, x.attempts as nat);
    let mut p: usize = list.len();
    while p > 0 && list[p - 1].attempts < x.attempts
        invariant
            p <= list@.len(),
            list@ == old(list)@,
            was == prompts::stale_views(list@),
            forall|j: int| p <= j < was.len() ==> (#[trigger] was[j]).1 < x.attempts,
        decreases p,
    {
        assert(was[p - 1].1 == list@[p - 1].attempts);
        p = p - 1;
    }
    list.insert(p, x);
    proof {
        let now = prompts::stale_views(list@);
        assert(now =~= was.insert(p as int, new));
        assert forall|i: int, j: int| 0 <= i < j < now.len() implies outranks(
            #[trigger] now[i],
            #[trigger] now[j],
        ) by {
            if j < p {
                assert(now[i] == was[i] && now[j] == was[j]);
            } else if i > p {
                assert(now[i] == was[i - 1] && now[j] == was[j - 1]);
            } else if i < p && j > p {
                assert(now[i] == was[i] && now[j] == was[j - 1]);
            } else if i < p && j == p {
                assert(now[i] == was[i]);
                assert(was[p - 1].1 >= new.1);
                assert(old(list)@[i].text@ == was[i].0);
                if i < p - 1 {
                    assert(outranks(was[i], was[p - 1]));
                }
            } else {
                assert(now[j] == was[j - 1]);
            }
        }
        assert forall|item: (Seq<char>, nat)| #[trigger]
            now.contains(item) <==> was.contains(item) || item == new by {
            if now.contains(item) {
                let i = choose|i: int| 0 <= i < now.len() && now[i] == item;
                if i < p {
                    assert(was[i] == item);
                } else if i > p {
                    assert(was[i - 1] == item);
                }
            }
            if was.contains(item) {
                let i = choose|i: int| 0 <= i < was.len() && was[i] == item;
                if i < p {
                    assert(now[i] == item);
                } else {
                    assert(now[i + 1] == item);
                }
            }
            if item == new {
                assert(now[p as int] == item);
            }
        }
    }
}

/// The `## Deferred items` entries whose sweep-attempt counter is at or above
/// the threshold, by descending attempts (text ascending as a deterministic
/// tiebreaker), capped so the sweep prompt stays bounded.
pub fn stale_items(attempts: &Table<u32>, escalate_after: u32) -> (r: Vec<StaleItem>)
    ensures
        is_stale_list(
            prompts::stale_views(r@),
            attempts@,
            escalate_after,
            STALE_ITEMS_PROMPT_CAP as nat,
        ),
{
    let limit: u32 = if escalate_after == 0 {
        1
    } else {
        escalate_after
    };
    let n: usize = attempts.len();
    let ghost keys = attempts.keys();
    let mut list: Vec<StaleItem> = Vec::new();
    for i in 0..n
        invariant
            n == keys.len(),
            keys == attempts.keys(),
            table::ascending(keys),
            limit == threshold(escalate_after),
            forall|k: Seq<char>| #[trigger] attempts@.contains_key(k) <==> keys.contains(k),
            is_ranking(prompts::stale_views(list@)),
            forall|k: int| 0 <= k < list@.len() ==> seen(keys, i as int, (#[trigger] list@[k]).text@),
            forall|item: (Seq<char>, nat)| #[trigger]
                prompts::stale_views(list@).contains(item) <==> seen(keys, i as int, item.0)
                    && is_stale(attempts@, escalate_after, item.0) && item.1 == attempts@[item.0],
    {
        let (key, count) = attempts.entry(i);
        let ghost fresh = keys[i as int];
        let ghost before = list@;
        proof {
            assert forall|k: int| 0 <= k < list@.len() implies text::precedes(
                (#[trigger] list@[k]).text@,
                fresh,
            ) by {
                assert(seen(keys, i as int, list@[k].text@));
                let j = choose|j: int| 0 <= j < i && keys[j] == list@[k].text@;
                assert(text::precedes(keys[j], keys[i as int]));
            }
            text::precedes_irreflexive(fresh);
        }
        if *count >= limit {
            insert_ranked(&mut list, StaleItem { text: text::owned(key), attempts: *count });
        }
        proof {
            assert(seen(keys, i + 1, fresh)) by {
                assert(keys[i as int] == fresh);
            }
            assert forall|s: Seq<char>| #[trigger] seen(keys, i + 1, s) <==> seen(
                keys,
                i as int,
                s,
            ) || s == fresh by {
                if seen(keys, i as int, s) {
                    let j = choose|j: int| 0 <= j < i && keys[j] == s;
                    assert(keys[j] == s);
                }
            }
            let views = prompts::stale_views(list@);
            assert forall|k: int| 0 <= k < list@.len() implies seen(
                keys,
                i + 1,
                (#[trigger] list@[k]).text@,
            ) by {
                assert(views[k] == (list@[k].text@, list@[k].attempts as nat));
                assert(views.contains(views[k]));
                assert(prompts::stale_views(before).contains(views[k]) || views[k].0 == fresh);
            }
        }
    }
    let ghost all = prompts::stale_views(list@);
    list.truncate(STALE_ITEMS_PROMPT_CAP);
    proof {
        let cut = prompts::stale_views(list@);
        let len = cut.len() as int;
        assert(cut =~= all.take(len));
        assert forall|i: int| 0 <= i < cut.len() implies is_stale(
            attempts@,
            escalate_after,
            (#[trigger] cut[i]).0,
        ) && cut[i].1 == attempts@[cut[i].0] by {
            assert(all.contains(all[i]));
        }
        assert forall|item: Seq<char>| #[trigger]
            is_stale(attempts@, escalate_after, item) implies cut.contains(
            (item, attempts@[item] as nat),
        ) || cut.len() == STALE_ITEMS_PROMPT_CAP && forall|i: int|
            0 <= i < cut.len() ==> outranks(#[trigger] cut[i], (item, attempts@[item] as nat)) by {
            assert(keys.contains(item));
            let j = choose|j: int| 0 <= j < keys.len() && keys[j] == item;
            assert(seen(keys, n as int, item)) by {
                assert(keys[j] == item);
            }
            let x = (item, attempts@[item] as nat);
            assert(all.contains(x));
            let k = choose|k: int| 0 <= k < all.len() && all[k] == x;
            if k < len {
                assert(cut[k] == x);
            } else {
                assert forall|i: int| 0 <= i < cut.len() implies outranks(
                    #[trigger] cut[i],
                    x,
                ) by {
                    assert(outranks(all[i], all[k]));
                }
            }
        }
    }
    list
}

// ---------------------------------------------------------------------------
// The prompt view of the backlog
// ---------------------------------------------------------------------------

/// `items` with only the first `max` unchecked entries; ticked-off entries
/// stay.
pub open spec fn clamped(items: Seq<deferred::ItemModel>, max: nat) -> Seq<deferred::ItemModel>
    decreases items.len(),
{
    if items.len() == 0 {
        Seq::empty()
    } else {
        let front = clamped(items.drop_last(), max);
        if items.last().done || deferred::unchecked_items(items.drop_last()).len() < max {
            front.push(items.last())
        } else {
            front
        }
    }
}

/// Clamping keeps exactly the first `max` unchecked entries, in order.
pub proof fn clamping_keeps_the_first(items: Seq<deferred::ItemModel>, max: nat)
    ensures
        ({
            let all = deferred::unchecked_items(items);
            deferred::unchecked_items(clamped(items, max)) == if all.len() <= max {
                all
            } else {
                all.take(max as int)
            }
        }),
    decreases items.len(),
{
    if items.len() > 0 {
        let front = items.drop_last();
        clamping_keeps_the_first(front, max);
        let all = deferred::unchecked_items(front);
        let kept = clamped(front, max);
        assert(kept.push(items.last()).drop_last() =~= kept);
        if !items.last().done {
            if all.len() < max {
            } else {
                assert(all.push(items.last()).take(max as int) =~= all.take(max as int));
                if all.len() == max {
                    assert(all.take(max as int) =~= all);
                }
            }
        }
    }
}

/// Clamping leaves the items that are done alone: all of them stay, in order.
pub proof fn clamping_keeps_what_is_done(items: Seq<deferred::ItemModel>, max: nat)
    ensures
        clamped(items, max).filter(|i: deferred::ItemModel| i.done) == items.filter(
            |i: deferred::ItemModel| i.done,
        ),
        clamped(items, max).filter(|i: deferred::ItemModel| !i.done).len() <= max,
        items.filter(|i: deferred::ItemModel| !i.done).len() <= max ==> clamped(items, max)
            == items,
    decreases items.len(),
{
    reveal(Seq::filter);
    clamping_keeps_the_first(items, max);
    deferred::unchecked_means_not_done(clamped(items, max));
    deferred::unchecked_means_not_done(items);
    if items.len() > 0 {
        let front = items.drop_last();
        clamping_keeps_what_is_done(front, max);
        deferred::unchecked_means_not_done(front);
        let kept = clamped(front, max);
        assert(kept.push(items.last()).drop_last() =~= kept);
        if items.filter(|i: deferred::ItemModel| !i.done).len() <= max {
            assert(front.push(items.last()) =~= items);
        }
    } else {
        assert(clamped(items, max) =~= items);
    }
}

/// A copy of `doc` that keeps only the first `max` pending items (in document
/// order). Already-checked items are filtered out by the sweep prompt
/// renderer, so they're left alone here. `## Deferred phases` are preserved
/// verbatim — the sweep prompt forbids editing them and the auditor
/// cross-checks against the full file.
pub fn clamp_pending_items(doc: &DeferredDoc, max: usize) -> (r: DeferredDoc)
    ensures
        r@ == (deferred::DeferredModel {
            items: clamped(doc@.items, max as nat),
            phases: doc@.phases,
        }),
{
    let ghost all = deferred::item_models(doc.items@);
    let mut items: Vec<deferred::DeferredItem> = Vec::new();
    let mut pending: usize = 0;
    assert(deferred::item_models(items@) =~= clamped(all.take(0), max as nat));
    for i in 0..doc.items.len()
        invariant
            all == deferred::item_models(doc.items@),
            pending == deferred::unchecked_items(all.take(i as int)).len(),
            pending <= i,
            deferred::item_models(items@) == clamped(all.take(i as int), max as nat),
    {
        let ghost before = deferred::item_models(items@);
        proof {
            assert(all.take(i + 1).drop_last() =~= all.take(i as int));
            assert(all.take(i + 1).last() == doc.items@[i as int]@);
        }
        let keep = doc.items[i].done || pending < max;
        if !doc.items[i].done {
            pending = pending + 1;
        }
        if keep {
            let item = doc.items[i].copy();
            items.push(item);
            assert(deferred::item_models(items@) =~= before.push(item@));
        }
    }
    assert(all.take(all.len() as int) =~= all);
    DeferredDoc { items, phases: deferred::copy_phases(&doc.phases) }
}

/// The `## Deferred phases` block of a document.
pub open spec fn phases_block(doc: deferred::DeferredModel) -> Seq<char> {
    deferred::deferred_text(deferred::DeferredModel { items: Seq::empty(), phases: doc.phases })
}

/// What the block of deferred phases tells: the items do not matter to it, and two
/// backlogs whose phases can stand in a file have one block only if they have the
/// same phases, so an edit of a phase shows.
pub proof fn the_block_shows_the_phases(a: deferred::DeferredModel, b: deferred::DeferredModel)
    ensures
        a.phases == b.phases ==> phases_block(a) == phases_block(b),
        (forall|i: int|
            0 <= i < a.phases.len() ==> deferred::round_trip::plain_block(#[trigger] a.phases[i]))
            && (forall|i: int|
            0 <= i < b.phases.len() ==> deferred::round_trip::plain_block(#[trigger] b.phases[i]))
            && phases_block(a) == phases_block(b) ==> a.phases == b.phases,
{
    let none = Seq::<deferred::ItemModel>::empty();
    let (x, y) = (
        deferred::DeferredModel { items: none, phases: a.phases },
        deferred::DeferredModel { items: none, phases: b.phases },
    );
    if (forall|i: int|
        0 <= i < a.phases.len() ==> deferred::round_trip::plain_block(#[trigger] a.phases[i])) && (
    forall|i: int|
        0 <= i < b.phases.len() ==> deferred::round_trip::plain_block(#[trigger] b.phases[i])) {
        deferred::round_trip::parse_undoes_serialize(x);
        deferred::round_trip::parse_undoes_serialize(y);
    }
}

/// Canonical serialization of just the `## Deferred phases` block of a
/// document. Used by the sweep step to detect whether the agent edited any H3
/// entries — the sweep prompt forbids it, so any difference trips a halt and a
/// deferred.md rollback.
pub fn phases_block_canonical(doc: &DeferredDoc) -> (r: String)
    ensures
        r@ == phases_block(doc@),
{
    let none: Vec<deferred::DeferredItem> = Vec::new();
    assert(deferred::item_models(none@) =~= Seq::empty());
    deferred::serialize(&DeferredDoc { items: none, phases: deferred::copy_phases(&doc.phases) })
}

} // verus!
