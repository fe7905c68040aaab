//! `plan.md` domain types and (de)serialization.

pub mod id;
pub mod new_plan;
pub mod parse;
pub mod round_trip;
pub mod snapshot;

pub use id::{PhaseId, PhaseIdParseError};
pub use parse::{parse, serialize, PlanParseError};
pub use snapshot::{snapshot, verify_unchanged, Snapshot, SnapshotError};

use vstd::prelude::*;
use vstd::string::StringExecFns;

use crate::text;

verus! {

/// A single `# Phase NN: Title` block from `plan.md`.
#[derive(Debug, Clone, PartialEq, Eq)]
pub struct Phase {
    /// Identifier from the heading (the `NN` portion).
    pub id: PhaseId,
    /// Heading title (everything after `# Phase NN:`).
    pub title: String,
    /// Raw markdown body following the heading line, preserved verbatim.
    pub body: String,
}

/// Parsed `plan.md`: the current phase pointer, raw frontmatter and preamble,
/// plus all phase blocks.
///
/// Frontmatter and preamble are kept as raw text so [`serialize`] can reproduce
/// the input byte-for-byte. Use [`Plan::new`] to have the phases sorted by
/// [`PhaseId`].
#[derive(Debug, Clone, PartialEq, Eq)]
pub struct Plan {
    /// The phase the runner is currently working on. Mirrors the
    /// `current_phase` key inside [`Plan::frontmatter`].
    pub current_phase: PhaseId,
    /// Raw YAML frontmatter text — the bytes between the opening and closing
    /// `---` fences, with no surrounding markers and no trailing newline.
    pub frontmatter: String,
    /// Raw markdown text between the closing `---` of the frontmatter and the
    /// first `# Phase NN:` heading. Preserved verbatim, including the leading
    /// newline immediately after the closing fence.
    pub preamble: String,
    /// All phases.
    pub phases: Vec<Phase>,
}

/// A [`Phase`] as a mathematical value.
pub struct PhaseModel {
    pub id: Seq<char>,
    pub title: Seq<char>,
    pub body: Seq<char>,
}

/// A [`Plan`] as a mathematical value.
pub struct PlanModel {
    pub current_phase: Seq<char>,
    pub frontmatter: Seq<char>,
    pub preamble: Seq<char>,
    pub phases: Seq<PhaseModel>,
}

impl View for Phase {
    type V = PhaseModel;

    open spec fn view(&self) -> PhaseModel {
        PhaseModel { id: self.id@, title: self.title@, body: self.body@ }
    }
}

impl View for Plan {
    type V = PlanModel;

    open spec fn view(&self) -> PlanModel {
        PlanModel {
            current_phase: self.current_phase@,
            frontmatter: self.frontmatter@,
            preamble: self.preamble@,
            phases: phase_models(self.phases@),
        }
    }
}

/// The models of a list of phases.
pub open spec fn phase_models(phases: Seq<Phase>) -> Seq<PhaseModel> {
    phases.map_values(|p: Phase| p@)
}

// ---------------------------------------------------------------------------
// Sorting phases
// ---------------------------------------------------------------------------

/// How many leading phases of the sorted `phases` do not come after `id`.
pub open spec fn slot(phases: Seq<Phase>, id: Seq<char>) -> int
    decreases phases.len(),
{
    if phases.len() > 0 && id::id_before(id, phases.last().id@) {
        slot(phases.drop_last(), id)
    } else {
        phases.len() as int
    }
}

/// `phases` sorted by identifier; phases with the same identifier keep their
/// order.
pub open spec fn sorted(phases: Seq<Phase>) -> Seq<Phase>
    decreases phases.len(),
{
    if phases.len() == 0 {
        Seq::empty()
    } else {
        let rest = sorted(phases.drop_last());
        rest.insert(slot(rest, phases.last().id@), phases.last())
    }
}

/// No phase of `phases` comes before one that stands earlier.
pub open spec fn in_order(phases: Seq<Phase>) -> bool {
    forall|i: int, j: int|
        0 <= i < j < phases.len() ==> !id::id_before(
            (#[trigger] phases[j]).id@,
            (#[trigger] phases[i]).id@,
        )
}

pub proof fn slot_bounds(phases: Seq<Phase>, id: Seq<char>)
    ensures
        0 <= slot(phases, id) <= phases.len(),
        forall|j: int|
            slot(phases, id) <= j < phases.len() ==> id::id_before(id, (#[trigger] phases[j]).id@),
        slot(phases, id) > 0 ==> !id::id_before(id, phases[slot(phases, id) - 1].id@),
    decreases phases.len(),
{
    if phases.len() > 0 && id::id_before(id, phases.last().id@) {
        slot_bounds(phases.drop_last(), id);
        assert forall|j: int| slot(phases, id) <= j < phases.len() implies id::id_before(
            id,
            (#[trigger] phases[j]).id@,
        ) by {
            if j < phases.len() - 1 {
                assert(phases.drop_last()[j] == phases[j]);
            }
        }
    }
}

/// [`sorted`] puts the phases in identifier order, and neither drops, adds nor
/// changes one.
pub proof fn sorted_is_ordered_permutation(phases: Seq<Phase>)
    ensures
        in_order(sorted(phases)),
        sorted(phases).len() == phases.len(),
        sorted(phases).to_multiset() == phases.to_multiset(),
    decreases phases.len(),
{
    broadcast use vstd::seq_lib::group_to_multiset_ensures;

    if phases.len() > 0 {
        let front = phases.drop_last();
        let rest = sorted(front);
        let x = phases.last();
        let k = slot(rest, x.id@);
        sorted_is_ordered_permutation(front);
        slot_bounds(rest, x.id@);
        let out = rest.insert(k, x);
        assert(front.push(x) =~= phases);
        assert(out.to_multiset() =~= rest.to_multiset().insert(x));
        assert forall|i: int, j: int| 0 <= i < j < out.len() implies !id::id_before(
            (#[trigger] out[j]).id@,
            (#[trigger] out[i]).id@,
        ) by {
            id::id_order_total(x.id@, out[i].id@);
            id::id_order_total(x.id@, out[j].id@);
            id::id_order_irreflexive(x.id@);
            if i < k && j < k {
                assert(out[i] == rest[i] && out[j] == rest[j]);
            } else if i > k {
                assert(out[i] == rest[i - 1] && out[j] == rest[j - 1]);
            } else if i < k && j > k {
                assert(out[i] == rest[i] && out[j] == rest[j - 1]);
            } else if i < k && j == k {
                assert(out[i] == rest[i]);
                let last = rest[k - 1];
                assert(!id::id_before(x.id@, last.id@));
                if i < k - 1 {
                    assert(!id::id_before(last.id@, rest[i].id@));
                }
                if id::id_before(x.id@, rest[i].id@) {
                    id::id_order_total(last.id@, rest[i].id@);
                    id::id_order_total(last.id@, x.id@);
                    if last.id@ != x.id@ {
                        assert(id::id_before(last.id@, x.id@));
                        id::id_order_transitive(last.id@, x.id@, rest[i].id@);
                    }
                }
            } else if i == k {
                assert(out[j] == rest[j - 1]);
                assert(id::id_before(x.id@, rest[j - 1].id@));
            }
        }
    } else {
        assert(sorted(phases) =~= phases);
    }
}

/// Phases of one identifier keep the order in which they were given.
pub proof fn equal_ids_keep_their_order(phases: Seq<Phase>, id: Seq<char>)
    ensures
        sorted(phases).filter(|p: Phase| p.id@ == id) == phases.filter(|p: Phase| p.id@ == id),
    decreases phases.len(),
{
    let q = |p: Phase| p.id@ == id;
    reveal(Seq::filter);
    if phases.len() > 0 {
        let front = phases.drop_last();
        let rest = sorted(front);
        let x = phases.last();
        let k = slot(rest, x.id@);
        equal_ids_keep_their_order(front, id);
        slot_bounds(rest, x.id@);
        let (a, b) = (rest.take(k), rest.skip(k));
        assert(rest =~= a + b);
        assert(rest.insert(k, x) =~= a + (seq![x] + b));
        Seq::filter_distributes_over_add(a, b, q);
        Seq::filter_distributes_over_add(a, seq![x] + b, q);
        Seq::filter_distributes_over_add(seq![x], b, q);
        assert(seq![x].drop_last() =~= Seq::<Phase>::empty());
        if q(x) {
            id::id_order_irreflexive(id);
            assert forall|j: int| 0 <= j < b.len() implies !q(#[trigger] b[j]) by {
                assert(b[j] == rest[k + j]);
            }
            none_pass(b, q);
            assert(seq![x].filter(q) =~= seq![x]);
            assert(rest.insert(k, x).filter(q) =~= rest.filter(q).push(x));
        } else {
            none_pass(seq![x], q);
            assert(rest.insert(k, x).filter(q) =~= rest.filter(q));
        }
    }
}

proof fn none_pass(s: Seq<Phase>, q: spec_fn(Phase) -> bool)
    requires
        forall|j: int| 0 <= j < s.len() ==> !q(#[trigger] s[j]),
    ensures
        s.filter(q) == Seq::<Phase>::empty(),
    decreases s.len(),
{
    reveal(Seq::filter);
    if s.len() > 0 {
        assert forall|j: int| 0 <= j < s.drop_last().len() implies !q(#[trigger] s.drop_last()[j]) by {
            assert(s.drop_last()[j] == s[j]);
        }
        none_pass(s.drop_last(), q);
        assert(!q(s[s.len() - 1]));
    }
}

// ---------------------------------------------------------------------------
// The frontmatter's pointer
// ---------------------------------------------------------------------------

/// The canonical frontmatter line that names `id` as the current phase.
pub open spec fn pointer_line(id: Seq<char>) -> Seq<char> {
    "current_phase: \""@ + id + "\""@
}

/// `line` carries the `current_phase` key.
pub open spec fn is_pointer(line: Seq<char>) -> bool {
    let t = text::trim_start(line);
    &&& text::occurs_at(t, "current_phase"@, 0)
    &&& text::occurs_at(text::trim_start(t.skip("current_phase"@.len() as int)), ":"@, 0)
}

/// The index at which the first line of `s` that carries the key begins,
/// looking from index `from` on.
pub open spec fn pointer_at(s: Seq<char>, from: int) -> Option<int>
    decreases s.len() - from,
{
    if from >= s.len() {
        None
    } else {
        let k = text::next_index(s, '\n', from);
        if is_pointer(s.subrange(from, k)) {
            Some(from)
        } else if from <= k < s.len() {
            pointer_at(s, k + 1)
        } else {
            None
        }
    }
}

/// The frontmatter `s` with its pointer set to `id`: the first line that
/// carries the key is rewritten and everything else stays, or the key is
/// appended on a line of its own.
pub open spec fn with_pointer(s: Seq<char>, id: Seq<char>) -> Seq<char> {
    match pointer_at(s, 0) {
        Some(k) => s.take(k) + pointer_line(id) + s.skip(text::next_index(s, '\n', k)),
        None => if s.len() == 0 || s.last() == '\n' {
            s + pointer_line(id)
        } else {
            s + "\n"@ + pointer_line(id)
        },
    }
}

/// Whether a frontmatter line carries the `current_phase` key.
pub fn is_current_phase_key(line: &str) -> (r: bool)
    ensures
        r == is_pointer(line@),
{
    let v = text::chars_of(line);
    let n: usize = v.len();
    let key = text::chars_of("current_phase");
    let colon = text::chars_of(":");
    let i = text::skip_spaces(v.as_slice(), 0, n);
    assert(v@.subrange(0, n as int) =~= line@);
    let ghost t = v@.subrange(i as int, n as int);
    if !text::occurs(v.as_slice(), key.as_slice(), i) {
        assert(text::occurs_at(t, key@, 0) ==> text::occurs_at(v@, key@, i as int)) by {
            if text::occurs_at(t, key@, 0) {
                assert(v@.subrange(i as int, i + key@.len()) =~= t.subrange(0, key@.len() as int));
            }
        }
        return false;
    }
    assert(t.subrange(0, key@.len() as int) =~= v@.subrange(i as int, i + key@.len()));
    let j = text::skip_spaces(v.as_slice(), i + key.len(), n);
    assert(v@.subrange(i + key@.len(), n as int) =~= t.skip(key@.len() as int));
    let ghost u = v@.subrange(j as int, n as int);
    let r = text::occurs(v.as_slice(), colon.as_slice(), j);
    proof {
        if r {
            assert(u.subrange(0, colon@.len() as int) =~= v@.subrange(j as int, j + colon@.len()));
        } else if text::occurs_at(u, colon@, 0) {
            assert(v@.subrange(j as int, j + colon@.len()) =~= u.subrange(0, colon@.len() as int));
        }
    }
    r
}

/// Puts `p` behind the phases of the sorted `out` that do not come after it.
fn insert_in_order(out: &mut Vec<Phase>, p: Phase)
    ensures
        final(out)@ == old(out)@.insert(slot(old(out)@, p.id@), p),
{
    let mut k: usize = out.len();
    assert(out@.take(k as int) =~= out@);
    while k > 0 && p.id.before(&out[k - 1].id)
        invariant
            k <= out@.len(),
            out@ == old(out)@,
            slot(out@, p.id@) == slot(out@.take(k as int), p.id@),
        decreases k,
    {
        assert(out@.take(k as int).drop_last() =~= out@.take(k - 1));
        k = k - 1;
    }
    out.insert(k, p);
}

impl Phase {
    /// A copy of the phase.
    pub fn copy(&self) -> (r: Self)
        ensures
            r@ == self@,
    {
        Phase { id: self.id.clone(), title: self.title.clone(), body: self.body.clone() }
    }
}

impl Plan {
    /// Build a new `Plan`, sorting `phases` by `PhaseId` and seeding a minimal
    /// frontmatter that names the current phase. The preamble is empty.
    pub fn new(current_phase: PhaseId, phases: Vec<Phase>) -> (r: Self)
        ensures
            r.current_phase == current_phase,
            r.frontmatter@ == pointer_line(current_phase@),
            r.preamble@.len() == 0,
            r.phases@ == sorted(phases@),
            in_order(r.phases@),
            r@ == new_plan::new_plan(current_phase@, phases@),
    {
        let ghost given = phases@;
        let mut rest = phases;
        let mut out: Vec<Phase> = Vec::new();
        while rest.len() > 0
            invariant
                given.len() == out@.len() + rest@.len(),
                rest@ == given.skip(out@.len() as int),
                out@ == sorted(given.take(out@.len() as int)),
            decreases rest@.len(),
        {
            let ghost done = out@.len() as int;
            let p = rest.remove(0);
            insert_in_order(&mut out, p);
            proof {
                let more = given.take(done + 1);
                assert(more.drop_last() =~= given.take(done));
                assert(more.last() == p);
                slot_bounds(sorted(given.take(done)), p.id@);
                assert(rest@ =~= given.skip(done + 1));
            }
        }
        assert(given.take(given.len() as int) =~= given);
        proof {
            sorted_is_ordered_permutation(given);
        }
        let mut frontmatter = text::owned("current_phase: \"");
        frontmatter.append(current_phase.as_str());
        frontmatter.append("\"");
        let r = Plan { current_phase, frontmatter, preamble: String::new(), phases: out };
        assert(r@.preamble =~= Seq::empty());
        r
    }

    /// Find a phase by id.
    pub fn phase(&self, id: &PhaseId) -> (r: Option<&Phase>)
        ensures
            match r {
                Some(p) => exists|i: int|
                    {
                        &&& 0 <= i < self.phases@.len()
                        &&& #[trigger] self.phases@[i] == *p
                        &&& p.id@ == id@
                        &&& forall|j: int| 0 <= j < i ==> (#[trigger] self.phases@[j]).id@ != id@
                    },
                None => forall|j: int|
                    0 <= j < self.phases@.len() ==> (#[trigger] self.phases@[j]).id@ != id@,
            },
    {
        for i in 0..self.phases.len()
            invariant
                forall|j: int| 0 <= j < i ==> (#[trigger] self.phases@[j]).id@ != id@,
        {
            if self.phases[i].id.same(id) {
                return Some(&self.phases[i]);
            }
        }
        None
    }

    /// Update [`Plan::current_phase`] and rewrite the matching key in the raw
    /// frontmatter. The only mutator the runner uses on `plan.md`.
    ///
    /// The line is rewritten in canonical form (`current_phase: "<id>"`); any
    /// custom quoting style on the original line is replaced. If the
    /// frontmatter contained no `current_phase:` line (e.g., for a `Plan`
    /// constructed by hand without it), the key is appended on a new line.
    pub fn set_current_phase(&mut self, id: PhaseId)
        ensures
            final(self).current_phase == id,
            final(self).frontmatter@ == with_pointer(old(self).frontmatter@, id@),
            final(self).preamble == old(self).preamble,
            final(self).phases == old(self).phases,
    {
        let v = text::chars_of(self.frontmatter.as_str());
        let n: usize = v.len();
        let mut from: usize = 0;
        let mut out = String::new();
        let mut found: bool = false;
        while from < n && !found
            invariant
                n == v@.len(),
                from <= n,
                !found ==> pointer_at(v@, 0) == pointer_at(v@, from as int),
                found ==> {
                    &&& pointer_at(v@, 0) is Some
                    &&& out@ == with_pointer(v@, id@)
                },
            decreases (n - from) + if found { 0int } else { 1int },
        {
            let k = text::find_from(v.as_slice(), '\n', from);
            let line = text::slice(v.as_slice(), from, k);
            if is_current_phase_key(line.as_str()) {
                out = text::slice(v.as_slice(), 0, from);
                out.append("current_phase: \"");
                out.append(id.as_str());
                out.append("\"");
                text::push_slice(&mut out, v.as_slice(), k, n);
                found = true;
                assert(out@ =~= v@.take(from as int) + pointer_line(id@) + v@.skip(k as int));
            } else if k < n {
                from = k + 1;
            } else {
                from = n;
            }
        }
        if !found {
            out = text::owned(self.frontmatter.as_str());
            if n > 0 && v[n - 1] != '\n' {
                out.append("\n");
            }
            out.append("current_phase: \"");
            out.append(id.as_str());
            out.append("\"");
            assert(out@ =~= with_pointer(v@, id@));
        }
        self.frontmatter = out;
        self.current_phase = id;
    }
}

// ---------------------------------------------------------------------------
// Laws of the pointer
// ---------------------------------------------------------------------------

proof fn pointer_line_is_pointer(id: Seq<char>)
    ensures
        is_pointer(pointer_line(id)),
{
    reveal_strlit("current_phase: \"");
    reveal_strlit("current_phase");
    reveal_strlit(":");
    let line = pointer_line(id);
    assert(text::trim_start(line) == line);
    assert(line.subrange(0, 13) =~= "current_phase"@);
    let rest = line.skip(13);
    assert(rest[0] == ':');
    assert(text::trim_start(rest) == rest);
    assert(rest.subrange(0, 1) =~= ":"@);
}

proof fn pointer_line_is_one_line(id: Seq<char>)
    requires
        id::is_phase_id(id),
    ensures
        forall|j: int| 0 <= j < pointer_line(id).len() ==> pointer_line(id)[j] != '\n',
{
    reveal_strlit("current_phase: \"");
    reveal_strlit("\"");
    id::digits_end_bounds(id, 0);
    assert forall|j: int| 0 <= j < id.len() implies id[j] != '\n' by {
        let e = id::digits_end(id, 0);
        if j < e {
            assert(id::is_digit(id[j]));
        } else {
            assert(id::suffix(id)[j - e] == id[j]);
        }
    }
}

proof fn pointer_at_bounds(s: Seq<char>, from: int)
    requires
        0 <= from,
    ensures
        pointer_at(s, from) matches Some(k) ==> from <= k < s.len() && is_pointer(
            s.subrange(k, text::next_index(s, '\n', k)),
        ),
    decreases s.len() - from,
{
    if from < s.len() {
        text::next_index_bounds(s, '\n', from);
        let k = text::next_index(s, '\n', from);
        if !is_pointer(s.subrange(from, k)) && k < s.len() {
            pointer_at_bounds(s, k + 1);
        }
    }
}

/// A pointer that is found at `k` is still found there when the text from `k`
/// on is replaced by text that begins with a pointer line.
proof fn pointer_stays(s: Seq<char>, t: Seq<char>, from: int, k: int)
    requires
        0 <= from <= k,
        pointer_at(s, from) == Some(k),
        k < t.len(),
        s.take(k) == t.take(k),
        is_pointer(t.subrange(k, text::next_index(t, '\n', k))),
    ensures
        pointer_at(t, from) == Some(k),
    decreases k - from,
{
    if from < k {
        pointer_at_bounds(s, from);
        text::next_index_bounds(s, '\n', from);
        let e = text::next_index(s, '\n', from);
        pointer_at_bounds(s, e + 1);
        assert(forall|j: int| 0 <= j < k ==> s[j] == s.take(k)[j] && t[j] == t.take(k)[j]);
        text::next_index_unique(t, '\n', from, e);
        assert(s.subrange(from, e) =~= t.subrange(from, e));
        pointer_stays(s, t, e + 1, k);
    }
}

/// Where no line carries the key, a pointer line put behind the text is found.
proof fn pointer_appended(s: Seq<char>, t: Seq<char>, from: int, k: int)
    requires
        0 <= from <= s.len() <= k,
        pointer_at(s, from) is None,
        k < t.len(),
        s == t.take(s.len() as int),
        k == s.len() && (s.len() == from || s.last() == '\n') || k == s.len() + 1 && from < s.len()
            && s.last() != '\n' && t[s.len() as int] == '\n',
        is_pointer(t.subrange(k, text::next_index(t, '\n', k))),
    ensures
        pointer_at(t, from) == Some(k),
    decreases s.len() - from,
{
    assert(forall|j: int| 0 <= j < s.len() ==> s[j] == t.take(s.len() as int)[j] && s[j] == t[j]);
    if from < s.len() {
        text::next_index_bounds(s, '\n', from);
        let e = text::next_index(s, '\n', from);
        if e < s.len() {
            text::next_index_unique(t, '\n', from, e);
            assert(s.subrange(from, e) =~= t.subrange(from, e));
            pointer_appended(s, t, e + 1, k);
        } else {
            assert(s.last() != '\n');
            text::next_index_unique(t, '\n', from, e);
            assert(s.subrange(from, e) =~= t.subrange(from, e));
            assert(pointer_at(t, k) == Some(k));
        }
    }
}

/// Setting the pointer changes one line and nothing else. Where a line of the
/// frontmatter carries the key, the first such line gives way to the one that
/// names the phase, and what stands before and behind it stays. Where none does,
/// the line is put behind what is there, on a line of its own.
pub proof fn setting_the_pointer_changes_one_line(s: Seq<char>, id: Seq<char>)
    ensures
        ({
            let line = "current_phase: \""@ + id + "\""@;
            let t = with_pointer(s, id);
            ||| exists|a: Seq<char>, was: Seq<char>, b: Seq<char>|
                #![trigger a + was + b]
                s == a + was + b && t == a + line + b && is_pointer(was) && (a.len() == 0 || a.last()
                    == '\n') && (b.len() == 0 || b[0] == '\n') && (forall|i: int|
                    0 <= i < was.len() ==> #[trigger] was[i] != '\n')
            ||| t == s + line && (s.len() == 0 || s.last() == '\n')
            ||| t == s + "\n"@ + line
        }),
        pointer_at(s, 0) is None ==> with_pointer(s, id).len() >= s.len() && with_pointer(
            s,
            id,
        ).take(s.len() as int) == s,
{
    match pointer_at(s, 0) {
        Some(k) => {
            pointer_line_start(s, 0);
            text::next_index_bounds(s, '\n', k);
            let e = text::next_index(s, '\n', k);
            let (a, was, b) = (s.take(k), s.subrange(k, e), s.skip(e));
            assert(s =~= a + was + b);
            if b.len() > 0 {
                assert(b[0] == s[e]);
            }
            assert forall|i: int| 0 <= i < was.len() implies #[trigger] was[i] != '\n' by {
                assert(was[i] == s[k + i]);
            }
        },
        None => {
            assert(with_pointer(s, id).take(s.len() as int) =~= s);
        },
    }
}

proof fn pointer_line_start(s: Seq<char>, from: int)
    requires
        0 <= from <= s.len(),
        from == 0 || s[from - 1] == '\n',
    ensures
        pointer_at(s, from) matches Some(k) ==> from <= k < s.len() && (k == 0 || s[k - 1] == '\n')
            && is_pointer(s.subrange(k, text::next_index(s, '\n', k))),
    decreases s.len() - from,
{
    if from < s.len() {
        text::next_index_bounds(s, '\n', from);
        let k = text::next_index(s, '\n', from);
        if !is_pointer(s.subrange(from, k)) && k < s.len() {
            pointer_line_start(s, k + 1);
        }
    }
}

/// A line carries the key where the key stands in it with nothing but white space
/// before it, and nothing but white space between it and the colon.
pub proof fn the_key_may_stand_in_white_space(
    before: Seq<char>,
    between: Seq<char>,
    value: Seq<char>,
)
    requires
        forall|i: int| 0 <= i < before.len() ==> text::is_space(#[trigger] before[i]),
        forall|i: int| 0 <= i < between.len() ==> text::is_space(#[trigger] between[i]),
    ensures
        is_pointer(before + "current_phase"@ + between + ":"@ + value),
{
    reveal_strlit("current_phase");
    reveal_strlit(":");
    let key = "current_phase"@;
    let rest = between + ":"@ + value;
    let line = before + "current_phase"@ + between + ":"@ + value;
    assert(line =~= before + (key + rest));
    assert((key + rest)[0] == 'c');
    white_space_goes(before, key + rest);
    let t = text::trim_start(line);
    assert(t.subrange(0, key.len() as int) =~= key);
    assert(t.skip(key.len() as int) =~= rest);
    assert(rest =~= between + (":"@ + value));
    white_space_goes(between, ":"@ + value);
    assert((":"@ + value).subrange(0, 1) =~= ":"@);
}

proof fn white_space_goes(space: Seq<char>, rest: Seq<char>)
    requires
        forall|i: int| 0 <= i < space.len() ==> text::is_space(#[trigger] space[i]),
        rest.len() > 0 ==> !text::is_space(rest[0]),
    ensures
        text::trim_start(space + rest) == rest,
    decreases space.len(),
{
    if space.len() > 0 {
        let less = space.skip(1);
        assert forall|i: int| 0 <= i < less.len() implies text::is_space(#[trigger] less[i]) by {
            assert(less[i] == space[i + 1]);
        }
        white_space_goes(less, rest);
        assert((space + rest).skip(1) =~= less + rest);
        assert((space + rest)[0] == space[0]);
    } else {
        assert(space + rest =~= rest);
    }
}

/// The last pointer set is the one that stays: setting the pointer to `a` and
/// then to `b` leaves what setting it to `b` alone leaves.
pub proof fn pointer_last_write_wins(s: Seq<char>, a: Seq<char>, b: Seq<char>)
    requires
        id::is_phase_id(a),
    ensures
        with_pointer(with_pointer(s, a), b) == with_pointer(s, b),
{
    let t = with_pointer(s, a);
    let line = pointer_line(a);
    pointer_line_is_pointer(a);
    pointer_line_is_one_line(a);
    reveal_strlit("current_phase: \"");
    reveal_strlit("\n");
    match pointer_at(s, 0) {
        Some(k) => {
            pointer_at_bounds(s, 0);
            text::next_index_bounds(s, '\n', k);
            let e = text::next_index(s, '\n', k);
            let f = k + line.len();
            assert(forall|j: int| k <= j < f ==> t[j] == line[j - k]);
            if e < s.len() {
                assert(t[f] == s[e]);
            }
            text::next_index_unique(t, '\n', k, f);
            assert(t.subrange(k, f) =~= line);
            assert(t.take(k) =~= s.take(k));
            pointer_stays(s, t, 0, k);
            assert(t.skip(f) =~= s.skip(e));
        },
        None => {
            let k = t.len() - line.len();
            assert(forall|j: int| k <= j < t.len() ==> t[j] == line[j - k]);
            text::next_index_unique(t, '\n', k, t.len() as int);
            assert(t.subrange(k, t.len() as int) =~= line);
            assert(t.take(s.len() as int) =~= s);
            pointer_appended(s, t, 0, k);
            assert(t.skip(t.len() as int) =~= Seq::<char>::empty());
            assert(t.take(k) + pointer_line(b) + t.skip(t.len() as int) =~= with_pointer(s, b));
        },
    }
}

} // verus!
