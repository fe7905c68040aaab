//! A map keyed by text, held in key order.

use vstd::prelude::*;

use crate::text;

verus! {

/// A map from texts to values whose entries are kept in lexicographic order of
/// their keys.
#[derive(Debug, PartialEq, Eq)]
pub struct Table<V> {
    entries: Vec<(String, V)>,
}

/// The keys of `entries`, in order.
pub open spec fn keys_of<V>(entries: Seq<(String, V)>) -> Seq<Seq<char>> {
    entries.map_values(|e: (String, V)| e.0@)
}

/// Each key comes strictly before the ones behind it.
pub open spec fn ascending(keys: Seq<Seq<char>>) -> bool {
    forall|i: int, j: int|
        0 <= i < j < keys.len() ==> text::precedes(#[trigger] keys[i], #[trigger] keys[j])
}

/// The map that `entries` stand for.
pub open spec fn map_of<V>(entries: Seq<(String, V)>) -> Map<Seq<char>, V>
    decreases entries.len(),
{
    if entries.len() == 0 {
        Map::empty()
    } else {
        map_of(entries.drop_last()).insert(entries.last().0@, entries.last().1)
    }
}

proof fn map_of_has<V>(entries: Seq<(String, V)>)
    requires
        ascending(keys_of(entries)),
    ensures
        forall|k: Seq<char>| #[trigger]
            map_of(entries).contains_key(k) <==> keys_of(entries).contains(k),
        forall|i: int|
            0 <= i < entries.len() ==> map_of(entries).contains_key(#[trigger] keys_of(entries)[i])
                && map_of(entries)[keys_of(entries)[i]] == entries[i].1,
    decreases entries.len(),
{
    let keys = keys_of(entries);
    if entries.len() > 0 {
        let front = entries.drop_last();
        assert(keys_of(front) =~= keys.drop_last());
        map_of_has(front);
        let last = keys[keys.len() - 1];
        assert(last == entries.last().0@);
        assert forall|i: int| 0 <= i < entries.len() implies map_of(entries).contains_key(
            #[trigger] keys[i],
        ) && map_of(entries)[keys[i]] == entries[i].1 by {
            if i < entries.len() - 1 {
                assert(keys_of(front)[i] == keys[i]);
                assert(text::precedes(keys[i], last));
                text::precedes_irreflexive(last);
            }
        }
        assert forall|k: Seq<char>| #[trigger]
            map_of(entries).contains_key(k) <==> keys.contains(k) by {
            if map_of(entries).contains_key(k) {
                if k == last {
                    assert(keys[keys.len() - 1] == k);
                } else {
                    assert(map_of(front).contains_key(k));
                    let i = choose|i: int| 0 <= i < keys_of(front).len() && keys_of(front)[i] == k;
                    assert(keys[i] == k);
                }
            }
            if keys.contains(k) {
                let i = choose|i: int| 0 <= i < keys.len() && keys[i] == k;
                assert(map_of(entries).contains_key(keys[i]));
            }
        }
    } else {
        assert(keys.len() == 0);
    }
}

impl<V> View for Table<V> {
    type V = Map<Seq<char>, V>;

    closed spec fn view(&self) -> Map<Seq<char>, V> {
        map_of(self.entries@)
    }
}

impl<V> Table<V> {
    #[verifier::type_invariant]
    spec fn ordered(self) -> bool {
        ascending(keys_of(self.entries@))
    }

    /// The keys, in order.
    pub closed spec fn keys(self) -> Seq<Seq<char>> {
        keys_of(self.entries@)
    }

    /// A table with no entries.
    pub fn new() -> (r: Self)
        ensures
            r@ == Map::<Seq<char>, V>::empty(),
            r.keys().len() == 0,
    {
        let entries: Vec<(String, V)> = Vec::new();
        assert(keys_of(entries@).len() == 0);
        Table { entries }
    }

    /// How many entries there are. The keys stand in lexicographic order, and
    /// they are the keys of the map.
    pub fn len(&self) -> (r: usize)
        ensures
            r == self.keys().len(),
            ascending(self.keys()),
            forall|k: Seq<char>| #[trigger] self@.contains_key(k) <==> self.keys().contains(k),
    {
        proof {
            use_type_invariant(self);
            map_of_has(self.entries@);
        }
        self.entries.len()
    }

    /// The key and the value of the entry at index `i`.
    pub fn entry(&self, i: usize) -> (r: (&str, &V))
        requires
            i < self.keys().len(),
        ensures
            r.0@ == self.keys()[i as int],
            self@.contains_key(r.0@),
            self@[r.0@] == *r.1,
    {
        proof {
            use_type_invariant(self);
            map_of_has(self.entries@);
        }
        let ghost key = keys_of(self.entries@)[i as int];
        (self.entries[i].0.as_str(), &self.entries[i].1)
    }

    /// The value of `key`.
    pub fn get(&self, key: &str) -> (r: Option<&V>)
        ensures
            match r {
                Some(v) => self@.contains_key(key@) && self@[key@] == *v,
                None => !self@.contains_key(key@),
            },
    {
        proof {
            use_type_invariant(self);
            map_of_has(self.entries@);
        }
        let ghost keys = keys_of(self.entries@);
        for i in 0..self.entries.len()
            invariant
                keys == keys_of(self.entries@),
                self@ == map_of(self.entries@),
                forall|k: Seq<char>| #[trigger] self@.contains_key(k) <==> keys.contains(k),
                forall|i: int|
                    0 <= i < keys.len() ==> self@.contains_key(#[trigger] keys[i])
                        && self@[keys[i]] == self.entries@[i].1,
                forall|j: int| 0 <= j < i ==> #[trigger] keys[j] != key@,
        {
            assert(keys[i as int] == self.entries@[i as int].0@);
            if text::same(self.entries[i].0.as_str(), key) {
                return Some(&self.entries[i].1);
            }
        }
        None
    }

    /// Whether `key` has a value.
    pub fn contains_key(&self, key: &str) -> (r: bool)
        ensures
            r == self@.contains_key(key@),
    {
        match self.get(key) {
            Some(_) => true,
            None => false,
        }
    }

    /// Gives `key` the value `value`.
    pub fn insert(&mut self, key: &str, value: V)
        ensures
            final(self)@ == old(self)@.insert(key@, value),
    {
        proof {
            use_type_invariant(&*self);
            map_of_has(self.entries@);
        }
        let ghost before = self.entries@;
        let mut rest: Vec<(String, V)> = Vec::new();
        std::mem::swap(&mut rest, &mut self.entries);
        let mut at: usize = 0;
        while at < rest.len() && text::before(rest[at].0.as_str(), key)
            invariant
                rest@ == before,
                at <= rest@.len(),
                forall|j: int|
                    0 <= j < at ==> text::precedes(#[trigger] keys_of(before)[j], key@),
            decreases rest@.len() - at,
        {
            assert(keys_of(before)[at as int] == rest@[at as int].0@);
            at = at + 1;
        }
        let ghost keys = keys_of(before);
        if at < rest.len() {
            assert(keys[at as int] == rest@[at as int].0@);
        }
        if at < rest.len() && text::same(rest[at].0.as_str(), key) {
            let _ = rest.remove(at);
            rest.insert(at, (text::owned(key), value));
            proof {
                assert(keys_of(rest@) =~= keys);
                map_of_has(rest@);
                assert(map_of(rest@) =~= map_of(before).insert(key@, value)) by {
                    table_replaced(before, rest@, at as int, key@, value);
                }
            }
        } else {
            rest.insert(at, (text::owned(key), value));
            proof {
                table_grown(before, rest@, at as int, key@, value);
            }
        }
        self.entries = rest;
    }

    /// Takes `key` and its value out.
    pub fn remove(&mut self, key: &str)
        ensures
            final(self)@ == old(self)@.remove(key@),
    {
        proof {
            use_type_invariant(&*self);
            map_of_has(self.entries@);
        }
        let ghost before = self.entries@;
        let ghost keys = keys_of(before);
        let mut rest: Vec<(String, V)> = Vec::new();
        std::mem::swap(&mut rest, &mut self.entries);
        let mut at: usize = 0;
        while at < rest.len() && !text::same(rest[at].0.as_str(), key)
            invariant
                rest@ == before,
                keys == keys_of(before),
                at <= rest@.len(),
                forall|j: int| 0 <= j < at ==> #[trigger] keys[j] != key@,
            decreases rest@.len() - at,
        {
            assert(keys[at as int] == rest@[at as int].0@);
            at = at + 1;
        }
        if at < rest.len() {
            assert(keys[at as int] == rest@[at as int].0@);
            let _ = rest.remove(at);
            proof {
                table_shrunk(before, rest@, at as int, key@);
            }
        } else {
            assert(map_of(before).remove(key@) =~= map_of(before));
        }
        self.entries = rest;
    }
}

impl<V: Copy> Table<V> {
    /// A copy of the table.
    pub fn copy(&self) -> (r: Self)
        ensures
            r@ == self@,
            r.keys() == self.keys(),
    {
        proof {
            use_type_invariant(self);
        }
        let mut entries: Vec<(String, V)> = Vec::new();
        for i in 0..self.entries.len()
            invariant
                entries@.len() == i,
                forall|j: int|
                    0 <= j < i ==> (#[trigger] entries@[j]).0@ == self.entries@[j].0@
                        && entries@[j].1 == self.entries@[j].1,
        {
            entries.push((self.entries[i].0.clone(), self.entries[i].1));
        }
        proof {
            same_map(entries@, self.entries@);
        }
        Table { entries }
    }
}

proof fn same_map<V>(a: Seq<(String, V)>, b: Seq<(String, V)>)
    requires
        a.len() == b.len(),
        forall|j: int| 0 <= j < a.len() ==> (#[trigger] a[j]).0@ == b[j].0@ && a[j].1 == b[j].1,
    ensures
        map_of(a) == map_of(b),
        keys_of(a) == keys_of(b),
    decreases a.len(),
{
    assert(keys_of(a) =~= keys_of(b));
    if a.len() > 0 {
        same_map(a.drop_last(), b.drop_last());
        assert(a[a.len() - 1].0@ == b[b.len() - 1].0@);
    }
}

proof fn table_replaced<V>(
    before: Seq<(String, V)>,
    after: Seq<(String, V)>,
    at: int,
    key: Seq<char>,
    value: V,
)
    requires
        ascending(keys_of(before)),
        0 <= at < before.len(),
        after.len() == before.len(),
        keys_of(after) == keys_of(before),
        keys_of(before)[at] == key,
        after[at].1 == value,
        forall|i: int| 0 <= i < before.len() && i != at ==> #[trigger] after[i] == before[i],
    ensures
        map_of(after) == map_of(before).insert(key, value),
{
    let keys = keys_of(before);
    map_of_has(before);
    map_of_has(after);
    let (a, b) = (map_of(after), map_of(before).insert(key, value));
    assert forall|k: Seq<char>| #[trigger] a.contains_key(k) <==> b.contains_key(k) by {
        if k == key {
            assert(keys_of(after)[at] == key);
        }
    }
    assert forall|k: Seq<char>| #[trigger] a.contains_key(k) implies a[k] == b[k] by {
        let i = choose|i: int| 0 <= i < keys.len() && keys[i] == k;
        assert(keys_of(after)[i] == k);
        assert(a[k] == after[i].1);
        if i != at {
            assert(after[i] == before[i]);
            if i < at {
                assert(text::precedes(keys[i], keys[at]));
            } else {
                assert(text::precedes(keys[at], keys[i]));
            }
            text::precedes_irreflexive(key);
        }
    }
    assert(a =~= b);
}

proof fn table_grown<V>(
    before: Seq<(String, V)>,
    after: Seq<(String, V)>,
    at: int,
    key: Seq<char>,
    value: V,
)
    requires
        ascending(keys_of(before)),
        0 <= at <= before.len(),
        after.len() == before.len() + 1,
        forall|i: int| 0 <= i < at ==> #[trigger] after[i] == before[i],
        forall|i: int| at < i < after.len() ==> #[trigger] after[i] == before[i - 1],
        after[at].0@ == key,
        after[at].1 == value,
        forall|j: int| 0 <= j < at ==> text::precedes(#[trigger] keys_of(before)[j], key),
        at < before.len() ==> keys_of(before)[at] != key && !text::precedes(
            keys_of(before)[at],
            key,
        ),
    ensures
        ascending(keys_of(after)),
        map_of(after) == map_of(before).insert(key, value),
{
    let (old_keys, new_keys) = (keys_of(before), keys_of(after));
    assert forall|j: int| at <= j < before.len() implies text::precedes(key, #[trigger] old_keys[j]) by {
        text::precedes_total(old_keys[at], key);
        if at < j {
            assert(text::precedes(old_keys[at], old_keys[j]));
            text::precedes_transitive(key, old_keys[at], old_keys[j]);
        }
    }
    assert forall|i: int| 0 <= i < new_keys.len() implies #[trigger] new_keys[i] == (if i < at {
        old_keys[i]
    } else if i == at {
        key
    } else {
        old_keys[i - 1]
    }) by {
        assert(new_keys[i] == after[i].0@);
    }
    assert forall|i: int, j: int| 0 <= i < j < new_keys.len() implies text::precedes(
        #[trigger] new_keys[i],
        #[trigger] new_keys[j],
    ) by {
        if j < at {
            assert(text::precedes(old_keys[i], old_keys[j]));
        } else if i > at {
            assert(text::precedes(old_keys[i - 1], old_keys[j - 1]));
        } else if i < at && j > at {
            assert(text::precedes(old_keys[i], old_keys[j - 1]));
        }
    }
    map_of_has(before);
    map_of_has(after);
    let (a, b) = (map_of(after), map_of(before).insert(key, value));
    assert forall|k: Seq<char>| #[trigger] a.contains_key(k) <==> b.contains_key(k) by {
        if k == key {
            assert(new_keys[at] == key);
        } else {
            if new_keys.contains(k) {
                let i = choose|i: int| 0 <= i < new_keys.len() && new_keys[i] == k;
                assert(old_keys[if i < at { i } else { i - 1 }] == k);
            }
            if old_keys.contains(k) {
                let i = choose|i: int| 0 <= i < old_keys.len() && old_keys[i] == k;
                assert(new_keys[if i < at { i } else { i + 1 }] == k);
            }
        }
    }
    assert forall|k: Seq<char>| #[trigger] a.contains_key(k) implies a[k] == b[k] by {
        let i = choose|i: int| 0 <= i < new_keys.len() && new_keys[i] == k;
        assert(a[k] == after[i].1);
        text::precedes_irreflexive(key);
        if i < at {
            assert(old_keys[i] == k);
        } else if i > at {
            assert(old_keys[i - 1] == k);
        }
    }
    assert(a =~= b);
}

proof fn table_shrunk<V>(
    before: Seq<(String, V)>,
    after: Seq<(String, V)>,
    at: int,
    key: Seq<char>,
)
    requires
        ascending(keys_of(before)),
        0 <= at < before.len(),
        after == before.remove(at),
        keys_of(before)[at] == key,
    ensures
        ascending(keys_of(after)),
        map_of(after) == map_of(before).remove(key),
{
    let (old_keys, new_keys) = (keys_of(before), keys_of(after));
    assert forall|i: int| 0 <= i < new_keys.len() implies #[trigger] new_keys[i] == (if i < at {
        old_keys[i]
    } else {
        old_keys[i + 1]
    }) by {
        assert(new_keys[i] == after[i].0@);
    }
    assert forall|i: int, j: int| 0 <= i < j < new_keys.len() implies text::precedes(
        #[trigger] new_keys[i],
        #[trigger] new_keys[j],
    ) by {
        assert(text::precedes(
            old_keys[if i < at { i } else { i + 1 }],
            old_keys[if j < at { j } else { j + 1 }],
        ));
    }
    map_of_has(before);
    map_of_has(after);
    let (a, b) = (map_of(after), map_of(before).remove(key));
    text::precedes_irreflexive(key);
    assert forall|k: Seq<char>| #[trigger] a.contains_key(k) <==> b.contains_key(k) by {
        if new_keys.contains(k) {
            let i = choose|i: int| 0 <= i < new_keys.len() && new_keys[i] == k;
            let o = if i < at { i } else { i + 1 };
            assert(old_keys[o] == k);
            if o < at {
                assert(text::precedes(old_keys[o], old_keys[at]));
            } else {
                assert(text::precedes(old_keys[at], old_keys[o]));
            }
        }
        if old_keys.contains(k) && k != key {
            let i = choose|i: int| 0 <= i < old_keys.len() && old_keys[i] == k;
            assert(new_keys[if i < at { i } else { i - 1 }] == k);
        }
    }
    assert forall|k: Seq<char>| #[trigger] a.contains_key(k) implies a[k] == b[k] by {
        let i = choose|i: int| 0 <= i < new_keys.len() && new_keys[i] == k;
        assert(a[k] == after[i].1);
        assert(old_keys[if i < at { i } else { i + 1 }] == k);
    }
    assert(a =~= b);
}

/// A copy of a table of texts.
pub fn copy_texts(t: &Table<String>) -> (r: Table<String>)
    ensures
        r@ == t@,
{
    let mut out: Table<String> = Table::new();
    let n: usize = t.len();
    let ghost keys = t.keys();
    for i in 0..n
        invariant
            n == keys.len(),
            keys == t.keys(),
            forall|k: Seq<char>| #[trigger]
                out@.contains_key(k) <==> exists|j: int| 0 <= j < i && keys[j] == k,
            forall|k: Seq<char>| #[trigger] out@.contains_key(k) ==> out@[k] == t@[k],
    {
        let ghost before = out@;
        let (key, value) = t.entry(i);
        out.insert(key, value.clone());
        assert forall|k: Seq<char>| #[trigger]
            out@.contains_key(k) <==> exists|j: int| 0 <= j < i + 1 && keys[j] == k by {
            if k == keys[i as int] {
            } else {
                assert(before.contains_key(k) <==> out@.contains_key(k));
            }
        }
    }
    proof {
        assert forall|k: Seq<char>| #[trigger] out@.contains_key(k) <==> t@.contains_key(k) by {
            assert(t@.contains_key(k) <==> keys.contains(k));
            if keys.contains(k) {
                let j = choose|j: int| 0 <= j < keys.len() && keys[j] == k;
                assert(0 <= j < n && keys[j] == k);
            }
            if out@.contains_key(k) {
                let j = choose|j: int| 0 <= j < n && keys[j] == k;
                assert(keys.contains(keys[j]));
            }
        }
        assert(out@ =~= t@);
    }
    out
}

} // verus!
