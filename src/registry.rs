use indexmap::IndexMap;
use vstd::prelude::*;

verus! {

/// `indexmap::IndexMap`, opaque here: what it holds is `slots_of`.
#[verifier::external_type_specification]
#[verifier::external_body]
#[verifier::reject_recursive_types(K)]
#[verifier::reject_recursive_types(V)]
#[verifier::reject_recursive_types(S)]
pub struct ExIndexMap<K, V, S>(IndexMap<K, V, S>);

/// An index from names to positions.
pub type SlotMap = IndexMap<String, usize>;

/// What a `SlotMap` holds, as a map.
pub uninterp spec fn slots_of(m: SlotMap) -> Map<Seq<char>, usize>;

/// Relies on `IndexMap::new`: a new map holds nothing.
#[verifier::external_body]
fn new_slots() -> (r: SlotMap)
    ensures
        slots_of(r).dom() == Set::<Seq<char>>::empty(),
{
    IndexMap::new()
}

/// Relies on `IndexMap::get`: the value stored under an equal key, if any.
#[verifier::external_body]
fn find_slot(m: &SlotMap, name: &str) -> (r: Option<usize>)
    ensures
        match r {
            Some(i) => slots_of(*m).contains_key(name@) && slots_of(*m)[name@] == i,
            None => !slots_of(*m).contains_key(name@),
        },
{
    m.get(name).copied()
}

/// Relies on `IndexMap::insert`: the key now maps to the value, and every
/// other key keeps its value.
#[verifier::external_body]
fn put_slot(m: &mut SlotMap, name: String, slot: usize)
    ensures
        slots_of(*final(m)) == slots_of(*old(m)).insert(name@, slot),
{
    m.insert(name, slot);
}

/// Some entry of `t` has the name `k`.
pub open spec fn has_name<V>(t: Seq<(Seq<char>, V)>, k: Seq<char>) -> bool {
    exists|i: int| 0 <= i < t.len() && #[trigger] t[i].0 == k
}

/// No two entries of `t` share a name.
pub open spec fn unique_names<V>(t: Seq<(Seq<char>, V)>) -> bool {
    forall|i: int, j: int| 0 <= i < j < t.len() ==> #[trigger] t[i].0 != #[trigger] t[j].0
}

/// The position of the entry named `k` (meaningful when `has_name(t, k)`).
pub open spec fn position_of<V>(t: Seq<(Seq<char>, V)>, k: Seq<char>) -> int {
    choose|i: int| 0 <= i < t.len() && #[trigger] t[i].0 == k
}

/// The value stored under `k`, if any.
pub open spec fn lookup<V>(t: Seq<(Seq<char>, V)>, k: Seq<char>) -> Option<V> {
    if has_name(t, k) {
        Some(t[position_of(t, k)].1)
    } else {
        None
    }
}

/// Inserting `(k, v)` into an ordered table: an entry with the same name is
/// replaced where it stands; otherwise the entry is added last.
pub open spec fn insert_named<V>(t: Seq<(Seq<char>, V)>, k: Seq<char>, v: V) -> Seq<(Seq<char>, V)> {
    if has_name(t, k) {
        t.update(position_of(t, k), (k, v))
    } else {
        t.push((k, v))
    }
}

/// Inserting each of `items` in turn.
pub open spec fn insert_all<V>(t: Seq<(Seq<char>, V)>, items: Seq<(Seq<char>, V)>) -> Seq<
    (Seq<char>, V),
>
    decreases items.len(),
{
    if items.len() == 0 {
        t
    } else {
        let last = items.last();
        insert_named(insert_all(t, items.drop_last()), last.0, last.1)
    }
}

/// In a table with unique names, the entry named `k` is the one at its
/// position.
pub proof fn lemma_position_unique<V>(t: Seq<(Seq<char>, V)>, i: int)
    requires
        unique_names(t),
        0 <= i < t.len(),
    ensures
        has_name(t, t[i].0),
        position_of(t, t[i].0) == i,
{
    let k = t[i].0;
    assert(has_name(t, k));
    let j = position_of(t, k);
    if j != i {
        if j < i {
            assert(t[j].0 != t[i].0);
        } else {
            assert(t[i].0 != t[j].0);
        }
    }
}

/// Inserting keeps names unique, makes `k` map to `v`, and leaves every
/// other name as it was.
pub proof fn lemma_insert_named<V>(t: Seq<(Seq<char>, V)>, k: Seq<char>, v: V)
    requires
        unique_names(t),
    ensures
        unique_names(insert_named(t, k, v)),
        lookup(insert_named(t, k, v), k) == Some(v),
        forall|q: Seq<char>| q != k ==> #[trigger] lookup(insert_named(t, k, v), q) == lookup(t, q),
{
    let r = insert_named(t, k, v);
    if has_name(t, k) {
        let p = position_of(t, k);
        assert forall|i: int, j: int| 0 <= i < j < r.len() implies #[trigger] r[i].0 != #[trigger] r[j].0 by {
            if i != p && j != p {
                assert(t[i].0 != t[j].0);
            } else if i == p {
                assert(t[p].0 != t[j].0);
            } else {
                assert(t[i].0 != t[p].0);
            }
        }
        assert(r[p].0 == k);
        lemma_position_unique(r, p);
        assert forall|q: Seq<char>| q != k implies #[trigger] lookup(r, q) == lookup(t, q) by {
            if has_name(t, q) {
                let i = position_of(t, q);
                assert(r[i] == t[i]);
                lemma_position_unique(r, i);
            }
            if has_name(r, q) {
                let i = position_of(r, q);
                assert(r[i] == t[i]);
            }
        }
    } else {
        assert forall|i: int, j: int| 0 <= i < j < r.len() implies #[trigger] r[i].0 != #[trigger] r[j].0 by {
            if j == t.len() {
                assert(t[i].0 != k);
            } else {
                assert(t[i].0 != t[j].0);
            }
        }
        lemma_position_unique(r, t.len() as int);
        assert forall|q: Seq<char>| q != k implies #[trigger] lookup(r, q) == lookup(t, q) by {
            if has_name(t, q) {
                let i = position_of(t, q);
                assert(r[i] == t[i]);
                lemma_position_unique(r, i);
            }
            if has_name(r, q) {
                let i = position_of(r, q);
                assert(i < t.len());
                assert(r[i] == t[i]);
            }
        }
    }
}

/// Inserting a list of entries whose names are unique keeps names unique,
/// and each name of the list ends up with its value from the list.
pub proof fn lemma_insert_all<V>(t: Seq<(Seq<char>, V)>, items: Seq<(Seq<char>, V)>)
    requires
        unique_names(t),
        unique_names(items),
    ensures
        unique_names(insert_all(t, items)),
        forall|k: Seq<char>| has_name(items, k) ==> #[trigger] lookup(insert_all(t, items), k) == lookup(items, k),
        forall|k: Seq<char>| !has_name(items, k) ==> #[trigger] lookup(insert_all(t, items), k) == lookup(t, k),
    decreases items.len(),
{
    if items.len() > 0 {
        let init = items.drop_last();
        let last = items.last();
        assert(unique_names(init)) by {
            assert forall|i: int, j: int| 0 <= i < j < init.len() implies #[trigger] init[i].0 != #[trigger] init[j].0 by {
                assert(items[i].0 != items[j].0);
            }
        }
        lemma_insert_all(t, init);
        lemma_insert_named(insert_all(t, init), last.0, last.1);
        lemma_position_unique(items, items.len() - 1);
        assert forall|k: Seq<char>| has_name(items, k) implies #[trigger] lookup(insert_all(t, items), k) == lookup(items, k) by {
            if k != last.0 {
                let i = position_of(items, k);
                assert(i < items.len() - 1);
                assert(init[i] == items[i]);
                lemma_position_unique(init, i);
                lemma_position_unique(items, i);
            }
        }
        assert forall|k: Seq<char>| !has_name(items, k) implies #[trigger] lookup(insert_all(t, items), k) == lookup(t, k) by {
            if has_name(init, k) {
                let i = position_of(init, k);
                assert(items[i] == init[i]);
            }
            assert(k != items[items.len() - 1].0);
        }
    }
}

/// A table of values keyed by name that keeps the order in which names were
/// first inserted; inserting a name again replaces its value in place.
pub struct NamedTable<V> {
    slots: SlotMap,
    entries: Vec<(String, V)>,
}

impl<V> View for NamedTable<V> {
    type V = Seq<(Seq<char>, V)>;

    closed spec fn view(&self) -> Seq<(Seq<char>, V)> {
        self.entries@.map_values(|e: (String, V)| (e.0@, e.1))
    }
}

impl<V> NamedTable<V> {
    /// The index maps each name of the entries to the entry's position, and
    /// nothing else.
    pub closed spec fn wf(&self) -> bool {
        let m = slots_of(self.slots);
        &&& forall|i: int|
            0 <= i < self.entries@.len() ==> #[trigger] m.contains_key(self.entries@[i].0@)
                && m[self.entries@[i].0@] == i
        &&& forall|k: Seq<char>|
            #[trigger] m.contains_key(k) ==> m[k] < self.entries@.len() && self.entries@[m[k] as int].0@
                == k
    }

    /// Names are unique in a well-formed table.
    pub proof fn lemma_unique(&self)
        requires
            self.wf(),
        ensures
            unique_names(self@),
    {
        assert forall|i: int, j: int| 0 <= i < j < self@.len() implies #[trigger] self@[i].0
            != #[trigger] self@[j].0 by {
            let m = slots_of(self.slots);
            assert(self@[i].0 == self.entries@[i].0@);
            assert(self@[j].0 == self.entries@[j].0@);
            assert(m.contains_key(self.entries@[i].0@));
            assert(m.contains_key(self.entries@[j].0@));
        }
    }

    /// An empty table.
    pub fn new() -> (r: NamedTable<V>)
        ensures
            r.wf(),
            r@ == Seq::<(Seq<char>, V)>::empty(),
    {
        let r = NamedTable { slots: new_slots(), entries: Vec::new() };
        assert(r@ =~= Seq::<(Seq<char>, V)>::empty());
        r
    }

    /// The number of entries.
    pub fn len(&self) -> (r: usize)
        ensures
            r == self@.len(),
    {
        self.entries.len()
    }

    /// The entry at position `i`.
    pub fn entry(&self, i: usize) -> (r: (&String, &V))
        requires
            i < self@.len(),
        ensures
            r.0@ == self@[i as int].0,
            *r.1 == self@[i as int].1,
    {
        let e = &self.entries[i];
        (&e.0, &e.1)
    }

    /// The position of the entry named `name`, if any.
    pub fn position(&self, name: &str) -> (r: Option<usize>)
        requires
            self.wf(),
        ensures
            match r {
                Some(i) => has_name(self@, name@) && i == position_of(self@, name@) && i
                    < self@.len(),
                None => !has_name(self@, name@),
            },
    {
        proof {
            self.lemma_unique();
        }
        match find_slot(&self.slots, name) {
            Some(i) => {
                assert(self@[i as int].0 == name@);
                Some(i)
            },
            None => {
                assert forall|i: int| 0 <= i < self@.len() implies #[trigger] self@[i].0
                    != name@ by {
                    assert(slots_of(self.slots).contains_key(self.entries@[i].0@));
                }
                None
            },
        }
    }

    /// The value stored under `name`, if any.
    pub fn get(&self, name: &str) -> (r: Option<&V>)
        requires
            self.wf(),
        ensures
            match r {
                Some(v) => lookup(self@, name@) == Some(*v),
                None => lookup(self@, name@) is None,
            },
    {
        match self.position(name) {
            Some(i) => Some(&self.entries[i].1),
            None => None,
        }
    }

    /// Inserts `value` under `name`: replaces the value of an entry with that
    /// name where it stands, or adds the entry last.
    pub fn insert(&mut self, name: String, value: V)
        requires
            old(self).wf(),
        ensures
            final(self).wf(),
            final(self)@ == insert_named(old(self)@, name@, value),
    {
        proof {
            self.lemma_unique();
        }
        let ghost k = name@;
        match self.position(name.as_str()) {
            Some(i) => {
                self.entries.set(i, (name, value));
                assert(self@ =~= old(self)@.update(i as int, (k, value)));
                proof {
                    let m = slots_of(self.slots);
                    assert forall|j: int| 0 <= j < self.entries@.len() implies #[trigger] m.contains_key(
                        self.entries@[j].0@,
                    ) && m[self.entries@[j].0@] == j by {
                        if j != i {
                            assert(self.entries@[j] == old(self).entries@[j]);
                            assert(m.contains_key(old(self).entries@[j].0@));
                        } else {
                            assert(old(self)@[j].0 == k);
                            assert(old(self)@[j].0 == old(self).entries@[j].0@);
                            assert(m.contains_key(old(self).entries@[j].0@));
                        }
                    }
                }
            },
            None => {
                let n = self.entries.len();
                let key = name.clone();
                put_slot(&mut self.slots, key, n);
                self.entries.push((name, value));
                assert(self@ =~= old(self)@.push((k, value)));
                proof {
                    let m = slots_of(self.slots);
                    let m0 = slots_of(old(self).slots);
                    assert forall|j: int| 0 <= j < self.entries@.len() implies #[trigger] m.contains_key(
                        self.entries@[j].0@,
                    ) && m[self.entries@[j].0@] == j by {
                        if j < n {
                            assert(self.entries@[j] == old(self).entries@[j]);
                            assert(old(self)@[j].0 == old(self).entries@[j].0@);
                            assert(old(self)@[j].0 != k);
                            assert(m0.contains_key(old(self).entries@[j].0@));
                        } else {
                            assert(self.entries@[j].0@ == k);
                        }
                    }
                    assert forall|q: Seq<char>| #[trigger] m.contains_key(q) implies m[q]
                        < self.entries@.len() && self.entries@[m[q] as int].0@ == q by {
                        if q != k {
                            assert(m0.contains_key(q));
                        }
                    }
                }
            },
        }
    }
}

} // verus!
