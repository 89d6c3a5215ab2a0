//! Tables keyed by names.
use vstd::prelude::*;

verus! {

/// The table that a sequence of entries describes: each key maps to the
/// value stored with it.
pub open spec fn table_of<V>(entries: Seq<(String, V)>) -> Map<Seq<char>, V>
    decreases entries.len(),
{
    if entries.len() == 0 {
        Map::empty()
    } else {
        table_of(entries.drop_last()).insert(entries.last().0@, entries.last().1)
    }
}

/// Whether no key occurs twice among the entries.
pub open spec fn distinct_keys<V>(entries: Seq<(String, V)>) -> bool {
    forall|i: int, j: int|
        0 <= i < entries.len() && 0 <= j < entries.len() && i != j ==> #[trigger] entries[i].0@
            != #[trigger] entries[j].0@
}

/// What the table says about a key, from the entries directly.
pub proof fn lemma_table_of<V>(entries: Seq<(String, V)>, k: Seq<char>)
    requires
        distinct_keys(entries),
    ensures
        table_of(entries).contains_key(k) <==> exists|i: int| 0 <= i < entries.len() && #[trigger] entries[i].0@ == k,
        forall|i: int| 0 <= i < entries.len() && #[trigger] entries[i].0@ == k ==> table_of(entries)[k] == entries[i].1,
    decreases entries.len(),
{
    if entries.len() > 0 {
        let init = entries.drop_last();
        assert(distinct_keys(init)) by {
            assert forall|i: int, j: int|
                0 <= i < init.len() && 0 <= j < init.len() && i != j implies #[trigger] init[i].0@
                != #[trigger] init[j].0@ by {
                assert(init[i] == entries[i]);
                assert(init[j] == entries[j]);
            }
        }
        lemma_table_of(init, k);
        let n = entries.len() - 1;
        if entries.last().0@ != k {
            if exists|i: int| 0 <= i < entries.len() && #[trigger] entries[i].0@ == k {
                let i = choose|i: int| 0 <= i < entries.len() && #[trigger] entries[i].0@ == k;
                assert(i != n);
                assert(init[i] == entries[i]);
            }
            assert forall|i: int| 0 <= i < entries.len() && #[trigger] entries[i].0@ == k implies table_of(entries)[k] == entries[i].1 by {
                assert(i != n);
                assert(init[i] == entries[i]);
            }
            if exists|i: int| 0 <= i < init.len() && #[trigger] init[i].0@ == k {
                let i = choose|i: int| 0 <= i < init.len() && #[trigger] init[i].0@ == k;
                assert(entries[i] == init[i]);
            }
        } else {
            assert(entries[n].0@ == k);
            assert forall|i: int| 0 <= i < entries.len() && #[trigger] entries[i].0@ == k implies table_of(entries)[k] == entries[i].1 by {
                if i != n {
                    assert(entries[i].0@ != entries[n].0@);
                }
            }
        }
    }
}

/// A table from names to values, with every name present at most once,
/// in the order the names were first inserted.
#[derive(Debug)]
pub struct NameMap<V> {
    entries: Vec<(String, V)>,
}

impl<V> NameMap<V> {
    #[verifier::type_invariant]
    spec fn inv(self) -> bool {
        distinct_keys(self.entries@)
    }

    /// The entries, in insertion order.
    pub closed spec fn entries(self) -> Seq<(String, V)> {
        self.entries@
    }

    /// The table as a map from names to values.
    pub open spec fn table(self) -> Map<Seq<char>, V> {
        table_of(self.entries())
    }

    /// An empty table.
    pub fn new() -> (m: NameMap<V>)
        ensures
            m.entries().len() == 0,
            m.table() == Map::<Seq<char>, V>::empty(),
    {
        NameMap { entries: Vec::new() }
    }

    /// How many names the table holds.
    pub fn len(&self) -> (n: usize)
        ensures
            n == self.entries().len(),
    {
        self.entries.len()
    }

    /// The name and value at a position in insertion order.
    pub fn entry(&self, i: usize) -> (e: &(String, V))
        requires
            i < self.entries().len(),
        ensures
            *e == self.entries()[i as int],
    {
        &self.entries[i]
    }

    /// Where a name is stored, if it is.
    pub fn position(&self, key: &str) -> (r: Option<usize>)
        ensures
            match r {
                Some(i) => i < self.entries().len() && self.entries()[i as int].0@ == key@,
                None => forall|i: int| 0 <= i < self.entries().len() ==> #[trigger] self.entries()[i].0@ != key@,
            },
    {
        let mut i: usize = 0;
        while i < self.entries.len()
            invariant
                i <= self.entries@.len(),
                forall|j: int| 0 <= j < i ==> #[trigger] self.entries@[j].0@ != key@,
            decreases self.entries@.len() - i,
        {
            if crate::text::same_text(self.entries[i].0.as_str(), key) {
                return Some(i);
            }
            i = i + 1;
        }
        None
    }

    /// Whether a name is in the table.
    pub fn contains_key(&self, key: &str) -> (r: bool)
        ensures
            r == self.table().contains_key(key@),
    {
        proof {
            use_type_invariant(self);
            lemma_table_of(self.entries@, key@);
        }
        self.position(key).is_some()
    }

    /// The value stored under a name, if any.
    pub fn get(&self, key: &str) -> (r: Option<&V>)
        ensures
            match r {
                Some(v) => self.table().contains_key(key@) && self.table()[key@] == *v,
                None => !self.table().contains_key(key@),
            },
    {
        proof {
            use_type_invariant(self);
            lemma_table_of(self.entries@, key@);
        }
        match self.position(key) {
            Some(i) => Some(&self.entries[i].1),
            None => None,
        }
    }

    /// Stores a value under a name, replacing any earlier value in place.
    /// Returns whether the name was already present.
    pub fn insert(&mut self, key: String, value: V) -> (replaced: bool)
        ensures
            final(self).table() == old(self).table().insert(key@, value),
            replaced == old(self).table().contains_key(key@),
    {
        proof {
            use_type_invariant(&*self);
            lemma_table_of(self.entries@, key@);
        }
        let ghost old_entries = self.entries@;
        let key_text = key.as_str();
        let found = self.position(key_text);
        assert(key_text@ == key@);
        match found {
            Some(i) => {
                let mut entries: Vec<(String, V)> = Vec::new();
                std::mem::swap(&mut entries, &mut self.entries);
                proof {
                    assert(entries@ == old_entries);
                }
                let ghost before = entries@;
                entries.set(i, (key, value));
                let ghost after = entries@;
                proof {
                    assert(distinct_keys(after)) by {
                        assert forall|a: int, b: int|
                            0 <= a < after.len() && 0 <= b < after.len() && a != b implies #[trigger] after[a].0@
                            != #[trigger] after[b].0@ by {
                            if a != i && b != i {
                                assert(after[a] == before[a] && after[b] == before[b]);
                            } else if a == i {
                                assert(after[b] == before[b]);
                                assert(before[i as int].0@ == after[a].0@);
                            } else {
                                assert(after[a] == before[a]);
                                assert(before[i as int].0@ == after[b].0@);
                            }
                        }
                    }
                    assert forall|k: Seq<char>| #![auto] table_of(after).contains_key(k) == table_of(before).insert(key@, value).contains_key(k) by {
                        lemma_table_of(after, k);
                        lemma_table_of(before, k);
                        if k != key@ {
                            if exists|x: int| 0 <= x < before.len() && #[trigger] before[x].0@ == k {
                                let x = choose|x: int| 0 <= x < before.len() && #[trigger] before[x].0@ == k;
                                assert(x != i);
                                assert(after[x] == before[x]);
                            }
                            if exists|x: int| 0 <= x < after.len() && #[trigger] after[x].0@ == k {
                                let x = choose|x: int| 0 <= x < after.len() && #[trigger] after[x].0@ == k;
                                assert(x != i);
                                assert(after[x] == before[x]);
                            }
                        } else {
                            assert(after[i as int].0@ == k);
                        }
                    }
                    assert forall|k: Seq<char>| #[trigger] table_of(after).contains_key(k) implies table_of(after)[k] == table_of(before).insert(key@, value)[k] by {
                        lemma_table_of(after, k);
                        lemma_table_of(before, k);
                        if k != key@ {
                            let x = choose|x: int| 0 <= x < after.len() && #[trigger] after[x].0@ == k;
                            assert(x != i);
                            assert(after[x] == before[x]);
                        } else {
                            assert(after[i as int].0@ == k);
                        }
                    }
                    assert(table_of(after) =~= table_of(before).insert(key@, value));
                }
                self.entries = entries;
                true
            },
            None => {
                assert(self.entries() == old_entries);
                assert(forall|x: int| 0 <= x < old_entries.len() ==> #[trigger] old_entries[x].0@ != key@);
                let mut entries: Vec<(String, V)> = Vec::new();
                std::mem::swap(&mut entries, &mut self.entries);
                proof {
                    assert(entries@ == old_entries);
                }
                let ghost before = entries@;
                let ghost k = key@;
                entries.push((key, value));
                let ghost after = entries@;
                proof {
                    assert(forall|x: int| 0 <= x < before.len() ==> #[trigger] before[x].0@ != k);
                    assert(after[before.len() as int].0@ == k);
                    assert(after.drop_last() =~= before);
                    assert(distinct_keys(after)) by {
                        assert forall|a: int, b: int|
                            0 <= a < after.len() && 0 <= b < after.len() && a != b implies #[trigger] after[a].0@
                            != #[trigger] after[b].0@ by {
                            if a < before.len() && b < before.len() {
                                assert(after[a] == before[a] && after[b] == before[b]);
                            } else if a < before.len() {
                                assert(after[a] == before[a]);
                            } else {
                                assert(after[b] == before[b]);
                            }
                        }
                    }
                    assert(table_of(after) == table_of(before).insert(k, value));
                }
                self.entries = entries;
                false
            },
        }
    }
    /// The first entry in insertion order, if the table holds any.
    pub fn first(&self) -> (r: Option<&(String, V)>)
        ensures
            match r {
                Some(e) => self.table().contains_key(e.0@) && self.table()[e.0@] == e.1,
                None => self.table() == Map::<Seq<char>, V>::empty(),
            },
    {
        proof {
            use_type_invariant(self);
        }
        if self.entries.len() == 0 {
            assert(self.entries@ =~= Seq::<(String, V)>::empty());
            assert(table_of(self.entries@) == Map::<Seq<char>, V>::empty());
            None
        } else {
            proof {
                lemma_table_of(self.entries@, self.entries@[0].0@);
            }
            Some(&self.entries[0])
        }
    }

    /// Removes a name and its value, if present; the other entries keep
    /// their order. Returns whether the name was present.
    pub fn remove(&mut self, key: &str) -> (removed: bool)
        ensures
            final(self).table() == old(self).table().remove(key@),
            removed == old(self).table().contains_key(key@),
    {
        proof {
            use_type_invariant(&*self);
            lemma_table_of(self.entries@, key@);
        }
        let ghost old_entries = self.entries@;
        match self.position(key) {
            None => {
                assert(!table_of(old_entries).contains_key(key@)) by {
                    if table_of(old_entries).contains_key(key@) {
                        let x = choose|x: int| 0 <= x < old_entries.len() && #[trigger] old_entries[x].0@ == key@;
                        assert(self.entries()[x].0@ != key@);
                    }
                }
                assert(table_of(old_entries).remove(key@) =~= table_of(old_entries));
                false
            },
            Some(i) => {
                let mut entries: Vec<(String, V)> = Vec::new();
                std::mem::swap(&mut entries, &mut self.entries);
                proof {
                    assert(entries@ == old_entries);
                }
                let ghost before = entries@;
                entries.remove(i);
                let ghost after = entries@;
                proof {
                    before.remove_ensures(i as int);
                    assert(after == before.remove(i as int));
                    assert(distinct_keys(after)) by {
                        assert forall|a: int, b: int|
                            0 <= a < after.len() && 0 <= b < after.len() && a != b implies #[trigger] after[a].0@
                            != #[trigger] after[b].0@ by {
                            let a0 = if a < i { a } else { a + 1 };
                            let b0 = if b < i { b } else { b + 1 };
                            assert(after[a] == before[a0]);
                            assert(after[b] == before[b0]);
                        }
                    }
                    assert forall|k: Seq<char>| #![auto] table_of(after).contains_key(k) == table_of(before).remove(key@).contains_key(k) by {
                        lemma_table_of(after, k);
                        lemma_table_of(before, k);
                        if exists|x: int| 0 <= x < before.len() && #[trigger] before[x].0@ == k {
                            let x = choose|x: int| 0 <= x < before.len() && #[trigger] before[x].0@ == k;
                            if k != key@ {
                                assert(x != i);
                                let y = if x < i { x } else { x - 1 };
                                assert(after[y] == before[x]);
                            }
                        }
                        if exists|y: int| 0 <= y < after.len() && #[trigger] after[y].0@ == k {
                            let y = choose|y: int| 0 <= y < after.len() && #[trigger] after[y].0@ == k;
                            let x = if y < i { y } else { y + 1 };
                            assert(after[y] == before[x]);
                            assert(x != i);
                        }
                    }
                    assert forall|k: Seq<char>| #[trigger] table_of(after).contains_key(k) implies table_of(after)[k] == table_of(before).remove(key@)[k] by {
                        lemma_table_of(after, k);
                        lemma_table_of(before, k);
                        let y = choose|y: int| 0 <= y < after.len() && #[trigger] after[y].0@ == k;
                        let x = if y < i { y } else { y + 1 };
                        assert(after[y] == before[x]);
                        assert(x != i);
                    }
                    assert(table_of(after) =~= table_of(before).remove(key@));
                }
                self.entries = entries;
                true
            },
        }
    }
}

} // verus!
