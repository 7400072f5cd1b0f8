//! A small association table keyed by text.

use vstd::prelude::*;

use vstd::std_specs::cmp::PartialEqSpec;

use crate::text::same;

verus! {

/// Values filed under text keys, no key twice.
#[derive(Debug)]
pub struct Table<V> {
    rows: Vec<(String, V)>,
}

impl<V> Table<V> {
    /// No two rows have the same key.
    #[verifier::type_invariant]
    spec fn distinct(self) -> bool {
        forall|i: int, j: int|
            0 <= i < j < self.rows@.len() ==> (#[trigger] self.rows@[i]).0@ != (
            #[trigger] self.rows@[j]).0@
    }

    spec fn row_of(self, key: Seq<char>) -> int {
        choose|i: int| 0 <= i < self.rows@.len() && (#[trigger] self.rows@[i]).0@ == key
    }

    spec fn has(self, key: Seq<char>) -> bool {
        exists|i: int| 0 <= i < self.rows@.len() && (#[trigger] self.rows@[i]).0@ == key
    }

    /// The value filed under each key.
    pub closed spec fn view(self) -> Map<Seq<char>, V> {
        Map::new(|key: Seq<char>| self.has(key), |key: Seq<char>| self.rows@[self.row_of(key)].1)
    }

    /// The keys in the order in which the table walks them.
    pub closed spec fn keys(self) -> Seq<Seq<char>> {
        self.rows@.map_values(|row: (String, V)| row.0@)
    }

    /// A value that the table holds is a part of the table.
    pub proof fn lemma_smaller(self, key: Seq<char>)
        requires
            self@.contains_key(key),
        ensures
            decreases_to!(self => self@[key]),
    {
        let i = self.row_of(key);
        assert(decreases_to!(self => self.rows));
        assert(decreases_to!(self.rows => self.rows@));
        assert(decreases_to!(self.rows@ => self.rows@[i]));
        assert(decreases_to!(self.rows@[i] => self.rows@[i].1));
    }

    pub fn new() -> (table: Self)
        ensures
            table@ == Map::<Seq<char>, V>::empty(),
            table.keys() == Seq::<Seq<char>>::empty(),
    {
        let table = Table { rows: Vec::new() };
        assert(table@ =~= Map::<Seq<char>, V>::empty());
        assert(table.keys() =~= Seq::<Seq<char>>::empty());
        table
    }

    fn find(&self, key: &str) -> (found: Option<usize>)
        ensures
            match found {
                Some(i) => i < self.rows@.len() && self.rows@[i as int].0@ == key@,
                None => !self.has(key@),
            },
    {
        let mut i: usize = 0;
        while i < self.rows.len()
            invariant
                i <= self.rows@.len(),
                forall|j: int| 0 <= j < i ==> (#[trigger] self.rows@[j]).0@ != key@,
            decreases self.rows@.len() - i,
        {
            if same(self.rows[i].0.as_str(), key) {
                return Some(i);
            }
            i += 1;
        }
        None
    }

    /// Every row shows in the view.
    proof fn lemma_row(self, i: int)
        requires
            self.distinct(),
            0 <= i < self.rows@.len(),
        ensures
            self@.contains_key(self.rows@[i].0@),
            self@[self.rows@[i].0@] == self.rows@[i].1,
            self.row_of(self.rows@[i].0@) == i,
    {
        let k = self.row_of(self.rows@[i].0@);
        assert(self.rows@[i].0@ == self.rows@[i].0@);
        assert(0 <= k < self.rows@.len() && self.rows@[k].0@ == self.rows@[i].0@);
        if k < i {
            assert(self.rows@[k].0@ != self.rows@[i].0@);
        }
        if i < k {
            assert(self.rows@[i].0@ != self.rows@[k].0@);
        }
    }

    pub fn get(&self, key: &str) -> (value: Option<&V>)
        ensures
            value == (if self@.contains_key(key@) {
                Some(&self@[key@])
            } else {
                None
            }),
    {
        proof {
            use_type_invariant(self);
        }
        match self.find(key) {
            Some(i) => {
                proof {
                    self.lemma_row(i as int);
                }
                Some(&self.rows[i].1)
            },
            None => None,
        }
    }

    /// Files `value` under `key`, in place of what was there.
    pub fn insert(&mut self, key: String, value: V)
        ensures
            final(self)@ == old(self)@.insert(key@, value),
    {
        proof {
            use_type_invariant(&*self);
        }
        let ghost before = *self;
        let found = self.find(key.as_str());
        let mut rows: Vec<(String, V)> = Vec::new();
        std::mem::swap(&mut rows, &mut self.rows);
        match found {
            Some(i) => {
                rows[i].1 = value;
                self.rows = rows;
                proof {
                    use_type_invariant(&*self);
                    assert(self@ =~= before@.insert(key@, value)) by {
                        before.lemma_row(i as int);
                        self.lemma_row(i as int);
                        assert forall|k: Seq<char>| self.has(k) == before.has(k) by {
                            if before.has(k) { assert(self.rows@[before.row_of(k)].0@ == k); }
                            if self.has(k) { assert(before.rows@[self.row_of(k)].0@ == k); }
                        }
                        assert forall|k: Seq<char>| k != key@ && before.has(k) implies self@[k] == before@[k] by {
                            let r = before.row_of(k);
                            assert(self.rows@[r].0@ == k);
                            self.lemma_row(r);
                        }
                    }
                }
            },
            None => {
                rows.push((key, value));
                self.rows = rows;
                proof {
                    use_type_invariant(&*self);
                    let last = before.rows@.len() as int;
                    assert(self.rows@[last].0@ == key@);
                    self.lemma_row(last);
                    assert forall|k: Seq<char>| self.has(k) == (before.has(k) || k == key@) by {
                        if before.has(k) { assert(self.rows@[before.row_of(k)].0@ == k); }
                        if self.has(k) && k != key@ { assert(before.rows@[self.row_of(k)].0@ == k); }
                    }
                    assert forall|k: Seq<char>| before.has(k) implies self@[k] == before@[k] by {
                        let r = before.row_of(k);
                        assert(self.rows@[r].0@ == k);
                        self.lemma_row(r);
                        before.lemma_row(r);
                    }
                    assert(self@ =~= before@.insert(key@, value));
                }
            },
        }
    }

    /// Takes out what is filed under `key`.
    pub fn remove(&mut self, key: &str) -> (removed: Option<V>)
        ensures
            final(self)@ == old(self)@.remove(key@),
            removed == (if old(self)@.contains_key(key@) {
                Some(old(self)@[key@])
            } else {
                None
            }),
    {
        proof {
            use_type_invariant(&*self);
        }
        let ghost before = *self;
        match self.find(key) {
            Some(i) => {
                let mut rows: Vec<(String, V)> = Vec::new();
                std::mem::swap(&mut rows, &mut self.rows);
                let (_, value) = rows.remove(i);
                self.rows = rows;
                proof {
                    before.lemma_row(i as int);
                    use_type_invariant(&*self);
                    assert forall|k: Seq<char>| self.has(k) == (before.has(k) && k != key@) by {
                        if before.has(k) && k != key@ {
                            let r = before.row_of(k);
                            let moved = if r < i {
                                r
                            } else {
                                r - 1
                            };
                            assert(self.rows@[moved].0@ == k);
                        }
                        if self.has(k) {
                            let r = self.row_of(k);
                            let moved = if r < i {
                                r
                            } else {
                                r + 1
                            };
                            assert(before.rows@[moved].0@ == k);
                            before.lemma_row(moved);
                        }
                    }
                    assert forall|k: Seq<char>| self.has(k) implies self@[k] == before@[k] by {
                        let r = self.row_of(k);
                        let moved = if r < i {
                            r
                        } else {
                            r + 1
                        };
                        assert(before.rows@[moved].0@ == k);
                        before.lemma_row(moved);
                    }
                    assert(self@ =~= before@.remove(key@));
                }
                Some(value)
            },
            None => {
                assert(self@ =~= before@.remove(key@));
                None
            },
        }
    }

    /// Exchanges what is filed under `key` for `value`, if there is anything.
    pub fn swap(&mut self, key: &str, value: &mut V) -> (present: bool)
        ensures
            present == old(self)@.contains_key(key@),
            present ==> {
                &&& final(self)@ == old(self)@.insert(key@, *old(value))
                &&& *final(value) == old(self)@[key@]
            },
            !present ==> *final(self) == *old(self) && *final(value) == *old(value),
    {
        proof {
            use_type_invariant(&*self);
        }
        let ghost before = *self;
        match self.find(key) {
            Some(i) => {
                let mut rows: Vec<(String, V)> = Vec::new();
                std::mem::swap(&mut rows, &mut self.rows);
                std::mem::swap(&mut rows[i].1, value);
                self.rows = rows;
                proof {
                    before.lemma_row(i as int);
                    use_type_invariant(&*self);
                    self.lemma_row(i as int);
                    assert forall|k: Seq<char>| self.has(k) == before.has(k) by {
                        if before.has(k) {
                            assert(self.rows@[before.row_of(k)].0@ == k);
                        }
                        if self.has(k) {
                            assert(before.rows@[self.row_of(k)].0@ == k);
                        }
                    }
                    assert forall|k: Seq<char>| k != key@ && before.has(k) implies self@[k]
                        == before@[k] by {
                        let r = before.row_of(k);
                        assert(self.rows@[r].0@ == k);
                        self.lemma_row(r);
                    }
                    assert(self@ =~= before@.insert(key@, *old(value)));
                }
                true
            },
            None => false,
        }
    }

    /// Takes everything out.
    pub fn drain(&mut self) -> (rows: Vec<(String, V)>)
        ensures
            final(self)@ == Map::<Seq<char>, V>::empty(),
            filed(rows@, old(self)@),
    {
        proof {
            use_type_invariant(&*self);
        }
        let ghost before = *self;
        let mut rows: Vec<(String, V)> = Vec::new();
        std::mem::swap(&mut rows, &mut self.rows);
        proof {
            assert(self@ =~= Map::<Seq<char>, V>::empty());
            assert forall|i: int| 0 <= i < rows@.len() implies before@.contains_key(
                (#[trigger] rows@[i]).0@,
            ) && before@[rows@[i].0@] == rows@[i].1 by {
                before.lemma_row(i);
            }
            assert forall|key: Seq<char>| before@.contains_key(key) implies exists|i: int|
                0 <= i < rows@.len() && (#[trigger] rows@[i]).0@ == key by {
                assert(rows@[before.row_of(key)].0@ == key);
            }
        }
        rows
    }

    /// How many keys there are.
    pub fn len(&self) -> (count: usize)
        ensures
            count == self.keys().len(),
            self.keys().no_duplicates(),
            forall|key: Seq<char>| #[trigger] self@.contains_key(key) <==> self.keys().contains(key),
    {
        proof {
            use_type_invariant(self);
            assert forall|key: Seq<char>| #[trigger]
                self@.contains_key(key) <==> self.keys().contains(key) by {
                if self.has(key) {
                    assert(self.keys()[self.row_of(key)] == key);
                }
                if self.keys().contains(key) {
                    let i = self.keys().index_of(key);
                    assert(self.rows@[i].0@ == key);
                }
            }
        }
        self.rows.len()
    }

    /// The key at a place in the walk.
    pub fn key_at(&self, index: usize) -> (key: &String)
        requires
            index < self.keys().len(),
        ensures
            key@ == self.keys()[index as int],
            self@.contains_key(key@),
    {
        proof {
            use_type_invariant(self);
            self.lemma_row(index as int);
        }
        &self.rows[index].0
    }

    /// The value at a place in the walk.
    pub fn value_at(&self, index: usize) -> (value: &V)
        requires
            index < self.keys().len(),
        ensures
            self@.contains_key(self.keys()[index as int]),
            *value == self@[self.keys()[index as int]],
    {
        proof {
            use_type_invariant(self);
            self.lemma_row(index as int);
        }
        &self.rows[index].1
    }
}

/// Whether some rows are those of a map, each once.
pub open spec fn filed<V>(rows: Seq<(String, V)>, map: Map<Seq<char>, V>) -> bool {
    &&& forall|i: int, j: int|
        0 <= i < j < rows.len() ==> (#[trigger] rows[i]).0@ != (#[trigger] rows[j]).0@
    &&& forall|i: int|
        0 <= i < rows.len() ==> map.contains_key((#[trigger] rows[i]).0@) && map[rows[i].0@]
            == rows[i].1
    &&& forall|key: Seq<char>| #[trigger]
        map.contains_key(key) ==> exists|i: int|
            0 <= i < rows.len() && (#[trigger] rows[i]).0@ == key
}

impl<V: PartialEq> PartialEq for Table<V> {
    /// Two tables are equal when they file equal values under the same keys,
    /// in whatever order.
    fn eq(&self, other: &Self) -> (equal: bool) {
        if self.rows.len() != other.rows.len() {
            return false;
        }
        let mut i: usize = 0;
        while i < self.rows.len()
            invariant
                i <= self.rows@.len(),
                self.rows@.len() == other.rows@.len(),
                V::obeys_eq_spec() ==> forall|j: int| 0 <= j < i ==> self.row_matches(other, j),
            decreases self.rows@.len() - i,
        {
            match other.get(self.rows[i].0.as_str()) {
                Some(value) => {
                    if !(self.rows[i].1 == *value) {
                        assert(V::obeys_eq_spec() ==> !self.row_matches(other, i as int));
                        return false;
                    }
                },
                None => {
                    assert(!self.row_matches(other, i as int));
                    return false;
                },
            }
            i += 1;
        }
        true
    }
}

impl<V: PartialEq> Table<V> {
    /// The other table files an equal value under the key of this row.
    pub closed spec fn row_matches(&self, other: &Self, row: int) -> bool {
        &&& other@.contains_key(self.rows@[row].0@)
        &&& self.rows@[row].1.eq_spec(&other@[self.rows@[row].0@])
    }
}

impl<V: PartialEq> vstd::std_specs::cmp::PartialEqSpecImpl for Table<V> {
    open spec fn obeys_eq_spec() -> bool {
        V::obeys_eq_spec()
    }

    open spec fn eq_spec(&self, other: &Self) -> bool {
        &&& self.keys().len() == other.keys().len()
        &&& forall|row: int| 0 <= row < self.keys().len() ==> self.row_matches(other, row)
    }
}

}
