//! A keyed table: rows addressed by a textual primary key that occurs at most once.

use vstd::prelude::*;

verus! {

/// No key occurs in two rows.
pub open spec fn keys_distinct<T>(rows: Seq<(Seq<char>, T)>) -> bool {
    forall|i: int, j: int| 0 <= i < j < rows.len() ==> (#[trigger] rows[i]).0 != (#[trigger] rows[j]).0
}

/// Some row carries `key`.
pub open spec fn has_key<T>(rows: Seq<(Seq<char>, T)>, key: Seq<char>) -> bool {
    exists|i: int| 0 <= i < rows.len() && (#[trigger] rows[i]).0 == key
}

/// The index of a row that carries `key`, where there is one.
pub open spec fn position<T>(rows: Seq<(Seq<char>, T)>, key: Seq<char>) -> int {
    choose|i: int| 0 <= i < rows.len() && (#[trigger] rows[i]).0 == key
}

/// The rows read as a map from key to the remaining columns.
pub open spec fn rows_to_map<T>(rows: Seq<(Seq<char>, T)>) -> Map<Seq<char>, T> {
    Map::new(|k: Seq<char>| has_key(rows, k), |k: Seq<char>| rows[position(rows, k)].1)
}

/// Every row is found under its own key.
pub proof fn lemma_lookup<T>(rows: Seq<(Seq<char>, T)>, i: int)
    requires
        keys_distinct(rows),
        0 <= i < rows.len(),
    ensures
        rows_to_map(rows).dom().contains(rows[i].0),
        rows_to_map(rows)[rows[i].0] == rows[i].1,
{
    let k = rows[i].0;
    assert(has_key(rows, k));
    let j = position(rows, k);
    assert(0 <= j < rows.len() && rows[j].0 == k);
    if j < i {
        assert(rows[j].0 != rows[i].0);
    } else if i < j {
        assert(rows[i].0 != rows[j].0);
    }
}

/// Every key of the map is the key of some row.
pub proof fn lemma_covered<T>(rows: Seq<(Seq<char>, T)>, key: Seq<char>)
    requires
        rows_to_map(rows).dom().contains(key),
    ensures
        0 <= position(rows, key) < rows.len(),
        rows[position(rows, key)].0 == key,
        rows[position(rows, key)].1 == rows_to_map(rows)[key],
{
    assert(has_key(rows, key));
}

/// Appending a row under a fresh key inserts it into the map.
pub proof fn lemma_push<T>(rows: Seq<(Seq<char>, T)>, key: Seq<char>, value: T)
    requires
        keys_distinct(rows),
        !has_key(rows, key),
    ensures
        keys_distinct(rows.push((key, value))),
        rows_to_map(rows.push((key, value))) =~= rows_to_map(rows).insert(key, value),
{
    let after = rows.push((key, value));
    assert forall|i: int, j: int| 0 <= i < j < after.len() implies (#[trigger] after[i]).0 != (
    #[trigger] after[j]).0 by {
        if j < rows.len() {
            assert(rows[i].0 != rows[j].0);
        } else {
            assert(after[i] == rows[i]);
            if rows[i].0 == key {
                assert(has_key(rows, key));
            }
        }
    }
    assert forall|k: Seq<char>| has_key(after, k) <==> (k == key || has_key(rows, k)) by {
        if has_key(after, k) {
            let i = position(after, k);
            if i < rows.len() {
                assert(rows[i] == after[i]);
            }
        }
        if k == key {
            assert(after[rows.len() as int].0 == key);
        }
        if has_key(rows, k) {
            let i = position(rows, k);
            assert(after[i] == rows[i]);
        }
    }
    assert forall|k: Seq<char>| has_key(after, k) implies #[trigger] rows_to_map(after)[k]
        == rows_to_map(rows).insert(key, value)[k] by {
        let i = position(after, k);
        lemma_lookup(after, i);
        if i < rows.len() {
            assert(after[i] == rows[i]);
            lemma_lookup(rows, i);
        }
    }
}

/// Taking a row out removes its key from the map and leaves the rest.
pub proof fn lemma_remove<T>(rows: Seq<(Seq<char>, T)>, at: int)
    requires
        keys_distinct(rows),
        0 <= at < rows.len(),
    ensures
        keys_distinct(rows.remove(at)),
        rows_to_map(rows.remove(at)) =~= rows_to_map(rows).remove(rows[at].0),
{
    let after = rows.remove(at);
    let gone = rows[at].0;
    assert forall|i: int| 0 <= i < after.len() implies #[trigger] after[i] == rows[if i < at {
        i
    } else {
        i + 1
    }] by {}
    assert forall|i: int, j: int| 0 <= i < j < after.len() implies (#[trigger] after[i]).0 != (
    #[trigger] after[j]).0 by {
        let a = if i < at { i } else { i + 1 };
        let b = if j < at { j } else { j + 1 };
        assert(rows[a].0 != rows[b].0);
    }
    assert forall|k: Seq<char>| has_key(after, k) <==> (k != gone && has_key(rows, k)) by {
        if has_key(after, k) {
            let i = position(after, k);
            let a = if i < at { i } else { i + 1 };
            assert(rows[a].0 == k);
            if a < at {
                assert(rows[a].0 != rows[at].0);
            } else {
                assert(rows[at].0 != rows[a].0);
            }
        }
        if k != gone && has_key(rows, k) {
            let a = position(rows, k);
            let i = if a < at { a } else { a - 1 };
            assert(after[i] == rows[a]);
        }
    }
    assert forall|k: Seq<char>| has_key(after, k) implies #[trigger] rows_to_map(after)[k]
        == rows_to_map(rows).remove(gone)[k] by {
        let i = position(after, k);
        let a = if i < at { i } else { i + 1 };
        lemma_lookup(after, i);
        lemma_lookup(rows, a);
    }
}

/// A table holds as many keys as it has rows.
pub proof fn lemma_size<T>(rows: Seq<(Seq<char>, T)>)
    requires
        keys_distinct(rows),
    ensures
        rows_to_map(rows).dom().finite(),
        rows_to_map(rows).dom().len() == rows.len(),
    decreases rows.len(),
{
    if rows.len() == 0 {
        assert(rows_to_map(rows).dom() =~= Set::<Seq<char>>::empty());
    } else {
        let front = rows.drop_last();
        let last = rows.last();
        assert forall|i: int, j: int| 0 <= i < j < front.len() implies (#[trigger] front[i]).0 != (
        #[trigger] front[j]).0 by {
            assert(rows[i].0 != rows[j].0);
        }
        if has_key(front, last.0) {
            let i = position(front, last.0);
            assert(rows[i].0 != rows[rows.len() - 1].0);
        }
        lemma_size(front);
        lemma_push(front, last.0, last.1);
        assert(front.push((last.0, last.1)) =~= rows);
        assert(rows_to_map(rows).dom() =~= rows_to_map(front).dom().insert(last.0));
    }
}

/// One row: the primary key and the remaining columns.
struct Entry<V> {
    key: String,
    value: V,
}

/// Rows kept in insertion order, each under a key of its own.
pub struct Table<V> {
    entries: Vec<Entry<V>>,
}

impl<V: View> View for Table<V> {
    type V = Map<Seq<char>, V::V>;

    closed spec fn view(&self) -> Map<Seq<char>, V::V> {
        rows_to_map(self.rows())
    }
}

impl<V: View> Table<V> {
    /// The rows in storage order, as pairs of key and columns.
    pub closed spec fn rows(&self) -> Seq<(Seq<char>, V::V)> {
        Seq::new(self.entries@.len(), |i: int| (self.entries@[i].key@, self.entries@[i].value@))
    }

    /// The primary-key constraint.
    pub closed spec fn wf(&self) -> bool {
        keys_distinct(self.rows())
    }

    /// The map is exactly what the rows hold.
    pub proof fn lemma_view(&self)
        ensures
            self@ == rows_to_map(self.rows()),
    {
    }

    /// The primary-key constraint, spelled out over the rows.
    pub proof fn lemma_wf(&self)
        ensures
            self.wf() == keys_distinct(self.rows()),
    {
    }

    pub fn new() -> (table: Self)
        ensures
            table.wf(),
            table@ == Map::<Seq<char>, V::V>::empty(),
            table.rows().len() == 0,
    {
        let table = Table { entries: Vec::new() };
        assert(table@ =~= Map::<Seq<char>, V::V>::empty());
        table
    }

    /// The number of rows, which is the number of keys.
    pub fn len(&self) -> (n: usize)
        requires
            self.wf(),
        ensures
            n == self.rows().len(),
            self@.dom().finite(),
            n == self@.dom().len(),
    {
        proof {
            lemma_size(self.rows());
        }
        self.entries.len()
    }

    /// The key of the row at `index`, where the table has that many rows.
    pub fn key_at(&self, index: usize) -> (key: Option<&String>)
        ensures
            match key {
                Some(found) => index < self.rows().len() && found@ == self.rows()[index as int].0,
                None => index >= self.rows().len(),
            },
    {
        if index < self.entries.len() {
            Some(&self.entries[index].key)
        } else {
            None
        }
    }

    /// The columns of the row at `index`, where the table has that many rows.
    pub fn value_at(&self, index: usize) -> (value: Option<&V>)
        ensures
            match value {
                Some(found) => index < self.rows().len() && found@ == self.rows()[index as int].1,
                None => index >= self.rows().len(),
            },
    {
        if index < self.entries.len() {
            Some(&self.entries[index].value)
        } else {
            None
        }
    }

    /// Where the row with `key` is stored, if the table has one.
    pub fn find(&self, key: &str) -> (found: Option<usize>)
        ensures
            match found {
                Some(i) => i < self.rows().len() && self.rows()[i as int].0 == key@,
                None => !has_key(self.rows(), key@),
            },
    {
        let wanted = key.to_owned();
        let mut i: usize = 0;
        while i < self.entries.len()
            invariant
                i <= self.entries.len(),
                wanted@ == key@,
                forall|j: int| 0 <= j < i ==> (#[trigger] self.rows()[j]).0 != key@,
            decreases self.entries.len() - i,
        {
            if self.entries[i].key == wanted {
                return Some(i);
            }
            i += 1;
        }
        None
    }

    pub fn contains_key(&self, key: &str) -> (present: bool)
        ensures
            present == self@.dom().contains(key@),
    {
        self.find(key).is_some()
    }

    /// The columns stored under `key`.
    pub fn get(&self, key: &str) -> (found: Option<&V>)
        requires
            self.wf(),
        ensures
            match found {
                Some(value) => self@.dom().contains(key@) && value@ == self@[key@],
                None => !self@.dom().contains(key@),
            },
    {
        match self.find(key) {
            Some(i) => {
                proof {
                    lemma_lookup(self.rows(), i as int);
                }
                Some(&self.entries[i].value)
            },
            None => None,
        }
    }

    /// Adds a row under `key`. A key that is already present is refused and
    /// the table stays as it was.
    pub fn insert(&mut self, key: String, value: V) -> (added: bool)
        requires
            old(self).wf(),
        ensures
            final(self).wf(),
            added == !old(self)@.dom().contains(key@),
            added ==> final(self)@ == old(self)@.insert(key@, value@),
            added ==> final(self).rows() == old(self).rows().push((key@, value@)),
            !added ==> final(self)@ == old(self)@ && final(self).rows() == old(self).rows(),
    {
        if self.find(key.as_str()).is_some() {
            return false;
        }
        proof {
            lemma_push(self.rows(), key@, value@);
        }
        let ghost before = self.rows();
        let ghost row = (key@, value@);
        self.entries.push(Entry { key, value });
        assert(self.rows() =~= before.push(row));
        true
    }

    /// Takes the row under `key` out of the table and hands its columns back.
    pub fn remove(&mut self, key: &str) -> (taken: Option<V>)
        requires
            old(self).wf(),
        ensures
            final(self).wf(),
            final(self)@ == old(self)@.remove(key@),
            match taken {
                Some(value) => old(self)@.dom().contains(key@) && value@ == old(self)@[key@],
                None => !old(self)@.dom().contains(key@),
            },
    {
        match self.find(key) {
            Some(i) => {
                proof {
                    lemma_lookup(self.rows(), i as int);
                    lemma_remove(self.rows(), i as int);
                }
                let ghost before = self.rows();
                let entry = self.entries.remove(i);
                assert(self.rows() =~= before.remove(i as int));
                Some(entry.value)
            },
            None => {
                assert(self@ =~= self@.remove(key@));
                None
            },
        }
    }
}

} // verus!
