//! Tables keyed by byte strings.

use vstd::prelude::*;

use crate::text::Text;

verus! {

#[derive(Debug)]
struct Row<V> {
    key: Text,
    value: V,
}

/// A finite map from byte strings to values.
#[derive(Debug)]
pub struct Table<V> {
    rows: Vec<Row<V>>,
}

/// The map that a list of rows stands for: of two rows with one key, the later
/// one counts.
spec fn rows_map<V: View>(rows: Seq<Row<V>>) -> Map<Seq<u8>, V::V>
    decreases rows.len(),
{
    if rows.len() == 0 {
        Map::empty()
    } else {
        rows_map(rows.drop_last()).insert(rows.last().key@, rows.last().value@)
    }
}

impl<V: View> View for Table<V> {
    type V = Map<Seq<u8>, V::V>;

    closed spec fn view(&self) -> Map<Seq<u8>, V::V> {
        rows_map(self.rows@)
    }
}

/// The rows from `i` on do not decide what `key` maps to, if none has that key.
proof fn lemma_tail_without_key<V: View>(rows: Seq<Row<V>>, i: int, key: Seq<u8>)
    requires
        0 <= i <= rows.len(),
        forall|j: int| i <= j < rows.len() ==> rows[j].key@ != key,
    ensures
        rows_map(rows).contains_key(key) == rows_map(rows.take(i)).contains_key(key),
        rows_map(rows)[key] == rows_map(rows.take(i))[key],
    decreases rows.len(),
{
    if i == rows.len() {
        assert(rows.take(i) == rows);
    } else {
        lemma_tail_without_key(rows.drop_last(), i, key);
        assert(rows.drop_last().take(i) == rows.take(i));
        assert(rows.last().key@ != key);
    }
}

/// Overwriting the last row of a key overwrites what the key maps to.
proof fn lemma_overwrite<V: View>(rows: Seq<Row<V>>, i: int, row: Row<V>)
    requires
        0 <= i < rows.len(),
        rows[i].key@ == row.key@,
        forall|j: int| i < j < rows.len() ==> rows[j].key@ != row.key@,
    ensures
        rows_map(rows.update(i, row)) == rows_map(rows).insert(row.key@, row.value@),
    decreases rows.len(),
{
    let changed = rows.update(i, row);
    if i == rows.len() - 1 {
        assert(changed.drop_last() == rows.drop_last());
    } else {
        lemma_overwrite(rows.drop_last(), i, row);
        assert(changed.drop_last() == rows.drop_last().update(i, row));
        assert(rows.last().key@ != row.key@);
    }
    assert(rows_map(changed) =~= rows_map(rows).insert(row.key@, row.value@));
}

/// Dropping one row of a key changes nothing but what that key maps to.
proof fn lemma_drop_row<V: View>(rows: Seq<Row<V>>, i: int)
    requires
        0 <= i < rows.len(),
    ensures
        rows_map(rows.remove(i)).remove(rows[i].key@) == rows_map(rows).remove(rows[i].key@),
    decreases rows.len(),
{
    let key = rows[i].key@;
    let last = rows.last();
    let before = rows_map(rows.drop_last());
    if i == rows.len() - 1 {
        assert(rows.remove(i) == rows.drop_last());
        assert(before.insert(key, last.value@).remove(key) =~= before.remove(key));
    } else {
        lemma_drop_row(rows.drop_last(), i);
        assert(rows.remove(i).drop_last() == rows.drop_last().remove(i));
        let after = rows_map(rows.drop_last().remove(i));
        if last.key@ == key {
            assert(before.insert(key, last.value@).remove(key) =~= before.remove(key));
            assert(after.insert(key, last.value@).remove(key) =~= after.remove(key));
        } else {
            assert(before.insert(last.key@, last.value@).remove(key) =~= before.remove(key).insert(
                last.key@,
                last.value@,
            ));
            assert(after.insert(last.key@, last.value@).remove(key) =~= after.remove(key).insert(
                last.key@,
                last.value@,
            ));
        }
    }
}

impl<V: View> Table<V> {
    /// The table without rows.
    pub fn new() -> (table: Table<V>)
        ensures
            table@ == Map::<Seq<u8>, V::V>::empty(),
    {
        Table { rows: Vec::new() }
    }

    /// The index of the row that counts for `key`.
    fn find(&self, key: &Text) -> (found: Option<usize>)
        ensures
            match found {
                Some(i) => {
                    &&& i < self.rows@.len()
                    &&& self.rows@[i as int].key@ == key@
                    &&& forall|j: int| i < j < self.rows@.len() ==> self.rows@[j].key@ != key@
                    &&& self@.contains_key(key@)
                    &&& self@[key@] == self.rows@[i as int].value@
                },
                None => !self@.contains_key(key@) && forall|j: int|
                    0 <= j < self.rows@.len() ==> self.rows@[j].key@ != key@,
            },
    {
        let mut i: usize = self.rows.len();
        while i > 0
            invariant
                i <= self.rows@.len(),
                forall|j: int| i <= j < self.rows@.len() ==> self.rows@[j].key@ != key@,
            decreases i,
        {
            i -= 1;
            if self.rows[i].key == *key {
                proof {
                    let head = self.rows@.take(i + 1);
                    lemma_tail_without_key(self.rows@, i + 1, key@);
                    assert(head.last() == self.rows@[i as int]);
                }
                return Some(i);
            }
        }
        proof {
            lemma_tail_without_key(self.rows@, 0, key@);
            assert(self.rows@.take(0).len() == 0);
        }
        None
    }

    /// Whether `key` has a row.
    pub fn has(&self, key: &Text) -> (found: bool)
        ensures
            found == self@.contains_key(key@),
    {
        self.find(key).is_some()
    }

    /// What `key` maps to.
    pub fn get(&self, key: &Text) -> (value: Option<&V>)
        ensures
            match value {
                Some(v) => self@.contains_key(key@) && v@ == self@[key@],
                None => !self@.contains_key(key@),
            },
    {
        match self.find(key) {
            Some(i) => Some(&self.rows[i].value),
            None => None,
        }
    }

    /// Makes `key` map to `value`.
    pub fn set(&mut self, key: Text, value: V)
        ensures
            final(self)@ == old(self)@.insert(key@, value@),
    {
        let found = self.find(&key);
        let row = Row { key, value };
        match found {
            Some(i) => {
                proof {
                    lemma_overwrite(self.rows@, i as int, row);
                }
                self.rows.set(i, row);
            },
            None => {
                self.rows.push(row);
                assert(self.rows@.drop_last() == old(self).rows@);
            },
        }
    }

    /// Makes `key` map to nothing.
    pub fn remove(&mut self, key: &Text)
        ensures
            final(self)@ == old(self)@.remove(key@),
    {
        let mut i: usize = self.rows.len();
        while i > 0
            invariant
                i <= self.rows@.len(),
                forall|j: int| i <= j < self.rows@.len() ==> self.rows@[j].key@ != key@,
                rows_map(self.rows@).remove(key@) == rows_map(old(self).rows@).remove(key@),
            decreases i,
        {
            i -= 1;
            if self.rows[i].key == *key {
                proof {
                    lemma_drop_row(self.rows@, i as int);
                }
                self.rows.remove(i);
            }
        }
        proof {
            lemma_tail_without_key(self.rows@, 0, key@);
            assert(self.rows@.take(0).len() == 0);
            assert(rows_map(self.rows@) =~= rows_map(self.rows@).remove(key@));
        }
    }
}

} // verus!
