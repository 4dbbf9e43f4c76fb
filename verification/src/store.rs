use vstd::prelude::*;

verus! {

/// A row that carries the key it is stored under.
pub trait Record: Sized {
    type Key: Copy;

    /// The key of this row.
    spec fn key(&self) -> Self::Key;

    /// Reads the key of this row.
    fn key_of(&self) -> (key: Self::Key)
        ensures
            key == self.key(),
    ;

    /// Whether this row is stored under `key`.
    fn has_key(&self, key: &Self::Key) -> (r: bool)
        ensures
            r == (self.key() == *key),
    ;
}

/// Whether no two rows share a key.
pub open spec fn distinct_keys<R: Record>(rows: Seq<R>) -> bool {
    forall|i: int, j: int|
        0 <= i < j < rows.len() ==> (#[trigger] rows[i]).key() != (#[trigger] rows[j]).key()
}

/// Whether some row is stored under `key`.
pub open spec fn holds_key<R: Record>(rows: Seq<R>, key: R::Key) -> bool {
    exists|i: int| 0 <= i < rows.len() && (#[trigger] rows[i]).key() == key
}

/// The place of a row stored under `key`.
pub open spec fn index_of_key<R: Record>(rows: Seq<R>, key: R::Key) -> int {
    choose|i: int| 0 <= i < rows.len() && (#[trigger] rows[i]).key() == key
}

/// The rows as a map from each key in use to the row stored under it.
pub open spec fn keyed<R: Record>(rows: Seq<R>) -> Map<R::Key, R> {
    Map::new(|k: R::Key| holds_key(rows, k), |k: R::Key| rows[index_of_key(rows, k)])
}

/// Every row in the map is stored under its own key, at some place of the
/// sequence.
pub proof fn lemma_keyed_entry<R: Record>(rows: Seq<R>, key: R::Key)
    requires
        keyed(rows).contains_key(key),
    ensures
        0 <= index_of_key(rows, key) < rows.len(),
        keyed(rows)[key] == rows[index_of_key(rows, key)],
        keyed(rows)[key].key() == key,
{
}

/// With distinct keys, the row at each place is the one that the map holds
/// under its key.
pub proof fn lemma_keyed_row<R: Record>(rows: Seq<R>, i: int)
    requires
        distinct_keys(rows),
        0 <= i < rows.len(),
    ensures
        keyed(rows).contains_key(rows[i].key()),
        keyed(rows)[rows[i].key()] == rows[i],
        index_of_key(rows, rows[i].key()) == i,
{
    let j = index_of_key(rows, rows[i].key());
    assert(holds_key(rows, rows[i].key()));
    assert(0 <= j < rows.len() && rows[j].key() == rows[i].key());
    if j < i {
        assert(rows[j].key() != rows[i].key());
    } else if i < j {
        assert(rows[i].key() != rows[j].key());
    }
}

/// Appending a row under a fresh key keeps the keys distinct and adds one
/// entry to the map.
pub proof fn lemma_keyed_push<R: Record>(rows: Seq<R>, row: R)
    requires
        distinct_keys(rows),
        !holds_key(rows, row.key()),
    ensures
        distinct_keys(rows.push(row)),
        keyed(rows.push(row)) == keyed(rows).insert(row.key(), row),
{
    let next = rows.push(row);
    assert forall|i: int, j: int| 0 <= i < j < next.len() implies (#[trigger] next[i]).key() != (
    #[trigger] next[j]).key() by {
        if j < rows.len() {
            assert(rows[i].key() != rows[j].key());
        } else {
            assert(rows[i].key() != row.key());
        }
    }
    assert(next[rows.len() as int].key() == row.key());
    assert forall|k: R::Key| holds_key(next, k) <==> (k == row.key() || holds_key(rows, k)) by {
        if holds_key(next, k) {
            let i = index_of_key(next, k);
            if i < rows.len() {
                assert(rows[i].key() == k);
            }
        }
        if holds_key(rows, k) {
            let i = index_of_key(rows, k);
            assert(next[i].key() == k);
        }
    }
    assert forall|k: R::Key| holds_key(next, k) implies #[trigger] keyed(next)[k] == keyed(
        rows,
    ).insert(row.key(), row)[k] by {
        let i = index_of_key(next, k);
        lemma_keyed_row(next, i);
        if i < rows.len() {
            assert(next[i] == rows[i]);
            lemma_keyed_row(rows, i);
        }
    }
    assert(keyed(next) =~= keyed(rows).insert(row.key(), row));
}

/// Replacing a row by one with the same key keeps the keys distinct and
/// changes that one entry of the map.
pub proof fn lemma_keyed_update<R: Record>(rows: Seq<R>, i: int, row: R)
    requires
        distinct_keys(rows),
        0 <= i < rows.len(),
        row.key() == rows[i].key(),
    ensures
        distinct_keys(rows.update(i, row)),
        keyed(rows.update(i, row)) == keyed(rows).insert(row.key(), row),
{
    let next = rows.update(i, row);
    assert forall|a: int, b: int| 0 <= a < b < next.len() implies (#[trigger] next[a]).key() != (
    #[trigger] next[b]).key() by {
        assert(rows[a].key() != rows[b].key());
    }
    assert forall|k: R::Key| holds_key(next, k) <==> holds_key(rows, k) by {
        if holds_key(next, k) {
            let a = index_of_key(next, k);
            assert(rows[a].key() == k);
        }
        if holds_key(rows, k) {
            let a = index_of_key(rows, k);
            assert(next[a].key() == k);
        }
    }
    assert(rows[i].key() == row.key());
    assert forall|k: R::Key| holds_key(next, k) implies #[trigger] keyed(next)[k] == keyed(
        rows,
    ).insert(row.key(), row)[k] by {
        let a = index_of_key(next, k);
        lemma_keyed_row(next, a);
        lemma_keyed_row(rows, a);
    }
    assert(keyed(next) =~= keyed(rows).insert(row.key(), row));
}

/// Taking a row out keeps the keys distinct and takes its entry out of the
/// map.
pub proof fn lemma_keyed_remove<R: Record>(rows: Seq<R>, i: int)
    requires
        distinct_keys(rows),
        0 <= i < rows.len(),
    ensures
        distinct_keys(rows.remove(i)),
        keyed(rows.remove(i)) == keyed(rows).remove(rows[i].key()),
{
    let next = rows.remove(i);
    let key = rows[i].key();
    assert forall|a: int| 0 <= a < next.len() implies #[trigger] next[a] == rows[if a < i {
        a
    } else {
        a + 1
    }] by {}
    assert forall|a: int, b: int| 0 <= a < b < next.len() implies (#[trigger] next[a]).key() != (
    #[trigger] next[b]).key() by {
        let a0 = if a < i { a } else { a + 1 };
        let b0 = if b < i { b } else { b + 1 };
        assert(rows[a0].key() != rows[b0].key());
    }
    assert forall|k: R::Key| holds_key(next, k) <==> (k != key && holds_key(rows, k)) by {
        if holds_key(next, k) {
            let a = index_of_key(next, k);
            let a0 = if a < i { a } else { a + 1 };
            assert(rows[a0].key() == k);
            if a0 < i {
                assert(rows[a0].key() != rows[i].key());
            } else {
                assert(rows[i].key() != rows[a0].key());
            }
        }
        if k != key && holds_key(rows, k) {
            let a0 = index_of_key(rows, k);
            let a = if a0 < i { a0 } else { a0 - 1 };
            assert(next[a].key() == k);
        }
    }
    assert forall|k: R::Key| holds_key(next, k) implies #[trigger] keyed(next)[k] == keyed(
        rows,
    ).remove(key)[k] by {
        let a = index_of_key(next, k);
        let a0 = if a < i { a } else { a + 1 };
        lemma_keyed_row(next, a);
        lemma_keyed_row(rows, a0);
    }
    assert(keyed(next) =~= keyed(rows).remove(key));
}

/// With distinct keys, the map has as many entries as there are rows.
pub proof fn lemma_keyed_len<R: Record>(rows: Seq<R>)
    requires
        distinct_keys(rows),
    ensures
        keyed(rows).dom().finite(),
        keyed(rows).dom().len() == rows.len(),
    decreases rows.len(),
{
    if rows.len() == 0 {
        assert(keyed(rows).dom() =~= Set::<R::Key>::empty());
    } else {
        let front = rows.drop_last();
        let last = rows.last();
        assert forall|i: int, j: int| 0 <= i < j < front.len() implies (#[trigger] front[i]).key() != (
        #[trigger] front[j]).key() by {
            assert(rows[i].key() != rows[j].key());
        }
        lemma_keyed_len(front);
        if holds_key(front, last.key()) {
            let i = index_of_key(front, last.key());
            assert(rows[i].key() != rows[rows.len() - 1].key());
        }
        lemma_keyed_push(front, last);
        assert(front.push(last) =~= rows);
        assert(keyed(rows).dom() =~= keyed(front).dom().insert(last.key()));
    }
}

/// A table of rows, no two of which share a key.
pub struct Table<R: Record> {
    rows: Vec<R>,
}

impl<R: Record> View for Table<R> {
    type V = Map<R::Key, R>;

    /// The table as a map from each key in use to its row.
    open spec fn view(&self) -> Map<R::Key, R> {
        keyed(self.seq())
    }
}

impl<R: Record> Table<R> {
    #[verifier::type_invariant]
    spec fn well_formed(&self) -> bool {
        distinct_keys(self.rows@)
    }

    /// The rows in the order in which they are stored.
    pub closed spec fn seq(&self) -> Seq<R> {
        self.rows@
    }

    /// A table without rows.
    pub fn new() -> (t: Self)
        ensures
            t.seq() == Seq::<R>::empty(),
            t@ == Map::<R::Key, R>::empty(),
    {
        let t = Table { rows: Vec::new() };
        assert(t@ =~= Map::<R::Key, R>::empty());
        t
    }

    /// The number of rows.
    pub fn len(&self) -> (n: usize)
        ensures
            n == self.seq().len(),
            self@.dom().finite(),
            n == self@.dom().len(),
    {
        proof {
            use_type_invariant(self);
            lemma_keyed_len(self.rows@);
        }
        self.rows.len()
    }

    /// The rows, in stored order.
    pub fn rows(&self) -> (rows: &Vec<R>)
        ensures
            rows@ == self.seq(),
            distinct_keys(rows@),
    {
        proof {
            use_type_invariant(self);
        }
        &self.rows
    }

    /// The place of the row stored under `key`, if there is one.
    pub fn position(&self, key: &R::Key) -> (r: Option<usize>)
        ensures
            r is Some <==> self@.contains_key(*key),
            r matches Some(i) ==> {
                &&& i < self.seq().len()
                &&& i == index_of_key(self.seq(), *key)
                &&& self.seq()[i as int] == self@[*key]
            },
    {
        proof {
            use_type_invariant(self);
        }
        let mut i: usize = 0;
        while i < self.rows.len()
            invariant
                i <= self.rows.len(),
                distinct_keys(self.rows@),
                forall|j: int| 0 <= j < i ==> (#[trigger] self.rows@[j]).key() != *key,
            decreases self.rows.len() - i,
        {
            if self.rows[i].has_key(key) {
                proof {
                    lemma_keyed_row(self.rows@, i as int);
                }
                return Some(i);
            }
            i += 1;
        }
        None
    }

    /// The row stored under `key`, if there is one.
    pub fn find(&self, key: &R::Key) -> (r: Option<&R>)
        ensures
            r is Some <==> self@.contains_key(*key),
            r matches Some(row) ==> *row == self@[*key] && row.key() == *key,
    {
        match self.position(key) {
            Some(i) => {
                proof {
                    lemma_keyed_entry(self.rows@, *key);
                }
                Some(&self.rows[i])
            },
            None => None,
        }
    }

    /// Stores `row` unless its key is in use. Says whether it was stored.
    pub fn insert(&mut self, row: R) -> (stored: bool)
        ensures
            stored == !old(self)@.contains_key(row.key()),
            stored ==> final(self).seq() == old(self).seq().push(row) && final(self)@ == old(
                self,
            )@.insert(row.key(), row),
            !stored ==> final(self).seq() == old(self).seq(),
    {
        proof {
            use_type_invariant(&*self);
        }
        let key = row.key_of();
        match self.position(&key) {
            Some(_) => false,
            None => {
                proof {
                    lemma_keyed_push(self.rows@, row);
                }
                let mut rows: Vec<R> = Vec::new();
                core::mem::swap(&mut rows, &mut self.rows);
                rows.push(row);
                core::mem::swap(&mut rows, &mut self.rows);
                true
            },
        }
    }

    /// Puts `row` in the place of the row at `i`, which has the same key.
    pub fn replace_at(&mut self, i: usize, row: R)
        requires
            i < old(self).seq().len(),
            row.key() == old(self).seq()[i as int].key(),
        ensures
            final(self).seq() == old(self).seq().update(i as int, row),
            final(self)@ == old(self)@.insert(row.key(), row),
    {
        proof {
            use_type_invariant(&*self);
            lemma_keyed_update(self.rows@, i as int, row);
        }
        let mut rows: Vec<R> = Vec::new();
        core::mem::swap(&mut rows, &mut self.rows);
        rows[i] = row;
        core::mem::swap(&mut rows, &mut self.rows);
    }

    /// Puts `row` in the place of the row that has its key, if there is
    /// one. Says whether there was.
    pub fn replace(&mut self, row: R) -> (found: bool)
        ensures
            found == old(self)@.contains_key(row.key()),
            found ==> final(self)@ == old(self)@.insert(row.key(), row),
            final(self).seq() == if found {
                old(self).seq().update(index_of_key(old(self).seq(), row.key()), row)
            } else {
                old(self).seq()
            },
    {
        let key = row.key_of();
        match self.position(&key) {
            Some(i) => {
                proof {
                    lemma_keyed_entry(self.seq(), key);
                }
                self.replace_at(i, row);
                true
            },
            None => false,
        }
    }

    /// Stores `row` under its key, in place of the row that had the key if
    /// there was one.
    pub fn upsert(&mut self, row: R)
        ensures
            final(self)@ == old(self)@.insert(row.key(), row),
            final(self).seq() == if old(self)@.contains_key(row.key()) {
                old(self).seq().update(index_of_key(old(self).seq(), row.key()), row)
            } else {
                old(self).seq().push(row)
            },
    {
        let key = row.key_of();
        match self.position(&key) {
            Some(i) => {
                proof {
                    lemma_keyed_entry(self.seq(), key);
                }
                self.replace_at(i, row);
            },
            None => {
                self.insert(row);
            },
        }
    }

    /// Takes out the row at `i`.
    pub fn remove_at(&mut self, i: usize) -> (row: R)
        requires
            i < old(self).seq().len(),
        ensures
            row == old(self).seq()[i as int],
            final(self).seq() == old(self).seq().remove(i as int),
            final(self)@ == old(self)@.remove(row.key()),
    {
        proof {
            use_type_invariant(&*self);
            lemma_keyed_remove(self.rows@, i as int);
        }
        let mut rows: Vec<R> = Vec::new();
        core::mem::swap(&mut rows, &mut self.rows);
        let row = rows.remove(i);
        core::mem::swap(&mut rows, &mut self.rows);
        row
    }

    /// Takes out the row stored under `key`, if there is one.
    pub fn remove(&mut self, key: &R::Key) -> (row: Option<R>)
        ensures
            row is Some <==> old(self)@.contains_key(*key),
            row matches Some(r) ==> r == old(self)@[*key],
            final(self)@ == old(self)@.remove(*key),
            final(self).seq() == if row is Some {
                old(self).seq().remove(index_of_key(old(self).seq(), *key))
            } else {
                old(self).seq()
            },
    {
        match self.position(key) {
            Some(i) => {
                proof {
                    lemma_keyed_entry(self.seq(), *key);
                }
                Some(self.remove_at(i))
            },
            None => {
                assert(self@.remove(*key) =~= self@);
                None
            },
        }
    }

    /// Takes out every row.
    pub fn clear(&mut self)
        ensures
            final(self).seq() == Seq::<R>::empty(),
            final(self)@ == Map::<R::Key, R>::empty(),
    {
        self.rows = Vec::new();
        assert(self@ =~= Map::<R::Key, R>::empty());
    }
}

/// Whether `key` is the number that follows the largest key in use, or 1
/// where no positive key is in use.
pub open spec fn follows_keys<R: Record<Key = u32>>(rows: Map<u32, R>, key: u32) -> bool {
    &&& key >= 1
    &&& forall|k: u32| rows.contains_key(k) ==> k < key
    &&& key == 1 || rows.contains_key((key - 1) as u32)
}

/// The key for a new row: the number that follows the keys in use.
pub open spec fn next_key<R: Record<Key = u32>>(rows: Map<u32, R>) -> u32 {
    choose|key: u32| follows_keys(rows, key)
}

/// Only one number follows the keys in use.
pub proof fn lemma_next_key<R: Record<Key = u32>>(rows: Map<u32, R>, key: u32)
    requires
        follows_keys(rows, key),
    ensures
        next_key(rows) == key,
        !rows.contains_key(key),
{
    let other = next_key(rows);
    assert(follows_keys(rows, other));
    if other < key {
        assert(rows.contains_key((key - 1) as u32));
    } else if key < other {
        assert(rows.contains_key((other - 1) as u32));
    }
}

impl<R: Record<Key = u32>> Table<R> {
    /// The key for a new row, or `None` where the number that follows the
    /// keys in use cannot be held.
    pub fn fresh_key(&self) -> (r: Option<u32>)
        ensures
            r is None <==> self@.contains_key(u32::MAX),
            r matches Some(key) ==> key == next_key(self@) && follows_keys(self@, key)
                && !self@.contains_key(key),
    {
        proof {
            use_type_invariant(self);
        }
        let mut largest: u32 = 0;
        let mut i: usize = 0;
        while i < self.rows.len()
            invariant
                i <= self.rows.len(),
                distinct_keys(self.rows@),
                forall|j: int| 0 <= j < i ==> (#[trigger] self.rows@[j]).key() <= largest,
                largest == 0 || self@.contains_key(largest),
            decreases self.rows.len() - i,
        {
            let key: u32 = self.rows[i].key_of();
            if key > largest {
                proof {
                    lemma_keyed_row(self.rows@, i as int);
                }
                largest = key;
            }
            i += 1;
        }
        assert forall|k: u32| self@.contains_key(k) implies k <= largest by {
            lemma_keyed_entry(self.rows@, k);
        }
        if largest == u32::MAX {
            None
        } else {
            proof {
                lemma_next_key(self@, (largest + 1) as u32);
            }
            Some(largest + 1)
        }
    }
}

} // verus!
