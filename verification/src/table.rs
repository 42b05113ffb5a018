//! A small association table keyed by numeric ids.
//!
//! Entries keep their insertion order, which makes every walk over the
//! table deterministic — the engine's output for a given input sequence
//! must be reproducible, so no hashed container is used here.

use vstd::prelude::*;
use vstd::pervasive::VecAdditionalExecFns;

verus! {

/// An association table from `usize` ids to values, in insertion order.
pub struct Table<V> {
    entries: Vec<(usize, V)>,
}

/// The position of `key` in `entries`, or `None`.
pub open spec fn spec_table_find<V>(entries: Seq<(usize, V)>, key: usize) -> Option<int>
    decreases entries.len(),
{
    if entries.len() == 0 {
        None
    } else if entries[0].0 == key {
        Some(0int)
    } else {
        match spec_table_find(entries.skip(1), key) {
            Some(i) => Some(i + 1),
            None => None,
        }
    }
}

/// An index `spec_table_find` returns is in range and names an entry with
/// the looked-up key.
pub proof fn lemma_table_find_range<V>(entries: Seq<(usize, V)>, key: usize)
    ensures
        spec_table_find(entries, key) matches Some(i) ==> 0 <= i < entries.len() && entries[i].0
            == key,
    decreases entries.len(),
{
    if entries.len() > 0 && entries[0].0 != key {
        lemma_table_find_range(entries.skip(1), key);
    }
}

/// Pushing a new entry does not disturb where existing keys are found; a
/// key found nowhere is afterwards found at the end exactly when the new
/// entry carries it.
pub proof fn lemma_table_find_push<V>(entries: Seq<(usize, V)>, key: usize, pushed: (usize, V))
    ensures
        spec_table_find(entries, key) matches Some(i) ==> spec_table_find(
            entries.push(pushed),
            key,
        ) == Some(i),
        spec_table_find(entries, key) is None && pushed.0 == key ==> spec_table_find(
            entries.push(pushed),
            key,
        ) == Some(entries.len() as int),
        spec_table_find(entries, key) is None && pushed.0 != key ==> spec_table_find(
            entries.push(pushed),
            key,
        ) is None,
    decreases entries.len(),
{
    let p = entries.push(pushed);
    if entries.len() == 0 {
        assert(p[0] == pushed);
        if pushed.0 != key {
            assert(p.skip(1) =~= Seq::<(usize, V)>::empty());
        }
    } else {
        assert(p[0] == entries[0]);
        assert(p.skip(1) =~= entries.skip(1).push(pushed));
        lemma_table_find_push(entries.skip(1), key, pushed);
        if entries[0].0 != key {
            assert(spec_table_find(entries, key) == match spec_table_find(entries.skip(1), key) {
                Some(i) => Some(i + 1),
                None => None,
            });
            assert(spec_table_find(p, key) == match spec_table_find(p.skip(1), key) {
                Some(i) => Some(i + 1),
                None => None,
            });
        }
    }
}

/// Replacing the value stored at one position, keeping its key, moves no
/// entry: every key is found where it was found before.
pub proof fn lemma_table_find_update<V>(pre: Seq<(usize, V)>, post: Seq<(usize, V)>, at: int)
    requires
        pre.len() == post.len(),
        0 <= at < pre.len(),
        forall|i: int| 0 <= i < pre.len() && i != at ==> post[i] == pre[i],
        post[at].0 == pre[at].0,
    ensures
        forall|k: usize| #[trigger] spec_table_find(post, k) == spec_table_find(pre, k),
    decreases pre.len(),
{
    if at == 0 {
        assert(post.skip(1) =~= pre.skip(1));
    } else {
        assert(post[0] == pre[0]);
        assert forall|i: int| 0 <= i < pre.skip(1).len() && i != at - 1 implies post.skip(1)[i]
            == pre.skip(1)[i] by {
            assert(post.skip(1)[i] == post[i + 1]);
            assert(pre.skip(1)[i] == pre[i + 1]);
        }
        assert(post.skip(1)[at - 1].0 == pre.skip(1)[at - 1].0);
        lemma_table_find_update(pre.skip(1), post.skip(1), at - 1);
    }
    assert(post[0].0 == pre[0].0);
    assert forall|k: usize| #[trigger] spec_table_find(post, k) == spec_table_find(pre, k) by {
        assert(spec_table_find(post.skip(1), k) == spec_table_find(pre.skip(1), k));
    }
}

/// After replacing the value at the canonical position of its key, every
/// key is still found where it was, the changed key maps to the new
/// value, and every other key maps to its old value.
pub proof fn lemma_table_update_at_key<V>(pre: Seq<(usize, V)>, post: Seq<(usize, V)>, i: int)
    requires
        0 <= i < pre.len(),
        post.len() == pre.len(),
        forall|j: int| 0 <= j < pre.len() && j != i ==> post[j] == pre[j],
        post[i].0 == pre[i].0,
        spec_table_find(pre, pre[i].0) == Some(i),
    ensures
        forall|k: usize| #[trigger] spec_table_find(post, k) == spec_table_find(pre, k),
        forall|k: usize|
            k != pre[i].0 && spec_table_find(pre, k) is Some ==> post[spec_table_find(
                pre,
                k,
            ).unwrap()] == pre[spec_table_find(pre, k).unwrap()],
{
    lemma_table_find_update(pre, post, i);
    assert forall|k: usize|
        k != pre[i].0 && spec_table_find(pre, k) is Some implies post[spec_table_find(
        pre,
        k,
    ).unwrap()] == pre[spec_table_find(pre, k).unwrap()] by {
        lemma_table_find_range(pre, k);
    }
}

impl<V> Table<V> {
    /// The entries, in insertion order.
    pub closed spec fn view(&self) -> Seq<(usize, V)> {
        self.entries@
    }

    /// Whether `key` is present.
    pub open spec fn spec_contains(&self, key: usize) -> bool {
        spec_table_find(self@, key) is Some
    }

    /// The value stored under `key` (meaningful when present).
    pub open spec fn spec_at(&self, key: usize) -> V
        recommends
            self.spec_contains(key),
    {
        self@[spec_table_find(self@, key).unwrap()].1
    }

    /// An empty table.
    pub fn new() -> (r: Table<V>)
        ensures
            r@.len() == 0,
    {
        Table { entries: Vec::new() }
    }

    /// The number of entries.
    pub fn len(&self) -> (r: usize)
        ensures
            r == self@.len(),
    {
        self.entries.len()
    }

    /// The position of `key`, or `None`.
    pub fn index_of(&self, key: usize) -> (r: Option<usize>)
        ensures
            r matches Some(i) ==> i < self@.len() && spec_table_find(self@, key) == Some(i as int),
            r is None ==> spec_table_find(self@, key) is None,
    {
        let n = self.entries.len();
        let mut i: usize = 0;
        assert(self@.skip(0) =~= self@);
        while i < n
            invariant
                i <= n,
                n == self@.len(),
                spec_table_find(self@, key) matches Some(j) ==> spec_table_find(
                    self@.skip(i as int),
                    key,
                ) == Some(j - i),
                spec_table_find(self@, key) is None ==> spec_table_find(
                    self@.skip(i as int),
                    key,
                ) is None,
                spec_table_find(self@.skip(i as int), key) matches Some(j) ==> spec_table_find(
                    self@,
                    key,
                ) == Some(j + i),
            decreases n - i,
        {
            assert(self@.skip(i as int)[0] == self@[i as int]);
            assert(self@.skip(i as int).skip(1) =~= self@.skip(i as int + 1));
            if self.entries[i].0 == key {
                assert(spec_table_find(self@.skip(i as int), key) == Some(0int));
                return Some(i);
            }
            i = i + 1;
        }
        assert(self@.skip(n as int) =~= Seq::<(usize, V)>::empty());
        None
    }

    /// Whether `key` is present.
    pub fn contains(&self, key: usize) -> (r: bool)
        ensures
            r == self.spec_contains(key),
    {
        self.index_of(key).is_some()
    }

    /// Borrow the value stored under `key`.
    pub fn get(&self, key: usize) -> (r: Option<&V>)
        ensures
            self.spec_contains(key) ==> r == Some(&self.spec_at(key)),
            !self.spec_contains(key) ==> r is None,
    {
        match self.index_of(key) {
            Some(i) => Some(&self.entries[i].1),
            None => None,
        }
    }

    /// The key stored at position `i`.
    pub fn key_at(&self, i: usize) -> (r: usize)
        requires
            i < self@.len(),
        ensures
            r == self@[i as int].0,
    {
        self.entries[i].0
    }

    /// Borrow the value stored at position `i`.
    pub fn value_at(&self, i: usize) -> (r: &V)
        requires
            i < self@.len(),
        ensures
            *r == self@[i as int].1,
    {
        &self.entries[i].1
    }

    /// Mutably borrow the value stored at position `i`; the table
    /// afterwards holds whatever the caller left behind the borrow, under
    /// the unchanged key.
    pub fn value_at_mut(&mut self, i: usize) -> (r: &mut V)
        requires
            i < old(self)@.len(),
        ensures
            *r == old(self)@[i as int].1,
            final(self)@ == old(self)@.update(i as int, (old(self)@[i as int].0, *final(r))),
    {
        &mut self.entries[i].1
    }

    /// Store `value` under `key`: replace the value in place when the key
    /// is present, else append a new entry.
    pub fn insert(&mut self, key: usize, value: V)
        ensures
            final(self).spec_contains(key),
            final(self).spec_at(key) == value,
            forall|k: usize|
                k != key ==> #[trigger] final(self).spec_contains(k) == old(self).spec_contains(k)
                    && (old(self).spec_contains(k) ==> final(self).spec_at(k) == old(self).spec_at(
                    k,
                )),
            old(self).spec_contains(key) ==> final(self)@ == old(self)@.update(
                spec_table_find(old(self)@, key).unwrap(),
                (key, value),
            ),
            !old(self).spec_contains(key) ==> final(self)@ == old(self)@.push((key, value)),
            old(self).spec_contains(key) ==> final(self)@.len() == old(self)@.len(),
            !old(self).spec_contains(key) ==> final(self)@.len() == old(self)@.len() + 1,
    {
        let ghost pre = self@;
        match self.index_of(key) {
            Some(i) => {
                self.entries.set(i, (key, value));
                proof {
                    lemma_table_find_range(pre, key);
                    lemma_table_find_update(pre, self@, i as int);
                    assert forall|k: usize|
                        k != key && spec_table_find(pre, k) is Some implies self@[spec_table_find(
                        pre,
                        k,
                    ).unwrap()].1 == pre[spec_table_find(pre, k).unwrap()].1 by {
                        lemma_table_find_range(pre, k);
                    }
                }
            },
            None => {
                let ghost entry = (key, value);
                self.entries.push((key, value));
                proof {
                    assert(self@ =~= pre.push(entry));
                    lemma_table_find_push(pre, key, entry);
                    assert forall|k: usize|
                        k != key && spec_table_find(pre, k) is Some implies spec_table_find(
                        self@,
                        k,
                    ) == spec_table_find(pre, k) && self@[spec_table_find(pre, k).unwrap()]
                        == pre[spec_table_find(pre, k).unwrap()] by {
                        lemma_table_find_push(pre, k, entry);
                        lemma_table_find_range(pre, k);
                    }
                    assert forall|k: usize|
                        k != key && spec_table_find(pre, k) is None implies spec_table_find(
                        self@,
                        k,
                    ) is None by {
                        lemma_table_find_push(pre, k, entry);
                    }
                }
            },
        }
    }
}

} // verus!
