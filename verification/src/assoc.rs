//! A table of entries under distinct keys, kept in insertion order.
use vstd::prelude::*;

verus! {

/// Keys that can be compared by their views.
pub trait KeyEq: View + Sized {
    /// Whether the two keys have the same view.
    fn key_eq(&self, other: &Self) -> (r: bool)
        ensures
            r == (self@ == other@);
}

impl KeyEq for u64 {
    fn key_eq(&self, other: &Self) -> (r: bool) {
        *self == *other
    }
}

/// Entries under keys that are distinct by view, in the order they were first
/// inserted.
#[derive(Clone, Debug)]
pub struct AssocList<K, V> {
    pub entries: Vec<(K, V)>,
}

/// No two entries have keys with the same view.
pub open spec fn seq_keys_distinct<K: View, V>(s: Seq<(K, V)>) -> bool {
    forall|i: int, j: int| 0 <= i < j < s.len() ==> s[i].0@ != s[j].0@
}

/// Whether some entry is under a key with view `k`.
pub open spec fn seq_has<K: View, V>(s: Seq<(K, V)>, k: K::V) -> bool {
    exists|i: int| 0 <= i < s.len() && #[trigger] s[i].0@ == k
}

/// The position of the entry under a key with view `k`, where there is one.
pub open spec fn seq_pos<K: View, V>(s: Seq<(K, V)>, k: K::V) -> int {
    choose|i: int| 0 <= i < s.len() && #[trigger] s[i].0@ == k
}

/// The value under a key with view `k`, where there is one.
pub open spec fn seq_lookup<K: View, V>(s: Seq<(K, V)>, k: K::V) -> Option<V> {
    if seq_has(s, k) {
        Some(s[seq_pos(s, k)].1)
    } else {
        None
    }
}

/// The entries after inserting `v` under `k`: the entry under `k` takes the new
/// value in place where there is one, else the new entry goes last.
pub open spec fn seq_inserted<K: View, V>(s: Seq<(K, V)>, k: K, v: V) -> Seq<(K, V)> {
    if seq_has(s, k@) {
        s.update(seq_pos(s, k@), (s[seq_pos(s, k@)].0, v))
    } else {
        s.push((k, v))
    }
}

impl<K: KeyEq, V> AssocList<K, V> {
    /// No two entries have keys with the same view.
    pub open spec fn wf(&self) -> bool {
        seq_keys_distinct(self.entries@)
    }

    /// Whether some entry is under a key with view `k`.
    pub open spec fn has(&self, k: K::V) -> bool {
        seq_has(self.entries@, k)
    }

    /// The position of the entry under a key with view `k`, where there is one.
    pub open spec fn pos(&self, k: K::V) -> int {
        seq_pos(self.entries@, k)
    }

    /// The value under a key with view `k`, where there is one.
    pub open spec fn lookup(&self, k: K::V) -> Option<V> {
        seq_lookup(self.entries@, k)
    }

    /// The entries after inserting `v` under `k`: the entry under `k` takes the new
    /// value in place where there is one, else the new entry goes last.
    pub open spec fn inserted(&self, k: K, v: V) -> Seq<(K, V)> {
        seq_inserted(self.entries@, k, v)
    }

    /// An empty table.
    pub fn new() -> (r: Self)
        ensures
            r.entries@ == Seq::<(K, V)>::empty(),
            r.wf(),
    {
        AssocList { entries: Vec::new() }
    }

    /// The position of the entry under `k`, if any.
    pub fn find(&self, k: &K) -> (r: Option<usize>)
        requires
            self.wf(),
        ensures
            match r {
                Some(i) => i < self.entries@.len() && self.entries@[i as int].0@ == k@ && i == self.pos(k@)
                    && self.has(k@),
                None => !self.has(k@),
            },
    {
        let mut i: usize = 0;
        while i < self.entries.len()
            invariant
                self.wf(),
                i <= self.entries@.len(),
                forall|j: int| 0 <= j < i ==> #[trigger] self.entries@[j].0@ != k@,
            decreases self.entries@.len() - i,
        {
            if self.entries[i].0.key_eq(k) {
                proof {
                    let p = self.pos(k@);
                    assert(self.entries@[i as int].0@ == k@);
                    assert(0 <= p < self.entries@.len() && self.entries@[p].0@ == k@);
                    if p != i as int {
                        if p < i as int {
                            assert(self.entries@[p].0@ != k@);
                        } else {
                            assert(self.entries@[i as int].0@ != self.entries@[p].0@);
                        }
                    }
                }
                return Some(i);
            }
            i = i + 1;
        }
        None
    }

    /// The value under `k`, if any.
    pub fn get(&self, k: &K) -> (r: Option<&V>)
        requires
            self.wf(),
        ensures
            match r {
                Some(v) => self.lookup(k@) == Some(*v),
                None => self.lookup(k@) is None,
            },
    {
        match self.find(k) {
            Some(i) => Some(&self.entries[i].1),
            None => None,
        }
    }

    /// Puts `v` under `k`, and returns the value that was there before.
    pub fn insert(&mut self, k: K, v: V) -> (r: Option<V>)
        requires
            old(self).wf(),
        ensures
            final(self).wf(),
            final(self).entries@ == old(self).inserted(k, v),
            r == old(self).lookup(k@),
    {
        match self.find(&k) {
            Some(i) => {
                let ghost old_entries = self.entries@;
                let (old_k, old_v) = self.entries.remove(i);
                self.entries.insert(i, (old_k, v));
                assert(self.entries@ =~= old_entries.update(i as int, (old_k, v)));
                Some(old_v)
            },
            None => {
                self.entries.push((k, v));
                None
            },
        }
    }

    /// Replaces the value at position `i`, keeping its key, and returns the value
    /// that was there.
    pub fn replace_at(&mut self, i: usize, v: V) -> (r: V)
        requires
            old(self).wf(),
            i < old(self).entries@.len(),
        ensures
            final(self).wf(),
            final(self).entries@ == old(self).entries@.update(i as int, (old(self).entries@[i as int].0, v)),
            r == old(self).entries@[i as int].1,
    {
        let ghost old_entries = self.entries@;
        let (k, old_v) = self.entries.remove(i);
        self.entries.insert(i, (k, v));
        assert(self.entries@ =~= old_entries.update(i as int, (old_entries[i as int].0, v)));
        old_v
    }

    /// The number of entries.
    pub fn len(&self) -> (r: usize)
        ensures
            r == self.entries@.len(),
    {
        self.entries.len()
    }
}

/// Inserting keeps the keys distinct; reading a key back after inserting under it
/// gives what was inserted, and reading any other key gives what it gave before.
pub proof fn lemma_seq_inserted<K: View, V>(s: Seq<(K, V)>, k: K, v: V, k2: K::V)
    requires
        seq_keys_distinct(s),
    ensures
        seq_keys_distinct(seq_inserted(s, k, v)),
        seq_has(seq_inserted(s, k, v), k@),
        seq_lookup(seq_inserted(s, k, v), k@) == Some(v),
        k2 != k@ ==> seq_has(seq_inserted(s, k, v), k2) == seq_has(s, k2),
        k2 != k@ ==> seq_lookup(seq_inserted(s, k, v), k2) == seq_lookup(s, k2),
{
    let t2 = seq_inserted(s, k, v);
    if seq_has(s, k@) {
        let p = seq_pos(s, k@);
        assert(t2[p].0@ == k@);
        assert(seq_has(t2, k@));
        let q = seq_pos(t2, k@);
        if q != p {
            assert(s[q].0@ == k@);
        }
        assert forall|i: int, j: int| 0 <= i < j < t2.len() implies t2[i].0@ != t2[j].0@ by {
            assert(t2[i].0@ == s[i].0@ && t2[j].0@ == s[j].0@);
        }
    } else {
        let n = s.len() as int;
        assert(t2[n].0@ == k@);
        assert(seq_has(t2, k@));
        let q = seq_pos(t2, k@);
        if q != n {
            assert(s[q].0@ == k@);
        }
        assert forall|i: int, j: int| 0 <= i < j < t2.len() implies t2[i].0@ != t2[j].0@ by {
            if j == n {
                assert(s[i].0@ != k@);
            } else {
                assert(s[i].0@ != s[j].0@);
            }
        }
    }
    if k2 != k@ {
        if seq_has(s, k2) {
            let p = seq_pos(s, k2);
            assert(t2[p].0@ == k2);
            assert(seq_has(t2, k2));
            let q = seq_pos(t2, k2);
            assert(s[q].0@ == k2);
            if q != p {
                assert(s[p].0@ != s[q].0@);
            }
        } else {
            if seq_has(t2, k2) {
                let q = seq_pos(t2, k2);
                assert(s[q].0@ == k2);
            }
        }
    }
}

/// Reading a key back after inserting under it gives what was inserted, and
/// reading any other key gives what it gave before.
pub proof fn lemma_lookup_after_insert<K: KeyEq, V>(t: AssocList<K, V>, k: K, v: V, t2: AssocList<K, V>, k2: K::V)
    requires
        t.wf(),
        t2.entries@ == t.inserted(k, v),
    ensures
        t2.lookup(k@) == Some(v),
        k2 != k@ ==> t2.lookup(k2) == t.lookup(k2),
{
    lemma_seq_inserted(t.entries@, k, v, k2);
}

} // verus!
