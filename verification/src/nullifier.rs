//! Where nullifiers were revealed on chain.
use vstd::prelude::*;
use crate::assoc::{lemma_seq_inserted, seq_inserted, seq_keys_distinct, seq_lookup, AssocList};
use crate::types::{BlockHeight, Nullifier, TxLocation};

verus! {

/// Maps a nullifier to the block height and transaction index where it was
/// revealed.
pub struct NullifierMap(pub AssocList<Nullifier, TxLocation>);

impl NullifierMap {
    /// No nullifier is recorded twice.
    pub open spec fn wf(&self) -> bool {
        self.0.wf()
    }

    /// An empty map.
    pub fn new() -> (r: Self)
        ensures
            r.wf(),
            r.0.entries@ == Seq::<(Nullifier, TxLocation)>::empty(),
    {
        NullifierMap(AssocList::new())
    }

    /// Records that `nullifier` was revealed by the transaction at position `index`
    /// of block `height`.
    pub fn insert(&mut self, height: BlockHeight, index: u32, nullifier: Nullifier)
        requires
            old(self).wf(),
        ensures
            final(self).wf(),
            final(self).0.entries@ == old(self).0.inserted(nullifier, TxLocation { height, index }),
    {
        self.0.insert(nullifier, TxLocation { height, index });
    }

    /// Where `nullifier` was revealed, if recorded.
    pub fn get(&self, nullifier: &Nullifier) -> (r: Option<&TxLocation>)
        requires
            self.wf(),
        ensures
            match r {
                Some(l) => self.0.lookup(nullifier@) == Some(*l),
                None => self.0.lookup(nullifier@) is None,
            },
    {
        self.0.get(nullifier)
    }
}

/// The map's entries after the given inserts, in order.
pub open spec fn inserted_all(
    s: Seq<(Nullifier, TxLocation)>,
    inserts: Seq<(Nullifier, TxLocation)>,
) -> Seq<(Nullifier, TxLocation)>
    decreases inserts.len(),
{
    if inserts.len() == 0 {
        s
    } else {
        seq_inserted(inserted_all(s, inserts.drop_last()), inserts.last().0, inserts.last().1)
    }
}

/// The location of the last of the inserts under the nullifier with view `k`, if
/// any.
pub open spec fn last_insert(inserts: Seq<(Nullifier, TxLocation)>, k: <Nullifier as View>::V) -> Option<TxLocation>
    decreases inserts.len(),
{
    if inserts.len() == 0 {
        None
    } else if inserts.last().0@ == k {
        Some(inserts.last().1)
    } else {
        last_insert(inserts.drop_last(), k)
    }
}

/// After any number of inserts, a nullifier gives the location of the last insert
/// under it; one never inserted gives what it gave before (nothing, for a map
/// that started empty). No nullifier is then recorded twice.
pub proof fn lemma_lookup_after_inserts(
    s: Seq<(Nullifier, TxLocation)>,
    inserts: Seq<(Nullifier, TxLocation)>,
    k: <Nullifier as View>::V,
)
    requires
        seq_keys_distinct(s),
    ensures
        seq_keys_distinct(inserted_all(s, inserts)),
        seq_lookup(inserted_all(s, inserts), k) == match last_insert(inserts, k) {
            Some(l) => Some(l),
            None => seq_lookup(s, k),
        },
    decreases inserts.len(),
{
    if inserts.len() > 0 {
        lemma_lookup_after_inserts(s, inserts.drop_last(), k);
        lemma_seq_inserted(inserted_all(s, inserts.drop_last()), inserts.last().0, inserts.last().1, k);
    }
}

} // verus!
