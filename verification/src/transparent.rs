//! Transparent outputs received by the wallet, the transactions that spend them,
//! and the cache of which transaction spends which outpoint.
use vstd::prelude::*;
use crate::assoc::AssocList;
use crate::external::{script_recipient_address, spec_script_address};
use crate::types::{AccountId, BlockHeight, OutPoint, TransparentAddress, TxId};

verus! {

/// A transparent output: its value and locking script.
#[derive(Debug)]
pub struct TxOut {
    /// The value, in zatoshis.
    pub value: u64,
    pub script: Vec<u8>,
}

impl TxOut {
    /// A copy of this output.
    pub fn duplicate(&self) -> (r: Self)
        ensures
            r.value == self.value,
            r.script@ == self.script@,
    {
        TxOut { value: self.value, script: self.script.clone() }
    }
}

/// A transparent output that belongs to the wallet.
#[derive(Debug)]
pub struct ReceivedTransparentOutput {
    /// The transaction that created the output.
    pub transaction_id: TxId,
    /// The account that can spend the output.
    pub account_id: AccountId,
    /// The address the output was sent to.
    pub address: TransparentAddress,
    pub txout: TxOut,
    /// The highest height at which the output was known to be unspent.
    pub max_observed_unspent_height: Option<BlockHeight>,
}

/// A transparent output as handed to transaction building: where it is, what it
/// holds, where it was mined and whom it pays.
#[derive(Debug)]
pub struct WalletTransparentOutput {
    pub outpoint: OutPoint,
    pub txout: TxOut,
    pub mined_height: Option<BlockHeight>,
    pub recipient_address: TransparentAddress,
}

impl ReceivedTransparentOutput {
    /// A received output, known to be unspent at `max_observed_unspent_height`.
    pub fn new(
        transaction_id: TxId,
        account_id: AccountId,
        address: TransparentAddress,
        txout: TxOut,
        max_observed_unspent_height: BlockHeight,
    ) -> (r: Self)
        ensures
            r == (ReceivedTransparentOutput {
                transaction_id,
                account_id,
                address,
                txout,
                max_observed_unspent_height: Some(max_observed_unspent_height),
            }),
    {
        ReceivedTransparentOutput {
            transaction_id,
            account_id,
            address,
            txout,
            max_observed_unspent_height: Some(max_observed_unspent_height),
        }
    }

    /// The output at `outpoint` as a spendable wallet output, mined at
    /// `mined_height`; `None` where its script pays to no standard address.
    pub fn to_wallet_transparent_output(&self, outpoint: &OutPoint, mined_height: Option<BlockHeight>) -> (r: Option<
        WalletTransparentOutput,
    >)
        ensures
            match r {
                Some(w) => {
                    &&& spec_script_address(self.txout.script@) == Some(w.recipient_address@)
                    &&& w.outpoint == *outpoint
                    &&& w.txout.value == self.txout.value
                    &&& w.txout.script@ == self.txout.script@
                    &&& w.mined_height == mined_height
                },
                None => spec_script_address(self.txout.script@) is None,
            },
    {
        match script_recipient_address(&self.txout.script) {
            Some(recipient_address) => Some(
                WalletTransparentOutput {
                    outpoint: *outpoint,
                    txout: self.txout.duplicate(),
                    mined_height,
                    recipient_address,
                },
            ),
            None => None,
        }
    }
}

/// The transparent outputs received by the wallet, under their outpoints.
pub struct TransparentReceivedOutputs(pub AssocList<OutPoint, ReceivedTransparentOutput>);

impl TransparentReceivedOutputs {
    /// No outpoint is recorded twice.
    pub open spec fn wf(&self) -> bool {
        self.0.wf()
    }

    /// No outputs.
    pub fn new() -> (r: Self)
        ensures
            r.wf(),
            r.0.entries@ == Seq::<(OutPoint, ReceivedTransparentOutput)>::empty(),
    {
        TransparentReceivedOutputs(AssocList::new())
    }

    /// The output at `outpoint`, if recorded.
    pub fn get(&self, outpoint: &OutPoint) -> (r: Option<&ReceivedTransparentOutput>)
        requires
            self.wf(),
        ensures
            match r {
                Some(o) => self.0.lookup(outpoint@) == Some(*o),
                None => self.0.lookup(outpoint@) is None,
            },
    {
        self.0.get(outpoint)
    }
}

/// Which transaction spends each spent transparent output.
pub struct TransparentReceivedOutputSpends(pub AssocList<OutPoint, TxId>);

impl TransparentReceivedOutputSpends {
    /// No outpoint is recorded twice.
    pub open spec fn wf(&self) -> bool {
        self.0.wf()
    }

    /// No spends.
    pub fn new() -> (r: Self)
        ensures
            r.wf(),
            r.0.entries@ == Seq::<(OutPoint, TxId)>::empty(),
    {
        TransparentReceivedOutputSpends(AssocList::new())
    }

    /// The transaction that spends `outpoint`, if recorded.
    pub fn get(&self, outpoint: &OutPoint) -> (r: Option<&TxId>)
        requires
            self.wf(),
        ensures
            match r {
                Some(t) => self.0.lookup(outpoint@) == Some(*t),
                None => self.0.lookup(outpoint@) is None,
            },
    {
        self.0.get(outpoint)
    }

    /// Records that `txid` spends `outpoint`.
    pub fn insert(&mut self, outpoint: OutPoint, txid: TxId)
        requires
            old(self).wf(),
        ensures
            final(self).wf(),
            final(self).0.entries@ == old(self).0.inserted(outpoint, txid),
    {
        self.0.insert(outpoint, txid);
    }
}

/// Pairs of a transaction and an outpoint its transparent inputs spend. An output
/// may be spent by several transactions, of which at most one is ever mined.
pub struct TransparentSpendCache(pub Vec<(TxId, OutPoint)>);

impl TransparentSpendCache {
    /// No pair is recorded twice.
    pub open spec fn wf(&self) -> bool {
        forall|i: int, j: int| 0 <= i < j < self.0@.len()
            ==> (self.0@[i].0@, self.0@[i].1@) != (self.0@[j].0@, self.0@[j].1@)
    }

    /// Whether the pair is recorded.
    pub open spec fn has(&self, txid: TxId, outpoint: OutPoint) -> bool {
        exists|i: int| 0 <= i < self.0@.len() && #[trigger] self.0@[i].0@ == txid@ && self.0@[i].1@ == outpoint@
    }

    /// No pairs.
    pub fn new() -> (r: Self)
        ensures
            r.wf(),
            r.0@.len() == 0,
    {
        TransparentSpendCache(Vec::new())
    }

    /// Whether `txid` is recorded as spending `outpoint`.
    pub fn contains(&self, txid: &TxId, outpoint: &OutPoint) -> (r: bool)
        ensures
            r == self.has(*txid, *outpoint),
    {
        let mut i: usize = 0;
        while i < self.0.len()
            invariant
                i <= self.0@.len(),
                forall|j: int| 0 <= j < i ==> !(#[trigger] self.0@[j].0@ == txid@ && self.0@[j].1@ == outpoint@),
            decreases self.0@.len() - i,
        {
            if self.0[i].0 == *txid && self.0[i].1 == *outpoint {
                return true;
            }
            i = i + 1;
        }
        false
    }

    /// Records that `txid` spends `outpoint`.
    pub fn insert(&mut self, txid: TxId, outpoint: OutPoint)
        requires
            old(self).wf(),
        ensures
            final(self).wf(),
            final(self).has(txid, outpoint),
            forall|t: TxId, o: OutPoint| (t@ != txid@ || o@ != outpoint@)
                ==> (final(self).has(t, o) == old(self).has(t, o)),
    {
        if !self.contains(&txid, &outpoint) {
            self.0.push((txid, outpoint));
            proof {
                let n = self.0@.len() - 1;
                assert(self.0@[n].0@ == txid@ && self.0@[n].1@ == outpoint@);
                assert forall|t: TxId, o: OutPoint| (t@ != txid@ || o@ != outpoint@)
                    implies (self.has(t, o) == old(self).has(t, o)) by {
                    if self.has(t, o) {
                        let i = choose|i: int| 0 <= i < self.0@.len() && #[trigger] self.0@[i].0@ == t@ && self.0@[i].1@ == o@;
                        assert(i < n);
                        assert(old(self).0@[i] == self.0@[i]);
                    }
                    if old(self).has(t, o) {
                        let i = choose|i: int| 0 <= i < old(self).0@.len() && #[trigger] old(self).0@[i].0@ == t@ && old(self).0@[i].1@ == o@;
                        assert(self.0@[i] == old(self).0@[i]);
                    }
                }
            }
        }
    }
}

} // verus!
