//! The wallet's transactions: what is known of each, and where mined
//! transactions are found in blocks.
use vstd::prelude::*;
use crate::assoc::{seq_inserted, seq_lookup, AssocList};
use crate::error::Error;
use crate::types::{BlockHeight, TransactionStatus, TxId, TxLocation};

verus! {

/// What the wallet knows of a transaction.
#[derive(Clone, Debug)]
pub struct TransactionEntry {
    pub tx_status: TransactionStatus,
    pub block: Option<BlockHeight>,
    pub tx_index: Option<u32>,
    pub expiry_height: Option<BlockHeight>,
    pub raw: Option<Vec<u8>>,
    pub fee: Option<u64>,
    /// The height the transaction was built for, where this wallet built it.
    pub target_height: Option<BlockHeight>,
}

/// The entry for a transaction first seen mined at `height` at position
/// `block_index` of its block.
pub open spec fn entry_from_tx_meta(block_index: usize, height: BlockHeight) -> TransactionEntry {
    TransactionEntry {
        tx_status: TransactionStatus::Mined(height),
        block: Some(height),
        tx_index: Some(block_index as u32),
        expiry_height: None,
        raw: None,
        fee: None,
        target_height: None,
    }
}

/// The mined height of a status, if it is mined.
pub open spec fn status_mined_height(s: TransactionStatus) -> Option<BlockHeight> {
    match s {
        TransactionStatus::Mined(h) => Some(h),
        _ => None,
    }
}

/// The status for an optional mined height.
pub open spec fn status_for(mined_height: Option<BlockHeight>) -> TransactionStatus {
    match mined_height {
        Some(h) => TransactionStatus::Mined(h),
        None => TransactionStatus::NotInMainChain,
    }
}

impl TransactionEntry {
    /// The entry for a transaction first seen mined at `height`, at position
    /// `block_index` of its block.
    pub fn new_from_tx_meta(block_index: usize, height: BlockHeight) -> (r: Self)
        ensures
            r == entry_from_tx_meta(block_index, height),
    {
        TransactionEntry {
            tx_status: TransactionStatus::Mined(height),
            tx_index: Some(block_index as u32),
            block: Some(height),
            expiry_height: None,
            raw: None,
            fee: None,
            target_height: None,
        }
    }

    /// The expiry height, where known.
    pub fn expiry_height(&self) -> (r: Option<BlockHeight>)
        ensures
            r == self.expiry_height,
    {
        self.expiry_height
    }

    /// The status.
    pub fn status(&self) -> (r: TransactionStatus)
        ensures
            r == self.tx_status,
    {
        self.tx_status
    }

    /// The height at which the transaction was mined, if it was.
    pub fn mined_height(&self) -> (r: Option<BlockHeight>)
        ensures
            r == status_mined_height(self.tx_status),
    {
        match self.tx_status {
            TransactionStatus::Mined(h) => Some(h),
            _ => None,
        }
    }

    /// The fee, where known.
    pub fn fee(&self) -> (r: Option<u64>)
        ensures
            r == self.fee,
    {
        self.fee
    }

    /// The raw transaction, where known.
    pub fn raw(&self) -> (r: Option<&Vec<u8>>)
        ensures
            r == match self.raw {
                Some(v) => Some(&v),
                None => None,
            },
    {
        self.raw.as_ref()
    }
}

/// The transactions of the wallet, under their ids.
pub struct TransactionTable(pub AssocList<TxId, TransactionEntry>);

/// The transaction entries after partial information about `txid` comes in (see
/// [`TransactionTable::put_tx_partial`]): a mined transaction is left as it is;
/// otherwise its status becomes mined at `mined_height` (or not in the main chain)
/// and a missing block is filled in with `block`; an unknown transaction gets a new
/// entry.
pub open spec fn tx_partial_put(
    entries: Seq<(TxId, TransactionEntry)>,
    txid: TxId,
    block: Option<BlockHeight>,
    mined_height: Option<BlockHeight>,
) -> Seq<(TxId, TransactionEntry)> {
    match seq_lookup(entries, txid@) {
        Some(e) => if e.tx_status is Mined {
            entries
        } else {
            seq_inserted(
                entries,
                txid,
                TransactionEntry {
                    tx_status: status_for(mined_height),
                    block: if e.block is Some { e.block } else { block },
                    ..e
                },
            )
        },
        None => seq_inserted(
            entries,
            txid,
            TransactionEntry {
                tx_status: status_for(mined_height),
                block,
                tx_index: None,
                expiry_height: None,
                raw: None,
                fee: None,
                target_height: None,
            },
        ),
    }
}

impl TransactionTable {
    /// No transaction is recorded twice.
    pub open spec fn wf(&self) -> bool {
        self.0.wf()
    }

    /// The entry recorded for a transaction id.
    pub open spec fn entry(&self, txid: Seq<u8>) -> Option<TransactionEntry> {
        self.0.lookup(txid)
    }

    /// An empty table.
    pub fn new() -> (r: Self)
        ensures
            r.wf(),
            r.0.entries@ == Seq::<(TxId, TransactionEntry)>::empty(),
    {
        TransactionTable(AssocList::new())
    }

    /// The status of a transaction, or `None` where the transaction is unknown.
    pub fn tx_status(&self, txid: &TxId) -> (r: Option<TransactionStatus>)
        requires
            self.wf(),
        ensures
            r == match self.entry(txid@) {
                Some(e) => Some(e.tx_status),
                None => None,
            },
    {
        match self.0.get(txid) {
            Some(e) => Some(e.tx_status),
            None => None,
        }
    }

    /// The expiry height of a transaction, where known.
    pub fn expiry_height(&self, txid: &TxId) -> (r: Option<BlockHeight>)
        requires
            self.wf(),
        ensures
            r == match self.entry(txid@) {
                Some(e) => e.expiry_height,
                None => None,
            },
    {
        match self.0.get(txid) {
            Some(e) => e.expiry_height,
            None => None,
        }
    }

    /// The entry of a transaction, if it is known.
    pub fn get(&self, txid: &TxId) -> (r: Option<&TransactionEntry>)
        requires
            self.wf(),
        ensures
            match r {
                Some(e) => self.entry(txid@) == Some(*e),
                None => self.entry(txid@) is None,
            },
    {
        self.0.get(txid)
    }

    /// The raw data of a transaction, where known.
    pub fn get_tx_raw(&self, txid: &TxId) -> (r: Option<&Vec<u8>>)
        requires
            self.wf(),
        ensures
            match r {
                Some(v) => self.entry(txid@) is Some && self.entry(txid@)->0.raw == Some(*v),
                None => self.entry(txid@) is None || self.entry(txid@)->0.raw is None,
            },
    {
        match self.0.get(txid) {
            Some(e) => e.raw.as_ref(),
            None => None,
        }
    }

    /// Records that a transaction that concerns the wallet was mined at `height`,
    /// at position `block_index` of its block: a known entry takes the new index
    /// and the mined status, an unknown transaction gets a new entry.
    pub fn put_tx_meta(&mut self, txid: TxId, block_index: usize, height: BlockHeight)
        requires
            old(self).wf(),
        ensures
            final(self).wf(),
            final(self).0.entries@ == old(self).0.inserted(
                txid,
                match old(self).entry(txid@) {
                    Some(e) => TransactionEntry {
                        tx_index: Some(block_index as u32),
                        tx_status: TransactionStatus::Mined(height),
                        ..e
                    },
                    None => entry_from_tx_meta(block_index, height),
                },
            ),
    {
        match self.0.find(&txid) {
            Some(i) => {
                let old_e = self.0.replace_at(i, TransactionEntry::new_from_tx_meta(block_index, height));
                let e = TransactionEntry {
                    tx_index: Some(block_index as u32),
                    tx_status: TransactionStatus::Mined(height),
                    ..old_e
                };
                self.0.replace_at(i, e);
                assert(self.0.entries@ =~= old(self).0.inserted(txid, e));
            },
            None => {
                self.0.insert(txid, TransactionEntry::new_from_tx_meta(block_index, height));
            },
        }
    }

    /// Records partial information about a transaction, from a transparent output it
    /// created: a transaction already known to be mined is left as it is; otherwise
    /// its status becomes mined at `mined_height`, or not in the main chain where no
    /// mined height is given, and a block already recorded is kept: only a missing
    /// one is filled in with the given block.
    pub fn put_tx_partial(&mut self, txid: &TxId, block: &Option<BlockHeight>, mined_height: Option<BlockHeight>)
        requires
            old(self).wf(),
        ensures
            final(self).wf(),
            final(self).0.entries@ == tx_partial_put(old(self).0.entries@, *txid, *block, mined_height),
    {
        let status = match mined_height {
            Some(h) => TransactionStatus::Mined(h),
            None => TransactionStatus::NotInMainChain,
        };
        match self.0.find(txid) {
            Some(i) => {
                if let TransactionStatus::Mined(_) = self.0.entries[i].1.tx_status {
                    return;
                }
                let placeholder = TransactionEntry::new_from_tx_meta(0, 0);
                let old_e = self.0.replace_at(i, placeholder);
                let new_block = match old_e.block {
                    Some(b) => Some(b),
                    None => *block,
                };
                let e = TransactionEntry { tx_status: status, block: new_block, ..old_e };
                self.0.replace_at(i, e);
                assert(self.0.entries@ =~= old(self).0.inserted(*txid, e));
            },
            None => {
                self.0.insert(
                    *txid,
                    TransactionEntry {
                        tx_status: status,
                        block: *block,
                        tx_index: None,
                        expiry_height: None,
                        raw: None,
                        fee: None,
                        target_height: None,
                    },
                );
            },
        }
    }

    /// Records the full data of a transaction: its expiry height, encoding and fee.
    /// A known entry keeps its status, block, index and target height; an unknown
    /// transaction gets a new entry, not in the main chain, with `target_height`.
    pub fn put_tx_data(
        &mut self,
        txid: TxId,
        expiry_height: BlockHeight,
        raw: Vec<u8>,
        fee: Option<u64>,
        target_height: Option<BlockHeight>,
    )
        requires
            old(self).wf(),
        ensures
            final(self).wf(),
            final(self).0.entries@ == old(self).0.inserted(
                txid,
                match old(self).entry(txid@) {
                    Some(e) => TransactionEntry {
                        fee,
                        expiry_height: Some(expiry_height),
                        raw: Some(raw),
                        ..e
                    },
                    None => TransactionEntry {
                        tx_status: TransactionStatus::NotInMainChain,
                        tx_index: None,
                        block: None,
                        expiry_height: Some(expiry_height),
                        raw: Some(raw),
                        fee,
                        target_height,
                    },
                },
            ),
    {
        match self.0.find(&txid) {
            Some(i) => {
                let placeholder = TransactionEntry::new_from_tx_meta(0, 0);
                let old_e = self.0.replace_at(i, placeholder);
                let e = TransactionEntry { fee, expiry_height: Some(expiry_height), raw: Some(raw), ..old_e };
                self.0.replace_at(i, e);
                assert(self.0.entries@ =~= old(self).0.inserted(txid, e));
            },
            None => {
                self.0.insert(
                    txid,
                    TransactionEntry {
                        tx_status: TransactionStatus::NotInMainChain,
                        tx_index: None,
                        block: None,
                        expiry_height: Some(expiry_height),
                        raw: Some(raw),
                        fee,
                        target_height,
                    },
                );
            },
        }
    }

    /// Sets the status of a known transaction; fails with `TransactionNotFound`
    /// where the transaction is unknown.
    pub fn set_transaction_status(&mut self, txid: &TxId, status: TransactionStatus) -> (r: Result<(), Error>)
        requires
            old(self).wf(),
        ensures
            final(self).wf(),
            match old(self).entry(txid@) {
                Some(e) => r is Ok && final(self).0.entries@ == old(self).0.inserted(
                    *txid,
                    TransactionEntry { tx_status: status, ..e },
                ),
                None => final(self).0.entries@ == old(self).0.entries@
                    && (r matches Err(Error::TransactionNotFound(t)) && t == *txid),
            },
    {
        match self.0.find(txid) {
            Some(i) => {
                let placeholder = TransactionEntry::new_from_tx_meta(0, 0);
                let old_e = self.0.replace_at(i, placeholder);
                let e = TransactionEntry { tx_status: status, ..old_e };
                self.0.replace_at(i, e);
                assert(self.0.entries@ =~= old(self).0.inserted(*txid, e));
                Ok(())
            },
            None => Err(Error::TransactionNotFound(*txid)),
        }
    }
}

/// Where mined transactions of interest are found, by block height and index.
pub struct TxLocatorMap(pub AssocList<TxLocation, TxId>);

impl TxLocatorMap {
    /// No location is recorded twice.
    pub open spec fn wf(&self) -> bool {
        self.0.wf()
    }

    /// An empty map.
    pub fn new() -> (r: Self)
        ensures
            r.wf(),
            r.0.entries@ == Seq::<(TxLocation, TxId)>::empty(),
    {
        TxLocatorMap(AssocList::new())
    }

    /// Records that `txid` is the transaction at position `index` of block `height`.
    pub fn insert(&mut self, height: BlockHeight, index: u32, txid: TxId)
        requires
            old(self).wf(),
        ensures
            final(self).wf(),
            final(self).0.entries@ == old(self).0.inserted(TxLocation { height, index }, txid),
    {
        self.0.insert(TxLocation { height, index }, txid);
    }

    /// The transaction at position `index` of block `height`, if recorded.
    pub fn get(&self, height: BlockHeight, index: u32) -> (r: Option<&TxId>)
        requires
            self.wf(),
        ensures
            match r {
                Some(t) => self.0.lookup((height, index)) == Some(*t),
                None => self.0.lookup((height, index)) is None,
            },
    {
        self.0.get(&TxLocation { height, index })
    }
}

} // verus!
