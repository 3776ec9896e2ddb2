//! Taking in transparent outputs received by the wallet.
use vstd::prelude::*;
use crate::assoc::{lemma_seq_inserted, seq_inserted, seq_lookup};
use crate::block::BlockTable;
use crate::error::Error;
use crate::scanning::ScanRange;
use crate::transaction::{status_mined_height, tx_partial_put, TransactionEntry};
use crate::transparent::{ReceivedTransparentOutput, WalletTransparentOutput};
use crate::types::{BlockHeight, OutPoint, TxId};
use crate::wallet::{chain_height_of, MemoryWalletDb};
use crate::wallet_write::transparent_account_for;

verus! {

/// The block recorded for the transaction of an output mined at `mined_height`:
/// that height, where the wallet holds the block at it.
pub open spec fn block_of(blocks: BlockTable, mined_height: Option<BlockHeight>) -> Option<BlockHeight> {
    match mined_height {
        Some(h) => if blocks.has(h) { Some(h) } else { None },
        None => None,
    }
}

/// The height up to which an output is known to be unspent: the block before the
/// one that mined the transaction recorded as spending it, where that is known;
/// else the chain height (0 where it is unknown).
pub open spec fn max_observed_unspent(
    spends: Seq<(OutPoint, TxId)>,
    txs: Seq<(TxId, TransactionEntry)>,
    queue: Seq<ScanRange>,
    outpoint: OutPoint,
) -> BlockHeight {
    let spent_height = match seq_lookup(spends, outpoint@) {
        Some(t) => match seq_lookup(txs, t@) {
            Some(e) => status_mined_height(e.tx_status),
            None => None,
        },
        None => None,
    };
    match spent_height {
        Some(h) => if h > 0 { (h - 1) as BlockHeight } else { 0 },
        None => match chain_height_of(queue) {
            Some(c) => c,
            None => 0,
        },
    }
}

impl MemoryWalletDb {
    /// The two wallets agree on everything that taking in a transparent output
    /// does not change.
    pub open spec fn same_but_utxo_tables(&self, other: &Self) -> bool {
        &&& self.network == other.network
        &&& self.accounts == other.accounts
        &&& self.blocks == other.blocks
        &&& self.received_notes == other.received_notes
        &&& self.received_note_spends == other.received_note_spends
        &&& self.nullifiers == other.nullifiers
        &&& self.tx_locator == other.tx_locator
        &&& self.scan_queue == other.scan_queue
        &&& self.sent_notes == other.sent_notes
        &&& self.transparent_spend_map == other.transparent_spend_map
        &&& self.transaction_data_requests == other.transaction_data_requests
        &&& self.sapling_tree_shard_end_heights == other.sapling_tree_shard_end_heights
        &&& self.orchard_tree_shard_end_heights == other.orchard_tree_shard_end_heights
        &&& self.sapling_subtree_roots == other.sapling_subtree_roots
        &&& self.orchard_subtree_roots == other.orchard_subtree_roots
    }

    /// Takes in a transparent output received by the wallet. An output to an
    /// address that belongs to no account (see [`transparent_account_for`]) fails
    /// with `AddressNotRecognized`, changing nothing. Otherwise: the output's
    /// transaction gets partial information (see [`tx_partial_put`]), with the
    /// block at its mined height where the wallet holds it; the output is recorded
    /// under its outpoint with its transaction, the owning account, its address
    /// and its value and script (an output already recorded keeps the height up to
    /// which it is known unspent; a new one takes [`max_observed_unspent`]); and,
    /// where the spend cache holds the pair of the output's transaction and its
    /// outpoint, the outpoint is recorded as spent by that transaction. Gives the
    /// output's position in the table of received outputs.
    pub fn put_received_transparent_utxo(&mut self, output: &WalletTransparentOutput) -> (r: Result<u32, Error>)
        requires
            old(self).wf(),
            old(self).transparent_received_outputs.0.entries@.len() < u32::MAX,
        ensures
            final(self).wf(),
            match transparent_account_for(old(self).accounts.accounts@, output.recipient_address) {
                None => *final(self) == *old(self)
                    && (r matches Err(Error::AddressNotRecognized(a)) && a == output.recipient_address),
                Some(i) => {
                    let txid = output.outpoint.txid;
                    let outs = final(self).transparent_received_outputs.0.entries@;
                    let txs = tx_partial_put(
                        old(self).tx_table.0.entries@,
                        txid,
                        block_of(old(self).blocks, output.mined_height),
                        output.mined_height,
                    );
                    &&& final(self).same_but_utxo_tables(old(self))
                    &&& final(self).tx_table.0.entries@ == txs
                    &&& seq_lookup(outs, output.outpoint@) matches Some(e) && {
                        &&& e.transaction_id == txid
                        &&& e.account_id == old(self).accounts.accounts@[i].account_id
                        &&& e.address == output.recipient_address
                        &&& e.txout.value == output.txout.value
                        &&& e.txout.script@ == output.txout.script@
                        &&& e.max_observed_unspent_height == match seq_lookup(
                            old(self).transparent_received_outputs.0.entries@, output.outpoint@) {
                            Some(o) => o.max_observed_unspent_height,
                            None => Some(max_observed_unspent(
                                old(self).transparent_received_output_spends.0.entries@,
                                txs,
                                old(self).scan_queue@,
                                output.outpoint,
                            )),
                        }
                    }
                    &&& forall|k: (Seq<u8>, u32)| k != output.outpoint@ ==> #[trigger] seq_lookup(outs, k)
                        == seq_lookup(old(self).transparent_received_outputs.0.entries@, k)
                    &&& final(self).transparent_received_output_spends.0.entries@ == if old(
                        self,
                    ).transparent_spend_map.has(txid, output.outpoint) {
                        seq_inserted(old(self).transparent_received_output_spends.0.entries@, output.outpoint, txid)
                    } else {
                        old(self).transparent_received_output_spends.0.entries@
                    }
                    &&& r matches Ok(n) && n < outs.len() && outs[n as int].0@ == output.outpoint@
                },
            },
    {
        let account_id = match self.accounts.find_account_for_transparent_address(&output.recipient_address) {
            Ok(Some(id)) => id,
            _ => return Err(Error::AddressNotRecognized(output.recipient_address)),
        };
        let txid = output.outpoint.txid;
        let block = match output.mined_height {
            Some(h) => match self.blocks.get(h) {
                Some(b) => Some(b.height),
                None => None,
            },
            None => None,
        };
        self.tx_table.put_tx_partial(&txid, &block, output.mined_height);
        let spent_height = match self.transparent_received_output_spends.get(&output.outpoint) {
            Some(t) => match self.tx_table.tx_status(t) {
                Some(crate::types::TransactionStatus::Mined(h)) => Some(h),
                _ => None,
            },
            None => None,
        };
        let max_observed = match spent_height {
            Some(h) => if h > 0 { h - 1 } else { 0 },
            None => match self.chain_height() {
                Some(c) => c,
                None => 0,
            },
        };
        let kept = match self.transparent_received_outputs.get(&output.outpoint) {
            Some(o) => Some(o.max_observed_unspent_height),
            None => None,
        };
        let entry = match kept {
            Some(m) => ReceivedTransparentOutput {
                transaction_id: txid,
                account_id,
                address: output.recipient_address,
                txout: output.txout.duplicate(),
                max_observed_unspent_height: m,
            },
            None => ReceivedTransparentOutput::new(
                txid,
                account_id,
                output.recipient_address,
                output.txout.duplicate(),
                max_observed,
            ),
        };
        let ghost e = entry;
        let ghost outs0 = self.transparent_received_outputs.0.entries@;
        self.transparent_received_outputs.0.insert(output.outpoint, entry);
        proof {
            assert forall|k: (Seq<u8>, u32)| k != output.outpoint@ implies #[trigger] seq_lookup(
                self.transparent_received_outputs.0.entries@, k) == seq_lookup(outs0, k) by {
                lemma_seq_inserted(outs0, output.outpoint, e, k);
            }
            lemma_seq_inserted(outs0, output.outpoint, e, output.outpoint@);
        }
        if self.transparent_spend_map.contains(&txid, &output.outpoint) {
            self.transparent_received_output_spends.insert(output.outpoint, txid);
        }
        match self.transparent_received_outputs.0.find(&output.outpoint) {
            Some(n) => Ok(n as u32),
            None => Ok(0),
        }
    }
}

} // verus!
