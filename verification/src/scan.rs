//! The decisions of scanning cached blocks: where scanning starts, which
//! nullifiers the scanner keeps watching for, and what each scanned block does to
//! the wallet.
use vstd::prelude::*;
use crate::block::{metadata_of, BlockMetadata};
use crate::error::Error;
use crate::external::sapling_activation_height;
use crate::types::Network;
use crate::notes::WalletOutput;
use crate::types::{AccountId, BlockHeight};
use crate::wallet::{metadata_at, MemoryWalletDb};
use crate::wallet_write::{apply_blocks, block_outputs_fit, error_is, scanned_range_of, ScannedBlock, WalletTx};

verus! {

/// The height at which the Sapling upgrade activates on the network.
pub open spec fn sapling_activation(network: Network) -> BlockHeight {
    match network {
        Network::MainNetwork => 419_200u32,
        Network::TestNetwork => 280_000u32,
    }
}

/// The nullifiers not among `spent`, in order.
pub open spec fn not_spent(watched: Seq<(AccountId, [u8; 32])>, spent: Seq<[u8; 32]>) -> Seq<(AccountId, [u8; 32])>
    decreases watched.len(),
{
    if watched.len() == 0 {
        Seq::empty()
    } else {
        let rest = not_spent(watched.drop_last(), spent);
        let e = watched.last();
        if exists|j: int| 0 <= j < spent.len() && (#[trigger] spent[j])@ == e.1@ {
            rest
        } else {
            rest.push(e)
        }
    }
}

/// The Sapling nullifiers the transactions spend, in order.
pub open spec fn spent_sapling_nullifiers(txs: Seq<WalletTx>) -> Seq<[u8; 32]>
    decreases txs.len(),
{
    if txs.len() == 0 {
        Seq::empty()
    } else {
        spent_sapling_nullifiers(txs.drop_last()) + txs.last().sapling_spends@
    }
}

/// The accounts and nullifiers of the outputs that carry a nullifier, in order.
pub open spec fn output_nullifiers(outputs: Seq<WalletOutput>) -> Seq<(AccountId, [u8; 32])>
    decreases outputs.len(),
{
    if outputs.len() == 0 {
        Seq::empty()
    } else {
        let rest = output_nullifiers(outputs.drop_last());
        let o = outputs.last();
        match o.nf {
            Some(nf) => rest.push((o.account_id, nf)),
            None => rest,
        }
    }
}

/// The accounts and nullifiers of the transactions' new Sapling notes, in order.
pub open spec fn new_sapling_nullifiers(txs: Seq<WalletTx>) -> Seq<(AccountId, [u8; 32])>
    decreases txs.len(),
{
    if txs.len() == 0 {
        Seq::empty()
    } else {
        new_sapling_nullifiers(txs.drop_last()) + output_nullifiers(txs.last().sapling_outputs@)
    }
}

/// The nullifiers watched for after a block: those the block does not spend, then
/// those of the block's new Sapling notes.
pub open spec fn watched_after(watched: Seq<(AccountId, [u8; 32])>, b: ScannedBlock) -> Seq<(AccountId, [u8; 32])> {
    not_spent(watched, spent_sapling_nullifiers(b.transactions@)) + new_sapling_nullifiers(b.transactions@)
}

/// The metadata of a scanned block.
pub open spec fn scanned_metadata(b: ScannedBlock) -> BlockMetadata {
    BlockMetadata {
        block_height: b.height,
        block_hash: b.hash,
        sapling_tree_size: Some(b.sapling_final_tree_size),
        orchard_tree_size: Some(b.orchard_final_tree_size),
    }
}

/// Whether `nf` is among `spent`.
fn is_spent(spent: &Vec<[u8; 32]>, nf: &[u8; 32]) -> (r: bool)
    ensures
        r == exists|j: int| 0 <= j < spent@.len() && (#[trigger] spent@[j])@ == nf@,
{
    let mut j: usize = 0;
    while j < spent.len()
        invariant
            j <= spent@.len(),
            forall|k: int| 0 <= k < j ==> (#[trigger] spent@[k])@ != nf@,
        decreases spent@.len() - j,
    {
        if crate::types::bytes_eq(spent[j].as_slice(), nf.as_slice()) {
            return true;
        }
        j = j + 1;
    }
    false
}

/// The Sapling nullifiers the transactions spend, in order.
fn collect_spent(txs: &Vec<WalletTx>) -> (r: Vec<[u8; 32]>)
    ensures
        r@ == spent_sapling_nullifiers(txs@),
{
    let mut r: Vec<[u8; 32]> = Vec::new();
    let mut i: usize = 0;
    while i < txs.len()
        invariant
            i <= txs@.len(),
            r@ == spent_sapling_nullifiers(txs@.take(i as int)),
        decreases txs@.len() - i,
    {
        let ghost before = r@;
        let spends = &txs[i].sapling_spends;
        let mut k: usize = 0;
        while k < spends.len()
            invariant
                k <= spends@.len(),
                r@ == before + spends@.take(k as int),
            decreases spends@.len() - k,
        {
            r.push(spends[k]);
            assert(r@ =~= before + spends@.take(k + 1));
            k = k + 1;
        }
        assert(spends@.take(k as int) =~= spends@);
        assert(txs@.take(i + 1).drop_last() =~= txs@.take(i as int));
        i = i + 1;
    }
    assert(txs@.take(i as int) =~= txs@);
    r
}

/// Updates the nullifiers watched for after a scanned block, as [`watched_after`]
/// says.
pub fn track_block_nullifiers(watched: &mut Vec<(AccountId, [u8; 32])>, b: &ScannedBlock)
    ensures
        final(watched)@ == watched_after(old(watched)@, *b),
{
    let spent = collect_spent(&b.transactions);
    let mut kept: Vec<(AccountId, [u8; 32])> = Vec::new();
    let mut i: usize = 0;
    while i < watched.len()
        invariant
            i <= watched@.len(),
            spent@ == spent_sapling_nullifiers(b.transactions@),
            kept@ == not_spent(watched@.take(i as int), spent@),
        decreases watched@.len() - i,
    {
        assert(watched@.take(i + 1).drop_last() =~= watched@.take(i as int));
        let e = watched[i];
        if !is_spent(&spent, &e.1) {
            kept.push(e);
        }
        i = i + 1;
    }
    assert(watched@.take(i as int) =~= watched@);
    let ghost kept_all = kept@;
    let txs = &b.transactions;
    let mut t: usize = 0;
    while t < txs.len()
        invariant
            t <= txs@.len(),
            kept@ == kept_all + new_sapling_nullifiers(txs@.take(t as int)),
        decreases txs@.len() - t,
    {
        let ghost before = kept@;
        let outs = &txs[t].sapling_outputs;
        let mut k: usize = 0;
        while k < outs.len()
            invariant
                k <= outs@.len(),
                kept@ == before + output_nullifiers(outs@.take(k as int)),
            decreases outs@.len() - k,
        {
            assert(outs@.take(k + 1).drop_last() =~= outs@.take(k as int));
            match outs[k].nf {
                Some(nf) => {
                    kept.push((outs[k].account_id, nf));
                },
                None => {},
            }
            assert(kept@ =~= before + output_nullifiers(outs@.take(k + 1)));
            k = k + 1;
        }
        assert(outs@.take(k as int) =~= outs@);
        assert(txs@.take(t + 1).drop_last() =~= txs@.take(t as int));
        assert(kept@ =~= kept_all + new_sapling_nullifiers(txs@.take(t + 1)));
        t = t + 1;
    }
    assert(txs@.take(t as int) =~= txs@);
    *watched = kept;
}

impl MemoryWalletDb {
    /// Where scanning starts, with the metadata of the block before it: at the
    /// given height, with the stored block below it (if any); else just above the
    /// fully scanned prefix of the chain, with that prefix's last block; else, for
    /// a brand-new wallet, one that holds no block, at the network's Sapling
    /// activation height, with no prior block; else nowhere known.
    pub fn scan_start(&self, from_height: Option<BlockHeight>) -> (r: (Option<BlockHeight>, Option<BlockMetadata>))
        requires
            self.wf(),
            from_height is None ==> (self.spec_block_fully_scanned() matches Some(m) ==> m.block_height < u32::MAX),
        ensures
            r == match from_height {
                Some(h) => (Some(h), if h > 0 { metadata_at(self.blocks.0@, (h - 1) as BlockHeight) } else { None }),
                None => match self.spec_block_fully_scanned() {
                    Some(m) => (Some((m.block_height + 1) as BlockHeight), Some(m)),
                    None => if self.blocks.0@.len() == 0 {
                        (Some(sapling_activation(self.network)), None)
                    } else {
                        (None, None)
                    },
                },
            },
    {
        match from_height {
            Some(h) => (Some(h), if h > 0 { self.block_metadata(h - 1) } else { None }),
            None => match self.block_fully_scanned() {
                Some(m) => (Some(m.block_height + 1), Some(m)),
                None => if self.blocks.0.len() == 0 {
                    (sapling_activation_height(self.network), None)
                } else {
                    (None, None)
                },
            },
        }
    }

    /// What the wallet does with a block the scanner has scanned: the nullifiers
    /// watched for are updated, as [`watched_after`] says, and the block is taken
    /// in, as [`crate::wallet_write::MemoryWalletDb::put_blocks`] says for it
    /// alone. Gives the block's metadata, the prior metadata for the next block.
    pub fn scan_cached_block(&mut self, watched: &mut Vec<(AccountId, [u8; 32])>, b: ScannedBlock) -> (r: Result<BlockMetadata, Error>)
        requires
            old(self).wf(),
            block_outputs_fit(b),
            b.height < u32::MAX,
            b.sapling_commitment_count <= b.sapling_final_tree_size,
            b.orchard_commitment_count <= b.orchard_final_tree_size,
        ensures
            final(self).wf(),
            final(self).same_but_scan_state(old(self)),
            final(watched)@ == watched_after(old(watched)@, b),
            final(self).scan_state() == apply_blocks(old(self).scan_state(), old(self).sent_notes.0.entries@, seq![b]).0,
            match r {
                Ok(m) => apply_blocks(old(self).scan_state(), old(self).sent_notes.0.entries@, seq![b]).1 is None
                    && m == scanned_metadata(b),
                Err(e) => apply_blocks(old(self).scan_state(), old(self).sent_notes.0.entries@, seq![b]).1 is Some
                    && error_is(e, apply_blocks(old(self).scan_state(), old(self).sent_notes.0.entries@, seq![b]).1->0),
            },
    {
        track_block_nullifiers(watched, &b);
        let metadata = BlockMetadata {
            block_height: b.height,
            block_hash: b.hash,
            sapling_tree_size: Some(b.sapling_final_tree_size),
            orchard_tree_size: Some(b.orchard_final_tree_size),
        };
        let mut blocks: Vec<ScannedBlock> = Vec::new();
        blocks.push(b);
        assert(blocks@ =~= seq![b]);
        match self.put_blocks(&blocks) {
            Ok(_) => Ok(metadata),
            Err(e) => Err(e),
        }
    }
}

} // verus!
