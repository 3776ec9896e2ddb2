//! How the wallet takes in scanned blocks: the notes they bring, the spends they
//! reveal, where nullifiers and transactions were found, and the blocks
//! themselves.
use vstd::prelude::*;
use crate::assoc::{lemma_seq_inserted, seq_inserted, seq_lookup};
use crate::block::{blocks_inserted, BlockView, MemoryWalletBlock};
use crate::error::Error;
use crate::notes::{
    empty_memo_value, first_with_nullifier, has_nullifier, notes_have, notes_upserted, received_from_output, ReceivedNote,
    WalletOutput,
};
use crate::notes::{lemma_empty_memo_unique, note_protocol};
use crate::sent::{
    recipient_pool, received_from_sent, sent_output_key, sent_output_recordable, sent_output_record, Recipient,
    SentNote, SentNoteId, SentTransaction, SentTransactionOutput,
};
use crate::transaction::{entry_from_tx_meta, TransactionEntry};
use crate::types::{AccountId, BlockHeight, NoteId, Nullifier, PoolType, Scope, ShieldedProtocol, TransactionStatus, TxId, TxLocation};
use crate::account::{AccountBirthday, AccountSource, AddressEntry, DIVERSIFIER_INDEX_LIMIT};
use crate::assoc::{seq_has, seq_keys_distinct};
use crate::external::sapling_activation_height;
use crate::proto::AccountPurpose;
use crate::scanning::{chain_tip_scan_ranges, chain_tip_update, chain_tip_update_defined, ScanRange};
use crate::wallet::{memo_of, wallet_birthday, MemoryWalletDb};
use crate::account::{first_account_with_ephemeral, first_account_with_legacy, first_account_with_receiver, Account};
use crate::transparent::WalletTransparentOutput;

verus! {

/// A transaction of a scanned block that involves the wallet.
#[derive(Debug)]
pub struct WalletTx {
    pub txid: TxId,
    /// The position of the transaction in its block.
    pub block_index: usize,
    /// The nullifiers of the wallet's Sapling notes that the transaction spends.
    pub sapling_spends: Vec<[u8; 32]>,
    /// The nullifiers of the wallet's Orchard notes that the transaction spends.
    pub orchard_spends: Vec<[u8; 32]>,
    /// The Sapling outputs the wallet can decrypt.
    pub sapling_outputs: Vec<WalletOutput>,
    /// The Orchard outputs the wallet can decrypt.
    pub orchard_outputs: Vec<WalletOutput>,
}

/// A block as the scanner hands it to the wallet.
#[derive(Debug)]
pub struct ScannedBlock {
    pub height: BlockHeight,
    pub hash: [u8; 32],
    pub block_time: u32,
    /// The size of the Sapling note commitment tree at the end of the block.
    pub sapling_final_tree_size: u32,
    /// The number of Sapling note commitments the block adds.
    pub sapling_commitment_count: u32,
    /// The size of the Orchard note commitment tree at the end of the block.
    pub orchard_final_tree_size: u32,
    /// The number of Orchard note commitments the block adds.
    pub orchard_commitment_count: u32,
    pub transactions: Vec<WalletTx>,
    /// For each transaction of the block: its id, its position in the block and the
    /// Sapling nullifiers it reveals.
    pub sapling_nullifier_map: Vec<(TxId, u16, Vec<[u8; 32]>)>,
    /// For each transaction of the block: its id, its position in the block and the
    /// Orchard nullifiers it reveals.
    pub orchard_nullifier_map: Vec<(TxId, u16, Vec<[u8; 32]>)>,
}

/// The tables that scanning changes.
#[verifier::ext_equal]
pub struct ScanState {
    pub notes: Seq<ReceivedNote>,
    pub spends: Seq<(NoteId, TxId)>,
    pub nullifiers: Seq<(Nullifier, TxLocation)>,
    pub locator: Seq<(TxLocation, TxId)>,
    pub txs: Seq<(TxId, TransactionEntry)>,
    pub blocks: Seq<BlockView>,
}

/// Why taking in blocks stopped.
#[derive(Clone, Copy, Debug, PartialEq, Eq, Structural)]
pub enum Failure {
    /// A spent nullifier belongs to no note of the wallet.
    NoteNotFound,
    /// A transaction position was already recorded for another transaction.
    ConflictingTxLocator,
    /// A block does not follow the one before it.
    NonSequentialBlocks,
}

/// The nullifier of protocol `p` with the given bytes.
pub open spec fn nullifier_of(p: ShieldedProtocol, b: [u8; 32]) -> Nullifier {
    match p {
        ShieldedProtocol::Sapling => Nullifier::Sapling(b),
        ShieldedProtocol::Orchard => Nullifier::Orchard(b),
    }
}

/// The nullifier of protocol `p` with the given bytes.
pub fn make_nullifier(p: ShieldedProtocol, b: [u8; 32]) -> (r: Nullifier)
    ensures
        r == nullifier_of(p, b),
{
    match p {
        ShieldedProtocol::Sapling => Nullifier::Sapling(b),
        ShieldedProtocol::Orchard => Nullifier::Orchard(b),
    }
}

/// The state after the note with nullifier `nf` of protocol `p` is recorded as
/// spent by `txid`: the first note that carries the nullifier is marked; `None`
/// where no note carries it.
pub open spec fn mark_spent(st: ScanState, p: ShieldedProtocol, nf: [u8; 32], txid: TxId) -> Option<ScanState> {
    match first_with_nullifier(st.notes, nullifier_of(p, nf)@) {
        Some(i) => Some(ScanState { spends: seq_inserted(st.spends, st.notes[i].note_id, txid), ..st }),
        None => None,
    }
}

/// The failure an error stands for.
pub open spec fn error_is(e: Error, f: Failure) -> bool {
    match f {
        Failure::NoteNotFound => e is NoteNotFound,
        Failure::ConflictingTxLocator => e is ConflictingTxLocator,
        Failure::NonSequentialBlocks => e is NonSequentialBlocks,
    }
}

/// The result matches the failure, if any.
pub open spec fn result_matches(r: Result<(), Error>, f: Option<Failure>) -> bool {
    match r {
        Ok(()) => f is None,
        Err(e) => f is Some && error_is(e, f->0),
    }
}

/// The state after the notes with the nullifiers `nfs` of protocol `p` are
/// recorded as spent by `txid`, in order, with the failure that stopped it, if any.
pub open spec fn mark_spends(st: ScanState, p: ShieldedProtocol, nfs: Seq<[u8; 32]>, txid: TxId) -> (ScanState, Option<Failure>)
    decreases nfs.len(),
{
    if nfs.len() == 0 {
        (st, None)
    } else {
        let (s, f) = mark_spends(st, p, nfs.drop_last(), txid);
        if f is Some {
            (s, f)
        } else {
            match mark_spent(s, p, nfs.last(), txid) {
                Some(s2) => (s2, None),
                None => (s, Some(Failure::NoteNotFound)),
            }
        }
    }
}

/// The id of the note that output `o` of transaction `txid` creates in protocol `p`.
pub open spec fn output_note_id(txid: TxId, p: ShieldedProtocol, o: WalletOutput) -> NoteId {
    NoteId { txid, protocol: p, output_index: o.index as u16 }
}

/// The nullifier of a scanned output, where it is known.
pub open spec fn output_nullifier(p: ShieldedProtocol, o: WalletOutput) -> Option<Nullifier> {
    match o.nf {
        Some(b) => Some(nullifier_of(p, b)),
        None => None,
    }
}

/// The transaction that spent an output, found from where its nullifier was seen
/// on chain, where it was.
pub open spec fn spent_in(st: ScanState, p: ShieldedProtocol, o: WalletOutput) -> Option<TxId> {
    match output_nullifier(p, o) {
        Some(nf) => match seq_lookup(st.nullifiers, nf@) {
            Some(loc) => seq_lookup(st.locator, loc@),
            None => None,
        },
        None => None,
    }
}

/// The state after output `o` of transaction `txid` is received in protocol `p`:
/// the note is upserted, with the empty memo, and recorded as spent where its
/// nullifier was already seen in a transaction at a known position; with the memo
/// the wallet held for the note before, if any.
pub open spec fn receive_output(
    st: ScanState,
    sent: Seq<(SentNoteId, SentNote)>,
    p: ShieldedProtocol,
    txid: TxId,
    o: WalletOutput,
) -> (ScanState, Option<[u8; 512]>) {
    let id = output_note_id(txid, p, o);
    let note = received_from_output(id, o, output_nullifier(p, o), empty_memo_value());
    let spends = match spent_in(st, p, o) {
        Some(t) => seq_inserted(st.spends, id, t),
        None => st.spends,
    };
    (ScanState { notes: notes_upserted(st.notes, note), spends, ..st }, memo_of(st.notes, sent, id))
}

/// The state after the outputs are received in order, with the memos found for
/// them appended to `memos`.
pub open spec fn receive_outputs(
    st: ScanState,
    sent: Seq<(SentNoteId, SentNote)>,
    p: ShieldedProtocol,
    txid: TxId,
    outputs: Seq<WalletOutput>,
    memos: Seq<(NoteId, [u8; 512])>,
) -> (ScanState, Seq<(NoteId, [u8; 512])>)
    decreases outputs.len(),
{
    if outputs.len() == 0 {
        (st, memos)
    } else {
        let (s, m) = receive_outputs(st, sent, p, txid, outputs.drop_last(), memos);
        let o = outputs.last();
        let (s2, found) = receive_output(s, sent, p, txid, o);
        match found {
            Some(memo) => (s2, m.push((output_note_id(txid, p, o), memo))),
            None => (s2, m),
        }
    }
}

/// The state after a transaction of a scanned block is taken in: its Sapling
/// spends, then its Orchard spends, then its Sapling outputs, then its Orchard
/// outputs; with the memos found so far and the failure that stopped it, if any.
pub open spec fn apply_tx(
    st: ScanState,
    sent: Seq<(SentNoteId, SentNote)>,
    tx: WalletTx,
    memos: Seq<(NoteId, [u8; 512])>,
) -> (ScanState, Seq<(NoteId, [u8; 512])>, Option<Failure>) {
    let (s1, f1) = mark_spends(st, ShieldedProtocol::Sapling, tx.sapling_spends@, tx.txid);
    if f1 is Some {
        (s1, memos, f1)
    } else {
        let (s2, f2) = mark_spends(s1, ShieldedProtocol::Orchard, tx.orchard_spends@, tx.txid);
        if f2 is Some {
            (s2, memos, f2)
        } else {
            let (s3, m3) = receive_outputs(s2, sent, ShieldedProtocol::Sapling, tx.txid, tx.sapling_outputs@, memos);
            let (s4, m4) = receive_outputs(s3, sent, ShieldedProtocol::Orchard, tx.txid, tx.orchard_outputs@, m3);
            (s4, m4, None)
        }
    }
}

/// The state after the transactions are taken in, in order.
pub open spec fn apply_txs(
    st: ScanState,
    sent: Seq<(SentNoteId, SentNote)>,
    txs: Seq<WalletTx>,
    memos: Seq<(NoteId, [u8; 512])>,
) -> (ScanState, Seq<(NoteId, [u8; 512])>, Option<Failure>)
    decreases txs.len(),
{
    if txs.len() == 0 {
        (st, memos, None)
    } else {
        let (s, m, f) = apply_txs(st, sent, txs.drop_last(), memos);
        if f is Some {
            (s, m, f)
        } else {
            apply_tx(s, sent, txs.last(), m)
        }
    }
}

/// The nullifiers after each of `nfs`, of protocol `p`, is recorded at `loc`.
pub open spec fn insert_nullifiers(
    nullifiers: Seq<(Nullifier, TxLocation)>,
    loc: TxLocation,
    p: ShieldedProtocol,
    nfs: Seq<[u8; 32]>,
) -> Seq<(Nullifier, TxLocation)>
    decreases nfs.len(),
{
    if nfs.len() == 0 {
        nullifiers
    } else {
        seq_inserted(insert_nullifiers(nullifiers, loc, p, nfs.drop_last()), nullifier_of(p, nfs.last()), loc)
    }
}

/// The state after a block's map of revealed nullifiers is recorded: for each
/// transaction, its position in block `height` is recorded with its nullifiers;
/// a position already recorded for the same transaction is left as it is, with
/// its nullifiers; one recorded for another transaction fails.
pub open spec fn insert_nullifier_entries(
    st: ScanState,
    height: BlockHeight,
    p: ShieldedProtocol,
    entries: Seq<(TxId, u16, Vec<[u8; 32]>)>,
) -> (ScanState, Option<Failure>)
    decreases entries.len(),
{
    if entries.len() == 0 {
        (st, None)
    } else {
        let (s, f) = insert_nullifier_entries(st, height, p, entries.drop_last());
        if f is Some {
            (s, f)
        } else {
            let (txid, index, nfs) = entries.last();
            let loc = TxLocation { height, index: index as u32 };
            match seq_lookup(s.locator, loc@) {
                None => (ScanState {
                    locator: seq_inserted(s.locator, loc, txid),
                    nullifiers: insert_nullifiers(s.nullifiers, loc, p, nfs@),
                    ..s
                }, None),
                Some(t) => if t@ == txid@ { (s, None) } else { (s, Some(Failure::ConflictingTxLocator)) },
            }
        }
    }
}

/// The transaction table after each of the transactions is recorded as mined in
/// block `height`, at its position.
pub open spec fn put_tx_metas(txs: Seq<(TxId, TransactionEntry)>, block_txs: Seq<WalletTx>, height: BlockHeight) -> Seq<(TxId, TransactionEntry)>
    decreases block_txs.len(),
{
    if block_txs.len() == 0 {
        txs
    } else {
        let t = put_tx_metas(txs, block_txs.drop_last(), height);
        let tx = block_txs.last();
        seq_inserted(t, tx.txid, match seq_lookup(t, tx.txid@) {
            Some(e) => TransactionEntry {
                tx_index: Some(tx.block_index as u32),
                tx_status: TransactionStatus::Mined(height),
                ..e
            },
            None => entry_from_tx_meta(tx.block_index, height),
        })
    }
}

/// The block the wallet stores for a scanned block, with the memos found in it.
pub open spec fn stored_block(b: ScannedBlock, memos: Seq<(NoteId, [u8; 512])>) -> BlockView {
    BlockView {
        height: b.height,
        hash: b.hash,
        block_time: b.block_time,
        transactions: b.transactions@.map_values(|t: WalletTx| t.txid),
        memos,
        sapling_commitment_tree_size: Some(b.sapling_final_tree_size),
        sapling_output_count: Some(b.sapling_commitment_count),
        orchard_commitment_tree_size: Some(b.orchard_final_tree_size),
        orchard_action_count: Some(b.orchard_commitment_count),
    }
}

/// The state after a scanned block is taken in: its transactions, then its
/// Sapling and Orchard nullifier maps, then its transactions are recorded as
/// mined and the block is stored.
pub open spec fn apply_block(st: ScanState, sent: Seq<(SentNoteId, SentNote)>, b: ScannedBlock) -> (ScanState, Option<Failure>) {
    let (s1, memos, f1) = apply_txs(st, sent, b.transactions@, Seq::empty());
    if f1 is Some {
        (s1, f1)
    } else {
        let (s2, f2) = insert_nullifier_entries(s1, b.height, ShieldedProtocol::Sapling, b.sapling_nullifier_map@);
        if f2 is Some {
            (s2, f2)
        } else {
            let (s3, f3) = insert_nullifier_entries(s2, b.height, ShieldedProtocol::Orchard, b.orchard_nullifier_map@);
            if f3 is Some {
                (s3, f3)
            } else {
                (ScanState {
                    txs: put_tx_metas(s3.txs, b.transactions@, b.height),
                    blocks: blocks_inserted(s3.blocks, stored_block(b, memos)),
                    ..s3
                }, None)
            }
        }
    }
}

/// The state after the scanned blocks are taken in, in order; each block must
/// follow the one before it.
pub open spec fn apply_blocks(st: ScanState, sent: Seq<(SentNoteId, SentNote)>, blocks: Seq<ScannedBlock>) -> (ScanState, Option<Failure>)
    decreases blocks.len(),
{
    if blocks.len() == 0 {
        (st, None)
    } else {
        let (s, f) = apply_blocks(st, sent, blocks.drop_last());
        if f is Some {
            (s, f)
        } else if blocks.len() >= 2 && blocks.last().height != blocks[blocks.len() - 2].height + 1 {
            (s, Some(Failure::NonSequentialBlocks))
        } else {
            apply_block(s, sent, blocks.last())
        }
    }
}

/// Every output of the transaction has an index that fits in 16 bits.
pub open spec fn tx_outputs_fit(tx: WalletTx) -> bool {
    &&& forall|i: int| 0 <= i < tx.sapling_outputs@.len() ==> (#[trigger] tx.sapling_outputs@[i]).index <= u16::MAX
    &&& forall|i: int| 0 <= i < tx.orchard_outputs@.len() ==> (#[trigger] tx.orchard_outputs@[i]).index <= u16::MAX
}

/// Every output of the block has an index that fits in 16 bits.
pub open spec fn block_outputs_fit(b: ScannedBlock) -> bool {
    forall|i: int| 0 <= i < b.transactions@.len() ==> tx_outputs_fit(#[trigger] b.transactions@[i])
}

/// The note commitment tree positions of a transaction's outputs: its Sapling
/// outputs, then its Orchard outputs.
pub open spec fn tx_note_positions(tx: WalletTx) -> Seq<(ShieldedProtocol, u64)> {
    tx.sapling_outputs@.map_values(|o: WalletOutput| (ShieldedProtocol::Sapling, o.note_commitment_tree_position))
        + tx.orchard_outputs@.map_values(|o: WalletOutput| (ShieldedProtocol::Orchard, o.note_commitment_tree_position))
}

/// The note commitment tree positions of the outputs of the transactions, in order.
pub open spec fn txs_note_positions(txs: Seq<WalletTx>) -> Seq<(ShieldedProtocol, u64)>
    decreases txs.len(),
{
    if txs.len() == 0 {
        Seq::empty()
    } else {
        txs_note_positions(txs.drop_last()) + tx_note_positions(txs.last())
    }
}

/// The note commitment tree positions of the outputs of the blocks, in order.
pub open spec fn blocks_note_positions(blocks: Seq<ScannedBlock>) -> Seq<(ShieldedProtocol, u64)>
    decreases blocks.len(),
{
    if blocks.len() == 0 {
        Seq::empty()
    } else {
        blocks_note_positions(blocks.drop_last()) + txs_note_positions(blocks.last().transactions@)
    }
}

/// The blocks taken in, and where their note commitments start in each tree.
#[derive(Clone, Copy, Debug, PartialEq, Eq, Structural)]
pub struct ScannedRange {
    /// The first block taken in.
    pub start: BlockHeight,
    /// The block after the last one taken in.
    pub end: BlockHeight,
    /// The position in the Sapling tree of the first block's first note commitment.
    pub sapling_start_position: u64,
    /// The position in the Orchard tree of the first block's first note commitment.
    pub orchard_start_position: u64,
}

/// What taking in blocks leaves to the note commitment trees and the scan queue:
/// the range taken in, and the tree positions of the wallet's new notes.
#[derive(Debug)]
pub struct PutBlocksOutcome {
    pub range: Option<ScannedRange>,
    pub note_positions: Vec<(ShieldedProtocol, u64)>,
}

/// The range the blocks cover, with where the first block's note commitments
/// start in each tree; `None` for no blocks.
pub open spec fn scanned_range_of(blocks: Seq<ScannedBlock>) -> Option<ScannedRange> {
    if blocks.len() == 0 {
        None
    } else {
        Some(ScannedRange {
            start: blocks[0].height,
            end: (blocks.last().height + 1) as BlockHeight,
            sapling_start_position: (blocks[0].sapling_final_tree_size - blocks[0].sapling_commitment_count) as u64,
            orchard_start_position: (blocks[0].orchard_final_tree_size - blocks[0].orchard_commitment_count) as u64,
        })
    }
}

/// Where the first block's note commitments start: in each tree, the position
/// before the block's own commitments, that is the tree's size at the end of the
/// block less the number of commitments the block adds to that tree. The range
/// runs from the first block to the one after the last.
pub proof fn lemma_scanned_range_positions(blocks: Seq<ScannedBlock>)
    requires
        blocks.len() > 0,
        blocks[0].sapling_commitment_count <= blocks[0].sapling_final_tree_size,
        blocks[0].orchard_commitment_count <= blocks[0].orchard_final_tree_size,
        blocks.last().height < u32::MAX,
    ensures
        scanned_range_of(blocks) matches Some(r) && {
            &&& r.start == blocks[0].height
            &&& r.end == blocks.last().height + 1
            &&& r.sapling_start_position + blocks[0].sapling_commitment_count == blocks[0].sapling_final_tree_size
            &&& r.orchard_start_position + blocks[0].orchard_commitment_count == blocks[0].orchard_final_tree_size
        },
{
}

/// The transaction table after the full data of a transaction is recorded; see
/// [`crate::transaction::TransactionTable::put_tx_data`].
pub open spec fn tx_data_put(
    txs: Seq<(TxId, TransactionEntry)>,
    txid: TxId,
    expiry_height: BlockHeight,
    raw: Vec<u8>,
    fee: Option<u64>,
    target_height: Option<BlockHeight>,
) -> Seq<(TxId, TransactionEntry)> {
    seq_inserted(txs, txid, match seq_lookup(txs, txid@) {
        Some(e) => TransactionEntry { fee, expiry_height: Some(expiry_height), raw: Some(raw), ..e },
        None => TransactionEntry {
            tx_status: TransactionStatus::NotInMainChain,
            tx_index: None,
            block: None,
            expiry_height: Some(expiry_height),
            raw: Some(raw),
            fee,
            target_height,
        },
    })
}

/// The state after the notes with the nullifiers `nfs` of protocol `p` are
/// recorded as spent by `txid`, skipping the nullifiers that no note carries.
pub open spec fn mark_spends_where_known(st: ScanState, p: ShieldedProtocol, nfs: Seq<[u8; 32]>, txid: TxId) -> ScanState
    decreases nfs.len(),
{
    if nfs.len() == 0 {
        st
    } else {
        let s = mark_spends_where_known(st, p, nfs.drop_last(), txid);
        match mark_spent(s, p, nfs.last(), txid) {
            Some(s2) => s2,
            None => s,
        }
    }
}

/// The memo recorded for a sent output: its own, or the empty memo for a
/// transparent output.
pub open spec fn sent_memo(o: SentTransactionOutput) -> [u8; 512] {
    match recipient_pool(o.recipient) {
        PoolType::Transparent => empty_memo_value(),
        PoolType::Shielded(_) => o.memo->0,
    }
}

/// The note an output to an account of the wallet stands for: change, of internal
/// scope, with no nullifier or tree position known yet.
pub open spec fn note_from_sent(txid: TxId, o: SentTransactionOutput) -> ReceivedNote {
    let receiving_account = o.recipient->InternalAccount_receiving_account;
    let note = o.recipient->InternalAccount_note;
    ReceivedNote {
        note_id: NoteId { txid, protocol: note_protocol(note), output_index: o.output_index as u16 },
        txid,
        output_index: o.output_index as u32,
        account_id: receiving_account,
        note,
        nf: None,
        is_change: true,
        memo: o.memo->0,
        commitment_tree_position: None,
        recipient_key_scope: Some(Scope::Internal),
    }
}

/// The state and sent outputs after an output of a sent transaction is recorded:
/// the sent output under its key, and, for an output to an account of the
/// wallet, the note it stands for.
pub open spec fn store_sent_output(
    st: ScanState,
    sent: Seq<(SentNoteId, SentNote)>,
    txid: TxId,
    from_account_id: AccountId,
    o: SentTransactionOutput,
) -> (ScanState, Seq<(SentNoteId, SentNote)>) {
    let sent2 = seq_inserted(
        sent,
        sent_output_key(txid, o),
        SentNote { from_account_id, to: o.recipient, value: o.value, memo: sent_memo(o) },
    );
    match o.recipient {
        Recipient::InternalAccount { .. } => (ScanState { notes: notes_upserted(st.notes, note_from_sent(txid, o)), ..st }, sent2),
        _ => (st, sent2),
    }
}

/// The state and sent outputs after the outputs are recorded, in order.
pub open spec fn store_sent_outputs(
    st: ScanState,
    sent: Seq<(SentNoteId, SentNote)>,
    txid: TxId,
    from_account_id: AccountId,
    outputs: Seq<SentTransactionOutput>,
) -> (ScanState, Seq<(SentNoteId, SentNote)>)
    decreases outputs.len(),
{
    if outputs.len() == 0 {
        (st, sent)
    } else {
        let (s, t) = store_sent_outputs(st, sent, txid, from_account_id, outputs.drop_last());
        store_sent_output(s, t, txid, from_account_id, outputs.last())
    }
}

/// The state and sent outputs after a transaction built by the wallet is stored:
/// its data is recorded, the Sapling notes it spends are marked spent (failing
/// where one is unknown), then those of its Orchard actions that are the wallet's
/// notes, then its outputs are recorded.
pub open spec fn store_sent_tx(
    st: ScanState,
    sent: Seq<(SentNoteId, SentNote)>,
    tx: SentTransaction,
) -> (ScanState, Seq<(SentNoteId, SentNote)>, Option<Failure>) {
    let s1 = ScanState {
        txs: tx_data_put(st.txs, tx.txid, tx.expiry_height, tx.raw, Some(tx.fee), Some(tx.target_height)),
        ..st
    };
    let (s2, f2) = mark_spends(s1, ShieldedProtocol::Sapling, tx.sapling_spend_nullifiers@, tx.txid);
    if f2 is Some {
        (s2, sent, f2)
    } else {
        let s3 = if tx.has_orchard_bundle {
            mark_spends_where_known(s2, ShieldedProtocol::Orchard, tx.orchard_action_nullifiers@, tx.txid)
        } else {
            s2
        };
        let (s4, sent4) = store_sent_outputs(s3, sent, tx.txid, tx.account_id, tx.outputs@);
        (s4, sent4, None)
    }
}

/// The state and sent outputs after the transactions are stored, in order.
pub open spec fn store_sent_txs(
    st: ScanState,
    sent: Seq<(SentNoteId, SentNote)>,
    txs: Seq<SentTransaction>,
) -> (ScanState, Seq<(SentNoteId, SentNote)>, Option<Failure>)
    decreases txs.len(),
{
    if txs.len() == 0 {
        (st, sent, None)
    } else {
        let (s, t, f) = store_sent_txs(st, sent, txs.drop_last());
        if f is Some {
            (s, t, f)
        } else {
            store_sent_tx(s, t, txs.last())
        }
    }
}

/// The transaction spends no transparent outputs, and each of its outputs can be
/// recorded.
pub open spec fn sent_tx_storable(tx: SentTransaction) -> bool {
    &&& tx.utxos_spent@.len() == 0
    &&& forall|i: int| 0 <= i < tx.outputs@.len() ==> sent_output_recordable(#[trigger] tx.outputs@[i])
}

/// The transaction table after a transaction learnt of in full is recorded: its
/// data, and, where given, its mined height as its status.
pub open spec fn decrypted_tx_put(
    txs: Seq<(TxId, TransactionEntry)>,
    txid: TxId,
    expiry_height: BlockHeight,
    raw: Vec<u8>,
    mined_height: Option<BlockHeight>,
) -> Seq<(TxId, TransactionEntry)> {
    let t = tx_data_put(txs, txid, expiry_height, raw, None, None);
    match mined_height {
        Some(h) => seq_inserted(t, txid, TransactionEntry { tx_status: TransactionStatus::Mined(h), ..seq_lookup(t, txid@)->0 }),
        None => t,
    }
}

/// The shard end heights after those of the shards from `start_index` on are
/// recorded, in order.
pub open spec fn shard_ends_put(ends: Seq<(u64, BlockHeight)>, start_index: u64, heights: Seq<BlockHeight>) -> Seq<(u64, BlockHeight)>
    decreases heights.len(),
{
    if heights.len() == 0 {
        ends
    } else {
        seq_inserted(
            shard_ends_put(ends, start_index, heights.drop_last()),
            (start_index + heights.len() - 1) as u64,
            heights.last(),
        )
    }
}

/// The recorded shard root hashes after the roots of the shards from
/// `start_index` on are recorded, in order.
pub open spec fn shard_roots_put(roots: Seq<(u64, [u8; 32])>, start_index: u64, hashes: Seq<[u8; 32]>) -> Seq<(u64, [u8; 32])>
    decreases hashes.len(),
{
    if hashes.len() == 0 {
        roots
    } else {
        seq_inserted(
            shard_roots_put(roots, start_index, hashes.drop_last()),
            (start_index + hashes.len() - 1) as u64,
            hashes.last(),
        )
    }
}

/// After the roots of the shards from `start_index` on are recorded, the shard
/// at `start_index + i` holds the `i`-th root hash; every other shard holds what
/// it held before.
pub proof fn lemma_shard_roots_read_back(roots: Seq<(u64, [u8; 32])>, start_index: u64, hashes: Seq<[u8; 32]>, k: u64)
    requires
        seq_keys_distinct(roots),
        start_index + hashes.len() <= u64::MAX,
    ensures
        seq_keys_distinct(shard_roots_put(roots, start_index, hashes)),
        start_index <= k < start_index + hashes.len()
            ==> seq_lookup(shard_roots_put(roots, start_index, hashes), k) == Some(hashes[k - start_index]),
        !(start_index <= k < start_index + hashes.len())
            ==> seq_lookup(shard_roots_put(roots, start_index, hashes), k) == seq_lookup(roots, k),
    decreases hashes.len(),
{
    if hashes.len() > 0 {
        let prev = hashes.drop_last();
        lemma_shard_roots_read_back(roots, start_index, prev, k);
        let last = (start_index + hashes.len() - 1) as u64;
        lemma_seq_inserted(shard_roots_put(roots, start_index, prev), last, hashes.last(), k);
        if k != last && start_index <= k < start_index + hashes.len() {
            assert(prev[k - start_index] == hashes[k - start_index]);
        }
    }
}

/// After the end heights of the shards from `start_index` on are recorded, the
/// shard at `start_index + i` ends at the `i`-th height; every other shard keeps
/// the end height it had.
pub proof fn lemma_shard_ends_read_back(ends: Seq<(u64, BlockHeight)>, start_index: u64, heights: Seq<BlockHeight>, k: u64)
    requires
        seq_keys_distinct(ends),
        start_index + heights.len() <= u64::MAX,
    ensures
        seq_keys_distinct(shard_ends_put(ends, start_index, heights)),
        start_index <= k < start_index + heights.len()
            ==> seq_lookup(shard_ends_put(ends, start_index, heights), k) == Some(heights[k - start_index]),
        !(start_index <= k < start_index + heights.len())
            ==> seq_lookup(shard_ends_put(ends, start_index, heights), k) == seq_lookup(ends, k),
    decreases heights.len(),
{
    if heights.len() > 0 {
        let prev = heights.drop_last();
        lemma_shard_ends_read_back(ends, start_index, prev, k);
        let last = (start_index + heights.len() - 1) as u64;
        lemma_seq_inserted(shard_ends_put(ends, start_index, prev), last, heights.last(), k);
        if k != last && start_index <= k < start_index + heights.len() {
            assert(prev[k - start_index] == heights[k - start_index]);
        }
    }
}

/// The root hashes of complete shards, in order.
pub open spec fn root_hashes(roots: Seq<([u8; 32], BlockHeight)>) -> Seq<[u8; 32]> {
    roots.map_values(|r: ([u8; 32], BlockHeight)| r.0)
}

/// The end heights of complete shards, in order.
pub open spec fn root_end_heights(roots: Seq<([u8; 32], BlockHeight)>) -> Seq<BlockHeight> {
    roots.map_values(|r: ([u8; 32], BlockHeight)| r.1)
}

/// `h` is the greatest of the recorded shard end heights.
pub open spec fn is_max_shard_end(ends: Seq<(u64, BlockHeight)>, h: BlockHeight) -> bool {
    &&& exists|i: int| 0 <= i < ends.len() && (#[trigger] ends[i]).1 == h
    &&& forall|i: int| 0 <= i < ends.len() ==> (#[trigger] ends[i]).1 <= h
}

/// The end height of the latest complete shard: the greatest recorded end height;
/// `None` where none is recorded.
pub open spec fn tip_shard_end(ends: Seq<(u64, BlockHeight)>) -> Option<BlockHeight> {
    if ends.len() == 0 {
        None
    } else {
        Some(choose|h: BlockHeight| is_max_shard_end(ends, h))
    }
}

/// The highest stored block, if any.
pub open spec fn max_scanned_height(blocks: Seq<BlockView>) -> Option<BlockHeight> {
    if blocks.len() == 0 { None } else { Some(blocks.last().height) }
}

/// The account of the wallet that an output to `address` belongs to: the first
/// with `address` as the transparent receiver of one of its addresses; failing
/// that, the first with `address` among its ephemeral addresses; failing that,
/// the first whose legacy transparent address it is.
pub open spec fn transparent_account_for(s: Seq<Account>, address: crate::types::TransparentAddress) -> Option<int> {
    match first_account_with_receiver(s, address) {
        Some(i) => Some(i),
        None => match first_account_with_ephemeral(s, address) {
            Some(i) => Some(i),
            None => first_account_with_legacy(s, address),
        },
    }
}

impl MemoryWalletDb {
    /// The tables that scanning changes, as values.
    pub open spec fn scan_state(&self) -> ScanState {
        ScanState {
            notes: self.received_notes.0@,
            spends: self.received_note_spends.0.entries@,
            nullifiers: self.nullifiers.0.entries@,
            locator: self.tx_locator.0.entries@,
            txs: self.tx_table.0.entries@,
            blocks: self.blocks.blocks(),
        }
    }

    /// The two wallets agree on everything that scanning does not change.
    pub open spec fn same_but_scan_state(&self, other: &Self) -> bool {
        &&& self.network == other.network
        &&& self.accounts == other.accounts
        &&& self.scan_queue == other.scan_queue
        &&& self.sent_notes == other.sent_notes
        &&& self.transparent_received_outputs == other.transparent_received_outputs
        &&& self.transparent_received_output_spends == other.transparent_received_output_spends
        &&& self.transparent_spend_map == other.transparent_spend_map
        &&& self.transaction_data_requests == other.transaction_data_requests
        &&& self.sapling_tree_shard_end_heights == other.sapling_tree_shard_end_heights
        &&& self.orchard_tree_shard_end_heights == other.orchard_tree_shard_end_heights
        &&& self.sapling_subtree_roots == other.sapling_subtree_roots
        &&& self.orchard_subtree_roots == other.orchard_subtree_roots
    }

    /// The two wallets agree on everything that neither scanning nor sending
    /// changes.
    pub open spec fn same_but_scan_and_sent(&self, other: &Self) -> bool {
        &&& self.network == other.network
        &&& self.accounts == other.accounts
        &&& self.scan_queue == other.scan_queue
        &&& self.transparent_received_outputs == other.transparent_received_outputs
        &&& self.transparent_received_output_spends == other.transparent_received_output_spends
        &&& self.transparent_spend_map == other.transparent_spend_map
        &&& self.transaction_data_requests == other.transaction_data_requests
        &&& self.sapling_tree_shard_end_heights == other.sapling_tree_shard_end_heights
        &&& self.orchard_tree_shard_end_heights == other.orchard_tree_shard_end_heights
        &&& self.sapling_subtree_roots == other.sapling_subtree_roots
        &&& self.orchard_subtree_roots == other.orchard_subtree_roots
    }

    /// Records that the note with nullifier `nf` of protocol `p` was spent by
    /// `txid`: the first note that carries the nullifier; fails with `NoteNotFound`,
    /// changing nothing, where no note carries it.
    pub fn mark_note_spent(&mut self, p: ShieldedProtocol, nf: [u8; 32], txid: TxId) -> (r: Result<(), Error>)
        requires
            old(self).wf(),
        ensures
            final(self).wf(),
            final(self).same_but_scan_state(old(self)),
            match mark_spent(old(self).scan_state(), p, nf, txid) {
                Some(st) => r is Ok && final(self).scan_state() == st,
                None => r matches Err(Error::NoteNotFound) && final(self).scan_state() == old(self).scan_state(),
            },
    {
        let nullifier = make_nullifier(p, nf);
        match self.received_notes.find_by_nullifier(&nullifier) {
            Some(i) => {
                let note_id = self.received_notes.0[i].note_id;
                self.received_note_spends.insert_spend(note_id, txid);
                assert(self.scan_state() =~= mark_spent(old(self).scan_state(), p, nf, txid)->0);
                Ok(())
            },
            None => Err(Error::NoteNotFound),
        }
    }

    /// Records the notes with the nullifiers `nfs` of protocol `p` as spent by
    /// `txid`, in order, stopping at the first that no note carries.
    pub fn mark_notes_spent(&mut self, p: ShieldedProtocol, nfs: &Vec<[u8; 32]>, txid: TxId) -> (r: Result<(), Error>)
        requires
            old(self).wf(),
        ensures
            final(self).wf(),
            final(self).same_but_scan_state(old(self)),
            final(self).scan_state() == mark_spends(old(self).scan_state(), p, nfs@, txid).0,
            result_matches(r, mark_spends(old(self).scan_state(), p, nfs@, txid).1),
    {
        let mut i: usize = 0;
        while i < nfs.len()
            invariant
                i <= nfs@.len(),
                self.wf(),
                self.same_but_scan_state(old(self)),
                mark_spends(old(self).scan_state(), p, nfs@.take(i as int), txid) == (self.scan_state(), None::<Failure>),
            decreases nfs@.len() - i,
        {
            assert(nfs@.take(i + 1).drop_last() =~= nfs@.take(i as int));
            let r = self.mark_note_spent(p, nfs[i], txid);
            if r.is_err() {
                proof {
                    lemma_spends_failure_persists(old(self).scan_state(), p, nfs@, txid, i + 1);
                }
                return r;
            }
            i = i + 1;
        }
        assert(nfs@.take(i as int) =~= nfs@);
        Ok(())
    }

    /// Receives output `o` of transaction `txid` in protocol `p`, as
    /// [`receive_output`] says, and appends the memo the wallet held for the note,
    /// if any, to `memos`.
    pub fn receive_wallet_output(
        &mut self,
        p: ShieldedProtocol,
        txid: TxId,
        o: &WalletOutput,
        memos: &mut Vec<(NoteId, [u8; 512])>,
    )
        requires
            old(self).wf(),
            o.index <= u16::MAX,
        ensures
            final(self).wf(),
            final(self).same_but_scan_state(old(self)),
            final(self).scan_state() == receive_output(old(self).scan_state(), old(self).sent_notes.0.entries@, p, txid, *o).0,
            final(memos)@ == match receive_output(old(self).scan_state(), old(self).sent_notes.0.entries@, p, txid, *o).1 {
                Some(m) => old(memos)@.push((output_note_id(txid, p, *o), m)),
                None => old(memos)@,
            },
    {
        let note_id = NoteId::new(txid, p, o.index as u16);
        match self.get_memo(&note_id) {
            Some(m) => memos.push((note_id, m)),
            None => {},
        }
        let spent_by: Option<TxId> = match o.nf {
            Some(b) => {
                let nf = make_nullifier(p, b);
                match self.nullifiers.get(&nf) {
                    Some(loc) => match self.tx_locator.get(loc.height, loc.index) {
                        Some(t) => Some(*t),
                        None => None,
                    },
                    None => None,
                }
            },
            None => None,
        };
        let note = match p {
            ShieldedProtocol::Sapling => ReceivedNote::from_wallet_sapling_output(note_id, o),
            ShieldedProtocol::Orchard => ReceivedNote::from_wallet_orchard_output(note_id, o),
        };
        self.received_notes.insert_received_note(note);
        match spent_by {
            Some(t) => {
                self.received_note_spends.insert_spend(note_id, t);
            },
            None => {},
        }
        assert(self.scan_state() =~= receive_output(old(self).scan_state(), old(self).sent_notes.0.entries@, p, txid, *o).0);
    }

    /// Takes in a transaction of a scanned block, as [`apply_tx`] says, appending
    /// the memos found to `memos`.
    pub fn take_in_tx(&mut self, tx: &WalletTx, memos: &mut Vec<(NoteId, [u8; 512])>) -> (r: Result<(), Error>)
        requires
            old(self).wf(),
            tx_outputs_fit(*tx),
        ensures
            final(self).wf(),
            final(self).same_but_scan_state(old(self)),
            final(self).scan_state() == apply_tx(old(self).scan_state(), old(self).sent_notes.0.entries@, *tx, old(memos)@).0,
            final(memos)@ == apply_tx(old(self).scan_state(), old(self).sent_notes.0.entries@, *tx, old(memos)@).1,
            result_matches(r, apply_tx(old(self).scan_state(), old(self).sent_notes.0.entries@, *tx, old(memos)@).2),
    {
        let r1 = self.mark_notes_spent(ShieldedProtocol::Sapling, &tx.sapling_spends, tx.txid);
        if r1.is_err() {
            return r1;
        }
        let r2 = self.mark_notes_spent(ShieldedProtocol::Orchard, &tx.orchard_spends, tx.txid);
        if r2.is_err() {
            return r2;
        }
        self.receive_wallet_outputs(ShieldedProtocol::Sapling, tx.txid, &tx.sapling_outputs, memos);
        self.receive_wallet_outputs(ShieldedProtocol::Orchard, tx.txid, &tx.orchard_outputs, memos);
        Ok(())
    }

    /// Takes in the transactions of a scanned block, in order, as [`apply_txs`]
    /// says.
    pub fn take_in_txs(&mut self, txs: &Vec<WalletTx>, memos: &mut Vec<(NoteId, [u8; 512])>) -> (r: Result<(), Error>)
        requires
            old(self).wf(),
            forall|i: int| 0 <= i < txs@.len() ==> tx_outputs_fit(#[trigger] txs@[i]),
        ensures
            final(self).wf(),
            final(self).same_but_scan_state(old(self)),
            final(self).scan_state() == apply_txs(old(self).scan_state(), old(self).sent_notes.0.entries@, txs@, old(memos)@).0,
            final(memos)@ == apply_txs(old(self).scan_state(), old(self).sent_notes.0.entries@, txs@, old(memos)@).1,
            result_matches(r, apply_txs(old(self).scan_state(), old(self).sent_notes.0.entries@, txs@, old(memos)@).2),
    {
        let ghost sent = self.sent_notes.0.entries@;
        let mut i: usize = 0;
        while i < txs.len()
            invariant
                i <= txs@.len(),
                self.wf(),
                self.same_but_scan_state(old(self)),
                sent == self.sent_notes.0.entries@,
                forall|k: int| 0 <= k < txs@.len() ==> tx_outputs_fit(#[trigger] txs@[k]),
                apply_txs(old(self).scan_state(), sent, txs@.take(i as int), old(memos)@)
                    == (self.scan_state(), memos@, None::<Failure>),
            decreases txs@.len() - i,
        {
            assert(txs@.take(i + 1).drop_last() =~= txs@.take(i as int));
            assert(tx_outputs_fit(txs@[i as int]));
            let r = self.take_in_tx(&txs[i], memos);
            if r.is_err() {
                proof {
                    lemma_txs_failure_persists(old(self).scan_state(), sent, txs@, old(memos)@, i + 1);
                }
                return r;
            }
            i = i + 1;
        }
        assert(txs@.take(i as int) =~= txs@);
        Ok(())
    }

    /// Records a block's map of revealed nullifiers, as
    /// [`insert_nullifier_entries`] says.
    pub fn insert_nullifier_map(
        &mut self,
        height: BlockHeight,
        p: ShieldedProtocol,
        entries: &Vec<(TxId, u16, Vec<[u8; 32]>)>,
    ) -> (r: Result<(), Error>)
        requires
            old(self).wf(),
        ensures
            final(self).wf(),
            final(self).same_but_scan_state(old(self)),
            final(self).scan_state() == insert_nullifier_entries(old(self).scan_state(), height, p, entries@).0,
            result_matches(r, insert_nullifier_entries(old(self).scan_state(), height, p, entries@).1),
    {
        let mut i: usize = 0;
        while i < entries.len()
            invariant
                i <= entries@.len(),
                self.wf(),
                self.same_but_scan_state(old(self)),
                insert_nullifier_entries(old(self).scan_state(), height, p, entries@.take(i as int))
                    == (self.scan_state(), None::<Failure>),
            decreases entries@.len() - i,
        {
            assert(entries@.take(i + 1).drop_last() =~= entries@.take(i as int));
            let entry = &entries[i];
            let txid = entry.0;
            let index = entry.1 as u32;
            let known = match self.tx_locator.get(height, index) {
                Some(t) => Some(*t),
                None => None,
            };
            match known {
                Some(t) => {
                    if !(t == txid) {
                        proof {
                            lemma_nullifier_failure_persists(old(self).scan_state(), height, p, entries@, i + 1);
                        }
                        return Err(Error::ConflictingTxLocator);
                    }
                },
                None => {
                    self.tx_locator.insert(height, index, txid);
                    let ghost mid = self.scan_state();
                    let ghost base = self.nullifiers.0.entries@;
                    let nfs = &entry.2;
                    let mut k: usize = 0;
                    while k < nfs.len()
                        invariant
                            k <= nfs@.len(),
                            self.wf(),
                            self.same_but_scan_state(old(self)),
                            base == mid.nullifiers,
                            self.scan_state() == (ScanState {
                                nullifiers: insert_nullifiers(base, TxLocation { height, index }, p, nfs@.take(k as int)),
                                ..mid
                            }),
                        decreases nfs@.len() - k,
                    {
                        assert(nfs@.take(k + 1).drop_last() =~= nfs@.take(k as int));
                        self.nullifiers.insert(height, index, make_nullifier(p, nfs[k]));
                        k = k + 1;
                    }
                    assert(nfs@.take(k as int) =~= nfs@);
                },
            }
            proof {
                assert(self.scan_state() =~= insert_nullifier_entries(old(self).scan_state(), height, p, entries@.take(i + 1)).0);
            }
            i = i + 1;
        }
        assert(entries@.take(i as int) =~= entries@);
        Ok(())
    }

    /// Records each of the transactions as mined in block `height`, at its
    /// position, as [`put_tx_metas`] says.
    pub fn record_tx_metas(&mut self, txs: &Vec<WalletTx>, height: BlockHeight)
        requires
            old(self).wf(),
        ensures
            final(self).wf(),
            final(self).same_but_scan_state(old(self)),
            final(self).scan_state() == (ScanState {
                txs: put_tx_metas(old(self).scan_state().txs, txs@, height),
                ..old(self).scan_state()
            }),
    {
        let mut i: usize = 0;
        while i < txs.len()
            invariant
                i <= txs@.len(),
                self.wf(),
                self.same_but_scan_state(old(self)),
                self.scan_state() == (ScanState {
                    txs: put_tx_metas(old(self).scan_state().txs, txs@.take(i as int), height),
                    ..old(self).scan_state()
                }),
            decreases txs@.len() - i,
        {
            assert(txs@.take(i + 1).drop_last() =~= txs@.take(i as int));
            self.tx_table.put_tx_meta(txs[i].txid, txs[i].block_index, height);
            i = i + 1;
        }
        assert(txs@.take(i as int) =~= txs@);
    }

    /// Records the notes with the nullifiers `nfs` of protocol `p` as spent by
    /// `txid`, skipping the nullifiers that no note carries.
    #[verifier::rlimit(30)]
    pub fn mark_notes_spent_where_known(&mut self, p: ShieldedProtocol, nfs: &Vec<[u8; 32]>, txid: TxId)
        requires
            old(self).wf(),
        ensures
            final(self).wf(),
            final(self).same_but_scan_state(old(self)),
            final(self).scan_state() == mark_spends_where_known(old(self).scan_state(), p, nfs@, txid),
    {
        let mut i: usize = 0;
        while i < nfs.len()
            invariant
                i <= nfs@.len(),
                self.wf(),
                self.same_but_scan_state(old(self)),
                self.scan_state() == mark_spends_where_known(old(self).scan_state(), p, nfs@.take(i as int), txid),
            decreases nfs@.len() - i,
        {
            assert(nfs@.take(i + 1).drop_last() =~= nfs@.take(i as int));
            assert(nfs@.take(i + 1).last() == nfs@[i as int]);
            let ghost before = self.scan_state();
            let _ = self.mark_note_spent(p, nfs[i], txid);
            assert(self.scan_state() == match mark_spent(before, p, nfs@[i as int], txid) {
                Some(s2) => s2,
                None => before,
            });
            i = i + 1;
        }
        assert(nfs@.take(i as int) =~= nfs@);
    }

    /// Records an output of transaction `txid`, sent from `from_account_id`, as
    /// [`store_sent_output`] says.
    pub fn store_sent_output_of(&mut self, txid: TxId, from_account_id: AccountId, o: &SentTransactionOutput)
        requires
            old(self).wf(),
            sent_output_recordable(*o),
        ensures
            final(self).wf(),
            final(self).same_but_scan_and_sent(old(self)),
            (final(self).scan_state(), final(self).sent_notes.0.entries@) == store_sent_output(
                old(self).scan_state(),
                old(self).sent_notes.0.entries@,
                txid,
                from_account_id,
                *o,
            ),
    {
        self.sent_notes.put_sent_output(txid, from_account_id, o);
        proof {
            let memo = choose|memo: [u8; 512]| sent_output_record(from_account_id, *o, memo)
                && self.sent_notes.0.entries@ == old(self).sent_notes.0.inserted(
                    sent_output_key(txid, *o),
                    SentNote { from_account_id, to: o.recipient, value: o.value, memo },
                );
            match recipient_pool(o.recipient) {
                PoolType::Transparent => {
                    lemma_empty_memo_unique(memo);
                },
                PoolType::Shielded(_) => {},
            }
            assert(memo == sent_memo(*o));
        }
        match &o.recipient {
            Recipient::InternalAccount { .. } => {
                match ReceivedNote::from_sent_tx_output(txid, o) {
                    Ok(n) => {
                        assert(n == note_from_sent(txid, *o));
                        self.received_notes.insert_received_note(n);
                    },
                    Err(_) => {},
                }
            },
            _ => {},
        }
        assert(self.scan_state() =~= store_sent_output(
            old(self).scan_state(),
            old(self).sent_notes.0.entries@,
            txid,
            from_account_id,
            *o,
        ).0);
    }

    /// Records the outputs of transaction `txid`, in order.
    pub fn store_sent_outputs_of(&mut self, txid: TxId, from_account_id: AccountId, outputs: &Vec<SentTransactionOutput>)
        requires
            old(self).wf(),
            forall|i: int| 0 <= i < outputs@.len() ==> sent_output_recordable(#[trigger] outputs@[i]),
        ensures
            final(self).wf(),
            final(self).same_but_scan_and_sent(old(self)),
            (final(self).scan_state(), final(self).sent_notes.0.entries@) == store_sent_outputs(
                old(self).scan_state(),
                old(self).sent_notes.0.entries@,
                txid,
                from_account_id,
                outputs@,
            ),
    {
        let mut i: usize = 0;
        while i < outputs.len()
            invariant
                i <= outputs@.len(),
                self.wf(),
                self.same_but_scan_and_sent(old(self)),
                forall|k: int| 0 <= k < outputs@.len() ==> sent_output_recordable(#[trigger] outputs@[k]),
                (self.scan_state(), self.sent_notes.0.entries@) == store_sent_outputs(
                    old(self).scan_state(),
                    old(self).sent_notes.0.entries@,
                    txid,
                    from_account_id,
                    outputs@.take(i as int),
                ),
            decreases outputs@.len() - i,
        {
            assert(outputs@.take(i + 1).drop_last() =~= outputs@.take(i as int));
            assert(sent_output_recordable(outputs@[i as int]));
            self.store_sent_output_of(txid, from_account_id, &outputs[i]);
            i = i + 1;
        }
        assert(outputs@.take(i as int) =~= outputs@);
    }

    /// Stores a transaction built by the wallet, as [`store_sent_tx`] says.
    pub fn store_transaction_to_be_sent(&mut self, tx: SentTransaction) -> (r: Result<(), Error>)
        requires
            old(self).wf(),
            sent_tx_storable(tx),
        ensures
            final(self).wf(),
            final(self).same_but_scan_and_sent(old(self)),
            final(self).scan_state() == store_sent_tx(old(self).scan_state(), old(self).sent_notes.0.entries@, tx).0,
            final(self).sent_notes.0.entries@ == store_sent_tx(old(self).scan_state(), old(self).sent_notes.0.entries@, tx).1,
            result_matches(r, store_sent_tx(old(self).scan_state(), old(self).sent_notes.0.entries@, tx).2),
    {
        let ghost tx0 = tx;
        let mut tx = tx;
        let mut raw: Vec<u8> = Vec::new();
        std::mem::swap(&mut raw, &mut tx.raw);
        self.tx_table.put_tx_data(tx.txid, tx.expiry_height, raw, Some(tx.fee), Some(tx.target_height));
        let ghost s1 = self.scan_state();
        assert(s1 =~= ScanState {
            txs: tx_data_put(old(self).scan_state().txs, tx0.txid, tx0.expiry_height, tx0.raw, Some(tx0.fee), Some(tx0.target_height)),
            ..old(self).scan_state()
        });
        let r = self.mark_notes_spent(ShieldedProtocol::Sapling, &tx.sapling_spend_nullifiers, tx.txid);
        if r.is_err() {
            return r;
        }
        if tx.has_orchard_bundle {
            self.mark_notes_spent_where_known(ShieldedProtocol::Orchard, &tx.orchard_action_nullifiers, tx.txid);
        }
        assert(forall|i: int| 0 <= i < tx.outputs@.len() ==> sent_output_recordable(#[trigger] tx.outputs@[i]));
        self.store_sent_outputs_of(tx.txid, tx.account_id, &tx.outputs);
        Ok(())
    }

    /// Stores transactions built by the wallet, in order, stopping at the first
    /// that fails; see [`store_sent_txs`].
    pub fn store_transactions_to_be_sent(&mut self, txs: Vec<SentTransaction>) -> (r: Result<(), Error>)
        requires
            old(self).wf(),
            forall|i: int| 0 <= i < txs@.len() ==> sent_tx_storable(#[trigger] txs@[i]),
        ensures
            final(self).wf(),
            final(self).same_but_scan_and_sent(old(self)),
            final(self).scan_state() == store_sent_txs(old(self).scan_state(), old(self).sent_notes.0.entries@, txs@).0,
            final(self).sent_notes.0.entries@ == store_sent_txs(old(self).scan_state(), old(self).sent_notes.0.entries@, txs@).1,
            result_matches(r, store_sent_txs(old(self).scan_state(), old(self).sent_notes.0.entries@, txs@).2),
    {
        let ghost all = txs@;
        let ghost sent0 = self.sent_notes.0.entries@;
        let n = txs.len();
        let mut rest = txs;
        let mut i: usize = 0;
        while rest.len() > 0
            invariant
                i <= all.len(),
                all.len() == n,
                all == txs@,
                rest@ == all.skip(i as int),
                self.wf(),
                self.same_but_scan_and_sent(old(self)),
                sent0 == old(self).sent_notes.0.entries@,
                forall|k: int| 0 <= k < all.len() ==> sent_tx_storable(#[trigger] all[k]),
                store_sent_txs(old(self).scan_state(), sent0, all.take(i as int))
                    == (self.scan_state(), self.sent_notes.0.entries@, None::<Failure>),
            decreases rest@.len(),
        {
            let tx = rest.remove(0);
            proof {
                assert(tx == all[i as int]);
                assert(all.take(i + 1).drop_last() =~= all.take(i as int));
                assert(rest@ =~= all.skip(i + 1));
            }
            let r = self.store_transaction_to_be_sent(tx);
            if r.is_err() {
                proof {
                    assert(all.take(i + 1).last() == all[i as int]);
                    lemma_store_failure_persists(old(self).scan_state(), sent0, all, i + 1);
                }
                return r;
            }
            i = i + 1;
        }
        assert(all.take(i as int) =~= all);
        Ok(())
    }

    /// Records a transaction learnt of in full: its data, and, where it is known to
    /// be mined, its mined height as its status.
    pub fn store_decrypted_tx(
        &mut self,
        txid: TxId,
        expiry_height: BlockHeight,
        raw: Vec<u8>,
        mined_height: Option<BlockHeight>,
    ) -> (r: Result<(), Error>)
        requires
            old(self).wf(),
        ensures
            r is Ok,
            final(self).wf(),
            final(self).same_but_scan_state(old(self)),
            final(self).scan_state() == (ScanState {
                txs: decrypted_tx_put(old(self).scan_state().txs, txid, expiry_height, raw, mined_height),
                ..old(self).scan_state()
            }),
    {
        let ghost raw0 = raw;
        self.tx_table.put_tx_data(txid, expiry_height, raw, None, None);
        proof {
            let t0 = old(self).tx_table.0.entries@;
            let v = match seq_lookup(t0, txid@) {
                Some(e) => TransactionEntry { fee: None, expiry_height: Some(expiry_height), raw: Some(raw0), ..e },
                None => TransactionEntry {
                    tx_status: TransactionStatus::NotInMainChain,
                    tx_index: None,
                    block: None,
                    expiry_height: Some(expiry_height),
                    raw: Some(raw0),
                    fee: None,
                    target_height: None,
                },
            };
            lemma_seq_inserted(t0, txid, v, txid@);
        }
        match mined_height {
            Some(h) => {
                let r = self.tx_table.set_transaction_status(&txid, TransactionStatus::Mined(h));
                assert(r is Ok);
            },
            None => {},
        }
        assert(self.scan_state() =~= ScanState {
            txs: decrypted_tx_put(old(self).scan_state().txs, txid, expiry_height, raw0, mined_height),
            ..old(self).scan_state()
        });
        Ok(())
    }

    /// Sets the status of a known transaction; fails with `TransactionNotFound`,
    /// changing nothing, where the transaction is unknown.
    pub fn set_transaction_status(&mut self, txid: TxId, status: TransactionStatus) -> (r: Result<(), Error>)
        requires
            old(self).wf(),
        ensures
            final(self).wf(),
            final(self).same_but_scan_state(old(self)),
            match seq_lookup(old(self).scan_state().txs, txid@) {
                Some(e) => r is Ok && final(self).scan_state() == (ScanState {
                    txs: seq_inserted(old(self).scan_state().txs, txid, TransactionEntry { tx_status: status, ..e }),
                    ..old(self).scan_state()
                }),
                None => final(self).scan_state() == old(self).scan_state()
                    && (r matches Err(Error::TransactionNotFound(t)) && t == txid),
            },
    {
        let r = self.tx_table.set_transaction_status(&txid, status);
        assert(self.scan_state() =~= match seq_lookup(old(self).scan_state().txs, txid@) {
            Some(e) => ScanState {
                txs: seq_inserted(old(self).scan_state().txs, txid, TransactionEntry { tx_status: status, ..e }),
                ..old(self).scan_state()
            },
            None => old(self).scan_state(),
        });
        r
    }

    /// Imports an account from its unified full viewing key; see
    /// [`crate::account::Accounts::new_account`]. Gives the new account's id.
    pub fn import_account_ufvk(
        &mut self,
        viewing_key: String,
        birthday: AccountBirthday,
        purpose: AccountPurpose,
    ) -> (r: Result<AccountId, Error>)
        requires
            old(self).wf(),
            old(self).accounts.nonce < u32::MAX,
            birthday.wf(),
        ensures
            final(self).wf(),
            final(self).scan_state() == old(self).scan_state(),
            final(self).accounts.nonce == old(self).accounts.nonce + 1,
            match r {
                Ok(id) => {
                    &&& id.0 == final(self).accounts.nonce
                    &&& final(self).accounts.accounts@.drop_last() == old(self).accounts.accounts@
                    &&& final(self).accounts.accounts@.len() == old(self).accounts.accounts@.len() + 1
                    &&& final(self).accounts.accounts@.last().account_id == id
                    &&& final(self).accounts.accounts@.last().kind == (AccountSource::Imported { purpose })
                    &&& final(self).accounts.accounts@.last().purpose == purpose
                    &&& final(self).accounts.accounts@.last().viewing_key == viewing_key
                },
                Err(e) => final(self).accounts.accounts@ == old(self).accounts.accounts@ && (e is AddressGeneration
                    || e is KeyDerivation),
            },
    {
        self.accounts.new_account(AccountSource::Imported { purpose }, viewing_key, birthday, purpose, self.network)
    }

    /// Generates the next address of an account; see
    /// [`crate::account::Accounts::next_available_address`].
    pub fn get_next_available_address(&mut self, account_id: AccountId) -> (r: Result<Option<String>, Error>)
        requires
            old(self).wf(),
        ensures
            final(self).wf(),
            final(self).scan_state() == old(self).scan_state(),
            final(self).accounts.nonce == old(self).accounts.nonce,
            !old(self).accounts.has(account_id) ==> (r matches Ok(None) && final(self).accounts.accounts@
                == old(self).accounts.accounts@),
            forall|i: int| 0 <= i < old(self).accounts.accounts@.len()
                && (#[trigger] old(self).accounts.accounts@[i]).account_id == account_id
                ==> final(self).accounts.accounts@ == old(self).accounts.accounts@.update(i, final(self).accounts.accounts@[i])
                    && Account::next_address_outcome(
                        old(self).accounts.accounts@[i],
                        old(self).network,
                        final(self).accounts.accounts@[i],
                        match r {
                            Ok(Some(s)) => Ok::<String, Error>(s),
                            Ok(None) => Err::<String, Error>(Error::NoteNotFound),
                            Err(e) => Err::<String, Error>(e),
                        },
                    ) && !(r matches Ok(None)),
    {
        let network = self.network;
        self.accounts.next_available_address(account_id, network)
    }

    /// Records the roots of complete Sapling note commitment tree shards, each as its
    /// root hash and the height of the block that completes it, for the shards
    /// from `start_index` on, in order.
    pub fn put_sapling_subtree_roots(&mut self, start_index: u64, roots: &Vec<([u8; 32], BlockHeight)>)
        requires
            old(self).wf(),
            start_index + roots@.len() <= u64::MAX,
        ensures
            final(self).wf(),
            final(self).scan_state() == old(self).scan_state(),
            final(self).sapling_tree_shard_end_heights.entries@ == shard_ends_put(
                old(self).sapling_tree_shard_end_heights.entries@, start_index, root_end_heights(roots@)),
            final(self).sapling_subtree_roots.entries@ == shard_roots_put(
                old(self).sapling_subtree_roots.entries@, start_index, root_hashes(roots@)),
            final(self).orchard_tree_shard_end_heights == old(self).orchard_tree_shard_end_heights,
            final(self).orchard_subtree_roots == old(self).orchard_subtree_roots,
    {
        self.put_subtree_roots(ShieldedProtocol::Sapling, start_index, roots)
    }

    /// Records the roots of complete Orchard note commitment tree shards, each as its
    /// root hash and the height of the block that completes it, for the shards
    /// from `start_index` on, in order.
    pub fn put_orchard_subtree_roots(&mut self, start_index: u64, roots: &Vec<([u8; 32], BlockHeight)>)
        requires
            old(self).wf(),
            start_index + roots@.len() <= u64::MAX,
        ensures
            final(self).wf(),
            final(self).scan_state() == old(self).scan_state(),
            final(self).orchard_tree_shard_end_heights.entries@ == shard_ends_put(
                old(self).orchard_tree_shard_end_heights.entries@, start_index, root_end_heights(roots@)),
            final(self).orchard_subtree_roots.entries@ == shard_roots_put(
                old(self).orchard_subtree_roots.entries@, start_index, root_hashes(roots@)),
            final(self).sapling_tree_shard_end_heights == old(self).sapling_tree_shard_end_heights,
            final(self).sapling_subtree_roots == old(self).sapling_subtree_roots,
    {
        self.put_subtree_roots(ShieldedProtocol::Orchard, start_index, roots)
    }

    /// Records the roots of complete note commitment tree shards of protocol `p`:
    /// the root hash and the end height of each shard from `start_index` on, in
    /// order. Nothing else changes.
    pub fn put_subtree_roots(&mut self, p: ShieldedProtocol, start_index: u64, roots: &Vec<([u8; 32], BlockHeight)>)
        requires
            old(self).wf(),
            start_index + roots@.len() <= u64::MAX,
        ensures
            final(self).wf(),
            final(self).scan_state() == old(self).scan_state(),
            match p {
                ShieldedProtocol::Sapling => {
                    &&& final(self).sapling_tree_shard_end_heights.entries@ == shard_ends_put(
                        old(self).sapling_tree_shard_end_heights.entries@, start_index, root_end_heights(roots@))
                    &&& final(self).sapling_subtree_roots.entries@ == shard_roots_put(
                        old(self).sapling_subtree_roots.entries@, start_index, root_hashes(roots@))
                    &&& final(self).orchard_tree_shard_end_heights == old(self).orchard_tree_shard_end_heights
                    &&& final(self).orchard_subtree_roots == old(self).orchard_subtree_roots
                },
                ShieldedProtocol::Orchard => {
                    &&& final(self).orchard_tree_shard_end_heights.entries@ == shard_ends_put(
                        old(self).orchard_tree_shard_end_heights.entries@, start_index, root_end_heights(roots@))
                    &&& final(self).orchard_subtree_roots.entries@ == shard_roots_put(
                        old(self).orchard_subtree_roots.entries@, start_index, root_hashes(roots@))
                    &&& final(self).sapling_tree_shard_end_heights == old(self).sapling_tree_shard_end_heights
                    &&& final(self).sapling_subtree_roots == old(self).sapling_subtree_roots
                },
            },
            *final(self) == (MemoryWalletDb {
                sapling_tree_shard_end_heights: final(self).sapling_tree_shard_end_heights,
                orchard_tree_shard_end_heights: final(self).orchard_tree_shard_end_heights,
                sapling_subtree_roots: final(self).sapling_subtree_roots,
                orchard_subtree_roots: final(self).orchard_subtree_roots,
                ..*old(self)
            }),
    {
        let ghost hashes = root_hashes(roots@);
        let ghost heights = root_end_heights(roots@);
        let mut i: usize = 0;
        while i < roots.len()
            invariant
                i <= roots@.len(),
                start_index + roots@.len() <= u64::MAX,
                hashes == root_hashes(roots@),
                heights == root_end_heights(roots@),
                self.wf(),
                *self == (MemoryWalletDb {
                    sapling_tree_shard_end_heights: self.sapling_tree_shard_end_heights,
                    orchard_tree_shard_end_heights: self.orchard_tree_shard_end_heights,
                    sapling_subtree_roots: self.sapling_subtree_roots,
                    orchard_subtree_roots: self.orchard_subtree_roots,
                    ..*old(self)
                }),
                match p {
                    ShieldedProtocol::Sapling => {
                        &&& self.sapling_tree_shard_end_heights.entries@ == shard_ends_put(
                            old(self).sapling_tree_shard_end_heights.entries@, start_index, heights.take(i as int))
                        &&& self.sapling_subtree_roots.entries@ == shard_roots_put(
                            old(self).sapling_subtree_roots.entries@, start_index, hashes.take(i as int))
                        &&& self.orchard_tree_shard_end_heights == old(self).orchard_tree_shard_end_heights
                        &&& self.orchard_subtree_roots == old(self).orchard_subtree_roots
                    },
                    ShieldedProtocol::Orchard => {
                        &&& self.orchard_tree_shard_end_heights.entries@ == shard_ends_put(
                            old(self).orchard_tree_shard_end_heights.entries@, start_index, heights.take(i as int))
                        &&& self.orchard_subtree_roots.entries@ == shard_roots_put(
                            old(self).orchard_subtree_roots.entries@, start_index, hashes.take(i as int))
                        &&& self.sapling_tree_shard_end_heights == old(self).sapling_tree_shard_end_heights
                        &&& self.sapling_subtree_roots == old(self).sapling_subtree_roots
                    },
                },
            decreases roots@.len() - i,
        {
            assert(heights.take(i + 1).drop_last() =~= heights.take(i as int));
            assert(hashes.take(i + 1).drop_last() =~= hashes.take(i as int));
            let index = start_index + i as u64;
            let (hash, end) = roots[i];
            assert(hashes.take(i + 1).last() == hash && heights.take(i + 1).last() == end);
            match p {
                ShieldedProtocol::Sapling => {
                    self.sapling_tree_shard_end_heights.insert(index, end);
                    self.sapling_subtree_roots.insert(index, hash);
                },
                ShieldedProtocol::Orchard => {
                    self.orchard_tree_shard_end_heights.insert(index, end);
                    self.orchard_subtree_roots.insert(index, hash);
                },
            }
            i = i + 1;
        }
        assert(heights.take(i as int) =~= heights);
        assert(hashes.take(i as int) =~= hashes);
    }

    /// The end height of the latest complete Sapling note commitment tree shard,
    /// where one is recorded.
    pub fn sapling_tip_shard_end_height(&self) -> (r: Option<BlockHeight>)
        ensures
            r == tip_shard_end(self.sapling_tree_shard_end_heights.entries@),
    {
        let ends = &self.sapling_tree_shard_end_heights.entries;
        if ends.len() == 0 {
            return None;
        }
        let mut best: BlockHeight = ends[0].1;
        let mut i: usize = 1;
        while i < ends.len()
            invariant
                1 <= i <= ends@.len(),
                exists|j: int| 0 <= j < i && (#[trigger] ends@[j]).1 == best,
                forall|j: int| 0 <= j < i ==> (#[trigger] ends@[j]).1 <= best,
            decreases ends@.len() - i,
        {
            if ends[i].1 > best {
                best = ends[i].1;
            }
            i = i + 1;
        }
        proof {
            let e = ends@;
            assert(is_max_shard_end(e, best));
            let c = choose|h: BlockHeight| is_max_shard_end(e, h);
            let j1 = choose|j: int| 0 <= j < e.len() && (#[trigger] e[j]).1 == best;
            let j2 = choose|j: int| 0 <= j < e.len() && (#[trigger] e[j]).1 == c;
            assert(e[j1].1 <= c && e[j2].1 <= best);
        }
        Some(best)
    }

    /// The scan queue entries a new chain tip calls for, with the part of the queue
    /// they replace, as [`chain_tip_update`] says for this wallet: its network's
    /// Sapling activation height, its highest stored block, its birthday and the
    /// end of its latest complete Sapling shard. `None` where the queue is to be
    /// left as it is.
    pub fn chain_tip_plan(&self, tip_height: BlockHeight) -> (r: Option<(ScanRange, Vec<ScanRange>)>)
        requires
            self.wf(),
            chain_tip_update(
                if self.network == crate::types::Network::MainNetwork { Some(419_200u32) } else { Some(280_000u32) },
                tip_height,
                max_scanned_height(self.blocks.blocks()),
                wallet_birthday(self.accounts.accounts@),
                tip_shard_end(self.sapling_tree_shard_end_heights.entries@),
            ) is Some ==> chain_tip_update_defined(
                tip_height,
                max_scanned_height(self.blocks.blocks()),
                wallet_birthday(self.accounts.accounts@),
                tip_shard_end(self.sapling_tree_shard_end_heights.entries@),
            ),
        ensures
            match r {
                Some((q, v)) => chain_tip_update(
                    if self.network == crate::types::Network::MainNetwork { Some(419_200u32) } else { Some(280_000u32) },
                    tip_height,
                    max_scanned_height(self.blocks.blocks()),
                    wallet_birthday(self.accounts.accounts@),
                    tip_shard_end(self.sapling_tree_shard_end_heights.entries@),
                ) == Some((q, v@)),
                None => chain_tip_update(
                    if self.network == crate::types::Network::MainNetwork { Some(419_200u32) } else { Some(280_000u32) },
                    tip_height,
                    max_scanned_height(self.blocks.blocks()),
                    wallet_birthday(self.accounts.accounts@),
                    tip_shard_end(self.sapling_tree_shard_end_heights.entries@),
                ) is None,
            },
    {
        let activation = sapling_activation_height(self.network);
        let max_scanned = match self.blocks.last() {
            Some(b) => Some(b.height),
            None => None,
        };
        let birthday = self.get_wallet_birthday();
        let shard_tip = self.sapling_tip_shard_end_height();
        chain_tip_scan_ranges(activation, tip_height, max_scanned, birthday, shard_tip)
    }

    /// Takes in a scanned block, as [`apply_block`] says.
    pub fn take_in_block(&mut self, b: &ScannedBlock) -> (r: Result<(), Error>)
        requires
            old(self).wf(),
            block_outputs_fit(*b),
        ensures
            final(self).wf(),
            final(self).same_but_scan_state(old(self)),
            final(self).scan_state() == apply_block(old(self).scan_state(), old(self).sent_notes.0.entries@, *b).0,
            result_matches(r, apply_block(old(self).scan_state(), old(self).sent_notes.0.entries@, *b).1),
    {
        let mut memos: Vec<(NoteId, [u8; 512])> = Vec::new();
        let r = self.take_in_txs(&b.transactions, &mut memos);
        if r.is_err() {
            return r;
        }
        let r = self.insert_nullifier_map(b.height, ShieldedProtocol::Sapling, &b.sapling_nullifier_map);
        if r.is_err() {
            return r;
        }
        let r = self.insert_nullifier_map(b.height, ShieldedProtocol::Orchard, &b.orchard_nullifier_map);
        if r.is_err() {
            return r;
        }
        let mut txids: Vec<TxId> = Vec::new();
        let mut i: usize = 0;
        while i < b.transactions.len()
            invariant
                i <= b.transactions@.len(),
                txids@ == b.transactions@.take(i as int).map_values(|t: WalletTx| t.txid),
            decreases b.transactions@.len() - i,
        {
            txids.push(b.transactions[i].txid);
            proof {
                assert(txids@ =~= b.transactions@.take(i + 1).map_values(|t: WalletTx| t.txid));
            }
            i = i + 1;
        }
        assert(b.transactions@.take(i as int) =~= b.transactions@);
        let ghost found_memos = memos@;
        let block = MemoryWalletBlock {
            height: b.height,
            hash: b.hash,
            block_time: b.block_time,
            transactions: txids,
            memos,
            sapling_commitment_tree_size: Some(b.sapling_final_tree_size),
            sapling_output_count: Some(b.sapling_commitment_count),
            orchard_commitment_tree_size: Some(b.orchard_final_tree_size),
            orchard_action_count: Some(b.orchard_commitment_count),
        };
        assert(block@ =~= stored_block(*b, found_memos));
        self.record_tx_metas(&b.transactions, b.height);
        self.blocks.insert(block);
        assert(self.scan_state() =~= apply_block(old(self).scan_state(), old(self).sent_notes.0.entries@, *b).0);
        Ok(())
    }

    /// Takes in scanned blocks, in order, as [`apply_blocks`] says: each block must
    /// follow the one before it, else taking in stops with `NonSequentialBlocks`;
    /// taking in also stops at the first block that fails. Blocks taken in before
    /// a failure stay. Where all are taken in, gives the range they cover and the
    /// tree positions of the wallet's new notes. The wallet keeps no note
    /// commitment tree, and the scan queue is not changed here.
    pub fn put_blocks(&mut self, blocks: &Vec<ScannedBlock>) -> (r: Result<PutBlocksOutcome, Error>)
        requires
            old(self).wf(),
            forall|i: int| 0 <= i < blocks@.len() ==> block_outputs_fit(#[trigger] blocks@[i]),
            forall|i: int| 0 <= i < blocks@.len() ==> (#[trigger] blocks@[i]).height < u32::MAX,
            blocks@.len() > 0 ==> blocks@[0].sapling_commitment_count <= blocks@[0].sapling_final_tree_size,
            blocks@.len() > 0 ==> blocks@[0].orchard_commitment_count <= blocks@[0].orchard_final_tree_size,
        ensures
            final(self).wf(),
            final(self).same_but_scan_state(old(self)),
            final(self).scan_state() == apply_blocks(old(self).scan_state(), old(self).sent_notes.0.entries@, blocks@).0,
            match r {
                Ok(out) => apply_blocks(old(self).scan_state(), old(self).sent_notes.0.entries@, blocks@).1 is None
                    && out.range == scanned_range_of(blocks@)
                    && (blocks@.len() > 0 ==> out.range is Some
                        && out.range->0.sapling_start_position + blocks@[0].sapling_commitment_count
                            == blocks@[0].sapling_final_tree_size
                        && out.range->0.orchard_start_position + blocks@[0].orchard_commitment_count
                            == blocks@[0].orchard_final_tree_size)
                    && out.note_positions@ == blocks_note_positions(blocks@),
                Err(e) => apply_blocks(old(self).scan_state(), old(self).sent_notes.0.entries@, blocks@).1 is Some
                    && error_is(e, apply_blocks(old(self).scan_state(), old(self).sent_notes.0.entries@, blocks@).1->0),
            },
    {
        let ghost sent = self.sent_notes.0.entries@;
        let mut positions: Vec<(ShieldedProtocol, u64)> = Vec::new();
        let mut prev: Option<BlockHeight> = None;
        let mut i: usize = 0;
        while i < blocks.len()
            invariant
                i <= blocks@.len(),
                self.wf(),
                self.same_but_scan_state(old(self)),
                sent == self.sent_notes.0.entries@,
                forall|k: int| 0 <= k < blocks@.len() ==> block_outputs_fit(#[trigger] blocks@[k]),
                forall|k: int| 0 <= k < blocks@.len() ==> (#[trigger] blocks@[k]).height < u32::MAX,
                apply_blocks(old(self).scan_state(), sent, blocks@.take(i as int)) == (self.scan_state(), None::<Failure>),
                prev == if i == 0 { None::<BlockHeight> } else { Some(blocks@[i - 1].height) },
                positions@ == blocks_note_positions(blocks@.take(i as int)),
            decreases blocks@.len() - i,
        {
            let b = &blocks[i];
            proof {
                assert(blocks@.take(i + 1).drop_last() =~= blocks@.take(i as int));
                assert(blocks@.take(i + 1).last() == blocks@[i as int]);
                if i >= 1 {
                    assert(blocks@.take(i + 1)[i - 1] == blocks@[i - 1]);
                }
                assert(block_outputs_fit(blocks@[i as int]));
            }
            match prev {
                Some(p) => {
                    if b.height != p + 1 {
                        proof {
                            lemma_blocks_failure_persists(old(self).scan_state(), sent, blocks@, i + 1);
                        }
                        return Err(Error::NonSequentialBlocks);
                    }
                },
                None => {},
            }
            let r = self.take_in_block(b);
            match r {
                Err(e) => {
                    proof {
                        lemma_blocks_failure_persists(old(self).scan_state(), sent, blocks@, i + 1);
                    }
                    return Err(e);
                },
                Ok(()) => {},
            }
            append_note_positions(&mut positions, b);
            prev = Some(b.height);
            i = i + 1;
        }
        assert(blocks@.take(i as int) =~= blocks@);
        let range = if blocks.len() == 0 {
            None
        } else {
            let first = &blocks[0];
            let last = &blocks[blocks.len() - 1];
            Some(ScannedRange {
                start: first.height,
                end: last.height + 1,
                sapling_start_position: (first.sapling_final_tree_size - first.sapling_commitment_count) as u64,
                orchard_start_position: (first.orchard_final_tree_size - first.orchard_commitment_count) as u64,
            })
        };
        Ok(PutBlocksOutcome { range, note_positions: positions })
    }

    /// Receives the outputs of transaction `txid` in protocol `p`, in order; see
    /// [`receive_outputs`].
    pub fn receive_wallet_outputs(
        &mut self,
        p: ShieldedProtocol,
        txid: TxId,
        outputs: &Vec<WalletOutput>,
        memos: &mut Vec<(NoteId, [u8; 512])>,
    )
        requires
            old(self).wf(),
            forall|i: int| 0 <= i < outputs@.len() ==> (#[trigger] outputs@[i]).index <= u16::MAX,
        ensures
            final(self).wf(),
            final(self).same_but_scan_state(old(self)),
            (final(self).scan_state(), final(memos)@) == receive_outputs(
                old(self).scan_state(),
                old(self).sent_notes.0.entries@,
                p,
                txid,
                outputs@,
                old(memos)@,
            ),
    {
        let ghost sent = self.sent_notes.0.entries@;
        let mut i: usize = 0;
        while i < outputs.len()
            invariant
                i <= outputs@.len(),
                self.wf(),
                self.same_but_scan_state(old(self)),
                sent == self.sent_notes.0.entries@,
                forall|k: int| 0 <= k < outputs@.len() ==> (#[trigger] outputs@[k]).index <= u16::MAX,
                (self.scan_state(), memos@) == receive_outputs(old(self).scan_state(), sent, p, txid, outputs@.take(i as int), old(memos)@),
            decreases outputs@.len() - i,
        {
            assert(outputs@.take(i + 1).drop_last() =~= outputs@.take(i as int));
            self.receive_wallet_output(p, txid, &outputs[i], memos);
            i = i + 1;
        }
        assert(outputs@.take(i as int) =~= outputs@);
    }
}

/// Once a spend fails, the rest of the spends change nothing.
proof fn lemma_spends_failure_persists(st: ScanState, p: ShieldedProtocol, nfs: Seq<[u8; 32]>, txid: TxId, i: int)
    requires
        0 <= i <= nfs.len(),
        mark_spends(st, p, nfs.take(i), txid).1 is Some,
    ensures
        mark_spends(st, p, nfs, txid) == mark_spends(st, p, nfs.take(i), txid),
    decreases nfs.len(),
{
    if i < nfs.len() {
        assert(nfs.drop_last().take(i) =~= nfs.take(i));
        lemma_spends_failure_persists(st, p, nfs.drop_last(), txid, i);
    } else {
        assert(nfs.take(i) =~= nfs);
    }
}


/// Once a transaction fails, the rest of the transactions change nothing.
proof fn lemma_txs_failure_persists(
    st: ScanState,
    sent: Seq<(SentNoteId, SentNote)>,
    txs: Seq<WalletTx>,
    memos: Seq<(NoteId, [u8; 512])>,
    i: int,
)
    requires
        0 <= i <= txs.len(),
        apply_txs(st, sent, txs.take(i), memos).2 is Some,
    ensures
        apply_txs(st, sent, txs, memos) == apply_txs(st, sent, txs.take(i), memos),
    decreases txs.len(),
{
    if i < txs.len() {
        assert(txs.drop_last().take(i) =~= txs.take(i));
        lemma_txs_failure_persists(st, sent, txs.drop_last(), memos, i);
    } else {
        assert(txs.take(i) =~= txs);
    }
}

/// Once a nullifier map entry fails, the rest change nothing.
proof fn lemma_nullifier_failure_persists(
    st: ScanState,
    height: BlockHeight,
    p: ShieldedProtocol,
    entries: Seq<(TxId, u16, Vec<[u8; 32]>)>,
    i: int,
)
    requires
        0 <= i <= entries.len(),
        insert_nullifier_entries(st, height, p, entries.take(i)).1 is Some,
    ensures
        insert_nullifier_entries(st, height, p, entries) == insert_nullifier_entries(st, height, p, entries.take(i)),
    decreases entries.len(),
{
    if i < entries.len() {
        assert(entries.drop_last().take(i) =~= entries.take(i));
        lemma_nullifier_failure_persists(st, height, p, entries.drop_last(), i);
    } else {
        assert(entries.take(i) =~= entries);
    }
}


/// Appends the note commitment tree positions of the block's outputs.
fn append_note_positions(positions: &mut Vec<(ShieldedProtocol, u64)>, b: &ScannedBlock)
    ensures
        final(positions)@ == old(positions)@ + txs_note_positions(b.transactions@),
{
    let mut i: usize = 0;
    while i < b.transactions.len()
        invariant
            i <= b.transactions@.len(),
            positions@ == old(positions)@ + txs_note_positions(b.transactions@.take(i as int)),
        decreases b.transactions@.len() - i,
    {
        let tx = &b.transactions[i];
        let ghost before = positions@;
        let mut k: usize = 0;
        while k < tx.sapling_outputs.len()
            invariant
                k <= tx.sapling_outputs@.len(),
                positions@ == before + tx.sapling_outputs@.take(k as int).map_values(
                    |o: WalletOutput| (ShieldedProtocol::Sapling, o.note_commitment_tree_position),
                ),
            decreases tx.sapling_outputs@.len() - k,
        {
            positions.push((ShieldedProtocol::Sapling, tx.sapling_outputs[k].note_commitment_tree_position));
            proof {
                assert(positions@ =~= before + tx.sapling_outputs@.take(k + 1).map_values(
                    |o: WalletOutput| (ShieldedProtocol::Sapling, o.note_commitment_tree_position),
                ));
            }
            k = k + 1;
        }
        assert(tx.sapling_outputs@.take(k as int) =~= tx.sapling_outputs@);
        let ghost middle = positions@;
        let mut k: usize = 0;
        while k < tx.orchard_outputs.len()
            invariant
                k <= tx.orchard_outputs@.len(),
                positions@ == middle + tx.orchard_outputs@.take(k as int).map_values(
                    |o: WalletOutput| (ShieldedProtocol::Orchard, o.note_commitment_tree_position),
                ),
            decreases tx.orchard_outputs@.len() - k,
        {
            positions.push((ShieldedProtocol::Orchard, tx.orchard_outputs[k].note_commitment_tree_position));
            proof {
                assert(positions@ =~= middle + tx.orchard_outputs@.take(k + 1).map_values(
                    |o: WalletOutput| (ShieldedProtocol::Orchard, o.note_commitment_tree_position),
                ));
            }
            k = k + 1;
        }
        assert(tx.orchard_outputs@.take(k as int) =~= tx.orchard_outputs@);
        proof {
            assert(b.transactions@.take(i + 1).drop_last() =~= b.transactions@.take(i as int));
            assert(positions@ =~= old(positions)@ + txs_note_positions(b.transactions@.take(i + 1)));
        }
        i = i + 1;
    }
    assert(b.transactions@.take(i as int) =~= b.transactions@);
}

/// Once a block fails, the rest of the blocks change nothing.
proof fn lemma_blocks_failure_persists(st: ScanState, sent: Seq<(SentNoteId, SentNote)>, blocks: Seq<ScannedBlock>, i: int)
    requires
        0 <= i <= blocks.len(),
        apply_blocks(st, sent, blocks.take(i)).1 is Some,
    ensures
        apply_blocks(st, sent, blocks) == apply_blocks(st, sent, blocks.take(i)),
    decreases blocks.len(),
{
    if i < blocks.len() {
        assert(blocks.drop_last().take(i) =~= blocks.take(i));
        lemma_blocks_failure_persists(st, sent, blocks.drop_last(), i);
    } else {
        assert(blocks.take(i) =~= blocks);
    }
}


/// Once a transaction fails to be stored, the rest change nothing.
proof fn lemma_store_failure_persists(st: ScanState, sent: Seq<(SentNoteId, SentNote)>, txs: Seq<SentTransaction>, i: int)
    requires
        0 <= i <= txs.len(),
        store_sent_txs(st, sent, txs.take(i)).2 is Some,
    ensures
        store_sent_txs(st, sent, txs) == store_sent_txs(st, sent, txs.take(i)),
    decreases txs.len(),
{
    if i < txs.len() {
        assert(txs.drop_last().take(i) =~= txs.take(i));
        lemma_store_failure_persists(st, sent, txs.drop_last(), i);
    } else {
        assert(txs.take(i) =~= txs);
    }
}


/// The nullifiers recorded at `loc`, each of them looked up, give `loc`.
pub proof fn lemma_insert_nullifiers(
    nullifiers: Seq<(Nullifier, TxLocation)>,
    loc: TxLocation,
    p: ShieldedProtocol,
    nfs: Seq<[u8; 32]>,
    k: int,
)
    requires
        seq_keys_distinct(nullifiers),
    ensures
        seq_keys_distinct(insert_nullifiers(nullifiers, loc, p, nfs)),
        0 <= k < nfs.len() ==> seq_lookup(insert_nullifiers(nullifiers, loc, p, nfs), nullifier_of(p, nfs[k])@) == Some(loc),
    decreases nfs.len(),
{
    if nfs.len() > 0 {
        let rest = insert_nullifiers(nullifiers, loc, p, nfs.drop_last());
        lemma_insert_nullifiers(nullifiers, loc, p, nfs.drop_last(), k);
        lemma_seq_inserted(rest, nullifier_of(p, nfs.last()), loc, nullifier_of(p, nfs[k])@);
    }
}

/// Scanning finds spends out of order: where a block records that the transaction
/// at a position not yet recorded reveals a nullifier, a note with that nullifier
/// received afterwards is recorded as spent by that transaction.
pub proof fn lemma_scan_detects_spends_out_of_order(
    st: ScanState,
    sent: Seq<(SentNoteId, SentNote)>,
    height: BlockHeight,
    p: ShieldedProtocol,
    spender: TxId,
    index: u16,
    nfs: Vec<[u8; 32]>,
    k: int,
    txid: TxId,
    o: WalletOutput,
)
    requires
        seq_keys_distinct(st.spends),
        seq_keys_distinct(st.nullifiers),
        seq_keys_distinct(st.locator),
        seq_lookup(st.locator, (height, index as u32)) is None,
        0 <= k < nfs@.len(),
        o.nf == Some(nfs@[k]),
    ensures
        ({
            let (s2, f) = insert_nullifier_entries(st, height, p, seq![(spender, index, nfs)]);
            &&& f is None
            &&& seq_lookup(receive_output(s2, sent, p, txid, o).0.spends, output_note_id(txid, p, o)@) == Some(spender)
        }),
{
    let entries = seq![(spender, index, nfs)];
    assert(entries.drop_last() =~= Seq::<(TxId, u16, Vec<[u8; 32]>)>::empty());
    let loc = TxLocation { height, index: index as u32 };
    assert(insert_nullifier_entries(st, height, p, entries.drop_last()) == (st, None::<Failure>));
    assert(entries.last() == (spender, index, nfs));
    let (s2, f) = insert_nullifier_entries(st, height, p, entries);
    lemma_seq_inserted(st.locator, loc, spender, loc@);
    lemma_insert_nullifiers(st.nullifiers, loc, p, nfs@, k);
    assert(seq_lookup(s2.nullifiers, nullifier_of(p, nfs@[k])@) == Some(loc));
    assert(seq_lookup(s2.locator, loc@) == Some(spender));
    assert(spent_in(s2, p, o) == Some(spender));
    let id = output_note_id(txid, p, o);
    lemma_seq_inserted(s2.spends, id, spender, id@);
}

/// A spend seen before the note it spends: where the wallet already holds, from
/// blocks taken in earlier (by an earlier call or earlier in the same one), that
/// the nullifier of an output was revealed by the transaction at a known position,
/// receiving the output records the note as spent by that transaction.
pub proof fn lemma_earlier_spend_marks_received_note(
    st: ScanState,
    sent: Seq<(SentNoteId, SentNote)>,
    p: ShieldedProtocol,
    txid: TxId,
    o: WalletOutput,
    loc: TxLocation,
    spender: TxId,
)
    requires
        seq_keys_distinct(st.spends),
        output_nullifier(p, o) matches Some(nf) && seq_lookup(st.nullifiers, nf@) == Some(loc),
        seq_lookup(st.locator, loc@) == Some(spender),
    ensures
        seq_lookup(receive_output(st, sent, p, txid, o).0.spends, output_note_id(txid, p, o)@) == Some(spender),
{
    let id = output_note_id(txid, p, o);
    lemma_seq_inserted(st.spends, id, spender, id@);
}

/// Scanning finds spends out of order, across calls: where blocks taken in
/// earlier left the record that the transaction `spender` at a known position
/// revealed a Sapling nullifier, a later block whose one transaction spends
/// nothing and has one Sapling output with that nullifier (and no map of revealed
/// nullifiers of its own) is taken in without failure, and its note is recorded
/// as spent by `spender`: the state it would have, had the blocks come in order.
pub proof fn lemma_out_of_order_spend_across_blocks(
    st: ScanState,
    sent: Seq<(SentNoteId, SentNote)>,
    b: ScannedBlock,
    tx: WalletTx,
    o: WalletOutput,
    nf: [u8; 32],
    loc: TxLocation,
    spender: TxId,
)
    requires
        seq_keys_distinct(st.spends),
        seq_lookup(st.nullifiers, nullifier_of(ShieldedProtocol::Sapling, nf)@) == Some(loc),
        seq_lookup(st.locator, loc@) == Some(spender),
        b.transactions@ == seq![tx],
        tx.sapling_spends@.len() == 0,
        tx.orchard_spends@.len() == 0,
        tx.sapling_outputs@ == seq![o],
        tx.orchard_outputs@.len() == 0,
        o.nf == Some(nf),
        b.sapling_nullifier_map@.len() == 0,
        b.orchard_nullifier_map@.len() == 0,
    ensures
        apply_blocks(st, sent, seq![b]).1 is None,
        seq_lookup(
            apply_blocks(st, sent, seq![b]).0.spends,
            output_note_id(tx.txid, ShieldedProtocol::Sapling, o)@,
        ) == Some(spender),
{
    let blocks = seq![b];
    assert(blocks.drop_last() =~= Seq::<ScannedBlock>::empty());
    let txs = b.transactions@;
    assert(txs.drop_last() =~= Seq::<WalletTx>::empty());
    assert(txs.last() == tx);
    let outs = tx.sapling_outputs@;
    assert(outs.drop_last() =~= Seq::<WalletOutput>::empty());
    assert(outs.last() == o);
    assert(mark_spends(st, ShieldedProtocol::Sapling, tx.sapling_spends@, tx.txid) == (st, None::<Failure>));
    assert(mark_spends(st, ShieldedProtocol::Orchard, tx.orchard_spends@, tx.txid) == (st, None::<Failure>));
    let empty_memos = Seq::<(NoteId, [u8; 512])>::empty();
    let (s3, m3) = receive_outputs(st, sent, ShieldedProtocol::Sapling, tx.txid, outs, empty_memos);
    let (s_one, _) = receive_output(st, sent, ShieldedProtocol::Sapling, tx.txid, o);
    assert(receive_outputs(st, sent, ShieldedProtocol::Sapling, tx.txid, outs.drop_last(), empty_memos) == (st, empty_memos));
    assert(s3 == s_one);
    lemma_earlier_spend_marks_received_note(st, sent, ShieldedProtocol::Sapling, tx.txid, o, loc, spender);
    assert(receive_outputs(s3, sent, ShieldedProtocol::Orchard, tx.txid, tx.orchard_outputs@, m3) == (s3, m3));
    assert(apply_txs(st, sent, txs.drop_last(), empty_memos) == (st, empty_memos, None::<Failure>));
    assert(apply_txs(st, sent, txs, empty_memos) == apply_tx(st, sent, tx, empty_memos));
    assert(insert_nullifier_entries(s3, b.height, ShieldedProtocol::Sapling, b.sapling_nullifier_map@) == (s3, None::<Failure>));
    assert(insert_nullifier_entries(s3, b.height, ShieldedProtocol::Orchard, b.orchard_nullifier_map@) == (s3, None::<Failure>));
    assert(apply_blocks(st, sent, blocks.drop_last()) == (st, None::<Failure>));
    assert(apply_blocks(st, sent, blocks) == apply_block(st, sent, b));
}

/// A block in which the wallet finds no transaction of its own, and whose map
/// reveals one Sapling nullifier `nf` in transaction `txid` at position `index`,
/// is taken in without failure; it records where `nf` was revealed and which
/// transaction stands there, and leaves the notes and their spends as they were.
proof fn lemma_reveal_nullifier_block(
    st: ScanState,
    sent: Seq<(SentNoteId, SentNote)>,
    b: ScannedBlock,
    txid: TxId,
    index: u16,
    nf: [u8; 32],
)
    requires
        seq_keys_distinct(st.nullifiers),
        seq_keys_distinct(st.locator),
        seq_lookup(st.locator, (TxLocation { height: b.height, index: index as u32 })@) is None,
        b.transactions@.len() == 0,
        b.sapling_nullifier_map@.len() == 1,
        b.sapling_nullifier_map@[0].0 == txid,
        b.sapling_nullifier_map@[0].1 == index,
        b.sapling_nullifier_map@[0].2@ == seq![nf],
        b.orchard_nullifier_map@.len() == 0,
    ensures
        apply_blocks(st, sent, seq![b]).1 is None,
        apply_blocks(st, sent, seq![b]).0.notes == st.notes,
        apply_blocks(st, sent, seq![b]).0.spends == st.spends,
        seq_lookup(apply_blocks(st, sent, seq![b]).0.nullifiers, nullifier_of(ShieldedProtocol::Sapling, nf)@)
            == Some(TxLocation { height: b.height, index: index as u32 }),
        seq_lookup(apply_blocks(st, sent, seq![b]).0.locator, (TxLocation { height: b.height, index: index as u32 })@)
            == Some(txid),
{
    let loc = TxLocation { height: b.height, index: index as u32 };
    let blocks = seq![b];
    assert(blocks.drop_last() =~= Seq::<ScannedBlock>::empty());
    assert(apply_blocks(st, sent, blocks.drop_last()) == (st, None::<Failure>));
    assert(apply_blocks(st, sent, blocks) == apply_block(st, sent, b));
    let empty_memos = Seq::<(NoteId, [u8; 512])>::empty();
    assert(apply_txs(st, sent, b.transactions@, empty_memos) == (st, empty_memos, None::<Failure>));
    let entries = b.sapling_nullifier_map@;
    assert(entries.drop_last() =~= Seq::<(TxId, u16, Vec<[u8; 32]>)>::empty());
    assert(insert_nullifier_entries(st, b.height, ShieldedProtocol::Sapling, entries.drop_last()) == (st, None::<Failure>));
    let nfs = entries[0].2@;
    assert(nfs.drop_last() =~= Seq::<[u8; 32]>::empty());
    assert(insert_nullifiers(st.nullifiers, loc, ShieldedProtocol::Sapling, nfs.drop_last()) == st.nullifiers);
    let nullifiers = seq_inserted(st.nullifiers, nullifier_of(ShieldedProtocol::Sapling, nf), loc);
    assert(insert_nullifiers(st.nullifiers, loc, ShieldedProtocol::Sapling, nfs) == nullifiers);
    let s2 = ScanState { locator: seq_inserted(st.locator, loc, txid), nullifiers, ..st };
    assert(insert_nullifier_entries(st, b.height, ShieldedProtocol::Sapling, entries) == (s2, None::<Failure>));
    assert(insert_nullifier_entries(s2, b.height, ShieldedProtocol::Orchard, b.orchard_nullifier_map@) == (s2, None::<Failure>));
    lemma_seq_inserted(st.nullifiers, nullifier_of(ShieldedProtocol::Sapling, nf), loc, nullifier_of(ShieldedProtocol::Sapling, nf)@);
    lemma_seq_inserted(st.locator, loc, txid, loc@);
}

/// A block whose one transaction spends nothing and has one Sapling output `o`,
/// of which the wallet holds no note, and whose nullifier was not seen before, is
/// taken in without failure (where its maps of revealed nullifiers are empty): the
/// note is appended to the notes, and nothing is recorded as spent.
proof fn lemma_receive_unspent_block(
    st: ScanState,
    sent: Seq<(SentNoteId, SentNote)>,
    b: ScannedBlock,
    tx: WalletTx,
    o: WalletOutput,
    nf: [u8; 32],
)
    requires
        !notes_have(st.notes, output_note_id(tx.txid, ShieldedProtocol::Sapling, o)@),
        seq_lookup(st.nullifiers, nullifier_of(ShieldedProtocol::Sapling, nf)@) is None,
        b.transactions@ == seq![tx],
        tx.sapling_spends@.len() == 0,
        tx.orchard_spends@.len() == 0,
        tx.sapling_outputs@ == seq![o],
        tx.orchard_outputs@.len() == 0,
        o.nf == Some(nf),
        b.sapling_nullifier_map@.len() == 0,
        b.orchard_nullifier_map@.len() == 0,
    ensures
        apply_blocks(st, sent, seq![b]).1 is None,
        apply_blocks(st, sent, seq![b]).0.notes == st.notes.push(received_from_output(
            output_note_id(tx.txid, ShieldedProtocol::Sapling, o),
            o,
            Some(nullifier_of(ShieldedProtocol::Sapling, nf)),
            empty_memo_value(),
        )),
        apply_blocks(st, sent, seq![b]).0.spends == st.spends,
        apply_blocks(st, sent, seq![b]).0.nullifiers == st.nullifiers,
        apply_blocks(st, sent, seq![b]).0.locator == st.locator,
{
    let blocks = seq![b];
    assert(blocks.drop_last() =~= Seq::<ScannedBlock>::empty());
    let txs = b.transactions@;
    assert(txs.drop_last() =~= Seq::<WalletTx>::empty());
    assert(txs.last() == tx);
    let outs = tx.sapling_outputs@;
    assert(outs.drop_last() =~= Seq::<WalletOutput>::empty());
    assert(outs.last() == o);
    assert(mark_spends(st, ShieldedProtocol::Sapling, tx.sapling_spends@, tx.txid) == (st, None::<Failure>));
    assert(mark_spends(st, ShieldedProtocol::Orchard, tx.orchard_spends@, tx.txid) == (st, None::<Failure>));
    let empty_memos = Seq::<(NoteId, [u8; 512])>::empty();
    assert(receive_outputs(st, sent, ShieldedProtocol::Sapling, tx.txid, outs.drop_last(), empty_memos) == (st, empty_memos));
    let (s3, m3) = receive_outputs(st, sent, ShieldedProtocol::Sapling, tx.txid, outs, empty_memos);
    assert(spent_in(st, ShieldedProtocol::Sapling, o) is None);
    assert(receive_outputs(s3, sent, ShieldedProtocol::Orchard, tx.txid, tx.orchard_outputs@, m3) == (s3, m3));
    assert(apply_txs(st, sent, txs.drop_last(), empty_memos) == (st, empty_memos, None::<Failure>));
    assert(apply_txs(st, sent, txs, empty_memos) == apply_tx(st, sent, tx, empty_memos));
    assert(insert_nullifier_entries(s3, b.height, ShieldedProtocol::Sapling, b.sapling_nullifier_map@) == (s3, None::<Failure>));
    assert(insert_nullifier_entries(s3, b.height, ShieldedProtocol::Orchard, b.orchard_nullifier_map@) == (s3, None::<Failure>));
    assert(apply_blocks(st, sent, blocks.drop_last()) == (st, None::<Failure>));
    assert(apply_blocks(st, sent, blocks) == apply_block(st, sent, b));
}

/// A block whose one transaction `tx` spends the Sapling nullifier `nf`, and has
/// no output of the wallet, is taken in without failure where the wallet holds a
/// note carrying `nf` (and where the block's map records `tx` at a free position,
/// or is empty): the first note carrying `nf` is recorded as spent by `tx`.
proof fn lemma_spend_block(
    st: ScanState,
    sent: Seq<(SentNoteId, SentNote)>,
    b: ScannedBlock,
    tx: WalletTx,
    index: u16,
    nf: [u8; 32],
)
    requires
        seq_keys_distinct(st.spends),
        first_with_nullifier(st.notes, nullifier_of(ShieldedProtocol::Sapling, nf)@) is Some,
        seq_lookup(st.locator, (TxLocation { height: b.height, index: index as u32 })@) is None,
        b.transactions@ == seq![tx],
        tx.sapling_spends@ == seq![nf],
        tx.orchard_spends@.len() == 0,
        tx.sapling_outputs@.len() == 0,
        tx.orchard_outputs@.len() == 0,
        b.sapling_nullifier_map@.len() <= 1,
        b.sapling_nullifier_map@.len() == 1 ==> b.sapling_nullifier_map@[0].0 == tx.txid
            && b.sapling_nullifier_map@[0].1 == index,
        b.orchard_nullifier_map@.len() == 0,
    ensures
        apply_blocks(st, sent, seq![b]).1 is None,
        seq_lookup(
            apply_blocks(st, sent, seq![b]).0.spends,
            st.notes[first_with_nullifier(st.notes, nullifier_of(ShieldedProtocol::Sapling, nf)@)->0].note_id@,
        ) == Some(tx.txid),
{
    let loc = TxLocation { height: b.height, index: index as u32 };
    let blocks = seq![b];
    assert(blocks.drop_last() =~= Seq::<ScannedBlock>::empty());
    let txs = b.transactions@;
    assert(txs.drop_last() =~= Seq::<WalletTx>::empty());
    assert(txs.last() == tx);
    let spends = tx.sapling_spends@;
    assert(spends.drop_last() =~= Seq::<[u8; 32]>::empty());
    assert(mark_spends(st, ShieldedProtocol::Sapling, spends.drop_last(), tx.txid) == (st, None::<Failure>));
    lemma_spend_recorded(st, ShieldedProtocol::Sapling, nf, tx.txid);
    let s1 = mark_spent(st, ShieldedProtocol::Sapling, nf, tx.txid)->0;
    assert(mark_spends(st, ShieldedProtocol::Sapling, spends, tx.txid) == (s1, None::<Failure>));
    assert(mark_spends(s1, ShieldedProtocol::Orchard, tx.orchard_spends@, tx.txid) == (s1, None::<Failure>));
    let empty_memos = Seq::<(NoteId, [u8; 512])>::empty();
    assert(receive_outputs(s1, sent, ShieldedProtocol::Sapling, tx.txid, tx.sapling_outputs@, empty_memos) == (s1, empty_memos));
    assert(receive_outputs(s1, sent, ShieldedProtocol::Orchard, tx.txid, tx.orchard_outputs@, empty_memos) == (s1, empty_memos));
    assert(apply_txs(st, sent, txs.drop_last(), empty_memos) == (st, empty_memos, None::<Failure>));
    assert(apply_txs(st, sent, txs, empty_memos) == apply_tx(st, sent, tx, empty_memos));
    let entries = b.sapling_nullifier_map@;
    let (s2, f2) = insert_nullifier_entries(s1, b.height, ShieldedProtocol::Sapling, entries);
    if entries.len() == 1 {
        assert(entries.drop_last() =~= Seq::<(TxId, u16, Vec<[u8; 32]>)>::empty());
        assert(insert_nullifier_entries(s1, b.height, ShieldedProtocol::Sapling, entries.drop_last()) == (s1, None::<Failure>));
        assert(s1.locator == st.locator);
    }
    assert(f2 is None && s2.spends == s1.spends);
    assert(insert_nullifier_entries(s2, b.height, ShieldedProtocol::Orchard, b.orchard_nullifier_map@) == (s2, None::<Failure>));
    assert(apply_blocks(st, sent, blocks.drop_last()) == (st, None::<Failure>));
    assert(apply_blocks(st, sent, blocks) == apply_block(st, sent, b));
}

/// Scanning finds a spend whichever of the two blocks comes first. Take a wallet
/// that holds no note of output `o` (a Sapling output of transaction `t1`, with
/// nullifier `nf`) and has not seen `nf`, and a position `index` of the spending
/// block that is still free. Out of order: the spending block is scanned first,
/// when the wallet finds no transaction of its own there and only its map reveals
/// `nf` in `t2`; then the block of `o`. In order: the block of `o` first; then the
/// spending block, now with `t2` as a transaction of the wallet that spends `nf`.
/// Each block is taken in without failure, and either way the note of `o` is
/// recorded as spent by `t2`.
pub proof fn lemma_spend_found_in_either_order(
    st: ScanState,
    sent: Seq<(SentNoteId, SentNote)>,
    receiving: ScannedBlock,
    t1: WalletTx,
    o: WalletOutput,
    nf: [u8; 32],
    spending_unaware: ScannedBlock,
    spending_aware: ScannedBlock,
    t2: WalletTx,
    index: u16,
)
    requires
        seq_keys_distinct(st.spends),
        seq_keys_distinct(st.nullifiers),
        seq_keys_distinct(st.locator),
        !notes_have(st.notes, output_note_id(t1.txid, ShieldedProtocol::Sapling, o)@),
        first_with_nullifier(st.notes, nullifier_of(ShieldedProtocol::Sapling, nf)@) is None,
        seq_lookup(st.nullifiers, nullifier_of(ShieldedProtocol::Sapling, nf)@) is None,
        seq_lookup(st.locator, (TxLocation { height: spending_unaware.height, index: index as u32 })@) is None,
        receiving.transactions@ == seq![t1],
        t1.sapling_spends@.len() == 0,
        t1.orchard_spends@.len() == 0,
        t1.sapling_outputs@ == seq![o],
        t1.orchard_outputs@.len() == 0,
        o.nf == Some(nf),
        receiving.sapling_nullifier_map@.len() == 0,
        receiving.orchard_nullifier_map@.len() == 0,
        spending_unaware.transactions@.len() == 0,
        spending_unaware.sapling_nullifier_map@.len() == 1,
        spending_unaware.sapling_nullifier_map@[0].0 == t2.txid,
        spending_unaware.sapling_nullifier_map@[0].1 == index,
        spending_unaware.sapling_nullifier_map@[0].2@ == seq![nf],
        spending_unaware.orchard_nullifier_map@.len() == 0,
        spending_aware.height == spending_unaware.height,
        spending_aware.transactions@ == seq![t2],
        t2.sapling_spends@ == seq![nf],
        t2.orchard_spends@.len() == 0,
        t2.sapling_outputs@.len() == 0,
        t2.orchard_outputs@.len() == 0,
        spending_aware.sapling_nullifier_map@ == spending_unaware.sapling_nullifier_map@,
        spending_aware.orchard_nullifier_map@.len() == 0,
    ensures
        ({
            let first = apply_blocks(st, sent, seq![spending_unaware]);
            let then = apply_blocks(first.0, sent, seq![receiving]);
            &&& first.1 is None
            &&& then.1 is None
            &&& seq_lookup(then.0.spends, output_note_id(t1.txid, ShieldedProtocol::Sapling, o)@) == Some(t2.txid)
        }),
        ({
            let first = apply_blocks(st, sent, seq![receiving]);
            let then = apply_blocks(first.0, sent, seq![spending_aware]);
            &&& first.1 is None
            &&& then.1 is None
            &&& seq_lookup(then.0.spends, output_note_id(t1.txid, ShieldedProtocol::Sapling, o)@) == Some(t2.txid)
        }),
{
    let loc = TxLocation { height: spending_unaware.height, index: index as u32 };
    // Out of order.
    lemma_reveal_nullifier_block(st, sent, spending_unaware, t2.txid, index, nf);
    let mid = apply_blocks(st, sent, seq![spending_unaware]).0;
    lemma_out_of_order_spend_across_blocks(mid, sent, receiving, t1, o, nf, loc, t2.txid);
    // In order.
    lemma_receive_unspent_block(st, sent, receiving, t1, o, nf);
    let got = apply_blocks(st, sent, seq![receiving]).0;
    let id = output_note_id(t1.txid, ShieldedProtocol::Sapling, o);
    let note = received_from_output(id, o, Some(nullifier_of(ShieldedProtocol::Sapling, nf)), empty_memo_value());
    let n = st.notes.len() as int;
    let key = nullifier_of(ShieldedProtocol::Sapling, nf)@;
    assert(has_nullifier(got.notes[n], key));
    assert(first_with_nullifier(got.notes, key) == Some(n)) by {
        assert(forall|j: int| 0 <= j < n ==> got.notes[j] == st.notes[j]);
        assert(forall|j: int| 0 <= j < n ==> !has_nullifier(#[trigger] st.notes[j], key));
        let i = first_with_nullifier(got.notes, key)->0;
        if i < n {
            assert(has_nullifier(st.notes[i], key));
        }
        if i > n {
            assert(!has_nullifier(got.notes[n], key));
        }
    }
    lemma_spend_block(got, sent, spending_aware, t2, index, nf);
    assert(got.notes[n].note_id == id);
}

/// Marking a spend of a nullifier that a note carries records the spending
/// transaction for the first note that carries it.
pub proof fn lemma_spend_recorded(st: ScanState, p: ShieldedProtocol, nf: [u8; 32], txid: TxId)
    requires
        seq_keys_distinct(st.spends),
        first_with_nullifier(st.notes, nullifier_of(p, nf)@) is Some,
    ensures
        mark_spent(st, p, nf, txid) is Some,
        seq_lookup(
            mark_spent(st, p, nf, txid)->0.spends,
            st.notes[first_with_nullifier(st.notes, nullifier_of(p, nf)@)->0].note_id@,
        ) == Some(txid),
{
    let i = first_with_nullifier(st.notes, nullifier_of(p, nf)@)->0;
    lemma_seq_inserted(st.spends, st.notes[i].note_id, txid, st.notes[i].note_id@);
}

/// Reading back the status of a transaction gives what was set.
pub proof fn lemma_status_read_back(txs: Seq<(TxId, TransactionEntry)>, txid: TxId, e: TransactionEntry, status: TransactionStatus)
    requires
        seq_keys_distinct(txs),
    ensures
        seq_lookup(seq_inserted(txs, txid, TransactionEntry { tx_status: status, ..e }), txid@)->0.tx_status == status,
        seq_lookup(seq_inserted(txs, txid, TransactionEntry { tx_status: status, ..e }), txid@) is Some,
{
    lemma_seq_inserted(txs, txid, TransactionEntry { tx_status: status, ..e }, txid@);
}

} // verus!
