// Wallet scenarios: a wallet receives notes from scanned blocks, sends
// transactions that spend them, and keeps its note commitment tree checkpoints
// and scan plan in step with the chain.

use zcash_client_memory::account::{AccountBirthday, AccountSource, ChainState};
use zcash_client_memory::checkpoints::{ensure_checkpoints, Checkpoint};
use zcash_client_memory::error::Error;
use zcash_client_memory::notes::{Note, Rseed, WalletOutput};
use zcash_client_memory::proto::{AccountPurpose, ScanPriority};
use zcash_client_memory::scanning::ScanRange;
use zcash_client_memory::sent::{Recipient, SentTransaction, SentTransactionOutput};
use zcash_client_memory::types::{
    AccountId, Network, NoteId, OutPoint, PoolType, Scope, ShieldedProtocol, TransactionStatus, TransparentAddress,
    TxId,
};
use zcash_client_memory::wallet::{MemoryWalletDb, SeedRelevance};
use zcash_client_memory::transparent::{TxOut, WalletTransparentOutput};
use zcash_client_memory::wallet_write::{ScannedBlock, WalletTx};
use zcash_transparent::keys::IncomingViewingKey;

const BIRTHDAY: u32 = 300_000;

fn txid(b: u8) -> TxId {
    TxId([b; 32])
}

fn birthday(height: u32) -> AccountBirthday {
    AccountBirthday {
        prior_chain_state: ChainState {
            block_height: height - 1,
            block_hash: [0; 32],
            final_sapling_tree: vec![],
            final_orchard_tree: vec![],
        },
        recover_until: None,
    }
}

/// The encoded unified full viewing key of account 0 of a seed of 32 copies of
/// `seed_byte`, on the test network.
fn test_ufvk(seed_byte: u8) -> String {
    let params = zcash_protocol::consensus::Network::TestNetwork;
    let usk = zcash_keys::keys::UnifiedSpendingKey::from_seed(&params, &[seed_byte; 32], zip32::AccountId::ZERO).unwrap();
    usk.to_unified_full_viewing_key().encode(&params).unwrap()
}

fn wallet_with_account() -> (MemoryWalletDb, AccountId) {
    let mut db = MemoryWalletDb::new(Network::TestNetwork);
    let id = db.import_account_ufvk(test_ufvk(1), birthday(BIRTHDAY), AccountPurpose::Spending).unwrap();
    (db, id)
}

fn sapling_note(value: u64) -> Note {
    Note::Sapling { recipient: [7; 43], value, rseed: Rseed::AfterZip212([3; 32]) }
}

fn orchard_note(value: u64) -> Note {
    Note::Orchard { recipient: [9; 43], value, rho: [1; 32], random_seed: [2; 32] }
}

fn output(index: usize, account: AccountId, note: Note, nf: Option<[u8; 32]>, position: u64) -> WalletOutput {
    WalletOutput {
        index,
        account_id: account,
        note,
        is_change: false,
        nf,
        note_commitment_tree_position: position,
        recipient_key_scope: Some(Scope::External),
    }
}

fn receiving_tx(id: TxId, block_index: usize, sapling: Vec<WalletOutput>, orchard: Vec<WalletOutput>) -> WalletTx {
    WalletTx {
        txid: id,
        block_index,
        sapling_spends: vec![],
        orchard_spends: vec![],
        sapling_outputs: sapling,
        orchard_outputs: orchard,
    }
}

fn block(height: u32, transactions: Vec<WalletTx>) -> ScannedBlock {
    ScannedBlock {
        height,
        hash: [height as u8; 32],
        block_time: 1_700_000_000 + height,
        sapling_final_tree_size: 10,
        sapling_commitment_count: 2,
        orchard_final_tree_size: 4,
        orchard_commitment_count: 1,
        transactions,
        sapling_nullifier_map: vec![],
        orchard_nullifier_map: vec![],
    }
}

fn memo(b: u8) -> [u8; 512] {
    let mut m = [0u8; 512];
    m[0] = b;
    m
}

fn sent_tx(id: TxId, account: AccountId, sapling_spends: Vec<[u8; 32]>, outputs: Vec<SentTransactionOutput>) -> SentTransaction {
    SentTransaction {
        txid: id,
        account_id: account,
        expiry_height: BIRTHDAY + 40,
        raw: vec![5, 0, 0, 128],
        fee: 10_000,
        target_height: BIRTHDAY + 2,
        sapling_spend_nullifiers: sapling_spends,
        orchard_action_nullifiers: vec![],
        has_orchard_bundle: false,
        utxos_spent: vec![],
        outputs,
    }
}

fn external(index: usize, pool: PoolType, value: u64) -> SentTransactionOutput {
    SentTransactionOutput {
        output_index: index,
        recipient: Recipient::External("utest1recipient".to_string(), pool),
        value,
        memo: match pool {
            PoolType::Transparent => None,
            PoolType::Shielded(_) => Some(memo(0xF6)),
        },
    }
}

fn change(index: usize, account: AccountId, note: Note) -> SentTransactionOutput {
    let value = match note {
        Note::Sapling { value, .. } => value,
        Note::Orchard { value, .. } => value,
    };
    SentTransactionOutput {
        output_index: index,
        recipient: Recipient::InternalAccount { receiving_account: account, external_address: None, note },
        value,
        memo: Some(memo(0xF6)),
    }
}

fn scanned_through(db: &mut MemoryWalletDb, end: u32) {
    db.scan_queue = vec![ScanRange { start: BIRTHDAY, end, priority: ScanPriority::Scanned }];
}

/// Receives a Sapling note of `value` in block `BIRTHDAY`, in transaction `0xA1`.
fn receive_sapling(db: &mut MemoryWalletDb, account: AccountId, value: u64, nf: [u8; 32]) -> NoteId {
    let tx = receiving_tx(txid(0xA1), 0, vec![output(0, account, sapling_note(value), Some(nf), 0)], vec![]);
    db.put_blocks(&vec![block(BIRTHDAY, vec![tx])]).unwrap();
    NoteId::new(txid(0xA1), ShieldedProtocol::Sapling, 0)
}

#[test]
fn pool_send_single_step_proposed_transfer() {
    let (mut db, account) = wallet_with_account();
    let received = receive_sapling(&mut db, account, 60_000, [0x11; 32]);
    scanned_through(&mut db, BIRTHDAY + 1);

    let summary = db.get_wallet_summary(&vec![false]).unwrap().unwrap();
    assert_eq!(summary.chain_tip_height, BIRTHDAY);
    assert_eq!(summary.fully_scanned_height, BIRTHDAY);
    assert_eq!(summary.account_balances[0].sapling_spendable, 60_000);
    // No shard root is recorded.
    assert_eq!(summary.next_sapling_subtree_index, 0);
    assert_eq!(summary.next_orchard_subtree_index, 0);

    let send = sent_tx(
        txid(0xB2),
        account,
        vec![[0x11; 32]],
        vec![external(0, PoolType::Shielded(ShieldedProtocol::Sapling), 10_000), change(1, account, sapling_note(40_000))],
    );
    db.store_transactions_to_be_sent(vec![send]).unwrap();

    assert_eq!(db.received_note_spends.get(&received), Some(&txid(0xB2)));
    assert_eq!(db.tx_table.tx_status(&txid(0xB2)), Some(TransactionStatus::NotInMainChain));
    assert_eq!(db.tx_table.expiry_height(&txid(0xB2)), Some(BIRTHDAY + 40));
    let sent_ids = db.get_sent_note_ids(&txid(0xB2), ShieldedProtocol::Sapling);
    assert_eq!(sent_ids.len(), 2);
    assert_eq!(sent_ids[0], NoteId::new(txid(0xB2), ShieldedProtocol::Sapling, 0));
    let change_id = NoteId::new(txid(0xB2), ShieldedProtocol::Sapling, 1);
    let change_note = db.received_notes.get(&change_id).unwrap();
    assert!(change_note.is_change);
    assert_eq!(change_note.account_id, account);
    assert_eq!(db.get_memo(&change_id), Some(memo(0xF6)));

    // The transaction is mined in the next block.
    let mut mined = receiving_tx(txid(0xB2), 3, vec![], vec![]);
    mined.sapling_spends = vec![[0x11; 32]];
    db.put_blocks(&vec![block(BIRTHDAY + 1, vec![mined])]).unwrap();
    assert_eq!(db.get_tx_height(txid(0xB2)), Some(BIRTHDAY + 1));
    assert_eq!(db.get_max_height_hash(), Some((BIRTHDAY + 1, [(BIRTHDAY + 1) as u8; 32])));
}

#[test]
fn send_single_step_proposed_transfer() {
    // The same transfer from the Orchard pool.
    let (mut db, account) = wallet_with_account();
    let tx = receiving_tx(txid(0xA2), 0, vec![], vec![output(0, account, orchard_note(60_000), Some([0x13; 32]), 0)]);
    db.put_blocks(&vec![block(BIRTHDAY, vec![tx])]).unwrap();
    let received = NoteId::new(txid(0xA2), ShieldedProtocol::Orchard, 0);
    scanned_through(&mut db, BIRTHDAY + 1);
    let summary = db.get_wallet_summary(&vec![false]).unwrap().unwrap();
    assert_eq!(summary.account_balances[0].orchard_spendable, 60_000);
    assert_eq!(summary.account_balances[0].sapling_spendable, 0);

    let mut send = sent_tx(
        txid(0xB3),
        account,
        vec![],
        vec![external(0, PoolType::Shielded(ShieldedProtocol::Orchard), 10_000), change(1, account, orchard_note(40_000))],
    );
    send.orchard_action_nullifiers = vec![[0x13; 32], [0x14; 32]];
    send.has_orchard_bundle = true;
    db.store_transactions_to_be_sent(vec![send]).unwrap();
    assert_eq!(db.received_note_spends.get(&received), Some(&txid(0xB3)));
    assert_eq!(db.get_sent_note_ids(&txid(0xB3), ShieldedProtocol::Orchard).len(), 2);
    let change_note = db.received_notes.get(&NoteId::new(txid(0xB3), ShieldedProtocol::Orchard, 1)).unwrap();
    assert!(change_note.is_change);
    assert_eq!(change_note.account_id, account);
}

#[test]
fn send_multi_step_proposed_transfer() {
    let (mut db, account) = wallet_with_account();
    let received = receive_sapling(&mut db, account, 100_000, [0x21; 32]);
    let ephemeral = TransparentAddress::PublicKeyHash([4; 20]);
    let first = sent_tx(
        txid(0xC1),
        account,
        vec![[0x21; 32]],
        vec![SentTransactionOutput {
            output_index: 0,
            recipient: Recipient::EphemeralTransparent {
                receiving_account: account,
                ephemeral_address: ephemeral,
                outpoint_metadata: OutPoint { txid: txid(0xC1), n: 0 },
            },
            value: 90_000,
            memo: None,
        }],
    );
    db.store_transactions_to_be_sent(vec![first]).unwrap();
    assert_eq!(db.received_note_spends.get(&received), Some(&txid(0xC1)));
    // The output to the ephemeral address is recorded as sent, not as received.
    assert_eq!(db.get_sent_note_ids(&txid(0xC1), ShieldedProtocol::Sapling).len(), 0);
    assert_eq!(db.sent_notes.0.len(), 1);
    assert!(db.received_notes.get(&NoteId::new(txid(0xC1), ShieldedProtocol::Sapling, 0)).is_none());
}

#[test]
fn create_to_address_fails_on_incorrect_usk() {
    let params = zcash_protocol::consensus::Network::TestNetwork;
    let seed = [7u8; 32];
    let other_seed = [8u8; 32];
    let usk = zcash_keys::keys::UnifiedSpendingKey::from_seed(&params, &seed, zip32::AccountId::ZERO).unwrap();
    let ufvk = usk.to_unified_full_viewing_key().encode(&params).unwrap();
    let fingerprint = zip32::fingerprint::SeedFingerprint::from_seed(&seed).unwrap().to_bytes();

    let mut db = MemoryWalletDb::new(Network::TestNetwork);
    let id = db
        .accounts
        .new_account(
            AccountSource::Derived { seed_fingerprint: fingerprint, account_index: 0 },
            ufvk,
            birthday(BIRTHDAY),
            AccountPurpose::Spending,
            Network::TestNetwork,
        )
        .unwrap();

    assert_eq!(db.validate_seed(id, &seed).unwrap(), true);
    assert_eq!(db.validate_seed(id, &other_seed).unwrap(), false);
    assert!(matches!(db.validate_seed(id, &[1u8; 16]), Err(Error::BadAccountData(_))));
    assert_eq!(db.validate_seed(AccountId(99), &seed).unwrap(), false);
    match db.seed_relevance_to_derived_accounts(&seed).unwrap() {
        SeedRelevance::Relevant { account_ids } => assert_eq!(account_ids, vec![id]),
        _ => panic!("the seed derives the account"),
    }
    assert!(matches!(db.seed_relevance_to_derived_accounts(&other_seed).unwrap(), SeedRelevance::NotRelevant));
    assert_eq!(db.get_derived_account(&fingerprint, 0).map(|a| a.account_id), Some(id));
    assert!(db.get_derived_account(&fingerprint, 1).is_none());
}

#[test]
fn proposal_fails_with_no_blocks() {
    let (db, _account) = wallet_with_account();
    assert_eq!(db.chain_height(), None);
    assert_eq!(db.get_target_and_anchor_heights(Some(BIRTHDAY), Some(BIRTHDAY)), None);
    assert!(db.get_wallet_summary(&vec![]).unwrap().is_none());
    assert!(db.block_max_scanned().is_none());
    assert!(db.block_fully_scanned().is_none());
}

#[test]
fn spend_fails_on_locked_notes() {
    let (mut db, account) = wallet_with_account();
    let received = receive_sapling(&mut db, account, 50_000, [0x31; 32]);
    let first = sent_tx(txid(0xD1), account, vec![[0x31; 32]], vec![external(0, PoolType::Shielded(ShieldedProtocol::Sapling), 40_000)]);
    db.store_transactions_to_be_sent(vec![first]).unwrap();
    // The note is locked by the pending transaction, which is not mined.
    assert_eq!(db.received_note_spends.get(&received), Some(&txid(0xD1)));
    assert_eq!(db.get_tx_height(txid(0xD1)), None);
    // A spend of a nullifier the wallet does not know fails, and records nothing.
    let bogus = sent_tx(txid(0xD2), account, vec![[0x99; 32]], vec![]);
    assert!(matches!(db.store_transactions_to_be_sent(vec![bogus]), Err(Error::NoteNotFound)));
    assert_eq!(db.received_note_spends.get(&received), Some(&txid(0xD1)));
}

#[test]
fn spend_succeeds_to_t_addr_zero_change() {
    let (mut db, account) = wallet_with_account();
    let received = receive_sapling(&mut db, account, 70_000, [0x41; 32]);
    let send = sent_tx(txid(0xE1), account, vec![[0x41; 32]], vec![external(0, PoolType::Transparent, 60_000)]);
    db.store_transactions_to_be_sent(vec![send]).unwrap();
    assert_eq!(db.received_note_spends.get(&received), Some(&txid(0xE1)));
    assert_eq!(db.get_sent_note_ids(&txid(0xE1), ShieldedProtocol::Sapling).len(), 0);
    assert_eq!(db.sent_notes.0.len(), 1);
    assert_eq!(db.received_notes.0.len(), 1);
}

#[test]
fn change_note_spends_succeed() {
    let (mut db, account) = wallet_with_account();
    receive_sapling(&mut db, account, 70_000, [0x51; 32]);
    let send = sent_tx(
        txid(0xF1),
        account,
        vec![[0x51; 32]],
        vec![external(0, PoolType::Shielded(ShieldedProtocol::Sapling), 20_000), change(1, account, sapling_note(40_000))],
    );
    db.store_transactions_to_be_sent(vec![send]).unwrap();
    let change_id = NoteId::new(txid(0xF1), ShieldedProtocol::Sapling, 1);
    assert!(db.received_notes.get(&change_id).unwrap().nf.is_none());

    // Scanning the mined transaction learns the change note's nullifier.
    let mined = WalletTx {
        txid: txid(0xF1),
        block_index: 0,
        sapling_spends: vec![[0x51; 32]],
        orchard_spends: vec![],
        sapling_outputs: vec![output(1, account, sapling_note(40_000), Some([0x52; 32]), 5)],
        orchard_outputs: vec![],
    };
    db.put_blocks(&vec![block(BIRTHDAY + 1, vec![mined])]).unwrap();
    let merged = db.received_notes.get(&change_id).unwrap();
    assert!(merged.is_change);
    assert!(merged.nf.is_some());
    assert_eq!(merged.commitment_tree_position, Some(5));

    // The change note can now be spent.
    let spend_change = sent_tx(txid(0xF2), account, vec![[0x52; 32]], vec![external(0, PoolType::Shielded(ShieldedProtocol::Sapling), 30_000)]);
    db.store_transactions_to_be_sent(vec![spend_change]).unwrap();
    assert_eq!(db.received_note_spends.get(&change_id), Some(&txid(0xF2)));
}

#[test]
fn birthday_in_anchor_shard() {
    let (mut db, _account) = wallet_with_account();
    // The last complete Sapling shard ends below the wallet birthday.
    db.put_sapling_subtree_roots(0, &vec![([1; 32], BIRTHDAY - 5_000), ([2; 32], BIRTHDAY - 10)]);
    assert_eq!(db.sapling_subtree_roots.get(&0), Some(&[1; 32]));
    assert_eq!(db.sapling_subtree_roots.get(&1), Some(&[2; 32]));
    assert_eq!(db.orchard_subtree_roots.len(), 0);
    assert_eq!(db.sapling_tip_shard_end_height(), Some(BIRTHDAY - 10));
    let (query, entries) = db.update_chain_tip(BIRTHDAY + 100).unwrap();
    // The shard range starts at the birthday, not at the shard's end.
    assert_eq!(entries[0], ScanRange { start: BIRTHDAY, end: BIRTHDAY + 101, priority: ScanPriority::ChainTip });
    assert_eq!(entries[1], ScanRange { start: BIRTHDAY, end: BIRTHDAY + 101, priority: ScanPriority::Historic });
    assert_eq!(query, ScanRange { start: BIRTHDAY, end: BIRTHDAY + 101, priority: ScanPriority::ChainTip });
    assert_eq!(db.scan_queue, entries);
}

#[test]
fn checkpoint_gaps() {
    let existing = vec![(10u32, 5u64), (12, 7)];
    let added = ensure_checkpoints(&vec![10, 11, 15, 20], &existing, Some(3));
    assert_eq!(added, vec![(11, Checkpoint::AtPosition(5)), (15, Checkpoint::AtPosition(7)), (20, Checkpoint::AtPosition(7))]);
}

#[test]
fn scan_cached_blocks_detects_spends_out_of_order() {
    let (mut db, account) = wallet_with_account();
    // A later block is scanned first: it reveals the note's nullifier in the
    // transaction at position 1.
    let mut later = block(BIRTHDAY + 10, vec![]);
    later.sapling_nullifier_map = vec![(txid(0x77), 1, vec![[0x61; 32]])];
    db.put_blocks(&vec![later]).unwrap();
    // The block with the note comes afterwards.
    let received = receive_sapling(&mut db, account, 25_000, [0x61; 32]);
    assert_eq!(db.received_note_spends.get(&received), Some(&txid(0x77)));
}

#[test]
fn spend_found_in_either_order() {
    // In order: the note's block first, then the block that spends it, where the
    // spending transaction is one of the wallet's.
    let (mut db, account) = wallet_with_account();
    let received = receive_sapling(&mut db, account, 25_000, [0x62; 32]);
    let mut spend = receiving_tx(txid(0x78), 1, vec![], vec![]);
    spend.sapling_spends = vec![[0x62; 32]];
    let mut later = block(BIRTHDAY + 10, vec![spend]);
    later.sapling_nullifier_map = vec![(txid(0x78), 1, vec![[0x62; 32]])];
    db.put_blocks(&vec![later]).unwrap();
    assert_eq!(db.received_note_spends.get(&received), Some(&txid(0x78)));

    // Out of order: the same spend is found.
    let (mut db2, account2) = wallet_with_account();
    let mut later2 = block(BIRTHDAY + 10, vec![]);
    later2.sapling_nullifier_map = vec![(txid(0x78), 1, vec![[0x62; 32]])];
    db2.put_blocks(&vec![later2]).unwrap();
    let received2 = receive_sapling(&mut db2, account2, 25_000, [0x62; 32]);
    assert_eq!(received2, received);
    assert_eq!(db2.received_note_spends.get(&received2), Some(&txid(0x78)));
}

#[test]
fn pool_crossing_required() {
    let (mut db, account) = wallet_with_account();
    let received = receive_sapling(&mut db, account, 80_000, [0x71; 32]);
    let send = sent_tx(
        txid(0x81),
        account,
        vec![[0x71; 32]],
        vec![external(0, PoolType::Shielded(ShieldedProtocol::Orchard), 30_000), change(1, account, orchard_note(40_000))],
    );
    db.store_transactions_to_be_sent(vec![send]).unwrap();
    assert_eq!(db.received_note_spends.get(&received), Some(&txid(0x81)));
    scanned_through(&mut db, BIRTHDAY + 1);
    // The Sapling note is spent; the Orchard change is not.
    let summary = db.get_wallet_summary(&vec![true, false]).unwrap().unwrap();
    assert_eq!(summary.account_balances[0].sapling_spendable, 0);
    assert_eq!(summary.account_balances[0].orchard_spendable, 40_000);
}

#[test]
fn fully_funded_fully_private() {
    let (mut db, account) = wallet_with_account();
    let tx = receiving_tx(
        txid(0x91),
        0,
        vec![output(0, account, sapling_note(30_000), Some([0x92; 32]), 0)],
        vec![output(1, account, orchard_note(45_000), Some([0x93; 32]), 0)],
    );
    db.put_blocks(&vec![block(BIRTHDAY, vec![tx])]).unwrap();
    scanned_through(&mut db, BIRTHDAY + 1);
    let summary = db.get_wallet_summary(&vec![false, false]).unwrap().unwrap();
    assert_eq!(summary.account_balances.len(), 1);
    assert_eq!(summary.account_balances[0].sapling_spendable, 30_000);
    assert_eq!(summary.account_balances[0].orchard_spendable, 45_000);
}

#[test]
fn fully_funded_send_to_t() {
    let (mut db, account) = wallet_with_account();
    let tx = receiving_tx(
        txid(0xA5),
        0,
        vec![output(0, account, sapling_note(30_000), Some([0xA6; 32]), 0)],
        vec![output(1, account, orchard_note(45_000), Some([0xA7; 32]), 0)],
    );
    db.put_blocks(&vec![block(BIRTHDAY, vec![tx])]).unwrap();
    let mut send = sent_tx(txid(0xA8), account, vec![[0xA6; 32]], vec![external(0, PoolType::Transparent, 70_000)]);
    // One action spends the wallet's Orchard note; the other is a new output.
    send.orchard_action_nullifiers = vec![[0xA7; 32], [0xEE; 32]];
    send.has_orchard_bundle = true;
    db.store_transactions_to_be_sent(vec![send]).unwrap();
    assert_eq!(db.received_note_spends.get(&NoteId::new(txid(0xA5), ShieldedProtocol::Sapling, 0)), Some(&txid(0xA8)));
    assert_eq!(db.received_note_spends.get(&NoteId::new(txid(0xA5), ShieldedProtocol::Orchard, 1)), Some(&txid(0xA8)));
}

#[test]
fn multi_pool_checkpoint() {
    // Sapling has checkpoints at 100 and 105; Orchard at 100 and 103.
    let sapling = vec![(100u32, 40u64), (105, 44)];
    let orchard = vec![(100u32, 10u64), (103, 12)];
    let for_sapling = ensure_checkpoints(&vec![100, 103], &sapling, Some(39));
    let for_orchard = ensure_checkpoints(&vec![100, 105], &orchard, Some(9));
    assert_eq!(for_sapling, vec![(103, Checkpoint::AtPosition(40))]);
    assert_eq!(for_orchard, vec![(105, Checkpoint::AtPosition(12))]);
}

#[test]
fn multi_pool_checkpoints_with_pruning() {
    // The other tree's checkpoints lie below every checkpoint this tree kept.
    let kept = vec![(200u32, 80u64)];
    assert_eq!(
        ensure_checkpoints(&vec![190, 195], &kept, Some(70)),
        vec![(190, Checkpoint::AtPosition(70)), (195, Checkpoint::AtPosition(70))]
    );
    assert_eq!(ensure_checkpoints(&vec![190], &kept, None), vec![(190, Checkpoint::TreeEmpty)]);
}

#[test]
fn sent_transactions_appear_in_history() {
    let (mut db, account) = wallet_with_account();
    assert_eq!(db.get_tx_history(), vec![]);
    receive_sapling(&mut db, account, 60_000, [0x11; 32]);
    scanned_through(&mut db, BIRTHDAY + 1);
    let send = sent_tx(
        txid(0xB2),
        account,
        vec![[0x11; 32]],
        vec![external(0, PoolType::Shielded(ShieldedProtocol::Sapling), 10_000), change(1, account, sapling_note(40_000))],
    );
    db.store_transactions_to_be_sent(vec![send]).unwrap();
    assert_eq!(db.get_tx_history(), vec![(account, txid(0xB2)), (account, txid(0xB2))]);
}

fn p2pkh_output(id: TxId, n: u32, hash: [u8; 20], value: u64, mined_height: Option<u32>) -> WalletTransparentOutput {
    let mut script = vec![0x76, 0xa9, 0x14];
    script.extend_from_slice(&hash);
    script.extend_from_slice(&[0x88, 0xac]);
    WalletTransparentOutput {
        outpoint: OutPoint { txid: id, n },
        txout: TxOut { value, script },
        mined_height,
        recipient_address: TransparentAddress::PublicKeyHash(hash),
    }
}

#[test]
fn put_received_transparent_utxo() {
    let (mut db, account) = wallet_with_account();
    db.put_blocks(&vec![block(BIRTHDAY, vec![])]).unwrap();
    scanned_through(&mut db, BIRTHDAY + 10);
    let hash = match db.get_account(account).unwrap().current_address().transparent_receiver.unwrap() {
        TransparentAddress::PublicKeyHash(h) => h,
        TransparentAddress::ScriptHash(h) => h,
    };
    let utxo = p2pkh_output(txid(0x51), 0, hash, 10_000, Some(BIRTHDAY));
    assert_eq!(db.put_received_transparent_utxo(&utxo).unwrap(), 0);
    let stored = db.transparent_received_outputs.get(&utxo.outpoint).unwrap();
    assert_eq!(stored.account_id, account);
    assert_eq!(stored.address, utxo.recipient_address);
    assert_eq!(stored.transaction_id, txid(0x51));
    assert_eq!(stored.txout.value, 10_000);
    assert_eq!(stored.txout.script, utxo.txout.script);
    // Unspent as far as the chain is known.
    assert_eq!(stored.max_observed_unspent_height, Some(BIRTHDAY + 9));
    assert_eq!(db.tx_table.tx_status(&txid(0x51)), Some(TransactionStatus::Mined(BIRTHDAY)));
    assert_eq!(db.tx_table.get(&txid(0x51)).unwrap().block, Some(BIRTHDAY));
    // The same output again updates it in place.
    assert_eq!(db.put_received_transparent_utxo(&utxo).unwrap(), 0);
    assert_eq!(db.transparent_received_outputs.0.entries.len(), 1);

    // An output to the account's legacy transparent address is the account's too.
    let params = zcash_protocol::consensus::Network::TestNetwork;
    let usk = zcash_keys::keys::UnifiedSpendingKey::from_seed(&params, &[1; 32], zip32::AccountId::ZERO).unwrap();
    let ufvk = usk.to_unified_full_viewing_key();
    let legacy = ufvk.transparent().unwrap().derive_external_ivk().unwrap().default_address().0;
    let legacy_hash = match legacy {
        zcash_transparent::address::TransparentAddress::PublicKeyHash(h) => h,
        zcash_transparent::address::TransparentAddress::ScriptHash(h) => h,
    };
    let to_legacy = p2pkh_output(txid(0x52), 1, legacy_hash, 7, None);
    assert_eq!(db.put_received_transparent_utxo(&to_legacy).unwrap(), 1);
    assert_eq!(db.transparent_received_outputs.get(&to_legacy.outpoint).unwrap().account_id, account);
    assert_eq!(db.tx_table.tx_status(&txid(0x52)), Some(TransactionStatus::NotInMainChain));

    // An output to an address of no account is not taken in, even though the
    // account has a transparent key.
    let stranger = p2pkh_output(txid(0x53), 0, [0xEE; 20], 7, None);
    assert!(matches!(db.put_received_transparent_utxo(&stranger), Err(Error::AddressNotRecognized(_))));
    assert_eq!(db.transparent_received_outputs.0.entries.len(), 2);
}

#[test]
fn balance_beyond_total_supply_is_an_error() {
    let (mut db, account) = wallet_with_account();
    receive_sapling(&mut db, account, zcash_client_memory::wallet::MAX_MONEY + 1, [0x12; 32]);
    scanned_through(&mut db, BIRTHDAY + 1);
    assert!(matches!(db.get_wallet_summary(&vec![false]), Err(Error::Balance(_))));
    // Counted as spent, it does not count.
    assert!(db.get_wallet_summary(&vec![true]).unwrap().is_some());
}

#[test]
fn spend_fails_on_unverified_notes() {
    let (mut db, account) = wallet_with_account();
    receive_sapling(&mut db, account, 50_000, [0x35; 32]);
    scanned_through(&mut db, BIRTHDAY + 1);
    // With the anchor below the block that brought the note, the note is not yet
    // confirmed enough to be spent.
    let (target, anchor) = db.get_target_and_anchor_heights(Some(BIRTHDAY - 1), None).unwrap();
    assert_eq!(target, BIRTHDAY + 1);
    assert_eq!(anchor, BIRTHDAY - 1);
    assert!(db.get_tx_height(txid(0xA1)).unwrap() > anchor);
    // Once the anchor reaches that block, it is.
    let (_, anchor) = db.get_target_and_anchor_heights(Some(BIRTHDAY), Some(BIRTHDAY + 1)).unwrap();
    assert_eq!(db.get_tx_height(txid(0xA1)), Some(anchor));
}

#[test]
fn ovk_policy_prevents_recovery_from_chain() {
    let (mut db, account) = wallet_with_account();
    let received = receive_sapling(&mut db, account, 60_000, [0x36; 32]);
    let send = sent_tx(txid(0xB6), account, vec![[0x36; 32]], vec![external(0, PoolType::Shielded(ShieldedProtocol::Sapling), 50_000)]);
    db.store_transactions_to_be_sent(vec![send]).unwrap();
    assert_eq!(db.sent_notes.0.len(), 1);
    // Scanning the mined transaction, whose output the wallet cannot recover,
    // finds only the spend: no note is received and the sent record stays.
    let mined = WalletTx {
        txid: txid(0xB6),
        block_index: 0,
        sapling_spends: vec![[0x36; 32]],
        orchard_spends: vec![],
        sapling_outputs: vec![],
        orchard_outputs: vec![],
    };
    db.put_blocks(&vec![block(BIRTHDAY + 1, vec![mined])]).unwrap();
    assert_eq!(db.received_notes.0.len(), 1);
    assert_eq!(db.sent_notes.0.len(), 1);
    assert_eq!(db.received_note_spends.get(&received), Some(&txid(0xB6)));
    assert_eq!(db.get_tx_height(txid(0xB6)), Some(BIRTHDAY + 1));
}

#[test]
fn shield_transparent() {
    let (mut db, account) = wallet_with_account();
    db.put_blocks(&vec![block(BIRTHDAY, vec![])]).unwrap();
    scanned_through(&mut db, BIRTHDAY + 5);
    let hash = match db.get_account(account).unwrap().current_address().transparent_receiver.unwrap() {
        TransparentAddress::PublicKeyHash(h) => h,
        TransparentAddress::ScriptHash(h) => h,
    };
    let utxo = p2pkh_output(txid(0xC7), 0, hash, 30_000, Some(BIRTHDAY));
    db.put_received_transparent_utxo(&utxo).unwrap();
    assert_eq!(db.transparent_received_outputs.get(&utxo.outpoint).unwrap().account_id, account);
    // The shielding transaction brings the value back as a change note.
    let shielding = receiving_tx(
        txid(0xC8),
        0,
        vec![WalletOutput { is_change: true, ..output(0, account, sapling_note(20_000), Some([0x37; 32]), 0) }],
        vec![],
    );
    db.put_blocks(&vec![block(BIRTHDAY + 1, vec![shielding])]).unwrap();
    let note = db.received_notes.get(&NoteId::new(txid(0xC8), ShieldedProtocol::Sapling, 0)).unwrap();
    assert!(note.is_change);
    assert_eq!(note.account_id, account);
}

#[test]
fn transparent_balance_across_shielding() {
    let (mut db, account) = wallet_with_account();
    db.put_blocks(&vec![block(BIRTHDAY, vec![])]).unwrap();
    scanned_through(&mut db, BIRTHDAY + 5);
    let hash = match db.get_account(account).unwrap().current_address().transparent_receiver.unwrap() {
        TransparentAddress::PublicKeyHash(h) => h,
        TransparentAddress::ScriptHash(h) => h,
    };
    // Two outputs to the account's address are held until shielded.
    let first = p2pkh_output(txid(0xD7), 0, hash, 10_000, Some(BIRTHDAY));
    let second = p2pkh_output(txid(0xD8), 1, hash, 15_000, Some(BIRTHDAY));
    assert_eq!(db.put_received_transparent_utxo(&first).unwrap(), 0);
    assert_eq!(db.put_received_transparent_utxo(&second).unwrap(), 1);
    let held: u64 = db.transparent_received_outputs.0.entries.iter().map(|(_, o)| o.txout.value).sum();
    assert_eq!(held, 25_000);
    assert_eq!(db.transparent_received_outputs.get(&first.outpoint).unwrap().max_observed_unspent_height, Some(BIRTHDAY + 4));
}

#[test]
fn proposal_fails_if_not_all_ephemeral_outputs_consumed() {
    let (mut db, account) = wallet_with_account();
    receive_sapling(&mut db, account, 100_000, [0x38; 32]);
    let ephemeral = TransparentAddress::PublicKeyHash([5; 20]);
    let first = sent_tx(
        txid(0xE7),
        account,
        vec![[0x38; 32]],
        vec![SentTransactionOutput {
            output_index: 0,
            recipient: Recipient::EphemeralTransparent {
                receiving_account: account,
                ephemeral_address: ephemeral,
                outpoint_metadata: OutPoint { txid: txid(0xE7), n: 0 },
            },
            value: 90_000,
            memo: None,
        }],
    );
    db.store_transactions_to_be_sent(vec![first]).unwrap();
    // The output to the ephemeral address is not a note the wallet can spend: a
    // second step that spends a nullifier the wallet does not hold fails.
    let second = sent_tx(txid(0xE8), account, vec![[0x39; 32]], vec![external(0, PoolType::Transparent, 80_000)]);
    assert!(matches!(db.store_transactions_to_be_sent(vec![second]), Err(Error::NoteNotFound)));
    assert_eq!(db.sent_notes.0.len(), 1);
}
