// The wallet's tables, queries and formats, each on concrete values.

use zcash_client_memory::account::{AccountBirthday, AccountSource, ChainState, NON_HARDENED_LIMIT};
use zcash_client_memory::assoc::AssocList;
use zcash_client_memory::block::{BlockTable, CachedBlock, MemBlockCache, MemoryWalletBlock, MockBlockSource};
use zcash_client_memory::checkpoints::{ensure_checkpoints, Checkpoint};
use zcash_client_memory::data_requests::{TransactionDataRequest, TransactionDataRequestQueue};
use zcash_client_memory::error::Error;
use zcash_client_memory::notes::{
    to_spendable_notes, Note, ReceivedNote, ReceivedNoteTable, Rseed,
};
use zcash_client_memory::proto;
use zcash_client_memory::proto_convert::{
    note_from_proto, note_to_proto, nullifier_from_proto, nullifier_to_proto, recipient_from_proto, recipient_to_proto,
    sent_note_from_proto, sent_note_id_from_proto, sent_note_id_to_proto, sent_note_to_proto,
};
use zcash_client_memory::sent::{Recipient, SentNote, SentNoteId};
use zcash_client_memory::scanning::{chain_tip_scan_ranges, ScanRange};
use zcash_client_memory::shard_tree::{deserialize_tree, serialize_tree, Element, PrunableTree, TreeDecodeError};
use zcash_client_memory::text::str_equals;
use zcash_client_memory::transaction::TransactionTable;
use zcash_client_memory::transparent::{ReceivedTransparentOutput, TxOut};
use zcash_client_memory::types::{
    AccountId, Network, NoteId, Nullifier, OutPoint, PoolType, Receiver, Scope, ShieldedProtocol, TransactionStatus,
    TransparentAddress, TxId,
};
use zcash_client_memory::wallet::{seed_matches_derived_account, MemoryWalletDb, NullifierQuery, MAX_MONEY};
use zcash_client_memory::nullifier::NullifierMap;
use zcash_client_memory::ufvk_bytes::{ufvk_from_bytes, ufvk_to_bytes};
use zcash_client_memory::wallet_write::{ScannedBlock, WalletTx};
use zcash_client_memory::{GAP_LIMIT, PRUNING_DEPTH, VERIFY_LOOKAHEAD};

fn txid(b: u8) -> TxId {
    TxId([b; 32])
}

fn birthday(height: u32) -> AccountBirthday {
    AccountBirthday {
        prior_chain_state: ChainState {
            block_height: height - 1,
            block_hash: [0; 32],
            final_sapling_tree: vec![],
            final_orchard_tree: vec![],
        },
        recover_until: None,
    }
}

fn test_ufvk(seed_byte: u8) -> String {
    let params = zcash_protocol::consensus::Network::TestNetwork;
    let usk = zcash_keys::keys::UnifiedSpendingKey::from_seed(&params, &[seed_byte; 32], zip32::AccountId::ZERO).unwrap();
    usk.to_unified_full_viewing_key().encode(&params).unwrap()
}

fn sapling_note(value: u64) -> Note {
    Note::Sapling { recipient: [7; 43], value, rseed: Rseed::BeforeZip212([3; 32]) }
}

fn received(id: u8, index: u16, account: AccountId, note: Note, nf: Option<Nullifier>) -> ReceivedNote {
    let protocol = match note {
        Note::Sapling { .. } => ShieldedProtocol::Sapling,
        Note::Orchard { .. } => ShieldedProtocol::Orchard,
    };
    ReceivedNote {
        note_id: NoteId::new(txid(id), protocol, index),
        txid: txid(id),
        output_index: index as u32,
        account_id: account,
        note,
        nf,
        is_change: false,
        memo: [0; 512],
        commitment_tree_position: Some(3),
        recipient_key_scope: Some(Scope::External),
    }
}

fn empty_block(height: u32) -> ScannedBlock {
    ScannedBlock {
        height,
        hash: [1; 32],
        block_time: 0,
        sapling_final_tree_size: 0,
        sapling_commitment_count: 0,
        orchard_final_tree_size: 0,
        orchard_commitment_count: 0,
        transactions: vec![],
        sapling_nullifier_map: vec![],
        orchard_nullifier_map: vec![],
    }
}

#[test]
fn scan_priority_names_and_numbers() {
    assert_eq!(proto::ScanPriority::ChainTip.as_str_name(), "ChainTip");
    assert_eq!(proto::ScanPriority::from_str_name("Verify"), Some(proto::ScanPriority::Verify));
    assert_eq!(proto::ScanPriority::from_str_name("verify"), None);
    assert_eq!(proto::ScanPriority::Historic.to_i32(), 2);
    assert_eq!(proto::ScanPriority::from_i32(6), Some(proto::ScanPriority::Verify));
    assert_eq!(proto::ScanPriority::from_i32(7), None);
    assert_eq!(proto::ShieldedProtocol::Orchard.as_str_name(), "orchard");
    assert_eq!(proto::ShieldedProtocol::from_i32_or_default(9), proto::ShieldedProtocol::Sapling);
    assert_eq!(proto::PoolType::from_str_name("ShieldedOrchard"), Some(proto::PoolType::ShieldedOrchard));
    assert_eq!(proto::AccountPurpose::ViewOnly.as_str_name(), "ViewOnly");
}

#[test]
fn strings_compare_by_characters() {
    assert!(str_equals("sapling", "sapling"));
    assert!(!str_equals("sapling", "saplinG"));
    assert!(!str_equals("sap", "sapling"));
}

#[test]
fn assoc_list_reads_back_writes() {
    let mut t: AssocList<u64, u32> = AssocList::new();
    assert_eq!(t.insert(5, 50), None);
    assert_eq!(t.insert(7, 70), None);
    assert_eq!(t.insert(5, 55), Some(50));
    assert_eq!(t.get(&5), Some(&55));
    assert_eq!(t.get(&7), Some(&70));
    assert_eq!(t.get(&9), None);
    assert_eq!(t.len(), 2);
}

#[test]
fn block_cache_filters_then_limits() {
    let cache = MemBlockCache(vec![
        CachedBlock { height: 10, data: vec![1] },
        CachedBlock { height: 11, data: vec![2] },
        CachedBlock { height: 12, data: vec![3] },
        CachedBlock { height: 13, data: vec![4] },
    ]);
    let heights = |v: Vec<&CachedBlock>| v.iter().map(|b| b.height).collect::<Vec<_>>();
    assert_eq!(heights(cache.with_blocks(Some(11), Some(2))), vec![11, 12]);
    assert_eq!(heights(cache.with_blocks(None, None)), vec![10, 11, 12, 13]);
    assert_eq!(heights(cache.with_blocks(Some(13), Some(5))), vec![13]);
    assert_eq!(heights(cache.with_blocks(Some(20), None)), Vec::<u32>::new());
    assert_eq!(heights(cache.with_blocks(None, Some(0))), Vec::<u32>::new());
    assert_eq!(MockBlockSource.with_blocks(None, None), Ok(()));

    // Walking the blocks stops at the first error and returns it.
    let seen = std::cell::RefCell::new(vec![]);
    let r = cache.for_each_block(Some(11), None, |b: &CachedBlock| {
        seen.borrow_mut().push(b.height);
        if b.height == 12 { Err(b.height) } else { Ok(()) }
    });
    assert_eq!(r, Err(12));
    assert_eq!(*seen.borrow(), vec![11, 12]);
    let all = std::cell::RefCell::new(vec![]);
    let r: Result<(), u32> = cache.for_each_block(None, Some(3), |b: &CachedBlock| {
        all.borrow_mut().push(b.height);
        Ok(())
    });
    assert_eq!(r, Ok(()));
    assert_eq!(*all.borrow(), vec![10, 11, 12]);
    assert_eq!(cache.0.len(), 4);
}

#[test]
fn block_table_keeps_heights_in_order() {
    let mut t = BlockTable::new();
    for h in [5u32, 3, 9, 5] {
        t.insert(MemoryWalletBlock {
            height: h,
            hash: [h as u8; 32],
            block_time: h,
            transactions: vec![],
            memos: vec![],
            sapling_commitment_tree_size: None,
            sapling_output_count: None,
            orchard_commitment_tree_size: None,
            orchard_action_count: None,
        });
    }
    assert_eq!(t.0.iter().map(|b| b.height).collect::<Vec<_>>(), vec![3, 5, 9]);
    assert_eq!(t.last().unwrap().height, 9);
    assert!(t.get(4).is_none());
}

#[test]
fn chain_tip_ranges() {
    // Before Sapling activation, or below the highest scanned block: no change.
    assert!(chain_tip_scan_ranges(Some(1_000), 999, None, None, None).is_none());
    assert!(chain_tip_scan_ranges(Some(1_000), 2_000, Some(2_001), None, None).is_none());
    // No account yet: everything from activation is ignored.
    let (q, es) = chain_tip_scan_ranges(Some(1_000), 2_000, None, None, None).unwrap();
    assert_eq!(es, vec![ScanRange { start: 1_000, end: 2_001, priority: proto::ScanPriority::Ignored }]);
    assert_eq!(q, es[0]);
    // Scanned far below the tip, with shard data: verify the blocks just above.
    let (q, es) = chain_tip_scan_ranges(Some(1_000), 2_000, Some(1_500), Some(1_200), Some(1_900)).unwrap();
    assert_eq!(es[0], ScanRange { start: 1_900, end: 2_001, priority: proto::ScanPriority::ChainTip });
    assert_eq!(es[1], ScanRange { start: 1_501, end: 1_501 + VERIFY_LOOKAHEAD, priority: proto::ScanPriority::Verify });
    assert_eq!(q, ScanRange { start: 1_501, end: 2_001, priority: proto::ScanPriority::ChainTip });
    // Scanned close to the tip: catch up at chain tip priority.
    let (_, es) = chain_tip_scan_ranges(Some(1_000), 2_000, Some(2_000 - PRUNING_DEPTH + 1), Some(1_200), Some(1_900)).unwrap();
    assert_eq!(es[1].priority, proto::ScanPriority::ChainTip);
    // Without shard data, linear scanning.
    let (_, es) = chain_tip_scan_ranges(Some(1_000), 2_000, Some(1_500), Some(1_200), None).unwrap();
    assert_eq!(es, vec![ScanRange { start: 1_501, end: 2_001, priority: proto::ScanPriority::Historic }]);
}

#[test]
fn mainnet_chain_tip_starts_at_sapling_activation() {
    let mut db = MemoryWalletDb::new(Network::MainNetwork);
    assert!(db.update_chain_tip(419_199).is_none());
    assert!(db.scan_queue.is_empty());
    let (_, es) = db.update_chain_tip(419_300).unwrap();
    assert_eq!(es, vec![ScanRange { start: 419_200, end: 419_301, priority: proto::ScanPriority::Ignored }]);
    // The queue now holds the entry.
    assert_eq!(db.scan_queue, es);
    assert_eq!(db.chain_height(), Some(419_300));
    // A later tip replaces the queue over its span: the earlier entry's part below
    // the span stays.
    db.scan_queue = vec![ScanRange { start: 419_100, end: 419_301, priority: proto::ScanPriority::Scanned }];
    let (q, es) = db.update_chain_tip(419_400).unwrap();
    assert_eq!(q.start, 419_200);
    let mut expected = vec![ScanRange { start: 419_100, end: 419_200, priority: proto::ScanPriority::Scanned }];
    expected.extend(es);
    assert_eq!(db.scan_queue, expected);
}

#[test]
fn accounts_have_addresses_and_ephemeral_addresses() {
    let mut db = MemoryWalletDb::new(Network::TestNetwork);
    let id = db.import_account_ufvk(test_ufvk(3), birthday(280_500), proto::AccountPurpose::Spending).unwrap();
    assert_eq!(id, AccountId(1));
    assert_eq!(db.get_account_ids(), vec![AccountId(1)]);
    let account = db.get_account(id).unwrap();
    assert_eq!(account.addresses().len(), 1);
    assert!(account.transparent_key.is_some());
    assert_eq!(account.ephemeral_addresses.len(), GAP_LIMIT as usize);
    // All twenty are reserved: none is used yet.
    assert_eq!(account.first_unreserved_index().unwrap(), 0);
    let first_index = account.current_address().diversifier_index;
    let receiver = account.current_address().transparent_receiver.unwrap();
    let ephemeral = account.ephemeral_addresses[0].address;
    assert_eq!(db.accounts.find_account_for_transparent_address(&receiver).unwrap(), Some(id));
    assert_eq!(db.accounts.find_account_for_ephemeral_address(&ephemeral).unwrap(), Some(id));

    let next = db.get_next_available_address(id).unwrap().unwrap();
    let account = db.get_account(id).unwrap();
    assert_eq!(account.addresses().len(), 2);
    assert_eq!(account.current_address().address, next);
    assert!(account.current_address().diversifier_index > first_index);
    assert_eq!(db.get_next_available_address(AccountId(9)).unwrap(), None);
    // Each address holds its own transparent receiver; an unknown receiver is held by none.
    let account = db.get_account(id).unwrap();
    let second_receiver = account.current_address().transparent_receiver.unwrap();
    assert_eq!(account.select_receiving_address(&Receiver::Transparent(receiver)).unwrap(), Some(account.addresses()[0].address.clone()));
    assert_eq!(account.select_receiving_address(&Receiver::Transparent(second_receiver)).unwrap(), Some(next.clone()));
    assert_eq!(account.select_receiving_address(&Receiver::Transparent(TransparentAddress::PublicKeyHash([0; 20]))).unwrap(), None);

    // Using the tenth ephemeral address keeps twenty reserved beyond it.
    let tenth = db.get_account(id).unwrap().ephemeral_addresses[9].address;
    db.accounts.mark_ephemeral_address_as_seen(&tenth, txid(0x42)).unwrap();
    let account = db.get_account(id).unwrap();
    assert_eq!(account.ephemeral_addresses.len(), 10 + GAP_LIMIT as usize);
    assert_eq!(account.ephemeral_addresses[9].seen, Some(txid(0x42)));
    assert_eq!(account.first_unreserved_index().unwrap(), 10);
    assert!(account.first_unreserved_index().unwrap() < NON_HARDENED_LIMIT);

    assert_eq!(db.get_current_address(id).unwrap(), Some(next.clone()));
    assert_eq!(db.get_current_address(AccountId(9)).unwrap(), None);
    assert_eq!(db.get_unified_full_viewing_keys(), vec![(id, test_ufvk(3))]);
    assert_eq!(db.get_account_for_ufvk(&test_ufvk(3)).unwrap().unwrap().account_id(), id);
    assert!(db.get_account_for_ufvk(&test_ufvk(8)).unwrap().is_none());
    assert!(matches!(db.get_account_for_ufvk("not a key"), Err(Error::AddressGeneration(_))));

    assert_eq!(db.get_account_birthday(id).unwrap(), 280_500);
    assert!(matches!(db.get_account_birthday(AccountId(5)), Err(Error::AccountUnknown(AccountId(5)))));
    assert_eq!(db.get_wallet_birthday(), Some(280_500));
}

#[test]
fn unreadable_viewing_key_is_refused() {
    let mut db = MemoryWalletDb::new(Network::TestNetwork);
    let r = db.import_account_ufvk("not a key".to_string(), birthday(280_500), proto::AccountPurpose::ViewOnly);
    assert!(matches!(r, Err(Error::AddressGeneration(_))));
    assert_eq!(db.accounts.accounts.len(), 0);
    assert_eq!(db.accounts.nonce, 1);
}

#[test]
fn seed_checks() {
    let seed = [5u8; 32];
    let fp = zip32::fingerprint::SeedFingerprint::from_seed(&seed).unwrap().to_bytes();
    let key = test_ufvk(5);
    assert_eq!(seed_matches_derived_account(Network::TestNetwork, &seed, &fp, 0, &key).unwrap(), true);
    // The fingerprint matches but the key at another index does not.
    assert!(matches!(seed_matches_derived_account(Network::TestNetwork, &seed, &fp, 1, &key), Err(Error::CorruptedData(_))));
    // Neither matches.
    assert_eq!(seed_matches_derived_account(Network::TestNetwork, &[6u8; 32], &fp, 0, &key).unwrap(), false);
    assert!(matches!(seed_matches_derived_account(Network::TestNetwork, &[0u8; 300], &fp, 0, &key), Err(Error::BadAccountData(_))));

    let mut db = MemoryWalletDb::new(Network::TestNetwork);
    let id = db.import_account_ufvk(key, birthday(280_500), proto::AccountPurpose::Spending).unwrap();
    assert!(matches!(db.validate_seed(id, &seed), Err(Error::UnknownZip32Derivation)));
    assert!(matches!(
        db.seed_relevance_to_derived_accounts(&seed),
        Ok(zcash_client_memory::wallet::SeedRelevance::NoDerivedAccounts)
    ));
    let empty = MemoryWalletDb::new(Network::TestNetwork);
    assert!(matches!(empty.seed_relevance_to_derived_accounts(&seed), Ok(zcash_client_memory::wallet::SeedRelevance::NoAccounts)));
    let _ = AccountSource::Imported { purpose: proto::AccountPurpose::Spending };
}

#[test]
fn received_notes_merge_on_upsert() {
    let mut t = ReceivedNoteTable::new();
    let mut first = received(1, 0, AccountId(1), sapling_note(10), None);
    first.commitment_tree_position = None;
    t.insert_received_note(first);
    let mut again = received(1, 0, AccountId(1), sapling_note(10), Some(Nullifier::Sapling([9; 32])));
    again.is_change = true;
    t.insert_received_note(again);
    assert_eq!(t.0.len(), 1);
    let n = t.get(&NoteId::new(txid(1), ShieldedProtocol::Sapling, 0)).unwrap();
    assert!(n.is_change);
    assert_eq!(n.commitment_tree_position, Some(3));
    assert_eq!(t.get_sapling_nullifiers(), vec![(AccountId(1), txid(1), [9; 32])]);
    assert_eq!(t.get_orchard_nullifiers(), vec![]);
    assert_eq!(t.detect_sapling_spending_accounts(&vec![[9; 32], [8; 32]]), vec![AccountId(1)]);
    assert_eq!(t.detect_orchard_spending_accounts(&vec![[9; 32]]), vec![]);
}

#[test]
fn spendable_notes_need_scope_and_position() {
    let good = received(1, 0, AccountId(1), sapling_note(10), None);
    let spendable = to_spendable_notes(&vec![good], &vec![]).unwrap();
    assert_eq!(spendable.sapling.len(), 1);
    assert_eq!(spendable.sapling[0].note_commitment_tree_position, 3);
    let mut no_scope = good;
    no_scope.recipient_key_scope = None;
    assert!(matches!(to_spendable_notes(&vec![no_scope], &vec![]), Err(Error::Missing(_))));
    let mut no_position = good;
    no_position.commitment_tree_position = None;
    assert!(matches!(to_spendable_notes(&vec![], &vec![no_position]), Err(Error::Other(_))));
    assert!(matches!(to_spendable_notes(&vec![no_position], &vec![]), Err(Error::Missing(_))));
}

#[test]
fn transaction_table_statuses() {
    let mut t = TransactionTable::new();
    t.put_tx_meta(txid(1), 4, 100);
    assert_eq!(t.tx_status(&txid(1)), Some(TransactionStatus::Mined(100)));
    // A mined transaction keeps its status when partial information comes in.
    t.put_tx_partial(&txid(1), &Some(90), None);
    assert_eq!(t.tx_status(&txid(1)), Some(TransactionStatus::Mined(100)));
    t.put_tx_partial(&txid(2), &None, None);
    assert_eq!(t.tx_status(&txid(2)), Some(TransactionStatus::NotInMainChain));
    // A missing block is filled in; one already set is kept.
    t.put_tx_partial(&txid(3), &None, None);
    t.put_tx_partial(&txid(3), &Some(70), None);
    assert_eq!(t.get(&txid(3)).unwrap().block, Some(70));
    t.put_tx_partial(&txid(3), &Some(80), Some(81));
    assert_eq!(t.get(&txid(3)).unwrap().block, Some(70));
    assert_eq!(t.tx_status(&txid(3)), Some(TransactionStatus::Mined(81)));
    t.put_tx_data(txid(2), 150, vec![1, 2, 3], Some(1_000), Some(120));
    assert_eq!(t.expiry_height(&txid(2)), Some(150));
    assert_eq!(t.get_tx_raw(&txid(2)), Some(&vec![1, 2, 3]));
    assert!(t.set_transaction_status(&txid(2), TransactionStatus::Mined(130)).is_ok());
    assert_eq!(t.tx_status(&txid(2)), Some(TransactionStatus::Mined(130)));
    assert!(matches!(t.set_transaction_status(&txid(9), TransactionStatus::NotInMainChain), Err(Error::TransactionNotFound(_))));
}

#[test]
fn wallet_summary_and_heights() {
    let mut db = MemoryWalletDb::new(Network::TestNetwork);
    let id = db.import_account_ufvk(test_ufvk(3), birthday(280_500), proto::AccountPurpose::Spending).unwrap();
    db.received_notes.insert_received_note(received(1, 0, id, sapling_note(MAX_MONEY), None));
    db.received_notes.insert_received_note(received(2, 0, id, sapling_note(1), None));
    db.received_notes.insert_received_note(received(3, 0, AccountId(7), sapling_note(40), None));
    db.received_notes.insert_received_note(received(4, 0, AccountId(7), sapling_note(50), None));
    db.scan_queue = vec![
        ScanRange { start: 280_600, end: 280_700, priority: proto::ScanPriority::Historic },
        ScanRange { start: 280_500, end: 280_600, priority: proto::ScanPriority::Scanned },
    ];
    assert_eq!(db.chain_height(), Some(280_699));
    assert_eq!(db.get_target_and_anchor_heights(Some(280_690), Some(280_680)), Some((280_700, 280_680)));
    // Together the first two notes exceed the money supply.
    assert!(matches!(db.get_wallet_summary(&vec![false, false, false, false]), Err(Error::Balance(_))));
    // A note of an account the wallet does not have opens a balance for it; the
    // first such note is not counted.
    // Shards 2 to 4 of the Sapling tree and shard 5 of the Orchard tree are recorded.
    db.put_sapling_subtree_roots(2, &vec![([0x21; 32], 280_100), ([0x22; 32], 280_200), ([0x23; 32], 280_300)]);
    db.put_orchard_subtree_roots(5, &vec![([0x31; 32], 280_400)]);
    let summary = db.get_wallet_summary(&vec![true, false, false, false]).unwrap().unwrap();
    assert_eq!(summary.next_sapling_subtree_index, 4);
    assert_eq!(summary.account_balances.len(), 2);
    assert_eq!(summary.account_balances[0].account_id, id);
    assert_eq!(summary.account_balances[0].sapling_spendable, 1);
    assert_eq!(summary.account_balances[1].account_id, AccountId(7));
    assert_eq!(summary.account_balances[1].sapling_spendable, 50);
    assert_eq!(summary.chain_tip_height, 280_699);
    // No block is stored, so nothing is known to be fully scanned beyond the birthday.
    assert_eq!(summary.fully_scanned_height, 280_499);
    assert_eq!(summary.next_orchard_subtree_index, 5);

    db.tx_table.put_tx_meta(txid(2), 0, 280_550);
    db.tx_table.put_tx_meta(txid(3), 0, 280_520);
    assert_eq!(db.get_min_unspent_height(&vec![false, false, false, false]), Some(280_520));
    assert_eq!(db.get_min_unspent_height(&vec![false, false, true, false]), Some(280_550));
    assert_eq!(db.get_min_unspent_height(&vec![true, true, true, true]), None);
}

#[test]
fn nullifier_queries() {
    let mut db = MemoryWalletDb::new(Network::TestNetwork);
    db.received_notes.insert_received_note(received(1, 0, AccountId(1), sapling_note(10), Some(Nullifier::Sapling([1; 32]))));
    db.received_notes.insert_received_note(received(2, 0, AccountId(1), sapling_note(10), Some(Nullifier::Sapling([2; 32]))));
    db.received_notes.insert_received_note(received(3, 0, AccountId(1), sapling_note(10), Some(Nullifier::Sapling([3; 32]))));
    db.tx_table.put_tx_meta(txid(1), 0, 10);
    db.tx_table.put_tx_data(txid(2), 50, vec![], None, None);
    assert_eq!(db.get_sapling_nullifiers(NullifierQuery::All).len(), 3);
    assert_eq!(db.get_sapling_nullifiers(NullifierQuery::Unspent), vec![(AccountId(1), [2; 32])]);
    assert_eq!(db.get_orchard_nullifiers(NullifierQuery::All), vec![]);
}

#[test]
fn put_blocks_checks_sequence_and_locators() {
    let mut db = MemoryWalletDb::new(Network::TestNetwork);
    assert!(matches!(db.put_blocks(&vec![empty_block(10), empty_block(12)]), Err(Error::NonSequentialBlocks)));
    // The first block stays.
    assert_eq!(db.block_max_scanned().unwrap().block_height, 10);
    let mut a = empty_block(20);
    a.sapling_nullifier_map = vec![(txid(1), 0, vec![[1; 32]])];
    let mut b = empty_block(21);
    b.sapling_nullifier_map = vec![(txid(2), 0, vec![])];
    let out = db.put_blocks(&vec![a, b]).unwrap();
    let range = out.range.unwrap();
    assert_eq!((range.start, range.end), (20, 22));
    let mut clash = empty_block(22);
    clash.sapling_nullifier_map = vec![(txid(3), 0, vec![])];
    clash.orchard_nullifier_map = vec![(txid(3), 0, vec![[7; 32]])];
    assert!(db.put_blocks(&vec![clash]).is_ok());
    let mut conflict = empty_block(30);
    conflict.sapling_nullifier_map = vec![(txid(5), 0, vec![]), (txid(6), 0, vec![])];
    assert!(matches!(db.put_blocks(&vec![conflict]), Err(Error::ConflictingTxLocator)));
    assert_eq!(db.tx_locator.get(30, 0), Some(&txid(5)));
    assert_eq!(db.block_metadata(21).unwrap().block_height, 21);
    assert_eq!(db.get_block_hash(20), Some([1; 32]));
    assert!(db.get_block_hash(25).is_none());
}

#[test]
fn put_blocks_reports_positions() {
    let (mut db, account) = {
        let mut db = MemoryWalletDb::new(Network::TestNetwork);
        let id = db.import_account_ufvk(test_ufvk(3), birthday(280_500), proto::AccountPurpose::Spending).unwrap();
        (db, id)
    };
    let out0 = zcash_client_memory::notes::WalletOutput {
        index: 0,
        account_id: account,
        note: sapling_note(5),
        is_change: false,
        nf: Some([4; 32]),
        note_commitment_tree_position: 17,
        recipient_key_scope: Some(Scope::External),
    };
    let tx = WalletTx {
        txid: txid(9),
        block_index: 2,
        sapling_spends: vec![],
        orchard_spends: vec![],
        sapling_outputs: vec![out0],
        orchard_outputs: vec![],
    };
    let mut b = empty_block(280_500);
    b.sapling_final_tree_size = 18;
    b.sapling_commitment_count = 3;
    b.transactions = vec![tx];
    let out = db.put_blocks(&vec![b]).unwrap();
    assert_eq!(out.note_positions, vec![(ShieldedProtocol::Sapling, 17)]);
    assert_eq!(out.range.unwrap().sapling_start_position, 15);
    assert_eq!(db.get_tx_height(txid(9)), Some(280_500));
    db.scan_queue = vec![ScanRange { start: 280_500, end: 280_501, priority: proto::ScanPriority::Scanned }];
    assert_eq!(db.block_fully_scanned().unwrap().block_height, 280_500);
    db.store_decrypted_tx(txid(9), 280_540, vec![1], Some(280_500)).unwrap();
    assert_eq!(db.tx_table.expiry_height(&txid(9)), Some(280_540));
    assert_eq!(db.get_tx_height(txid(9)), Some(280_500));
    assert!(matches!(db.set_transaction_status(txid(8), TransactionStatus::NotInMainChain), Err(Error::TransactionNotFound(_))));
}

#[test]
fn checkpoints_below_every_existing_use_the_frontier() {
    assert_eq!(ensure_checkpoints(&vec![5], &vec![(10, 1)], None), vec![(5, Checkpoint::TreeEmpty)]);
    assert_eq!(ensure_checkpoints(&vec![10], &vec![(10, 1)], None), vec![]);
}

#[test]
fn shard_tree_roundtrip() {
    let tree = PrunableTree::Parent {
        ann: Some([2; 32]),
        left: Box::new(PrunableTree::Leaf { value: [1; 32], flags: 5 }),
        right: Box::new(PrunableTree::Parent {
            ann: None,
            left: Box::new(PrunableTree::Nil),
            right: Box::new(PrunableTree::Leaf { value: [3; 32], flags: 0 }),
        }),
    };
    let elements = serialize_tree(&tree);
    assert_eq!(elements.len(), 1 + 2 + 3 + 2 + 1 + 3);
    assert!(matches!(elements[0], Element::Byte(1)));
    let back = deserialize_tree(&elements).unwrap();
    assert_eq!(format!("{:?}", back), format!("{:?}", tree));
}

#[test]
fn shard_tree_decoding_errors() {
    assert_eq!(deserialize_tree(&vec![]).unwrap_err(), TreeDecodeError::InvalidLength);
    assert_eq!(deserialize_tree(&vec![Element::Byte(2)]).unwrap_err(), TreeDecodeError::InvalidVersion);
    assert_eq!(deserialize_tree(&vec![Element::Byte(1), Element::Byte(7)]).unwrap_err(), TreeDecodeError::InvalidTag);
    assert_eq!(
        deserialize_tree(&vec![Element::Byte(1), Element::Byte(1), Element::Hash([0; 32]), Element::Byte(8)]).unwrap_err(),
        TreeDecodeError::InvalidFlags
    );
    assert_eq!(deserialize_tree(&vec![Element::Byte(1), Element::Byte(2)]).unwrap_err(), TreeDecodeError::MissingNode);
    assert_eq!(deserialize_tree(&vec![Element::Byte(1), Element::Byte(1)]).unwrap_err(), TreeDecodeError::MissingValue);
    assert_eq!(
        deserialize_tree(&vec![Element::Byte(1), Element::Byte(1), Element::Hash([0; 32])]).unwrap_err(),
        TreeDecodeError::MissingFlags
    );
    assert_eq!(deserialize_tree(&vec![Element::Byte(1), Element::Hash([0; 32])]).unwrap_err(), TreeDecodeError::InvalidType);
    // A sequence that ends where a node is due reads as an empty tree.
    assert!(matches!(deserialize_tree(&vec![Element::Byte(1)]), Ok(PrunableTree::Nil)));
    assert!(matches!(
        deserialize_tree(&vec![Element::Byte(1), Element::Byte(2), Element::OptionalHash(None)]),
        Ok(PrunableTree::Parent { .. })
    ));
}

#[test]
fn notes_and_nullifiers_roundtrip_through_records() {
    let sapling = Note::Sapling { recipient: [4; 43], value: 99, rseed: Rseed::AfterZip212([0; 32]) };
    let record = note_to_proto(&sapling);
    assert_eq!(record.protocol, 0);
    assert_eq!(record.rseed.as_ref().unwrap().rseed_type, Some(1));
    let back = note_from_proto(&record);
    assert_eq!(format!("{:?}", back), format!("{:?}", sapling));
    let orchard = Note::Orchard { recipient: [5; 43], value: 7, rho: [6; 32], random_seed: [8; 32] };
    let back = note_from_proto(&note_to_proto(&orchard));
    assert_eq!(format!("{:?}", back), format!("{:?}", orchard));
    let nf = Nullifier::Orchard([3; 32]);
    let r = nullifier_to_proto(&nf);
    assert_eq!(r.protocol, 1);
    assert_eq!(nullifier_from_proto(&r), nf);
}

#[test]
fn data_request_queue_keeps_order() {
    let mut q = TransactionDataRequestQueue::new();
    q.queue_status_retrieval(&txid(1));
    q.queue_status_retrieval(&txid(2));
    let r = q.requests();
    assert_eq!(r.len(), 2);
    assert!(matches!(r[1], TransactionDataRequest::GetStatus(t) if t == txid(2)));
}

#[test]
fn transparent_outputs_pay_to_script_addresses() {
    // A standard pay-to-public-key-hash script.
    let mut script = vec![0x76, 0xa9, 0x14];
    script.extend_from_slice(&[0x33; 20]);
    script.extend_from_slice(&[0x88, 0xac]);
    let output = ReceivedTransparentOutput::new(txid(1), AccountId(1), TransparentAddress::PublicKeyHash([0x33; 20]), TxOut { value: 5, script }, 10);
    let w = output.to_wallet_transparent_output(&OutPoint { txid: txid(1), n: 0 }, Some(12)).unwrap();
    assert_eq!(w.recipient_address, TransparentAddress::PublicKeyHash([0x33; 20]));
    assert_eq!(w.mined_height, Some(12));
    let odd = ReceivedTransparentOutput::new(txid(1), AccountId(1), TransparentAddress::PublicKeyHash([0; 20]), TxOut { value: 5, script: vec![0x51] }, 10);
    assert!(odd.to_wallet_transparent_output(&OutPoint { txid: txid(1), n: 1 }, None).is_none());

    // An output to an address of no account is not taken in.
    let mut db = MemoryWalletDb::new(Network::TestNetwork);
    assert!(matches!(db.put_received_transparent_utxo(&w), Err(Error::AddressNotRecognized(_))));
    let _ = PoolType::Transparent;
}

#[test]
fn scanning_blocks_watches_new_nullifiers_and_drops_spent_ones() {
    let mut db = MemoryWalletDb::new(Network::TestNetwork);
    let account = db.import_account_ufvk(test_ufvk(4), birthday(280_500), proto::AccountPurpose::Spending).unwrap();
    // Nothing scanned yet: scanning starts at Sapling activation, unless a start is given.
    assert_eq!(db.scan_start(None), (Some(280_000), None));
    assert_eq!(db.scan_start(Some(280_500)), (Some(280_500), None));
    let out = zcash_client_memory::notes::WalletOutput {
        index: 0,
        account_id: account,
        note: sapling_note(5),
        is_change: false,
        nf: Some([4; 32]),
        note_commitment_tree_position: 0,
        recipient_key_scope: Some(Scope::External),
    };
    let receive = WalletTx {
        txid: txid(9),
        block_index: 0,
        sapling_spends: vec![],
        orchard_spends: vec![],
        sapling_outputs: vec![out],
        orchard_outputs: vec![],
    };
    let mut b = empty_block(280_500);
    b.sapling_final_tree_size = 1;
    b.sapling_commitment_count = 1;
    b.transactions = vec![receive];
    let mut watched = vec![(account, [8; 32])];
    let m = db.scan_cached_block(&mut watched, b).unwrap();
    assert_eq!(m.block_height, 280_500);
    assert_eq!(m.sapling_tree_size, Some(1));
    assert_eq!(watched, vec![(account, [8; 32]), (account, [4; 32])]);
    // Blocks held but none fully scanned: no start is known.
    assert_eq!(db.scan_start(None), (None, None));
    let spend = WalletTx {
        txid: txid(10),
        block_index: 0,
        sapling_spends: vec![[4; 32]],
        orchard_spends: vec![],
        sapling_outputs: vec![],
        orchard_outputs: vec![],
    };
    let mut c = empty_block(280_501);
    c.sapling_final_tree_size = 1;
    c.transactions = vec![spend];
    db.scan_cached_block(&mut watched, c).unwrap();
    assert_eq!(watched, vec![(account, [8; 32])]);
    // The next start given: the block below it is the one just stored.
    let (start, prior) = db.scan_start(Some(280_502));
    assert_eq!(start, Some(280_502));
    assert_eq!(prior.unwrap().block_height, 280_501);
    // A block whose locators name two transactions at one place is refused.
    let mut conflict = empty_block(280_502);
    conflict.sapling_nullifier_map = vec![(txid(5), 0, vec![]), (txid(6), 0, vec![])];
    assert!(matches!(db.scan_cached_block(&mut watched, conflict), Err(Error::ConflictingTxLocator)));
}

fn empty_v5_transaction(expiry: u32) -> (Vec<u8>, [u8; 32]) {
    let data = zcash_primitives::transaction::TransactionData::<zcash_primitives::transaction::Authorized>::from_parts(
        zcash_primitives::transaction::TxVersion::V5,
        zcash_protocol::consensus::BranchId::Nu5,
        0,
        zcash_protocol::consensus::BlockHeight::from_u32(expiry),
        None,
        None,
        None,
        None,
    );
    let tx = data.freeze().unwrap();
    let mut bytes = vec![];
    tx.write(&mut bytes).unwrap();
    (bytes, *tx.txid().as_ref())
}

#[test]
fn stored_transactions_read_back_under_a_known_branch() {
    let mut db = MemoryWalletDb::new(Network::TestNetwork);
    assert!(matches!(db.get_transaction(txid(1)), Ok(None)));
    // Mined: read under the branch of its height.
    let (raw, id) = empty_v5_transaction(0);
    db.store_decrypted_tx(TxId(id), 0, raw.clone(), Some(2_000_000)).unwrap();
    let tx = db.get_transaction(TxId(id)).unwrap().unwrap();
    assert_eq!(*tx.txid().as_ref(), id);
    // Neither mined nor with a known expiry, and stating none: the branch is unknown.
    db.store_decrypted_tx(txid(2), 0, raw, None).unwrap();
    assert!(matches!(db.get_transaction(txid(2)), Err(Error::CorruptedData(_))));
    // Stating an expiry height: read under the branch of that height.
    let (raw, id) = empty_v5_transaction(2_000_010);
    db.store_decrypted_tx(txid(3), 0, raw, None).unwrap();
    let tx = db.get_transaction(txid(3)).unwrap().unwrap();
    assert_eq!(*tx.txid().as_ref(), id);
    // Bytes that are no transaction.
    db.store_decrypted_tx(txid(4), 0, vec![1, 2, 3], Some(2_000_000)).unwrap();
    assert!(matches!(db.get_transaction(txid(4)), Err(Error::Io(_))));
}

#[test]
fn accounts_from_one_seed_take_successive_indices() {
    let mut db = MemoryWalletDb::new(Network::TestNetwork);
    assert!(matches!(db.create_account(&[1; 16], birthday(280_500)), Err(Error::InvalidSeedLength)));
    assert_eq!(db.accounts.nonce, 0);
    let (first, key) = db.create_account(&[5; 32], birthday(280_500)).unwrap();
    assert_eq!(key, test_ufvk(5));
    let (second, _) = db.create_account(&[5; 32], birthday(280_500)).unwrap();
    assert_eq!((first, second), (AccountId(1), AccountId(2)));
    let fingerprint = zip32::fingerprint::SeedFingerprint::from_seed(&[5; 32]).unwrap().to_bytes();
    assert_eq!(db.accounts.max_zip32_account_index(&fingerprint), Some(1));
    assert_eq!(db.get_derived_account(&fingerprint, 1).unwrap().account_id(), second);
    // Another seed starts again at index 0.
    let (third, _) = db.create_account(&[6; 32], birthday(280_500)).unwrap();
    let other = zip32::fingerprint::SeedFingerprint::from_seed(&[6; 32]).unwrap().to_bytes();
    assert_eq!(db.get_derived_account(&other, 0).unwrap().account_id(), third);
    assert!(db.validate_seed(first, &[5; 32]).unwrap());
}

fn roundtrip_test_note() -> Note {
    let recipient: [u8; 43] = [
        0x00, 0x00, 0x00, 0x00, 0x00, 0x00, 0x00, 0x00, 0x00, 0x00, 0x00, 0x30, 0x8e, 0x11, 0x9d, 0x72, 0x99, 0x2b,
        0x56, 0x0d, 0x26, 0x50, 0xff, 0xe0, 0xbe, 0x7f, 0x35, 0x42, 0xfd, 0x97, 0x00, 0x3c, 0xb7, 0xcc, 0x3a, 0xbf,
        0xf8, 0x1a, 0x7f, 0x90, 0x37, 0xf3, 0xea,
    ];
    Note::Sapling { recipient, value: 99, rseed: Rseed::AfterZip212([0; 32]) }
}

#[test]
fn notes_test_note_roundtrip() {
    let note = roundtrip_test_note();
    let proto_note = note_to_proto(&note);
    let recovered = note_from_proto(&proto_note);
    assert_eq!(note, recovered);
}

#[test]
fn mod_test_note_roundtrip() {
    let note = roundtrip_test_note();
    let proto_note = note_to_proto(&note);
    let recovered = note_from_proto(&proto_note);
    assert_eq!(note, recovered);
}

#[test]
fn proto_roundtrip_recipient() {
    let recipient = Recipient::External(
        "uregtest1a7mkafdn9c87xywjnyup65uker8tx3y72r9f6elcfm6uh263c9s6smcw6xm5m8k8eythcreuyqktp9z7mtpcd6jsm5xw7skgdcfjx84z".to_string(),
        PoolType::Shielded(ShieldedProtocol::Sapling),
    );
    let proto = recipient_to_proto(&recipient);
    let recipient2 = recipient_from_proto(&proto).unwrap();
    let proto2 = recipient_to_proto(&recipient2);
    assert_eq!(proto, proto2);
}

#[test]
fn recipients_of_every_kind_roundtrip_through_records() {
    let ephemeral = Recipient::EphemeralTransparent {
        receiving_account: AccountId(3),
        ephemeral_address: TransparentAddress::PublicKeyHash([9; 20]),
        outpoint_metadata: OutPoint { txid: txid(4), n: 2 },
    };
    let record = recipient_to_proto(&ephemeral);
    assert_eq!(record.recipient_type, 1);
    assert_eq!(record.pool_type, Some(0));
    let back = recipient_from_proto(&record).unwrap();
    assert_eq!(format!("{:?}", back), format!("{:?}", ephemeral));
    let internal = Recipient::InternalAccount { receiving_account: AccountId(1), external_address: None, note: sapling_note(12) };
    let back = recipient_from_proto(&recipient_to_proto(&internal)).unwrap();
    assert_eq!(format!("{:?}", back), format!("{:?}", internal));
    // An external address that does not read as one.
    let bad = Recipient::External("not an address".to_string(), PoolType::Transparent);
    assert!(recipient_from_proto(&recipient_to_proto(&bad)).is_none());
    // An ephemeral record missing its outpoint.
    let mut missing = recipient_to_proto(&ephemeral);
    missing.outpoint_metadata = None;
    assert!(recipient_from_proto(&missing).is_none());
}

#[test]
fn sent_notes_and_their_ids_roundtrip_through_records() {
    let shielded = SentNoteId::Shielded(NoteId::new(txid(7), ShieldedProtocol::Orchard, 3));
    let record = sent_note_id_to_proto(&shielded);
    assert_eq!((record.pool, record.output_index), (2, 3));
    assert_eq!(format!("{:?}", sent_note_id_from_proto(&record).unwrap()), format!("{:?}", shielded));
    let transparent = SentNoteId::Transparent { txid: txid(8), output_index: 70_000 };
    let record = sent_note_id_to_proto(&transparent);
    assert_eq!(record.pool, 0);
    assert_eq!(format!("{:?}", sent_note_id_from_proto(&record).unwrap()), format!("{:?}", transparent));
    // A shielded output index past 16 bits cannot be read.
    let mut wide = sent_note_id_to_proto(&shielded);
    wide.output_index = 70_000;
    assert!(sent_note_id_from_proto(&wide).is_none());

    let mut memo = [0u8; 512];
    memo[0] = 0xF6;
    let note = SentNote {
        from_account_id: AccountId(2),
        to: Recipient::InternalAccount { receiving_account: AccountId(2), external_address: None, note: sapling_note(5) },
        value: 5,
        memo,
    };
    let record = sent_note_to_proto(&note);
    assert_eq!(record.memo.len(), 512);
    let back = sent_note_from_proto(&record).unwrap();
    assert_eq!(format!("{:?}", back), format!("{:?}", note));
    // A short memo is padded.
    let mut short = record.clone();
    short.memo = vec![0xF6];
    assert_eq!(sent_note_from_proto(&short).unwrap().memo, memo);
    let mut missing = record.clone();
    missing.to = None;
    assert!(matches!(sent_note_from_proto(&missing), Err(Error::Missing(_))));
    let mut rich = record.clone();
    rich.value = MAX_MONEY + 1;
    assert!(matches!(sent_note_from_proto(&rich), Err(Error::Balance(_))));
    let mut long = record.clone();
    long.memo = vec![0; 513];
    assert!(matches!(sent_note_from_proto(&long), Err(Error::MemoDecryption(_))));
}

fn hex20(s: &str) -> [u8; 20] {
    let mut out = [0u8; 20];
    for i in 0..20 {
        out[i] = u8::from_str_radix(&s[2 * i..2 * i + 2], 16).unwrap();
    }
    out
}

#[test]
fn ephemeral_recipients_carry_base58_addresses() {
    let p2pkh = Recipient::EphemeralTransparent {
        receiving_account: AccountId(1),
        ephemeral_address: TransparentAddress::PublicKeyHash(hex20("65a16059864a2fdbc7c99a4723a8395bc6f188eb")),
        outpoint_metadata: OutPoint { txid: txid(1), n: 0 },
    };
    assert_eq!(recipient_to_proto(&p2pkh).address.as_deref(), Some("t1T8yaLVhNqxA5KJcmiqqFN88e8DNp2PBfF"));
    let p2sh = Recipient::EphemeralTransparent {
        receiving_account: AccountId(1),
        ephemeral_address: TransparentAddress::ScriptHash(hex20("74f209f6ea907e2ea48f74fae05782ae8a665257")),
        outpoint_metadata: OutPoint { txid: txid(1), n: 0 },
    };
    let record = recipient_to_proto(&p2sh);
    assert_eq!(record.address.as_deref(), Some("t3VDyGHn9mbyCf448m2cHTu5uXvsJpKHbiZ"));
    assert_eq!(format!("{:?}", recipient_from_proto(&record).unwrap()), format!("{:?}", p2sh));
}

#[test]
fn viewing_keys_roundtrip_through_bytes() {
    let bytes = ufvk_to_bytes(Network::TestNetwork, &test_ufvk(3)).unwrap();
    let text = ufvk_from_bytes(&bytes).unwrap();
    // The bytes hold the key's text on the main network.
    assert!(text.starts_with("uview1"));
    assert_eq!(text.as_bytes(), bytes.as_slice());
    let params = zcash_protocol::consensus::Network::MainNetwork;
    let main = zcash_keys::keys::UnifiedFullViewingKey::decode(&params, &text).unwrap();
    let test = zcash_keys::keys::UnifiedFullViewingKey::decode(&zcash_protocol::consensus::Network::TestNetwork, &test_ufvk(3)).unwrap();
    assert_eq!(main.encode(&params).unwrap(), test.encode(&params).unwrap());
    assert_eq!(ufvk_to_bytes(Network::MainNetwork, &text).unwrap(), bytes);
    assert!(matches!(ufvk_from_bytes(&vec![0xff, 0xfe]), Err(Error::Io(_))));
    assert!(matches!(ufvk_from_bytes(&b"not a key".to_vec()), Err(Error::Io(_))));
    assert!(ufvk_to_bytes(Network::TestNetwork, "not a key").is_none());
}

#[test]
fn chain_tip_below_activation_or_birthday_changes_nothing() {
    let mut db = MemoryWalletDb::new(Network::MainNetwork);
    let params = zcash_protocol::consensus::Network::MainNetwork;
    let usk = zcash_keys::keys::UnifiedSpendingKey::from_seed(&params, &[3; 32], zip32::AccountId::ZERO).unwrap();
    let key = usk.to_unified_full_viewing_key().encode(&params).unwrap();
    db.import_account_ufvk(key, birthday(2_000_000), proto::AccountPurpose::Spending).unwrap();
    // A tip below Sapling activation: nothing to do, whatever the birthday.
    assert!(db.update_chain_tip(100_000).is_none());
    assert!(db.scan_queue.is_empty());
}

#[test]
fn nullifier_map_gives_the_last_insert() {
    let mut m = NullifierMap::new();
    m.insert(10, 0, Nullifier::Sapling([1; 32]));
    m.insert(11, 2, Nullifier::Sapling([2; 32]));
    m.insert(12, 1, Nullifier::Sapling([1; 32]));
    m.insert(13, 0, Nullifier::Orchard([2; 32]));
    let l = m.get(&Nullifier::Sapling([1; 32])).unwrap();
    assert_eq!((l.height, l.index), (12, 1));
    let l = m.get(&Nullifier::Sapling([2; 32])).unwrap();
    assert_eq!((l.height, l.index), (11, 2));
    assert!(m.get(&Nullifier::Orchard([1; 32])).is_none());
}

#[test]
fn marking_an_ephemeral_address_used_reserves_past_it() {
    let mut db = MemoryWalletDb::new(Network::TestNetwork);
    let id = db.import_account_ufvk(test_ufvk(3), birthday(280_500), proto::AccountPurpose::Spending).unwrap();
    let account = &mut db.accounts.accounts[0];
    assert_eq!(account.account_id, id);
    let fifth = account.ephemeral_addresses[4].address;
    account.mark_ephemeral_address_as_used(&fifth, txid(0x61)).unwrap();
    assert_eq!(account.ephemeral_addresses[4].used, Some(txid(0x61)));
    assert_eq!(account.ephemeral_addresses[4].seen, Some(txid(0x61)));
    assert_eq!(account.ephemeral_addresses.len(), 5 + GAP_LIMIT as usize);
    // An address that is not the account's changes nothing.
    account.mark_ephemeral_address_as_used(&TransparentAddress::PublicKeyHash([0; 20]), txid(0x62)).unwrap();
    assert_eq!(account.ephemeral_addresses.len(), 5 + GAP_LIMIT as usize);
}

#[test]
fn transparent_outputs_pay_to_script_hashes() {
    let mut script = vec![0xa9, 0x14];
    script.extend_from_slice(&[0x44; 20]);
    script.push(0x87);
    let output = ReceivedTransparentOutput::new(txid(2), AccountId(1), TransparentAddress::ScriptHash([0x44; 20]), TxOut { value: 9, script }, 10);
    let w = output.to_wallet_transparent_output(&OutPoint { txid: txid(2), n: 0 }, None).unwrap();
    assert_eq!(w.recipient_address, TransparentAddress::ScriptHash([0x44; 20]));
    // A pay-to-public-key-hash script with a wrong final opcode pays to no address.
    let mut bad = vec![0x76, 0xa9, 0x14];
    bad.extend_from_slice(&[0x33; 20]);
    bad.extend_from_slice(&[0x88, 0xad]);
    let odd = ReceivedTransparentOutput::new(txid(2), AccountId(1), TransparentAddress::PublicKeyHash([0x33; 20]), TxOut { value: 9, script: bad }, 10);
    assert!(odd.to_wallet_transparent_output(&OutPoint { txid: txid(2), n: 1 }, None).is_none());
}
