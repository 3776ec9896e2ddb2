//! The wallet: all of its tables together, the queries the wallet answers from
//! them and the rules by which scanned blocks, sent transactions and chain
//! events update them.
use vstd::prelude::*;
use crate::account::{Account, AccountSource, Accounts};
use crate::assoc::{seq_has, seq_lookup, AssocList};
use crate::block::{metadata_of, BlockMetadata, BlockTable, BlockView, MemoryWalletBlock};
use crate::data_requests::TransactionDataRequestQueue;
use crate::error::Error;
use crate::external::{
    derive_viewing_key, find_address, sapling_activation_height, seed_fingerprint, spec_derived_viewing_key,
    spec_find_address, spec_seed_fingerprint,
};
use crate::notes::{nullifiers_of, notes_have, notes_pos, note_protocol, note_value, ReceivedNote, ReceivedNoteSpends, ReceivedNoteTable};
use crate::nullifier::NullifierMap;
use crate::proto::ScanPriority;
use crate::scanning::ScanRange;
use crate::sent::{SentNote, SentNoteId, SentNoteTable};
use crate::transaction::{TransactionEntry, TransactionTable, TxLocatorMap};
use crate::transparent::{TransparentReceivedOutputSpends, TransparentReceivedOutputs, TransparentSpendCache};
use crate::types::{AccountId, BlockHeight, Network, NoteId, ShieldedProtocol, TransactionStatus, TxId};

verus! {

/// An in-memory wallet.
pub struct MemoryWalletDb {
    pub network: Network,
    pub accounts: Accounts,
    pub blocks: BlockTable,
    pub tx_table: TransactionTable,
    pub received_notes: ReceivedNoteTable,
    pub received_note_spends: ReceivedNoteSpends,
    pub nullifiers: NullifierMap,
    pub tx_locator: TxLocatorMap,
    /// The ranges of blocks to scan, or scanned, with their priorities.
    pub scan_queue: Vec<ScanRange>,
    pub sent_notes: SentNoteTable,
    pub transparent_received_outputs: TransparentReceivedOutputs,
    pub transparent_received_output_spends: TransparentReceivedOutputSpends,
    pub transparent_spend_map: TransparentSpendCache,
    pub transaction_data_requests: TransactionDataRequestQueue,
    /// The end height of each complete Sapling note commitment tree shard, by
    /// shard index.
    pub sapling_tree_shard_end_heights: AssocList<u64, BlockHeight>,
    /// The end height of each complete Orchard note commitment tree shard, by
    /// shard index.
    pub orchard_tree_shard_end_heights: AssocList<u64, BlockHeight>,
    /// The root hash of each complete Sapling note commitment tree shard, by shard
    /// index.
    pub sapling_subtree_roots: AssocList<u64, [u8; 32]>,
    /// The root hash of each complete Orchard note commitment tree shard, by shard
    /// index.
    pub orchard_subtree_roots: AssocList<u64, [u8; 32]>,
}

/// The most zatoshis there can ever be.
pub const MAX_MONEY: u64 = 2_100_000_000_000_000;

/// The spendable balance of an account in each shielded pool, in zatoshis.
#[derive(Clone, Copy, Debug, PartialEq, Eq, Structural)]
pub struct AccountBalance {
    pub account_id: AccountId,
    pub sapling_spendable: u64,
    pub orchard_spendable: u64,
}

/// The balances of the wallet's accounts and the progress of scanning.
#[derive(Debug)]
pub struct WalletSummary {
    pub account_balances: Vec<AccountBalance>,
    pub chain_tip_height: BlockHeight,
    pub fully_scanned_height: BlockHeight,
    pub next_sapling_subtree_index: u64,
    pub next_orchard_subtree_index: u64,
}

/// Whether the seed is relevant to the wallet's accounts derived from seeds.
#[derive(Debug)]
pub enum SeedRelevance {
    /// The seed derives these accounts, in order of id.
    Relevant { account_ids: Vec<AccountId> },
    /// The wallet has accounts derived from seeds, none of them from this one.
    NotRelevant,
    /// The wallet has accounts, none of them derived from a seed.
    NoDerivedAccounts,
    /// The wallet has no accounts.
    NoAccounts,
}

/// Which nullifiers a query asks for.
#[derive(Clone, Copy, Debug, PartialEq, Eq, Structural)]
pub enum NullifierQuery {
    /// Those of notes not known to be spent in a mined or pending transaction.
    Unspent,
    /// All of them.
    All,
}

/// The end of the range, less one, without going below zero.
pub open spec fn last_height_of(end: BlockHeight) -> BlockHeight {
    if end == 0 { 0 } else { (end - 1) as BlockHeight }
}

impl MemoryWalletDb {
    /// Every table is well formed, and every range of the scan queue is non-empty.
    pub open spec fn wf(&self) -> bool {
        &&& self.accounts.wf()
        &&& self.blocks.wf()
        &&& self.tx_table.wf()
        &&& self.received_notes.wf()
        &&& self.received_note_spends.wf()
        &&& self.nullifiers.wf()
        &&& self.tx_locator.wf()
        &&& self.sent_notes.wf()
        &&& self.transparent_received_outputs.wf()
        &&& self.transparent_received_output_spends.wf()
        &&& self.transparent_spend_map.wf()
        &&& self.sapling_tree_shard_end_heights.wf()
        &&& self.orchard_tree_shard_end_heights.wf()
        &&& self.sapling_subtree_roots.wf()
        &&& self.orchard_subtree_roots.wf()
        &&& forall|i: int| 0 <= i < self.scan_queue@.len() ==> (#[trigger] self.scan_queue@[i]).start
            < self.scan_queue@[i].end
    }

    /// The metadata of the last block of the fully scanned prefix of the chain;
    /// see [`Self::block_fully_scanned`].
    pub open spec fn spec_block_fully_scanned(&self) -> Option<BlockMetadata> {
        match wallet_birthday(self.accounts.accounts@) {
            None => None,
            Some(b) => match first_scanned(self.scan_queue@) {
                Some(i) if self.scan_queue@[i].start <= b => metadata_at(
                    self.blocks.0@,
                    (self.scan_queue@[i].end - 1) as BlockHeight,
                ),
                _ => None,
            },
        }
    }

    /// An empty wallet following `network`.
    pub fn new(network: Network) -> (r: Self)
        ensures
            r.wf(),
            r.network == network,
            r.accounts.accounts@.len() == 0,
            r.accounts.nonce == 0,
            r.blocks.0@.len() == 0,
            r.tx_table.0.entries@.len() == 0,
            r.received_notes.0@.len() == 0,
            r.received_note_spends.0.entries@.len() == 0,
            r.nullifiers.0.entries@.len() == 0,
            r.tx_locator.0.entries@.len() == 0,
            r.scan_queue@.len() == 0,
            r.sent_notes.0.entries@.len() == 0,
            r.transparent_received_outputs.0.entries@.len() == 0,
            r.transparent_received_output_spends.0.entries@.len() == 0,
            r.transparent_spend_map.0@.len() == 0,
            r.transaction_data_requests@.len() == 0,
            r.sapling_tree_shard_end_heights.entries@.len() == 0,
            r.orchard_tree_shard_end_heights.entries@.len() == 0,
            r.sapling_subtree_roots.entries@.len() == 0,
            r.orchard_subtree_roots.entries@.len() == 0,
    {
        MemoryWalletDb {
            network,
            accounts: Accounts::new(),
            blocks: BlockTable::new(),
            tx_table: TransactionTable::new(),
            received_notes: ReceivedNoteTable::new(),
            received_note_spends: ReceivedNoteSpends::new(),
            nullifiers: NullifierMap::new(),
            tx_locator: TxLocatorMap::new(),
            scan_queue: Vec::new(),
            sent_notes: SentNoteTable::new(),
            transparent_received_outputs: TransparentReceivedOutputs::new(),
            transparent_received_output_spends: TransparentReceivedOutputSpends::new(),
            transparent_spend_map: TransparentSpendCache::new(),
            transaction_data_requests: TransactionDataRequestQueue::new(),
            sapling_tree_shard_end_heights: AssocList::new(),
            orchard_tree_shard_end_heights: AssocList::new(),
            sapling_subtree_roots: AssocList::new(),
            orchard_subtree_roots: AssocList::new(),
        }
    }

    /// The ids of all accounts, in increasing order.
    pub fn get_account_ids(&self) -> (r: Vec<AccountId>)
        ensures
            r@ == self.accounts.accounts@.map_values(|a: Account| a.account_id),
    {
        let r = self.accounts.account_ids();
        assert(r@ =~= self.accounts.accounts@.map_values(|a: Account| a.account_id));
        r
    }

    /// The account with the given id, if any.
    pub fn get_account(&self, account_id: AccountId) -> (r: Option<&Account>)
        ensures
            match r {
                Some(a) => a.account_id == account_id && self.accounts.accounts@.contains(*a),
                None => !self.accounts.has(account_id),
            },
    {
        self.accounts.get(account_id)
    }

    /// The first account derived from the seed with fingerprint `seed` at ZIP 32
    /// index `account_index`, if any.
    pub fn get_derived_account(&self, seed: &[u8; 32], account_index: u32) -> (r: Option<&Account>)
        ensures
            match r {
                Some(a) => exists|i: int| 0 <= i < self.accounts.accounts@.len()
                    && self.accounts.accounts@[i] == *a
                    && derived_from(*a, seed@, account_index)
                    && forall|j: int| 0 <= j < i ==> !derived_from(#[trigger] self.accounts.accounts@[j], seed@, account_index),
                None => forall|j: int| 0 <= j < self.accounts.accounts@.len()
                    ==> !derived_from(#[trigger] self.accounts.accounts@[j], seed@, account_index),
            },
    {
        let mut i: usize = 0;
        while i < self.accounts.accounts.len()
            invariant
                i <= self.accounts.accounts@.len(),
                forall|j: int| 0 <= j < i ==> !derived_from(#[trigger] self.accounts.accounts@[j], seed@, account_index),
            decreases self.accounts.accounts@.len() - i,
        {
            let a = &self.accounts.accounts[i];
            let hit = match a.kind {
                AccountSource::Derived { seed_fingerprint, account_index: index } =>
                    crate::types::bytes_eq(seed_fingerprint.as_slice(), seed.as_slice()) && index == account_index,
                AccountSource::Imported { .. } => false,
            };
            if hit {
                return Some(a);
            }
            i = i + 1;
        }
        None
    }

    /// The birthday height of an account; fails with `AccountUnknown` where no
    /// account has the id.
    pub fn get_account_birthday(&self, account_id: AccountId) -> (r: Result<BlockHeight, Error>)
        requires
            self.wf(),
        ensures
            match r {
                Ok(h) => exists|i: int| 0 <= i < self.accounts.accounts@.len()
                    && #[trigger] self.accounts.accounts@[i].account_id == account_id
                    && h == self.accounts.accounts@[i].birthday.spec_height(),
                Err(e) => !self.accounts.has(account_id) && (e matches Error::AccountUnknown(id) && id == account_id),
            },
    {
        self.accounts.get_account_birthday(account_id)
    }

    /// The earliest birthday height among the accounts; `None` without accounts.
    pub fn get_wallet_birthday(&self) -> (r: Option<BlockHeight>)
        requires
            self.wf(),
        ensures
            r == wallet_birthday(self.accounts.accounts@),
            r matches Some(h) ==> is_earliest_birthday(self.accounts.accounts@, h),
    {
        let r = self.accounts.get_wallet_birthday();
        proof { lemma_wallet_birthday(self.accounts.accounts@, r); }
        r
    }

    /// Checks that `seed` derives the account with the given id: `Ok(false)` where
    /// no account has the id, `UnknownZip32Derivation` where the account was
    /// imported, else as [`seed_matches_derived_account`].
    pub fn validate_seed(&self, account_id: AccountId, seed: &[u8]) -> (r: Result<bool, Error>)
        requires
            self.wf(),
        ensures
            !self.accounts.has(account_id) ==> r == Ok::<bool, Error>(false),
            forall|i: int| 0 <= i < self.accounts.accounts@.len()
                && (#[trigger] self.accounts.accounts@[i]).account_id == account_id ==> match seed_outcome(
                    self.network,
                    seed@,
                    self.accounts.accounts@[i],
                ) {
                    None => r matches Err(Error::UnknownZip32Derivation),
                    Some(None) => r matches Err(e) && match self.accounts.accounts@[i].kind {
                        AccountSource::Derived { account_index, .. } => seed_check_error(
                            self.network,
                            seed@,
                            account_index,
                            self.accounts.accounts@[i].viewing_key@,
                            e,
                        ),
                        AccountSource::Imported { .. } => false,
                    },
                    Some(Some(b)) => r == Ok::<bool, Error>(b),
                },
    {
        match self.accounts.get(account_id) {
            None => Ok(false),
            Some(account) => {
                proof {
                    assert forall|i: int| 0 <= i < self.accounts.accounts@.len()
                        && (#[trigger] self.accounts.accounts@[i]).account_id == account_id
                        implies self.accounts.accounts@[i] == *account by {
                        let k = choose|k: int| 0 <= k < self.accounts.accounts@.len() && self.accounts.accounts@[k] == *account;
                        if k < i {
                            assert(self.accounts.accounts@[k].account_id.0 < self.accounts.accounts@[i].account_id.0);
                        } else if k > i {
                            assert(self.accounts.accounts@[i].account_id.0 < self.accounts.accounts@[k].account_id.0);
                        }
                    }
                }
                match account.kind {
                    AccountSource::Derived { seed_fingerprint, account_index } => seed_matches_derived_account(
                        self.network,
                        seed,
                        &seed_fingerprint,
                        account_index,
                        account.viewing_key.as_str(),
                    ),
                    AccountSource::Imported { .. } => Err(Error::UnknownZip32Derivation),
                }
            },
        }
    }

    /// Whether `seed` derives some of the accounts: the ids of those it derives,
    /// in order; else whether there are derived accounts, or accounts at all. The
    /// check of every derived account must succeed.
    pub fn seed_relevance_to_derived_accounts(&self, seed: &[u8]) -> (r: Result<SeedRelevance, Error>)
        requires
            self.wf(),
        ensures
            ({
                let s = self.accounts.accounts@;
                let failed = exists|i: int| 0 <= i < s.len() && seed_outcome(self.network, seed@, #[trigger] s[i]) == Some(None::<bool>);
                let derived = exists|i: int| 0 <= i < s.len() && seed_outcome(self.network, seed@, #[trigger] s[i]) is Some;
                let relevant = relevant_accounts(self.network, seed@, s);
                &&& r is Err <==> failed
                &&& r matches Ok(SeedRelevance::Relevant { account_ids }) ==> account_ids@ == relevant
                &&& r is Ok ==> match r->Ok_0 {
                    SeedRelevance::Relevant { .. } => relevant.len() > 0,
                    SeedRelevance::NotRelevant => relevant.len() == 0 && derived,
                    SeedRelevance::NoDerivedAccounts => !derived && s.len() > 0,
                    SeedRelevance::NoAccounts => s.len() == 0,
                }
                &&& !failed ==> r is Ok
            }),
    {
        let ghost s = self.accounts.accounts@;
        let mut has_accounts = false;
        let mut has_derived = false;
        let mut ids: Vec<AccountId> = Vec::new();
        let mut i: usize = 0;
        while i < self.accounts.accounts.len()
            invariant
                s == self.accounts.accounts@,
                i <= s.len(),
                has_accounts == (i > 0),
                has_derived == exists|j: int| 0 <= j < i && seed_outcome(self.network, seed@, #[trigger] s[j]) is Some,
                forall|j: int| 0 <= j < i ==> seed_outcome(self.network, seed@, #[trigger] s[j]) != Some(None::<bool>),
                ids@ == relevant_accounts(self.network, seed@, s.take(i as int)),
            decreases s.len() - i,
        {
            has_accounts = true;
            let account = &self.accounts.accounts[i];
            assert(s.take(i + 1).drop_last() =~= s.take(i as int));
            match account.kind {
                AccountSource::Derived { seed_fingerprint, account_index } => {
                    has_derived = true;
                    match seed_matches_derived_account(
                        self.network,
                        seed,
                        &seed_fingerprint,
                        account_index,
                        account.viewing_key.as_str(),
                    ) {
                        Ok(b) => {
                            if b {
                                ids.push(account.account_id);
                            }
                        },
                        Err(e) => {
                            assert(seed_outcome(self.network, seed@, s[i as int]) == Some(None::<bool>));
                            return Err(e);
                        },
                    }
                },
                AccountSource::Imported { .. } => {},
            }
            i = i + 1;
        }
        assert(s.take(i as int) =~= s);
        if ids.len() > 0 {
            Ok(SeedRelevance::Relevant { account_ids: ids })
        } else if has_derived {
            Ok(SeedRelevance::NotRelevant)
        } else if has_accounts {
            Ok(SeedRelevance::NoDerivedAccounts)
        } else {
            Ok(SeedRelevance::NoAccounts)
        }
    }

    /// The height of the chain tip as the scan queue knows it: the last block of
    /// the range that ends highest; `None` where the queue is empty.
    pub fn chain_height(&self) -> (r: Option<BlockHeight>)
        ensures
            r == chain_height_of(self.scan_queue@),
    {
        let n = self.scan_queue.len();
        if n == 0 {
            return None;
        }
        let mut best: BlockHeight = self.scan_queue[0].end;
        let mut i: usize = 1;
        while i < n
            invariant
                n == self.scan_queue@.len(),
                1 <= i <= n,
                exists|j: int| 0 <= j < i && (#[trigger] self.scan_queue@[j]).end == best,
                forall|j: int| 0 <= j < i ==> (#[trigger] self.scan_queue@[j]).end <= best,
            decreases n - i,
        {
            if self.scan_queue[i].end > best {
                best = self.scan_queue[i].end;
            }
            i = i + 1;
        }
        proof {
            let q = self.scan_queue@;
            assert(is_max_end(q, best));
            let c = choose|e: BlockHeight| is_max_end(q, e);
            let j1 = choose|j: int| 0 <= j < q.len() && (#[trigger] q[j]).end == best;
            let j2 = choose|j: int| 0 <= j < q.len() && (#[trigger] q[j]).end == c;
            assert(q[j1].end <= c && q[j2].end <= best);
        }
        Some(if best == 0 { 0 } else { best - 1 })
    }

    /// The hash of the stored block of height `h`, if any.
    pub fn get_block_hash(&self, h: BlockHeight) -> (r: Option<[u8; 32]>)
        requires
            self.wf(),
        ensures
            r == match metadata_at(self.blocks.0@, h) {
                Some(m) => Some(m.block_hash),
                None => None::<[u8; 32]>,
            },
    {
        match self.block_metadata(h) {
            Some(m) => Some(m.block_hash),
            None => None,
        }
    }

    /// The metadata of the stored block of height `h`, if any.
    pub fn block_metadata(&self, h: BlockHeight) -> (r: Option<BlockMetadata>)
        requires
            self.wf(),
        ensures
            r == metadata_at(self.blocks.0@, h),
    {
        match self.blocks.position(h) {
            Some(i) => {
                let b = &self.blocks.0[i];
                proof {
                    let bs = self.blocks.0@;
                    let c = choose|k: int| 0 <= k < bs.len() && #[trigger] bs[k].height == h;
                    if c != i as int {
                        if c < i as int {
                            assert(bs[c].height < bs[i as int].height);
                        } else {
                            assert(bs[i as int].height < bs[c].height);
                        }
                    }
                }
                Some(BlockMetadata {
                    block_height: b.height,
                    block_hash: b.hash,
                    sapling_tree_size: b.sapling_commitment_tree_size,
                    orchard_tree_size: b.orchard_commitment_tree_size,
                })
            },
            None => None,
        }
    }

    /// The height and hash of the highest stored block, if any.
    pub fn get_max_height_hash(&self) -> (r: Option<(BlockHeight, [u8; 32])>)
        requires
            self.wf(),
        ensures
            r == if self.blocks.0@.len() == 0 {
                None::<(BlockHeight, [u8; 32])>
            } else {
                Some((self.blocks.0@.last().height, self.blocks.0@.last().hash))
            },
    {
        match self.blocks.last() {
            Some(b) => Some((b.height, b.hash)),
            None => None,
        }
    }

    /// The metadata of the highest stored block, if any.
    pub fn block_max_scanned(&self) -> (r: Option<BlockMetadata>)
        requires
            self.wf(),
        ensures
            r == if self.blocks.0@.len() == 0 {
                None::<BlockMetadata>
            } else {
                Some(metadata_of(self.blocks.0@.last()))
            },
    {
        match self.blocks.last() {
            Some(b) => Some(BlockMetadata {
                block_height: b.height,
                block_hash: b.hash,
                sapling_tree_size: b.sapling_commitment_tree_size,
                orchard_tree_size: b.orchard_commitment_tree_size,
            }),
            None => None,
        }
    }

    /// The metadata of the last block of the fully scanned prefix of the chain: of
    /// the scanned range that starts lowest, where it starts at or below the wallet
    /// birthday; `None` without accounts, without a scanned range, or where the
    /// lowest scanned range starts above the birthday.
    pub fn block_fully_scanned(&self) -> (r: Option<BlockMetadata>)
        requires
            self.wf(),
        ensures
            r == self.spec_block_fully_scanned(),
    {
        let birthday = match self.get_wallet_birthday() {
            Some(b) => b,
            None => return None,
        };
        let q = &self.scan_queue;
        let mut found: Option<usize> = None;
        let mut i: usize = 0;
        while i < q.len()
            invariant
                i <= q@.len(),
                match found {
                    Some(k) => k < i && is_scanned(q@[k as int])
                        && forall|j: int| 0 <= j < i && is_scanned(#[trigger] q@[j])
                            ==> q@[j].start >= q@[k as int].start && (j < k ==> q@[j].start > q@[k as int].start),
                    None => forall|j: int| 0 <= j < i ==> !is_scanned(#[trigger] q@[j]),
                },
            decreases q@.len() - i,
        {
            let scanned = match q[i].priority {
                ScanPriority::Scanned => true,
                _ => false,
            };
            if scanned {
                found = match found {
                    Some(k) => if q[i].start < q[k].start { Some(i) } else { Some(k) },
                    None => Some(i),
                };
            }
            i = i + 1;
        }
        proof {
            let s = q@;
            match found {
                Some(k) => {
                    let c = first_scanned(s)->0;
                    assert(is_scanned(s[k as int]));
                    assert(is_scanned(s[c]));
                    if c != k as int {
                        if c < k as int {
                            assert(s[c].start > s[k as int].start);
                        } else {
                            assert(s[k as int].start > s[c].start);
                        }
                    }
                },
                None => {},
            }
        }
        match found {
            Some(k) => {
                if q[k].start <= birthday {
                    self.block_metadata(q[k].end - 1)
                } else {
                    None
                }
            },
            None => None,
        }
    }

    /// The height at which a transaction was mined, where it is known to be.
    pub fn get_tx_height(&self, txid: TxId) -> (r: Option<BlockHeight>)
        requires
            self.wf(),
        ensures
            r == match self.tx_table.entry(txid@) {
                Some(e) => match e.tx_status {
                    TransactionStatus::Mined(h) => Some(h),
                    _ => None::<BlockHeight>,
                },
                None => None::<BlockHeight>,
            },
    {
        match self.tx_table.tx_status(&txid) {
            Some(TransactionStatus::Mined(h)) => Some(h),
            _ => None,
        }
    }

    /// The memo of a note: that of the received note with the id where there is
    /// one, else that of the sent note with the id, if any.
    pub fn get_memo(&self, note_id: &NoteId) -> (r: Option<[u8; 512]>)
        requires
            self.wf(),
        ensures
            r == memo_of(self.received_notes.0@, self.sent_notes.0.entries@, *note_id),
    {
        match self.received_notes.get(note_id) {
            Some(n) => Some(n.memo),
            None => match self.sent_notes.get_sent_note(note_id) {
                Some(n) => Some(n.memo),
                None => None,
            },
        }
    }

    /// The nullifiers of protocol `p` of the received notes, with their accounts,
    /// in table order; for the `Unspent` query only those of notes whose
    /// transaction is not mined and has a known expiry height.
    pub fn get_nullifiers(&self, p: ShieldedProtocol, query: NullifierQuery) -> (r: Vec<(AccountId, [u8; 32])>)
        requires
            self.wf(),
        ensures
            r@ == queried_nullifiers(nullifiers_of(self.received_notes.0@, p), self.tx_table.0.entries@, query),
    {
        let all = self.received_notes.get_nullifiers(p);
        let ghost txs = self.tx_table.0.entries@;
        let mut r: Vec<(AccountId, [u8; 32])> = Vec::new();
        let mut i: usize = 0;
        while i < all.len()
            invariant
                i <= all@.len(),
                self.wf(),
                txs == self.tx_table.0.entries@,
                r@ == queried_nullifiers(all@.take(i as int), txs, query),
            decreases all@.len() - i,
        {
            let (account_id, txid, nf) = all[i];
            assert(all@.take(i + 1).drop_last() =~= all@.take(i as int));
            let keep = match query {
                NullifierQuery::All => true,
                NullifierQuery::Unspent => {
                    let mined = match self.tx_table.tx_status(&txid) {
                        Some(TransactionStatus::Mined(_)) => true,
                        _ => false,
                    };
                    !(mined || self.tx_table.expiry_height(&txid).is_none())
                },
            };
            if keep {
                r.push((account_id, nf));
            }
            i = i + 1;
        }
        assert(all@.take(i as int) =~= all@);
        r
    }

    /// The Sapling nullifiers of the received notes; see [`Self::get_nullifiers`].
    pub fn get_sapling_nullifiers(&self, query: NullifierQuery) -> (r: Vec<(AccountId, [u8; 32])>)
        requires
            self.wf(),
        ensures
            r@ == queried_nullifiers(
                nullifiers_of(self.received_notes.0@, ShieldedProtocol::Sapling),
                self.tx_table.0.entries@,
                query,
            ),
    {
        self.get_nullifiers(ShieldedProtocol::Sapling, query)
    }

    /// The Orchard nullifiers of the received notes; see [`Self::get_nullifiers`].
    pub fn get_orchard_nullifiers(&self, query: NullifierQuery) -> (r: Vec<(AccountId, [u8; 32])>)
        requires
            self.wf(),
        ensures
            r@ == queried_nullifiers(
                nullifiers_of(self.received_notes.0@, ShieldedProtocol::Orchard),
                self.tx_table.0.entries@,
                query,
            ),
    {
        self.get_nullifiers(ShieldedProtocol::Orchard, query)
    }

    /// The ids of the notes of protocol `p` that transaction `txid` sent, in the
    /// order the sent outputs were recorded.
    pub fn get_sent_note_ids(&self, txid: &TxId, p: ShieldedProtocol) -> (r: Vec<NoteId>)
        ensures
            r@ == sent_note_ids(self.sent_notes.0.entries@, txid@, p),
    {
        let entries = &self.sent_notes.0.entries;
        let mut r: Vec<NoteId> = Vec::new();
        let mut i: usize = 0;
        while i < entries.len()
            invariant
                i <= entries@.len(),
                r@ == sent_note_ids(entries@.take(i as int), txid@, p),
            decreases entries@.len() - i,
        {
            assert(entries@.take(i + 1).drop_last() =~= entries@.take(i as int));
            match &entries[i].0 {
                SentNoteId::Shielded(id) => {
                    if id.txid == *txid && id.protocol == p {
                        r.push(*id);
                    }
                },
                SentNoteId::Transparent { .. } => {},
            }
            i = i + 1;
        }
        assert(entries@.take(i as int) =~= entries@);
        r
    }

    /// The spendable balances of the accounts and the scanning progress, where the
    /// chain height is known. The next subtree index of each protocol is the
    /// index of the last shard whose root was recorded, or 0 where none was. The note at position `i` of the note table counts as
    /// spent where `spent[i]` holds. Balances are counted as by
    /// [`balances_after`]: one per account, in order, then one for each other
    /// account that has notes; the summary fails with `Balance` where a total
    /// would exceed [`MAX_MONEY`]. The fully scanned height is that of
    /// [`Self::block_fully_scanned`], or the block before the wallet birthday.
    #[verifier::rlimit(50)]
    pub fn get_wallet_summary(&self, spent: &Vec<bool>) -> (r: Result<Option<WalletSummary>, Error>)
        requires
            self.wf(),
            spent@.len() == self.received_notes.0@.len(),
            self.scan_queue@.len() > 0 ==> self.accounts.accounts@.len() > 0,
        ensures
            ({
                let ids = self.accounts.accounts@.map_values(|a: Account| a.account_id);
                let balances = balances_after(ids, self.received_notes.0@, spent@);
                match chain_height_of(self.scan_queue@) {
                    None => r matches Ok(None),
                    Some(tip) => match balances {
                        None => r matches Err(Error::Balance(_)),
                        Some(st) => r matches Ok(Some(sm)) && {
                            &&& sm.account_balances@.map_values(|b: AccountBalance| balance_triple(b)) == st
                            &&& sm.chain_tip_height == tip
                            &&& sm.fully_scanned_height == match self.spec_block_fully_scanned() {
                                Some(m) => m.block_height,
                                None => (wallet_birthday(self.accounts.accounts@)->0 - 1) as BlockHeight,
                            }
                            &&& sm.next_sapling_subtree_index == last_shard_index(self.sapling_subtree_roots.entries@)
                            &&& sm.next_orchard_subtree_index == last_shard_index(self.orchard_subtree_roots.entries@)
                            &&& forall|k: int| 0 <= k < ids.len() ==> #[trigger] st[k] == (
                                ids[k],
                                pool_balance(self.received_notes.0@, spent@, ids[k], ShieldedProtocol::Sapling),
                                pool_balance(self.received_notes.0@, spent@, ids[k], ShieldedProtocol::Orchard),
                            )
                        },
                    },
                }
            }),
    {
        let tip = match self.chain_height() {
            Some(h) => h,
            None => return Ok(None),
        };
        let birthday = match self.get_wallet_birthday() {
            Some(b) => b,
            None => {
                proof {
                    assert(self.scan_queue@.len() > 0);
                }
                return Ok(None);
            },
        };
        let fully_scanned_height = match self.block_fully_scanned() {
            Some(m) => m.block_height,
            None => {
                proof {
                    let s = self.accounts.accounts@;
                    assert(is_earliest_birthday(s, birthday));
                    let i = choose|i: int| 0 <= i < s.len() && birthday == (#[trigger] s[i]).birthday.spec_height();
                    assert(s[i].wf());
                }
                birthday - 1
            },
        };
        let balances = match self.count_balances(spent) {
            Some(b) => b,
            None => {
                return Err(Error::Balance("a balance would exceed the money supply".to_string()));
            },
        };
        let next_sapling_subtree_index = last_recorded_shard(&self.sapling_subtree_roots);
        let next_orchard_subtree_index = last_recorded_shard(&self.orchard_subtree_roots);
        proof {
            lemma_ids_distinct(self.accounts.accounts@);
            lemma_known_balances(self.accounts.accounts@.map_values(|a: Account| a.account_id), self.received_notes.0@, spent@);
        }
        Ok(Some(WalletSummary {
            account_balances: balances,
            chain_tip_height: tip,
            fully_scanned_height,
            next_sapling_subtree_index,
            next_orchard_subtree_index,
        }))
    }

    /// A zero balance for each account, in order.
    fn zero_balances(&self) -> (r: Vec<AccountBalance>)
        ensures
            r@.map_values(|b: AccountBalance| balance_triple(b))
                == self.accounts.accounts@.map_values(|a: Account| a.account_id).map_values(|id: AccountId| (id, 0int, 0int)),
    {
        let ghost ids = self.accounts.accounts@.map_values(|a: Account| a.account_id);
        let mut balances: Vec<AccountBalance> = Vec::new();
        let mut a: usize = 0;
        while a < self.accounts.accounts.len()
            invariant
                a <= self.accounts.accounts@.len(),
                ids == self.accounts.accounts@.map_values(|a: Account| a.account_id),
                balances@.len() == a,
                forall|k: int| 0 <= k < a ==> #[trigger] balances@[k] == (AccountBalance {
                    account_id: ids[k],
                    sapling_spendable: 0,
                    orchard_spendable: 0,
                }),
            decreases self.accounts.accounts@.len() - a,
        {
            balances.push(AccountBalance {
                account_id: self.accounts.accounts[a].account_id,
                sapling_spendable: 0,
                orchard_spendable: 0,
            });
            a = a + 1;
        }
        assert(balances@.map_values(|b: AccountBalance| balance_triple(b))
            =~= ids.map_values(|id: AccountId| (id, 0int, 0int)));
        balances
    }

    /// The balances as [`balances_after`] counts them, or `None` where a total
    /// would exceed [`MAX_MONEY`].
    fn count_balances(&self, spent: &Vec<bool>) -> (r: Option<Vec<AccountBalance>>)
        requires
            self.wf(),
            spent@.len() == self.received_notes.0@.len(),
        ensures
            match r {
                Some(b) => balances_after(
                    self.accounts.accounts@.map_values(|a: Account| a.account_id),
                    self.received_notes.0@,
                    spent@,
                ) == Some(b@.map_values(|b: AccountBalance| balance_triple(b))),
                None => balances_after(
                    self.accounts.accounts@.map_values(|a: Account| a.account_id),
                    self.received_notes.0@,
                    spent@,
                ) is None,
            },
    {
        let ghost ids = self.accounts.accounts@.map_values(|a: Account| a.account_id);
        let ghost notes = self.received_notes.0@;
        let mut balances = self.zero_balances();
        proof {
            assert(notes.take(0) =~= Seq::<ReceivedNote>::empty());
            lemma_ids_distinct(self.accounts.accounts@);
        }
        let mut i: usize = 0;
        while i < self.received_notes.0.len()
            invariant
                notes == self.received_notes.0@,
                ids == self.accounts.accounts@.map_values(|a: Account| a.account_id),
                spent@.len() == notes.len(),
                i <= notes.len(),
                balances_after(ids, notes.take(i as int), spent@.take(i as int))
                    == Some(balances@.map_values(|b: AccountBalance| balance_triple(b))),
                balance_ids_distinct(balances@.map_values(|b: AccountBalance| balance_triple(b))),
                balances_bounded(balances@.map_values(|b: AccountBalance| balance_triple(b))),
            decreases notes.len() - i,
        {
            proof {
                assert(notes.take(i + 1).drop_last() =~= notes.take(i as int));
                assert(spent@.take(i + 1).drop_last() =~= spent@.take(i as int));
            }
            if !spent[i] {
                let n = self.received_notes.0[i];
                if !count_note(&mut balances, n) {
                    proof {
                        assert(notes.take(i + 1).last() == n);
                        assert(spent@.take(i + 1).last() == spent@[i as int]);
                        assert(balances_after(ids, notes.take(i + 1), spent@.take(i + 1)) is None);
                        lemma_none_persists(ids, notes, spent@, i + 1);
                    }
                    return None;
                }
            }
            i = i + 1;
        }
        proof {
            assert(notes.take(i as int) =~= notes);
            assert(spent@.take(i as int) =~= spent@);
        }
        Some(balances)
    }

    /// The lowest height at which the transaction of a note not flagged as spent
    /// was mined; `None` where there is none.
    pub fn get_min_unspent_height(&self, spent: &Vec<bool>) -> (r: Option<BlockHeight>)
        requires
            self.wf(),
            spent@.len() == self.received_notes.0@.len(),
        ensures
            match r {
                Some(h) => is_min_unspent_height(self.received_notes.0@, spent@, self.tx_table.0.entries@, h),
                None => forall|i: int| 0 <= i < spent@.len() && !spent@[i]
                    ==> #[trigger] mined_height_in(self.tx_table.0.entries@, self.received_notes.0@[i].txid) is None,
            },
    {
        let ghost notes = self.received_notes.0@;
        let ghost txs = self.tx_table.0.entries@;
        let mut best: Option<BlockHeight> = None;
        let mut i: usize = 0;
        while i < self.received_notes.0.len()
            invariant
                self.wf(),
                notes == self.received_notes.0@,
                txs == self.tx_table.0.entries@,
                spent@.len() == notes.len(),
                i <= notes.len(),
                match best {
                    Some(h) => (exists|j: int| 0 <= j < i && !spent@[j] && mined_height_in(txs, (#[trigger] notes[j]).txid) == Some(h))
                        && forall|j: int| 0 <= j < i && !spent@[j] && #[trigger] mined_height_in(txs, notes[j].txid) is Some
                            ==> h <= mined_height_in(txs, notes[j].txid)->0,
                    None => forall|j: int| 0 <= j < i && !spent@[j] ==> #[trigger] mined_height_in(txs, notes[j].txid) is None,
                },
            decreases notes.len() - i,
        {
            if !spent[i] {
                let txid = self.received_notes.0[i].txid;
                match self.tx_table.tx_status(&txid) {
                    Some(TransactionStatus::Mined(h)) => {
                        best = match best {
                            Some(b) => if h < b { Some(h) } else { Some(b) },
                            None => Some(h),
                        };
                    },
                    _ => {},
                }
            }
            i = i + 1;
        }
        best
    }

    /// The height a new transaction would be mined at, the block after the chain
    /// tip, with the anchor height: the lower of the two pools' anchor heights where
    /// both have one, else the one there is. `None` where the chain height is not
    /// known or neither pool has an anchor height. The anchor heights are the
    /// highest checkpoints of the note commitment trees at the required depth.
    pub fn get_target_and_anchor_heights(
        &self,
        sapling_anchor: Option<BlockHeight>,
        orchard_anchor: Option<BlockHeight>,
    ) -> (r: Option<(BlockHeight, BlockHeight)>)
        ensures
            r == match chain_height_of(self.scan_queue@) {
                None => None::<(BlockHeight, BlockHeight)>,
                Some(tip) => match (sapling_anchor, orchard_anchor) {
                    (Some(s), Some(o)) => Some(((tip + 1) as BlockHeight, if s <= o { s } else { o })),
                    (Some(s), None) => Some(((tip + 1) as BlockHeight, s)),
                    (None, Some(o)) => Some(((tip + 1) as BlockHeight, o)),
                    (None, None) => None::<(BlockHeight, BlockHeight)>,
                },
            },
    {
        match self.chain_height() {
            None => None,
            Some(tip) => {
                let anchor = match (sapling_anchor, orchard_anchor) {
                    (Some(s), Some(o)) => Some(if s <= o { s } else { o }),
                    (Some(s), None) => Some(s),
                    (None, Some(o)) => Some(o),
                    (None, None) => None,
                };
                match anchor {
                    Some(a) => Some((tip + 1, a)),
                    None => None,
                }
            },
        }
    }
}

/// The memo of a note: that of the received note with the id where there is one,
/// else that of the sent note with the id, if any.
pub open spec fn memo_of(notes: Seq<ReceivedNote>, sent: Seq<(SentNoteId, SentNote)>, id: NoteId) -> Option<[u8; 512]> {
    if notes_have(notes, id@) {
        Some(notes[notes_pos(notes, id@)].memo)
    } else {
        match seq_lookup(sent, SentNoteId::Shielded(id)@) {
            Some(n) => Some(n.memo),
            None => None,
        }
    }
}

/// A nullifier of a note received in `txid` counts as unspent where the
/// transaction is known, not mined, and has a known expiry height.
pub open spec fn counts_as_unspent(txs: Seq<(TxId, TransactionEntry)>, txid: TxId) -> bool {
    match seq_lookup(txs, txid@) {
        Some(e) => !(e.tx_status is Mined) && e.expiry_height is Some,
        None => false,
    }
}

/// The nullifiers the query asks for, with their accounts, in order.
pub open spec fn queried_nullifiers(
    list: Seq<(AccountId, TxId, [u8; 32])>,
    txs: Seq<(TxId, TransactionEntry)>,
    query: NullifierQuery,
) -> Seq<(AccountId, [u8; 32])>
    decreases list.len(),
{
    if list.len() == 0 {
        Seq::empty()
    } else {
        let rest = queried_nullifiers(list.drop_last(), txs, query);
        let (a, t, nf) = list.last();
        if query == NullifierQuery::All || counts_as_unspent(txs, t) {
            rest.push((a, nf))
        } else {
            rest
        }
    }
}

/// The ids of the notes of protocol `p` sent by the transaction with id `txid`,
/// in order.
pub open spec fn sent_note_ids(entries: Seq<(SentNoteId, SentNote)>, txid: Seq<u8>, p: ShieldedProtocol) -> Seq<NoteId>
    decreases entries.len(),
{
    if entries.len() == 0 {
        Seq::empty()
    } else {
        let rest = sent_note_ids(entries.drop_last(), txid, p);
        match entries.last().0 {
            SentNoteId::Shielded(id) => if id.txid@ == txid && id.protocol == p { rest.push(id) } else { rest },
            SentNoteId::Transparent { .. } => rest,
        }
    }
}

/// A balance as a triple of account, Sapling and Orchard value.
pub open spec fn balance_triple(b: AccountBalance) -> (AccountId, int, int) {
    (b.account_id, b.sapling_spendable as int, b.orchard_spendable as int)
}

/// No two balances are of the same account.
pub open spec fn balance_ids_distinct(st: Seq<(AccountId, int, int)>) -> bool {
    forall|i: int, j: int| 0 <= i < j < st.len() ==> st[i].0 != st[j].0
}

/// The balances after an unspent note is counted: its value is added, in its
/// pool, to the balance of its account where there is one, failing where the
/// total would exceed [`MAX_MONEY`]; a note of an account without a balance yet
/// opens one at zero, and its value is not added.
pub open spec fn balance_step(st: Seq<(AccountId, int, int)>, n: ReceivedNote) -> Option<Seq<(AccountId, int, int)>> {
    if exists|k: int| 0 <= k < st.len() && (#[trigger] st[k]).0 == n.account_id {
        let k = choose|k: int| 0 <= k < st.len() && (#[trigger] st[k]).0 == n.account_id;
        let v = note_value(n.note) as int;
        let e = st[k];
        if note_protocol(n.note) == ShieldedProtocol::Sapling {
            if e.1 + v > MAX_MONEY { None } else { Some(st.update(k, (e.0, e.1 + v, e.2))) }
        } else {
            if e.2 + v > MAX_MONEY { None } else { Some(st.update(k, (e.0, e.1, e.2 + v))) }
        }
    } else {
        Some(st.push((n.account_id, 0, 0)))
    }
}

/// The balances after counting the notes not flagged as spent, in order,
/// starting from a zero balance for each of the accounts `ids`; `None` where a
/// total would exceed [`MAX_MONEY`].
pub open spec fn balances_after(ids: Seq<AccountId>, notes: Seq<ReceivedNote>, spent: Seq<bool>) -> Option<Seq<(AccountId, int, int)>>
    decreases notes.len(),
{
    if notes.len() == 0 {
        Some(ids.map_values(|id: AccountId| (id, 0int, 0int)))
    } else {
        match balances_after(ids, notes.drop_last(), spent.drop_last()) {
            None => None,
            Some(st) => if spent.last() { Some(st) } else { balance_step(st, notes.last()) },
        }
    }
}

/// The total value of the notes of account `id` in pool `p` that are not flagged
/// as spent.
pub open spec fn pool_balance(notes: Seq<ReceivedNote>, spent: Seq<bool>, id: AccountId, p: ShieldedProtocol) -> int
    decreases notes.len(),
{
    if notes.len() == 0 {
        0
    } else {
        let n = notes.last();
        pool_balance(notes.drop_last(), spent.drop_last(), id, p) + if !spent.last() && n.account_id == id
            && note_protocol(n.note) == p {
            note_value(n.note) as int
        } else {
            0
        }
    }
}

/// `h` is the mined height of the transaction of some note not flagged as spent,
/// and no such note's transaction was mined lower.
pub open spec fn is_min_unspent_height(notes: Seq<ReceivedNote>, spent: Seq<bool>, txs: Seq<(TxId, TransactionEntry)>, h: BlockHeight) -> bool {
    &&& exists|i: int| 0 <= i < notes.len() && !spent[i] && mined_height_in(txs, (#[trigger] notes[i]).txid) == Some(h)
    &&& forall|i: int| 0 <= i < notes.len() && !spent[i] && #[trigger] mined_height_in(txs, notes[i].txid) is Some
        ==> h <= mined_height_in(txs, notes[i].txid)->0
}

/// The height at which the transaction was mined, where it is known to be.
pub open spec fn mined_height_in(txs: Seq<(TxId, TransactionEntry)>, txid: TxId) -> Option<BlockHeight> {
    match seq_lookup(txs, txid@) {
        Some(e) => match e.tx_status {
            TransactionStatus::Mined(h) => Some(h),
            _ => None,
        },
        None => None,
    }
}

/// The ids of the accounts, in order, that the seed derives.
pub open spec fn relevant_accounts(network: Network, seed: Seq<u8>, s: Seq<Account>) -> Seq<AccountId>
    decreases s.len(),
{
    if s.len() == 0 {
        Seq::empty()
    } else {
        let rest = relevant_accounts(network, seed, s.drop_last());
        if seed_outcome(network, seed, s.last()) == Some(Some(true)) {
            rest.push(s.last().account_id)
        } else {
            rest
        }
    }
}

/// What checking `seed` against an account gives: `None` for an imported account;
/// for a derived one, `Some(None)` where the check fails and else `Some(Some(b))`,
/// `b` telling whether the seed derives the account.
pub open spec fn seed_outcome(network: Network, seed: Seq<u8>, a: Account) -> Option<Option<bool>> {
    match a.kind {
        AccountSource::Imported { .. } => None,
        AccountSource::Derived { seed_fingerprint, account_index } => Some(
            derived_seed_outcome(network, seed, seed_fingerprint@, account_index, a.viewing_key@),
        ),
    }
}

/// Whether the seed derives the account key at the ZIP 32 account index that the
/// encoded viewing key holds, compared by the two keys' default addresses (the
/// first each gives from diversifier index 0): false where no key derives from the
/// seed at that index; `None` where either default address cannot be generated.
pub open spec fn key_match_outcome(network: Network, seed: Seq<u8>, account_index: u32, key: Seq<char>) -> Option<bool> {
    if account_index >= 0x8000_0000 {
        Some(false)
    } else {
        match spec_derived_viewing_key(network, seed, account_index) {
            None => Some(false),
            Some(own) => match (spec_find_address(network, own, 0), spec_find_address(network, key, 0)) {
                (Some(a), Some(b)) => Some(a.1 == b.1),
                _ => None,
            },
        }
    }
}

/// Checks, as [`key_match_outcome`] says, whether the seed derives the account key
/// that the encoded viewing key holds.
fn key_matches(network: Network, seed: &[u8], account_index: u32, viewing_key: &str) -> (r: Option<bool>)
    requires
        seed@.len() >= 32,
    ensures
        r == key_match_outcome(network, seed@, account_index, viewing_key@),
{
    if account_index >= 0x8000_0000 {
        return Some(false);
    }
    let own = match derive_viewing_key(network, seed, account_index) {
        Some(k) => k,
        None => return Some(false),
    };
    let ours = match find_address(network, own.as_str(), 0) {
        Some((_, a, _)) => a,
        None => return None,
    };
    let theirs = match find_address(network, viewing_key, 0) {
        Some((_, a, _)) => a,
        None => return None,
    };
    Some(crate::text::str_equals(ours.as_str(), theirs.as_str()))
}

/// What checking `seed` against an account derived from the seed with fingerprint
/// `fp` at `account_index` gives: `None` where the seed is not 32 to 252 bytes long,
/// where the key comparison cannot be made, or where the fingerprint and the key
/// disagree; else whether both match.
pub open spec fn derived_seed_outcome(network: Network, seed: Seq<u8>, fp: Seq<u8>, account_index: u32, key: Seq<char>) -> Option<bool> {
    if !(32 <= seed.len() <= 252) {
        None
    } else {
        match key_match_outcome(network, seed, account_index, key) {
            None => None,
            Some(k) => {
                let f = spec_seed_fingerprint(seed) == fp;
                if f != k { None } else { Some(f && k) }
            },
        }
    }
}

/// The error a failed seed check gives: `BadAccountData` for a seed whose length
/// is not 32 to 252 bytes, `AddressGeneration` where the key comparison cannot be
/// made, and `CorruptedData` where the fingerprint and the key disagree.
pub open spec fn seed_check_error(network: Network, seed: Seq<u8>, account_index: u32, key: Seq<char>, e: Error) -> bool {
    if !(32 <= seed.len() <= 252) {
        e is BadAccountData
    } else if key_match_outcome(network, seed, account_index, key) is None {
        e is AddressGeneration
    } else {
        e is CorruptedData
    }
}

/// Checks that `seed` derives the account with fingerprint `fp` at `account_index`
/// whose unified full viewing key is `viewing_key`. A seed whose length is not 32 to
/// 252 bytes fails with `BadAccountData`; a key comparison that cannot be made fails
/// with `AddressGeneration`; a fingerprint that matches where the key does not, or
/// the other way round, fails with `CorruptedData`.
pub fn seed_matches_derived_account(
    network: Network,
    seed: &[u8],
    fp: &[u8; 32],
    account_index: u32,
    viewing_key: &str,
) -> (r: Result<bool, Error>)
    ensures
        match r {
            Ok(b) => derived_seed_outcome(network, seed@, fp@, account_index, viewing_key@) == Some(b),
            Err(e) => derived_seed_outcome(network, seed@, fp@, account_index, viewing_key@) is None
                && seed_check_error(network, seed@, account_index, viewing_key@, e),
        },
{
    let computed = match seed_fingerprint(seed) {
        Some(f) => f,
        None => {
            return Err(Error::BadAccountData("Seed must be between 32 and 252 bytes in length.".to_string()));
        },
    };
    let fingerprint_match = crate::types::bytes_eq(computed.as_slice(), fp.as_slice());
    let key_match = match key_matches(network, seed, account_index, viewing_key) {
        Some(k) => k,
        None => {
            return Err(Error::AddressGeneration("the default address could not be generated".to_string()));
        },
    };
    if fingerprint_match != key_match {
        Err(Error::CorruptedData("the seed fingerprint and the derived key disagree".to_string()))
    } else {
        Ok(fingerprint_match && key_match)
    }
}

/// `e` is the greatest end of the ranges.
pub open spec fn is_max_end(s: Seq<ScanRange>, e: BlockHeight) -> bool {
    &&& exists|i: int| 0 <= i < s.len() && (#[trigger] s[i]).end == e
    &&& forall|i: int| 0 <= i < s.len() ==> (#[trigger] s[i]).end <= e
}

/// The chain height the scan queue knows of: the last block of the range that
/// ends highest; `None` where the queue is empty.
pub open spec fn chain_height_of(s: Seq<ScanRange>) -> Option<BlockHeight> {
    if s.len() == 0 {
        None
    } else {
        Some(last_height_of(choose|e: BlockHeight| is_max_end(s, e)))
    }
}

/// The range is one of scanned blocks.
pub open spec fn is_scanned(r: ScanRange) -> bool {
    r.priority == ScanPriority::Scanned
}

/// The position of the scanned range that starts lowest, the first such in the
/// queue where several do; `None` where no range is scanned.
pub open spec fn first_scanned(s: Seq<ScanRange>) -> Option<int> {
    if exists|i: int| 0 <= i < s.len() && is_scanned(#[trigger] s[i]) {
        Some(choose|i: int| 0 <= i < s.len() && is_scanned(#[trigger] s[i])
            && forall|j: int| 0 <= j < s.len() && is_scanned(#[trigger] s[j])
                ==> s[j].start >= s[i].start && (j < i ==> s[j].start > s[i].start))
    } else {
        None
    }
}

/// The metadata of the stored block of height `h`, if any.
pub open spec fn metadata_at(blocks: Seq<MemoryWalletBlock>, h: BlockHeight) -> Option<BlockMetadata> {
    if exists|i: int| 0 <= i < blocks.len() && #[trigger] blocks[i].height == h {
        Some(metadata_of(blocks[choose|i: int| 0 <= i < blocks.len() && #[trigger] blocks[i].height == h]))
    } else {
        None
    }
}

/// The account was derived from the seed with fingerprint `seed` at `account_index`.
pub open spec fn derived_from(a: Account, seed: Seq<u8>, account_index: u32) -> bool {
    match a.kind {
        AccountSource::Derived { seed_fingerprint, account_index: index } => seed_fingerprint@ == seed
            && index == account_index,
        AccountSource::Imported { .. } => false,
    }
}

/// `h` is the birthday height of some account, and no account's is earlier.
pub open spec fn is_earliest_birthday(s: Seq<Account>, h: BlockHeight) -> bool {
    &&& exists|i: int| 0 <= i < s.len() && h == (#[trigger] s[i]).birthday.spec_height()
    &&& forall|i: int| 0 <= i < s.len() ==> h <= (#[trigger] s[i]).birthday.spec_height()
}

/// The earliest birthday height among the accounts; `None` without accounts.
pub open spec fn wallet_birthday(s: Seq<Account>) -> Option<BlockHeight> {
    if s.len() == 0 {
        None
    } else {
        Some(choose|h: BlockHeight| is_earliest_birthday(s, h))
    }
}

/// Among the first `n` ranges of the queue, one that is scanned starts lowest
/// (the first such where several do), where any is scanned.
proof fn lemma_lowest_scanned(s: Seq<ScanRange>, n: int) -> (k: int)
    requires
        0 <= n <= s.len(),
        exists|j: int| 0 <= j < n && is_scanned(#[trigger] s[j]),
    ensures
        0 <= k < n,
        is_scanned(s[k]),
        forall|j: int| 0 <= j < n && is_scanned(#[trigger] s[j]) ==> s[j].start >= s[k].start && (j < k ==> s[j].start > s[k].start),
    decreases n,
{
    let m = n - 1;
    if exists|j: int| 0 <= j < m && is_scanned(#[trigger] s[j]) {
        let k0 = lemma_lowest_scanned(s, m);
        if is_scanned(s[m]) && s[m].start < s[k0].start {
            m
        } else {
            k0
        }
    } else {
        m
    }
}

/// Height `h` lies in a range of the queue marked scanned.
pub open spec fn height_scanned(q: Seq<ScanRange>, h: int) -> bool {
    exists|i: int| 0 <= i < q.len() && (#[trigger] q[i]).priority == ScanPriority::Scanned && q[i].start <= h < q[i].end
}

/// The fully scanned block is never ahead of the scanning: where there is one,
/// the wallet has accounts, the block is stored, and every height from the
/// wallet birthday up to it lies in a range of the scan queue marked scanned; it
/// is the last block of a scanned range that starts at or below the birthday.
pub proof fn lemma_fully_scanned_is_scanned(db: MemoryWalletDb)
    requires
        db.wf(),
    ensures
        db.spec_block_fully_scanned() matches Some(m) ==> {
            &&& wallet_birthday(db.accounts.accounts@) is Some
            &&& exists|k: int| 0 <= k < db.blocks.0@.len() && #[trigger] db.blocks.0@[k].height == m.block_height
            &&& forall|h: int| wallet_birthday(db.accounts.accounts@)->0 <= h <= m.block_height
                ==> #[trigger] height_scanned(db.scan_queue@, h)
            &&& exists|i: int| 0 <= i < db.scan_queue@.len()
                && (#[trigger] db.scan_queue@[i]).priority == ScanPriority::Scanned
                && db.scan_queue@[i].start <= wallet_birthday(db.accounts.accounts@)->0
                && db.scan_queue@[i].end == m.block_height + 1
        },
{
    if let Some(m) = db.spec_block_fully_scanned() {
        let b = wallet_birthday(db.accounts.accounts@)->0;
        let q = db.scan_queue@;
        let w = lemma_lowest_scanned(q, q.len() as int);
        let i = first_scanned(q)->0;
        assert(0 <= i < q.len() && is_scanned(q[i]));
        assert(q[i].start <= b);
        let hh = (q[i].end - 1) as BlockHeight;
        let blocks = db.blocks.0@;
        let k = choose|k: int| 0 <= k < blocks.len() && #[trigger] blocks[k].height == hh;
        assert(m == metadata_of(blocks[k]));
        assert(m.block_height == q[i].end - 1);
        assert forall|h: int| b <= h <= m.block_height implies #[trigger] height_scanned(q, h) by {
            assert(q[i].priority == ScanPriority::Scanned && q[i].start <= h < q[i].end);
        }
        assert(q[i].priority == ScanPriority::Scanned && q[i].end == m.block_height + 1);
    }
}

/// The earliest birthday is the one the accounts have.
proof fn lemma_wallet_birthday(s: Seq<Account>, r: Option<BlockHeight>)
    requires
        r is None <==> s.len() == 0,
        r matches Some(h) ==> {
            &&& exists|i: int| 0 <= i < s.len() && h == (#[trigger] s[i]).birthday.spec_height()
            &&& forall|i: int| 0 <= i < s.len() ==> h <= (#[trigger] s[i]).birthday.spec_height()
        },
    ensures
        r == wallet_birthday(s),
{
    if let Some(h) = r {
        assert(is_earliest_birthday(s, h));
        let c = wallet_birthday(s)->0;
        let i = choose|i: int| 0 <= i < s.len() && h == (#[trigger] s[i]).birthday.spec_height();
        let k = choose|k: int| 0 <= k < s.len() && c == (#[trigger] s[k]).birthday.spec_height();
        assert(h <= s[k].birthday.spec_height());
        assert(c <= s[i].birthday.spec_height());
    }
}


/// The accounts' ids are distinct.
proof fn lemma_ids_distinct(s: Seq<Account>)
    requires
        forall|i: int, j: int| 0 <= i < j < s.len() ==> s[i].account_id.0 < s[j].account_id.0,
    ensures
        balance_ids_distinct(s.map_values(|a: Account| a.account_id).map_values(|id: AccountId| (id, 0int, 0int))),
{
}

/// The balances counted for the accounts themselves are the totals of their
/// unspent notes in each pool.
pub proof fn lemma_known_balances(ids: Seq<AccountId>, notes: Seq<ReceivedNote>, spent: Seq<bool>)
    requires
        spent.len() == notes.len(),
        balance_ids_distinct(ids.map_values(|id: AccountId| (id, 0int, 0int))),
    ensures
        balances_after(ids, notes, spent) matches Some(st) ==> {
            &&& st.len() >= ids.len()
            &&& forall|k: int| 0 <= k < ids.len() ==> #[trigger] st[k] == (
                ids[k],
                pool_balance(notes, spent, ids[k], ShieldedProtocol::Sapling),
                pool_balance(notes, spent, ids[k], ShieldedProtocol::Orchard),
            )
        },
    decreases notes.len(),
{
    if notes.len() > 0 {
        lemma_known_balances(ids, notes.drop_last(), spent.drop_last());
        lemma_balances_distinct(ids, notes.drop_last(), spent.drop_last());
        if let Some(st) = balances_after(ids, notes.drop_last(), spent.drop_last()) {
            let n = notes.last();
            if !spent.last() {
                if exists|k: int| 0 <= k < st.len() && (#[trigger] st[k]).0 == n.account_id {
                    let c = choose|k: int| 0 <= k < st.len() && (#[trigger] st[k]).0 == n.account_id;
                    assert forall|k: int| 0 <= k < ids.len() && k != c implies st[k].0 != n.account_id by {
                        if k < c {
                            assert(st[k].0 != st[c].0);
                        } else {
                            assert(st[c].0 != st[k].0);
                        }
                    }
                } else {
                    assert forall|k: int| 0 <= k < ids.len() implies st[k].0 != n.account_id by {
                        assert(!(0 <= k < st.len() && st[k].0 == n.account_id));
                    }
                }
            }
        }
    }
}

/// Counting keeps one balance per account.
pub proof fn lemma_balances_distinct(ids: Seq<AccountId>, notes: Seq<ReceivedNote>, spent: Seq<bool>)
    requires
        spent.len() == notes.len(),
        balance_ids_distinct(ids.map_values(|id: AccountId| (id, 0int, 0int))),
    ensures
        balances_after(ids, notes, spent) matches Some(st) ==> balance_ids_distinct(st) && st.len() >= ids.len()
            && forall|k: int| 0 <= k < ids.len() ==> (#[trigger] st[k]).0 == ids[k],
    decreases notes.len(),
{
    if notes.len() > 0 {
        lemma_balances_distinct(ids, notes.drop_last(), spent.drop_last());
        if let Some(st) = balances_after(ids, notes.drop_last(), spent.drop_last()) {
            let n = notes.last();
            if !spent.last() {
                if !(exists|k: int| 0 <= k < st.len() && (#[trigger] st[k]).0 == n.account_id) {
                    let st2 = st.push((n.account_id, 0, 0));
                    assert forall|i: int, j: int| 0 <= i < j < st2.len() implies st2[i].0 != st2[j].0 by {
                        if j == st.len() {
                            assert(!(0 <= i < st.len() && st[i].0 == n.account_id));
                        }
                    }
                }
            }
        }
    }
}


/// Every balance is at most [`MAX_MONEY`] in each pool.
pub open spec fn balances_bounded(st: Seq<(AccountId, int, int)>) -> bool {
    forall|k: int| 0 <= k < st.len() ==> 0 <= (#[trigger] st[k]).1 <= MAX_MONEY && 0 <= st[k].2 <= MAX_MONEY
}

/// Counts one unspent note into the balances, as [`balance_step`] does; `false`
/// where the total would exceed [`MAX_MONEY`].
fn count_note(balances: &mut Vec<AccountBalance>, n: ReceivedNote) -> (r: bool)
    requires
        balance_ids_distinct(old(balances)@.map_values(|b: AccountBalance| balance_triple(b))),
        balances_bounded(old(balances)@.map_values(|b: AccountBalance| balance_triple(b))),
    ensures
        match balance_step(old(balances)@.map_values(|b: AccountBalance| balance_triple(b)), n) {
            Some(st) => r && final(balances)@.map_values(|b: AccountBalance| balance_triple(b)) == st,
            None => !r,
        },
        r ==> balance_ids_distinct(final(balances)@.map_values(|b: AccountBalance| balance_triple(b))),
        r ==> balances_bounded(final(balances)@.map_values(|b: AccountBalance| balance_triple(b))),
{
    let ghost st = balances@.map_values(|b: AccountBalance| balance_triple(b));
    let mut k: usize = 0;
    let mut found: bool = false;
    while k < balances.len() && !found
        invariant
            k <= balances@.len(),
            st == balances@.map_values(|b: AccountBalance| balance_triple(b)),
            found ==> k < balances@.len() && balances@[k as int].account_id == n.account_id,
            !found ==> forall|j: int| 0 <= j < k ==> (#[trigger] balances@[j]).account_id != n.account_id,
        decreases balances@.len() - k + (if found { 0int } else { 1int }),
    {
        if balances[k].account_id == n.account_id {
            found = true;
        } else {
            k = k + 1;
        }
    }
    if found {
        proof {
            assert(st[k as int].0 == n.account_id);
            let c = choose|c: int| 0 <= c < st.len() && (#[trigger] st[c]).0 == n.account_id;
            if c != k as int {
                if c < k as int {
                    assert(st[c].0 != st[k as int].0);
                } else {
                    assert(st[k as int].0 != st[c].0);
                }
            }
            assert(0 <= st[k as int].1 <= MAX_MONEY && 0 <= st[k as int].2 <= MAX_MONEY);
        }
        let v = n.note.value();
        let e = balances[k];
        match n.note.protocol() {
            ShieldedProtocol::Sapling => {
                if v > MAX_MONEY - e.sapling_spendable {
                    return false;
                }
                balances.set(k, AccountBalance { sapling_spendable: e.sapling_spendable + v, ..e });
            },
            ShieldedProtocol::Orchard => {
                if v > MAX_MONEY - e.orchard_spendable {
                    return false;
                }
                balances.set(k, AccountBalance { orchard_spendable: e.orchard_spendable + v, ..e });
            },
        }
        proof {
            assert(balances@.map_values(|b: AccountBalance| balance_triple(b)) =~= balance_step(st, n)->0);
        }
        true
    } else {
        balances.push(AccountBalance { account_id: n.account_id, sapling_spendable: 0, orchard_spendable: 0 });
        proof {
            assert(!(exists|c: int| 0 <= c < st.len() && (#[trigger] st[c]).0 == n.account_id)) by {
                if exists|c: int| 0 <= c < st.len() && (#[trigger] st[c]).0 == n.account_id {
                    let c = choose|c: int| 0 <= c < st.len() && (#[trigger] st[c]).0 == n.account_id;
                    assert(balances@[c].account_id == n.account_id);
                }
            }
            let st2 = balances@.map_values(|b: AccountBalance| balance_triple(b));
            assert(st2 =~= st.push((n.account_id, 0, 0)));
            assert forall|x: int, y: int| 0 <= x < y < st2.len() implies st2[x].0 != st2[y].0 by {
                if y == st.len() {
                    assert(!(0 <= x < st.len() && st[x].0 == n.account_id));
                }
            }
        }
        true
    }
}

/// Once a total exceeds [`MAX_MONEY`], counting more notes does not undo it.
proof fn lemma_none_persists(ids: Seq<AccountId>, notes: Seq<ReceivedNote>, spent: Seq<bool>, i: int)
    requires
        0 <= i <= notes.len(),
        spent.len() == notes.len(),
        balances_after(ids, notes.take(i), spent.take(i)) is None,
    ensures
        balances_after(ids, notes, spent) is None,
    decreases notes.len(),
{
    if i < notes.len() {
        assert(notes.drop_last().take(i) =~= notes.take(i));
        assert(spent.drop_last().take(i) =~= spent.take(i));
        lemma_none_persists(ids, notes.drop_last(), spent.drop_last(), i);
    } else {
        assert(notes.take(i) =~= notes);
        assert(spent.take(i) =~= spent);
    }
}


/// The index of the last shard of a note commitment tree whose root is
/// recorded: the greatest shard index among the entries, or 0 where there are
/// none.
pub open spec fn last_shard_index<V>(s: Seq<(u64, V)>) -> u64
    decreases s.len(),
{
    if s.len() == 0 {
        0
    } else {
        let m = last_shard_index(s.drop_last());
        if s.last().0 > m {
            s.last().0
        } else {
            m
        }
    }
}

/// The index of the last shard whose root is recorded, or 0 where none is.
pub fn last_recorded_shard(roots: &AssocList<u64, [u8; 32]>) -> (r: u64)
    ensures
        r == last_shard_index(roots.entries@),
{
    let mut m: u64 = 0;
    let mut i: usize = 0;
    while i < roots.entries.len()
        invariant
            i <= roots.entries@.len(),
            m == last_shard_index(roots.entries@.take(i as int)),
        decreases roots.entries@.len() - i,
    {
        assert(roots.entries@.take(i + 1).drop_last() =~= roots.entries@.take(i as int));
        if roots.entries[i].0 > m {
            m = roots.entries[i].0;
        }
        i = i + 1;
    }
    assert(roots.entries@.take(i as int) =~= roots.entries@);
    m
}

} // verus!
