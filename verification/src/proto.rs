//! The records of the wallet's protobuf serialization format, and the stable
//! names and wire numbers of its enumerations.
use vstd::prelude::*;
use crate::text::str_equals;

verus! {

/// Unique identifier for a transaction.
#[derive(Clone, Debug)]
pub struct TxId {
    pub hash: Vec<u8>,
}

/// A diversified address of an account.
#[derive(Clone, Debug)]
pub struct Address {
    pub diversifier_index: Vec<u8>,
    pub address: String,
}

/// Identifies a note by transaction, pool and output index.
#[derive(Clone, Debug)]
pub struct NoteId {
    pub tx_id: Option<TxId>,
    pub pool: i32,
    pub output_index: u32,
}

/// The memo of a note.
#[derive(Clone, Debug)]
pub struct Memo {
    pub note_id: Option<NoteId>,
    pub memo: Vec<u8>,
}

/// A nullifier of a shielded protocol.
#[derive(Clone, Debug)]
pub struct Nullifier {
    pub protocol: i32,
    pub nullifier: Vec<u8>,
}

/// A reference to a transparent output.
#[derive(Clone, Debug, PartialEq)]
pub struct OutPoint {
    pub hash: Vec<u8>,
    pub n: u32,
}

/// A shielded note.
#[derive(Clone, Debug, PartialEq)]
pub struct Note {
    pub protocol: i32,
    pub recipient: Vec<u8>,
    pub value: u64,
    pub rho: Option<Vec<u8>>,
    pub rseed: Option<RSeed>,
}

/// The seed randomness of a note.
#[derive(Clone, Debug, PartialEq)]
pub struct RSeed {
    pub rseed_type: Option<i32>,
    pub payload: Vec<u8>,
}

/// A note received by the wallet.
#[derive(Clone, Debug)]
pub struct ReceivedNote {
    pub note_id: Option<NoteId>,
    pub tx_id: Option<TxId>,
    pub output_index: u32,
    pub account_id: u32,
    pub note: Option<Note>,
    pub nullifier: Option<Nullifier>,
    pub is_change: bool,
    pub memo: Vec<u8>,
    pub commitment_tree_position: Option<u64>,
    pub recipient_key_scope: Option<i32>,
}

/// A note sent by the wallet.
#[derive(Clone, Debug)]
pub struct SentNote {
    pub from_account_id: u32,
    pub to: Option<Recipient>,
    pub value: u64,
    pub memo: Vec<u8>,
}

/// The recipient of a sent output.
#[derive(Clone, Debug, PartialEq)]
pub struct Recipient {
    pub recipient_type: i32,
    pub address: Option<String>,
    pub pool_type: Option<i32>,
    pub account_id: Option<u32>,
    pub outpoint_metadata: Option<OutPoint>,
    pub note: Option<Note>,
}

/// Associates a note and the transaction in which it was spent.
#[derive(Clone, Debug)]
pub struct ReceivedNoteSpendRecord {
    pub note_id: Option<NoteId>,
    pub tx_id: Option<TxId>,
}

/// Where a nullifier was revealed, by block height and transaction index.
#[derive(Clone, Debug)]
pub struct NullifierRecord {
    pub nullifier: Option<Nullifier>,
    pub block_height: u32,
    pub tx_index: u32,
}

/// The sent information for a given note.
#[derive(Clone, Debug)]
pub struct SentNoteRecord {
    pub sent_note_id: Option<NoteId>,
    pub sent_note: Option<SentNote>,
}

/// A shard tree: a cap subtree, shard subtrees and checkpoints.
#[derive(Clone, Debug)]
pub struct ShardTree {
    pub cap: Vec<u8>,
    pub shards: Vec<TreeShard>,
    pub checkpoints: Vec<TreeCheckpoint>,
}

/// A shard in a shard tree.
#[derive(Clone, Debug)]
pub struct TreeShard {
    pub shard_index: u64,
    pub shard_data: Vec<u8>,
}

/// A checkpoint in a shard tree.
#[derive(Clone, Copy, Debug)]
pub struct TreeCheckpoint {
    pub checkpoint_id: u32,
    pub position: u64,
}

/// The block height of the last note commitment in a shard.
#[derive(Clone, Copy, Debug)]
pub struct TreeEndHeightsRecord {
    pub level: u32,
    pub index: u64,
    pub block_height: u32,
}

/// A transparent output received by the wallet.
#[derive(Clone, Debug)]
pub struct ReceivedTransparentOutput {
    pub transaction_id: Vec<u8>,
    pub account_id: u32,
    pub address: String,
    pub txout: Option<TxOut>,
    pub max_observed_unspent_height: Option<u32>,
}

/// A transparent output: value and locking script.
#[derive(Clone, Debug)]
pub struct TxOut {
    pub value: u64,
    pub script: Vec<u8>,
}

/// A received transparent output under its outpoint.
#[derive(Clone, Debug)]
pub struct TransparentReceivedOutputRecord {
    pub outpoint: Option<OutPoint>,
    pub output: Option<ReceivedTransparentOutput>,
}

/// A transparent output and the transaction that spends it.
#[derive(Clone, Debug)]
pub struct TransparentReceivedOutputSpendRecord {
    pub outpoint: Option<OutPoint>,
    pub tx_id: Option<TxId>,
}

/// A transaction and one of the outpoints its transparent inputs spend.
#[derive(Clone, Debug)]
pub struct TransparentSpendCacheRecord {
    pub tx_id: Option<TxId>,
    pub outpoint: Option<OutPoint>,
}

/// A serialized wallet.
#[derive(Clone, Debug)]
pub struct MemoryWallet {
    pub version: u32,
    pub accounts: Option<Accounts>,
    pub blocks: Vec<WalletBlock>,
    pub tx_table: Vec<TransactionTableRecord>,
    pub received_note_table: Vec<ReceivedNote>,
    pub received_note_spends: Vec<ReceivedNoteSpendRecord>,
    pub nullifiers: Vec<NullifierRecord>,
    pub sent_notes: Vec<SentNoteRecord>,
    pub tx_locator: Vec<TxLocatorRecord>,
    pub scan_queue: Vec<ScanQueueRecord>,
    pub sapling_tree: Option<ShardTree>,
    pub sapling_tree_shard_end_heights: Vec<TreeEndHeightsRecord>,
    pub orchard_tree: Option<ShardTree>,
    pub orchard_tree_shard_end_heights: Vec<TreeEndHeightsRecord>,
    pub transparent_received_outputs: Vec<TransparentReceivedOutputRecord>,
    pub transparent_received_output_spends: Vec<TransparentReceivedOutputSpendRecord>,
    pub transparent_spend_map: Vec<TransparentSpendCacheRecord>,
    pub transaction_data_requests: Vec<TransactionDataRequest>,
}

/// The accounts of a wallet and the nonce for the next one.
#[derive(Clone, Debug)]
pub struct Accounts {
    pub accounts: Vec<Account>,
    pub account_nonce: u32,
}

/// An account of a wallet.
#[derive(Clone, Debug)]
pub struct Account {
    pub account_id: u32,
    pub kind: i32,
    pub seed_fingerprint: Option<Vec<u8>>,
    pub account_index: Option<u32>,
    pub purpose: Option<i32>,
    pub viewing_key: String,
    pub birthday: Option<AccountBirthday>,
    pub addresses: Vec<Address>,
    pub ephemeral_addresses: Vec<EphemeralAddressRecord>,
    pub account_name: String,
}

/// The chain state before an account was created, and the height until which
/// the account is in recovery.
#[derive(Clone, Debug)]
pub struct AccountBirthday {
    pub prior_chain_state: Option<ChainState>,
    pub recover_until: Option<u32>,
}

/// A transaction under its id.
#[derive(Clone, Debug)]
pub struct TransactionTableRecord {
    pub tx_id: Option<TxId>,
    pub tx_entry: Option<TransactionEntry>,
}

/// Maps a block height and transaction index to a transaction id.
#[derive(Clone, Debug)]
pub struct TxLocatorRecord {
    pub block_height: u32,
    pub tx_index: u32,
    pub tx_id: Option<TxId>,
}

/// An ephemeral transparent address and the transactions it was used or seen in.
#[derive(Clone, Debug)]
pub struct EphemeralAddress {
    pub address: String,
    pub used_in_tx: Option<Vec<u8>>,
    pub seen_in_tx: Option<Vec<u8>>,
}

/// An ephemeral address under its index.
#[derive(Clone, Debug)]
pub struct EphemeralAddressRecord {
    pub index: u32,
    pub ephemeral_address: Option<EphemeralAddress>,
}

/// The state of the chain at a block.
#[derive(Clone, Debug)]
pub struct ChainState {
    pub block_height: u32,
    pub block_hash: Vec<u8>,
    pub final_sapling_tree: Vec<u8>,
    pub final_orchard_tree: Vec<u8>,
}

/// A block known to the wallet.
#[derive(Clone, Debug)]
pub struct WalletBlock {
    pub height: u32,
    pub hash: Vec<u8>,
    pub block_time: u32,
    pub transactions: Vec<Vec<u8>>,
    pub memos: Vec<Memo>,
    pub sapling_commitment_tree_size: Option<u32>,
    pub sapling_output_count: Option<u32>,
    pub orchard_commitment_tree_size: Option<u32>,
    pub orchard_action_count: Option<u32>,
}

/// A transaction known to the wallet.
#[derive(Clone, Debug)]
pub struct TransactionEntry {
    pub tx_status: i32,
    pub block: Option<u32>,
    pub tx_index: Option<u32>,
    pub expiry_height: Option<u32>,
    pub raw_tx: Option<Vec<u8>>,
    pub fee: Option<u64>,
    pub target_height: Option<u32>,
    pub mined_height: Option<u32>,
}

/// A request for transaction data.
#[derive(Clone, Debug)]
pub struct TransactionDataRequest {
    pub request_type: i32,
    pub tx_id: Option<TxId>,
    pub address: Option<Vec<u8>>,
    pub block_range_start: Option<u32>,
    pub block_range_end: Option<u32>,
}

/// A block range of the scan queue.
#[derive(Clone, Copy, Debug)]
pub struct ScanQueueRecord {
    pub start_height: u32,
    pub end_height: u32,
    pub priority: i32,
}

impl NoteId {
    /// The pool of this note id; the pool numbered zero where the stored number
    /// stands for none.
    pub fn pool(&self) -> (r: PoolType)
        ensures
            r == (match pool_type_from_number(self.pool) {
                Some(x) => x,
                None => PoolType::Transparent,
            }),
    {
        PoolType::from_i32_or_default(self.pool)
    }
}

impl Recipient {
    /// The recipient type; the type numbered zero where the stored number stands
    /// for none.
    pub fn recipient_type(&self) -> (r: RecipientType)
        ensures
            r == (match recipient_type_from_number(self.recipient_type) {
                Some(x) => x,
                None => RecipientType::ExternalRecipient,
            }),
    {
        RecipientType::from_i32_or_default(self.recipient_type)
    }

    /// The pool type; the type numbered zero where it is absent or its number
    /// stands for none.
    pub fn pool_type(&self) -> (r: PoolType)
        ensures
            r == (match self.pool_type {
                Some(n) => match pool_type_from_number(n) {
                    Some(x) => x,
                    None => PoolType::Transparent,
                },
                None => PoolType::Transparent,
            }),
    {
        match self.pool_type {
            Some(n) => PoolType::from_i32_or_default(n),
            None => PoolType::Transparent,
        }
    }
}

impl ScanQueueRecord {
    /// The priority of this range; the lowest where the stored number stands for none.
    pub fn priority(&self) -> (r: ScanPriority)
        ensures
            r == (match scan_priority_from_number(self.priority) {
                Some(x) => x,
                None => ScanPriority::Ignored,
            }),
    {
        ScanPriority::from_i32_or_default(self.priority)
    }
}

/// A value pool.
#[derive(Clone, Copy, Debug, PartialEq, Eq, Structural, Hash)]
pub enum PoolType {
    Transparent,
    ShieldedSapling,
    ShieldedOrchard,
}

/// The protobuf field name of each `PoolType` value.
pub open spec fn pool_type_name(x: PoolType) -> Seq<char> {
    match x {
        PoolType::Transparent => "Transparent"@,
        PoolType::ShieldedSapling => "ShieldedSapling"@,
        PoolType::ShieldedOrchard => "ShieldedOrchard"@,
    }
}

/// The `PoolType` value with the given protobuf field name, if any.
pub open spec fn pool_type_from_name(s: Seq<char>) -> Option<PoolType> {
    if s == "Transparent"@ {
        Some(PoolType::Transparent)
    } else if s == "ShieldedSapling"@ {
        Some(PoolType::ShieldedSapling)
    } else if s == "ShieldedOrchard"@ {
        Some(PoolType::ShieldedOrchard)
    } else {
        None
    }
}

/// The wire number of each `PoolType` value.
pub open spec fn pool_type_number(x: PoolType) -> i32 {
    match x {
        PoolType::Transparent => 0i32,
        PoolType::ShieldedSapling => 1i32,
        PoolType::ShieldedOrchard => 2i32,
    }
}

/// The `PoolType` value with the given wire number, if any.
pub open spec fn pool_type_from_number(n: i32) -> Option<PoolType> {
    if n == 0 {
        Some(PoolType::Transparent)
    } else if n == 1 {
        Some(PoolType::ShieldedSapling)
    } else if n == 2 {
        Some(PoolType::ShieldedOrchard)
    } else {
        None
    }
}

impl PoolType {
    /// The field name used for this value in the protobuf definition.
    pub fn as_str_name(&self) -> (r: &'static str)
        ensures
            r@ == pool_type_name(*self),
    {
        match self {
            PoolType::Transparent => "Transparent",
            PoolType::ShieldedSapling => "ShieldedSapling",
            PoolType::ShieldedOrchard => "ShieldedOrchard",
        }
    }

    /// The value whose protobuf field name is `value`, if any.
    pub fn from_str_name(value: &str) -> (r: Option<Self>)
        ensures
            r == pool_type_from_name(value@),
    {
        if str_equals(value, "Transparent") {
            Some(PoolType::Transparent)
        } else if str_equals(value, "ShieldedSapling") {
            Some(PoolType::ShieldedSapling)
        } else if str_equals(value, "ShieldedOrchard") {
            Some(PoolType::ShieldedOrchard)
        } else {
            None
        }
    }

    /// The number that stands for this value on the wire.
    pub fn to_i32(&self) -> (r: i32)
        ensures
            r == pool_type_number(*self),
    {
        match self {
            PoolType::Transparent => 0,
            PoolType::ShieldedSapling => 1,
            PoolType::ShieldedOrchard => 2,
        }
    }

    /// The value that the wire number `value` stands for, if any.
    pub fn from_i32(value: i32) -> (r: Option<Self>)
        ensures
            r == pool_type_from_number(value),
    {
        if value == 0 {
            Some(PoolType::Transparent)
        } else if value == 1 {
            Some(PoolType::ShieldedSapling)
        } else if value == 2 {
            Some(PoolType::ShieldedOrchard)
        } else {
            None
        }
    }

    /// The value that the wire number `value` stands for, or the value numbered zero
    /// where `value` stands for none.
    pub fn from_i32_or_default(value: i32) -> (r: Self)
        ensures
            r == (match pool_type_from_number(value) {
                Some(x) => x,
                None => PoolType::Transparent,
            }),
    {
        match Self::from_i32(value) {
            Some(x) => x,
            None => PoolType::Transparent,
        }
    }
}

/// A `PoolType` value and a string correspond by name exactly when the value's
/// protobuf field name is that string; and a value is found again from its wire number.
pub proof fn lemma_pool_type_names(x: PoolType, s: Seq<char>)
    ensures
        pool_type_from_name(s) == Some(x) <==> s == pool_type_name(x),
        pool_type_from_name(pool_type_name(x)) == Some(x),
        pool_type_from_number(pool_type_number(x)) == Some(x),
{
    reveal_strlit("Transparent");
    reveal_strlit("ShieldedSapling");
    reveal_strlit("ShieldedOrchard");
    assert("Transparent"@.len() != "ShieldedSapling"@.len());
    assert("Transparent"@.len() != "ShieldedOrchard"@.len());
    assert("ShieldedSapling"@[8] != "ShieldedOrchard"@[8]);
}

/// A shielded protocol.
#[derive(Clone, Copy, Debug, PartialEq, Eq, Structural, Hash)]
pub enum ShieldedProtocol {
    Sapling,
    Orchard,
}

/// The protobuf field name of each `ShieldedProtocol` value.
pub open spec fn shielded_protocol_name(x: ShieldedProtocol) -> Seq<char> {
    match x {
        ShieldedProtocol::Sapling => "sapling"@,
        ShieldedProtocol::Orchard => "orchard"@,
    }
}

/// The `ShieldedProtocol` value with the given protobuf field name, if any.
pub open spec fn shielded_protocol_from_name(s: Seq<char>) -> Option<ShieldedProtocol> {
    if s == "sapling"@ {
        Some(ShieldedProtocol::Sapling)
    } else if s == "orchard"@ {
        Some(ShieldedProtocol::Orchard)
    } else {
        None
    }
}

/// The wire number of each `ShieldedProtocol` value.
pub open spec fn shielded_protocol_number(x: ShieldedProtocol) -> i32 {
    match x {
        ShieldedProtocol::Sapling => 0i32,
        ShieldedProtocol::Orchard => 1i32,
    }
}

/// The `ShieldedProtocol` value with the given wire number, if any.
pub open spec fn shielded_protocol_from_number(n: i32) -> Option<ShieldedProtocol> {
    if n == 0 {
        Some(ShieldedProtocol::Sapling)
    } else if n == 1 {
        Some(ShieldedProtocol::Orchard)
    } else {
        None
    }
}

impl ShieldedProtocol {
    /// The field name used for this value in the protobuf definition.
    pub fn as_str_name(&self) -> (r: &'static str)
        ensures
            r@ == shielded_protocol_name(*self),
    {
        match self {
            ShieldedProtocol::Sapling => "sapling",
            ShieldedProtocol::Orchard => "orchard",
        }
    }

    /// The value whose protobuf field name is `value`, if any.
    pub fn from_str_name(value: &str) -> (r: Option<Self>)
        ensures
            r == shielded_protocol_from_name(value@),
    {
        if str_equals(value, "sapling") {
            Some(ShieldedProtocol::Sapling)
        } else if str_equals(value, "orchard") {
            Some(ShieldedProtocol::Orchard)
        } else {
            None
        }
    }

    /// The number that stands for this value on the wire.
    pub fn to_i32(&self) -> (r: i32)
        ensures
            r == shielded_protocol_number(*self),
    {
        match self {
            ShieldedProtocol::Sapling => 0,
            ShieldedProtocol::Orchard => 1,
        }
    }

    /// The value that the wire number `value` stands for, if any.
    pub fn from_i32(value: i32) -> (r: Option<Self>)
        ensures
            r == shielded_protocol_from_number(value),
    {
        if value == 0 {
            Some(ShieldedProtocol::Sapling)
        } else if value == 1 {
            Some(ShieldedProtocol::Orchard)
        } else {
            None
        }
    }

    /// The value that the wire number `value` stands for, or the value numbered zero
    /// where `value` stands for none.
    pub fn from_i32_or_default(value: i32) -> (r: Self)
        ensures
            r == (match shielded_protocol_from_number(value) {
                Some(x) => x,
                None => ShieldedProtocol::Sapling,
            }),
    {
        match Self::from_i32(value) {
            Some(x) => x,
            None => ShieldedProtocol::Sapling,
        }
    }
}

/// A `ShieldedProtocol` value and a string correspond by name exactly when the value's
/// protobuf field name is that string; and a value is found again from its wire number.
pub proof fn lemma_shielded_protocol_names(x: ShieldedProtocol, s: Seq<char>)
    ensures
        shielded_protocol_from_name(s) == Some(x) <==> s == shielded_protocol_name(x),
        shielded_protocol_from_name(shielded_protocol_name(x)) == Some(x),
        shielded_protocol_from_number(shielded_protocol_number(x)) == Some(x),
{
    reveal_strlit("sapling");
    reveal_strlit("orchard");
    assert("sapling"@[0] != "orchard"@[0]);
}

/// The chain's view of a transaction.
#[derive(Clone, Copy, Debug, PartialEq, Eq, Structural, Hash)]
pub enum TransactionStatus {
    TxidNotRecognized,
    NotInMainChain,
    Mined,
}

/// The protobuf field name of each `TransactionStatus` value.
pub open spec fn transaction_status_name(x: TransactionStatus) -> Seq<char> {
    match x {
        TransactionStatus::TxidNotRecognized => "TxidNotRecognized"@,
        TransactionStatus::NotInMainChain => "NotInMainChain"@,
        TransactionStatus::Mined => "Mined"@,
    }
}

/// The `TransactionStatus` value with the given protobuf field name, if any.
pub open spec fn transaction_status_from_name(s: Seq<char>) -> Option<TransactionStatus> {
    if s == "TxidNotRecognized"@ {
        Some(TransactionStatus::TxidNotRecognized)
    } else if s == "NotInMainChain"@ {
        Some(TransactionStatus::NotInMainChain)
    } else if s == "Mined"@ {
        Some(TransactionStatus::Mined)
    } else {
        None
    }
}

/// The wire number of each `TransactionStatus` value.
pub open spec fn transaction_status_number(x: TransactionStatus) -> i32 {
    match x {
        TransactionStatus::TxidNotRecognized => 0i32,
        TransactionStatus::NotInMainChain => 1i32,
        TransactionStatus::Mined => 2i32,
    }
}

/// The `TransactionStatus` value with the given wire number, if any.
pub open spec fn transaction_status_from_number(n: i32) -> Option<TransactionStatus> {
    if n == 0 {
        Some(TransactionStatus::TxidNotRecognized)
    } else if n == 1 {
        Some(TransactionStatus::NotInMainChain)
    } else if n == 2 {
        Some(TransactionStatus::Mined)
    } else {
        None
    }
}

impl TransactionStatus {
    /// The field name used for this value in the protobuf definition.
    pub fn as_str_name(&self) -> (r: &'static str)
        ensures
            r@ == transaction_status_name(*self),
    {
        match self {
            TransactionStatus::TxidNotRecognized => "TxidNotRecognized",
            TransactionStatus::NotInMainChain => "NotInMainChain",
            TransactionStatus::Mined => "Mined",
        }
    }

    /// The value whose protobuf field name is `value`, if any.
    pub fn from_str_name(value: &str) -> (r: Option<Self>)
        ensures
            r == transaction_status_from_name(value@),
    {
        if str_equals(value, "TxidNotRecognized") {
            Some(TransactionStatus::TxidNotRecognized)
        } else if str_equals(value, "NotInMainChain") {
            Some(TransactionStatus::NotInMainChain)
        } else if str_equals(value, "Mined") {
            Some(TransactionStatus::Mined)
        } else {
            None
        }
    }

    /// The number that stands for this value on the wire.
    pub fn to_i32(&self) -> (r: i32)
        ensures
            r == transaction_status_number(*self),
    {
        match self {
            TransactionStatus::TxidNotRecognized => 0,
            TransactionStatus::NotInMainChain => 1,
            TransactionStatus::Mined => 2,
        }
    }

    /// The value that the wire number `value` stands for, if any.
    pub fn from_i32(value: i32) -> (r: Option<Self>)
        ensures
            r == transaction_status_from_number(value),
    {
        if value == 0 {
            Some(TransactionStatus::TxidNotRecognized)
        } else if value == 1 {
            Some(TransactionStatus::NotInMainChain)
        } else if value == 2 {
            Some(TransactionStatus::Mined)
        } else {
            None
        }
    }

    /// The value that the wire number `value` stands for, or the value numbered zero
    /// where `value` stands for none.
    pub fn from_i32_or_default(value: i32) -> (r: Self)
        ensures
            r == (match transaction_status_from_number(value) {
                Some(x) => x,
                None => TransactionStatus::TxidNotRecognized,
            }),
    {
        match Self::from_i32(value) {
            Some(x) => x,
            None => TransactionStatus::TxidNotRecognized,
        }
    }
}

/// A `TransactionStatus` value and a string correspond by name exactly when the value's
/// protobuf field name is that string; and a value is found again from its wire number.
pub proof fn lemma_transaction_status_names(x: TransactionStatus, s: Seq<char>)
    ensures
        transaction_status_from_name(s) == Some(x) <==> s == transaction_status_name(x),
        transaction_status_from_name(transaction_status_name(x)) == Some(x),
        transaction_status_from_number(transaction_status_number(x)) == Some(x),
{
    reveal_strlit("TxidNotRecognized");
    reveal_strlit("NotInMainChain");
    reveal_strlit("Mined");
    assert("TxidNotRecognized"@.len() != "NotInMainChain"@.len());
    assert("TxidNotRecognized"@.len() != "Mined"@.len());
    assert("NotInMainChain"@.len() != "Mined"@.len());
}

/// Which rule a Sapling note's seed randomness follows.
#[derive(Clone, Copy, Debug, PartialEq, Eq, Structural, Hash)]
pub enum RSeedType {
    BeforeZip212,
    AfterZip212,
}

/// The protobuf field name of each `RSeedType` value.
pub open spec fn rseed_type_name(x: RSeedType) -> Seq<char> {
    match x {
        RSeedType::BeforeZip212 => "BeforeZip212"@,
        RSeedType::AfterZip212 => "AfterZip212"@,
    }
}

/// The `RSeedType` value with the given protobuf field name, if any.
pub open spec fn rseed_type_from_name(s: Seq<char>) -> Option<RSeedType> {
    if s == "BeforeZip212"@ {
        Some(RSeedType::BeforeZip212)
    } else if s == "AfterZip212"@ {
        Some(RSeedType::AfterZip212)
    } else {
        None
    }
}

/// The wire number of each `RSeedType` value.
pub open spec fn rseed_type_number(x: RSeedType) -> i32 {
    match x {
        RSeedType::BeforeZip212 => 0i32,
        RSeedType::AfterZip212 => 1i32,
    }
}

/// The `RSeedType` value with the given wire number, if any.
pub open spec fn rseed_type_from_number(n: i32) -> Option<RSeedType> {
    if n == 0 {
        Some(RSeedType::BeforeZip212)
    } else if n == 1 {
        Some(RSeedType::AfterZip212)
    } else {
        None
    }
}

impl RSeedType {
    /// The field name used for this value in the protobuf definition.
    pub fn as_str_name(&self) -> (r: &'static str)
        ensures
            r@ == rseed_type_name(*self),
    {
        match self {
            RSeedType::BeforeZip212 => "BeforeZip212",
            RSeedType::AfterZip212 => "AfterZip212",
        }
    }

    /// The value whose protobuf field name is `value`, if any.
    pub fn from_str_name(value: &str) -> (r: Option<Self>)
        ensures
            r == rseed_type_from_name(value@),
    {
        if str_equals(value, "BeforeZip212") {
            Some(RSeedType::BeforeZip212)
        } else if str_equals(value, "AfterZip212") {
            Some(RSeedType::AfterZip212)
        } else {
            None
        }
    }

    /// The number that stands for this value on the wire.
    pub fn to_i32(&self) -> (r: i32)
        ensures
            r == rseed_type_number(*self),
    {
        match self {
            RSeedType::BeforeZip212 => 0,
            RSeedType::AfterZip212 => 1,
        }
    }

    /// The value that the wire number `value` stands for, if any.
    pub fn from_i32(value: i32) -> (r: Option<Self>)
        ensures
            r == rseed_type_from_number(value),
    {
        if value == 0 {
            Some(RSeedType::BeforeZip212)
        } else if value == 1 {
            Some(RSeedType::AfterZip212)
        } else {
            None
        }
    }

    /// The value that the wire number `value` stands for, or the value numbered zero
    /// where `value` stands for none.
    pub fn from_i32_or_default(value: i32) -> (r: Self)
        ensures
            r == (match rseed_type_from_number(value) {
                Some(x) => x,
                None => RSeedType::BeforeZip212,
            }),
    {
        match Self::from_i32(value) {
            Some(x) => x,
            None => RSeedType::BeforeZip212,
        }
    }
}

/// A `RSeedType` value and a string correspond by name exactly when the value's
/// protobuf field name is that string; and a value is found again from its wire number.
pub proof fn lemma_rseed_type_names(x: RSeedType, s: Seq<char>)
    ensures
        rseed_type_from_name(s) == Some(x) <==> s == rseed_type_name(x),
        rseed_type_from_name(rseed_type_name(x)) == Some(x),
        rseed_type_from_number(rseed_type_number(x)) == Some(x),
{
    reveal_strlit("BeforeZip212");
    reveal_strlit("AfterZip212");
    assert("BeforeZip212"@.len() != "AfterZip212"@.len());
}

/// The key scope a note was received with.
#[derive(Clone, Copy, Debug, PartialEq, Eq, Structural, Hash)]
pub enum Scope {
    Internal,
    External,
}

/// The protobuf field name of each `Scope` value.
pub open spec fn scope_name(x: Scope) -> Seq<char> {
    match x {
        Scope::Internal => "Internal"@,
        Scope::External => "External"@,
    }
}

/// The `Scope` value with the given protobuf field name, if any.
pub open spec fn scope_from_name(s: Seq<char>) -> Option<Scope> {
    if s == "Internal"@ {
        Some(Scope::Internal)
    } else if s == "External"@ {
        Some(Scope::External)
    } else {
        None
    }
}

/// The wire number of each `Scope` value.
pub open spec fn scope_number(x: Scope) -> i32 {
    match x {
        Scope::Internal => 0i32,
        Scope::External => 1i32,
    }
}

/// The `Scope` value with the given wire number, if any.
pub open spec fn scope_from_number(n: i32) -> Option<Scope> {
    if n == 0 {
        Some(Scope::Internal)
    } else if n == 1 {
        Some(Scope::External)
    } else {
        None
    }
}

impl Scope {
    /// The field name used for this value in the protobuf definition.
    pub fn as_str_name(&self) -> (r: &'static str)
        ensures
            r@ == scope_name(*self),
    {
        match self {
            Scope::Internal => "Internal",
            Scope::External => "External",
        }
    }

    /// The value whose protobuf field name is `value`, if any.
    pub fn from_str_name(value: &str) -> (r: Option<Self>)
        ensures
            r == scope_from_name(value@),
    {
        if str_equals(value, "Internal") {
            Some(Scope::Internal)
        } else if str_equals(value, "External") {
            Some(Scope::External)
        } else {
            None
        }
    }

    /// The number that stands for this value on the wire.
    pub fn to_i32(&self) -> (r: i32)
        ensures
            r == scope_number(*self),
    {
        match self {
            Scope::Internal => 0,
            Scope::External => 1,
        }
    }

    /// The value that the wire number `value` stands for, if any.
    pub fn from_i32(value: i32) -> (r: Option<Self>)
        ensures
            r == scope_from_number(value),
    {
        if value == 0 {
            Some(Scope::Internal)
        } else if value == 1 {
            Some(Scope::External)
        } else {
            None
        }
    }

    /// The value that the wire number `value` stands for, or the value numbered zero
    /// where `value` stands for none.
    pub fn from_i32_or_default(value: i32) -> (r: Self)
        ensures
            r == (match scope_from_number(value) {
                Some(x) => x,
                None => Scope::Internal,
            }),
    {
        match Self::from_i32(value) {
            Some(x) => x,
            None => Scope::Internal,
        }
    }
}

/// A `Scope` value and a string correspond by name exactly when the value's
/// protobuf field name is that string; and a value is found again from its wire number.
pub proof fn lemma_scope_names(x: Scope, s: Seq<char>)
    ensures
        scope_from_name(s) == Some(x) <==> s == scope_name(x),
        scope_from_name(scope_name(x)) == Some(x),
        scope_from_number(scope_number(x)) == Some(x),
{
    reveal_strlit("Internal");
    reveal_strlit("External");
    assert("Internal"@[0] != "External"@[0]);
}

/// The kind of recipient of a sent output.
#[derive(Clone, Copy, Debug, PartialEq, Eq, Structural, Hash)]
pub enum RecipientType {
    ExternalRecipient,
    EphemeralTransparent,
    InternalAccount,
}

/// The protobuf field name of each `RecipientType` value.
pub open spec fn recipient_type_name(x: RecipientType) -> Seq<char> {
    match x {
        RecipientType::ExternalRecipient => "ExternalRecipient"@,
        RecipientType::EphemeralTransparent => "EphemeralTransparent"@,
        RecipientType::InternalAccount => "InternalAccount"@,
    }
}

/// The `RecipientType` value with the given protobuf field name, if any.
pub open spec fn recipient_type_from_name(s: Seq<char>) -> Option<RecipientType> {
    if s == "ExternalRecipient"@ {
        Some(RecipientType::ExternalRecipient)
    } else if s == "EphemeralTransparent"@ {
        Some(RecipientType::EphemeralTransparent)
    } else if s == "InternalAccount"@ {
        Some(RecipientType::InternalAccount)
    } else {
        None
    }
}

/// The wire number of each `RecipientType` value.
pub open spec fn recipient_type_number(x: RecipientType) -> i32 {
    match x {
        RecipientType::ExternalRecipient => 0i32,
        RecipientType::EphemeralTransparent => 1i32,
        RecipientType::InternalAccount => 2i32,
    }
}

/// The `RecipientType` value with the given wire number, if any.
pub open spec fn recipient_type_from_number(n: i32) -> Option<RecipientType> {
    if n == 0 {
        Some(RecipientType::ExternalRecipient)
    } else if n == 1 {
        Some(RecipientType::EphemeralTransparent)
    } else if n == 2 {
        Some(RecipientType::InternalAccount)
    } else {
        None
    }
}

impl RecipientType {
    /// The field name used for this value in the protobuf definition.
    pub fn as_str_name(&self) -> (r: &'static str)
        ensures
            r@ == recipient_type_name(*self),
    {
        match self {
            RecipientType::ExternalRecipient => "ExternalRecipient",
            RecipientType::EphemeralTransparent => "EphemeralTransparent",
            RecipientType::InternalAccount => "InternalAccount",
        }
    }

    /// The value whose protobuf field name is `value`, if any.
    pub fn from_str_name(value: &str) -> (r: Option<Self>)
        ensures
            r == recipient_type_from_name(value@),
    {
        if str_equals(value, "ExternalRecipient") {
            Some(RecipientType::ExternalRecipient)
        } else if str_equals(value, "EphemeralTransparent") {
            Some(RecipientType::EphemeralTransparent)
        } else if str_equals(value, "InternalAccount") {
            Some(RecipientType::InternalAccount)
        } else {
            None
        }
    }

    /// The number that stands for this value on the wire.
    pub fn to_i32(&self) -> (r: i32)
        ensures
            r == recipient_type_number(*self),
    {
        match self {
            RecipientType::ExternalRecipient => 0,
            RecipientType::EphemeralTransparent => 1,
            RecipientType::InternalAccount => 2,
        }
    }

    /// The value that the wire number `value` stands for, if any.
    pub fn from_i32(value: i32) -> (r: Option<Self>)
        ensures
            r == recipient_type_from_number(value),
    {
        if value == 0 {
            Some(RecipientType::ExternalRecipient)
        } else if value == 1 {
            Some(RecipientType::EphemeralTransparent)
        } else if value == 2 {
            Some(RecipientType::InternalAccount)
        } else {
            None
        }
    }

    /// The value that the wire number `value` stands for, or the value numbered zero
    /// where `value` stands for none.
    pub fn from_i32_or_default(value: i32) -> (r: Self)
        ensures
            r == (match recipient_type_from_number(value) {
                Some(x) => x,
                None => RecipientType::ExternalRecipient,
            }),
    {
        match Self::from_i32(value) {
            Some(x) => x,
            None => RecipientType::ExternalRecipient,
        }
    }
}

/// A `RecipientType` value and a string correspond by name exactly when the value's
/// protobuf field name is that string; and a value is found again from its wire number.
pub proof fn lemma_recipient_type_names(x: RecipientType, s: Seq<char>)
    ensures
        recipient_type_from_name(s) == Some(x) <==> s == recipient_type_name(x),
        recipient_type_from_name(recipient_type_name(x)) == Some(x),
        recipient_type_from_number(recipient_type_number(x)) == Some(x),
{
    reveal_strlit("ExternalRecipient");
    reveal_strlit("EphemeralTransparent");
    reveal_strlit("InternalAccount");
    assert("ExternalRecipient"@.len() != "EphemeralTransparent"@.len());
    assert("ExternalRecipient"@.len() != "InternalAccount"@.len());
    assert("EphemeralTransparent"@.len() != "InternalAccount"@.len());
}

/// How an account came into the wallet.
#[derive(Clone, Copy, Debug, PartialEq, Eq, Structural, Hash)]
pub enum AccountKind {
    Derived,
    Imported,
}

/// The protobuf field name of each `AccountKind` value.
pub open spec fn account_kind_name(x: AccountKind) -> Seq<char> {
    match x {
        AccountKind::Derived => "Derived"@,
        AccountKind::Imported => "Imported"@,
    }
}

/// The `AccountKind` value with the given protobuf field name, if any.
pub open spec fn account_kind_from_name(s: Seq<char>) -> Option<AccountKind> {
    if s == "Derived"@ {
        Some(AccountKind::Derived)
    } else if s == "Imported"@ {
        Some(AccountKind::Imported)
    } else {
        None
    }
}

/// The wire number of each `AccountKind` value.
pub open spec fn account_kind_number(x: AccountKind) -> i32 {
    match x {
        AccountKind::Derived => 0i32,
        AccountKind::Imported => 1i32,
    }
}

/// The `AccountKind` value with the given wire number, if any.
pub open spec fn account_kind_from_number(n: i32) -> Option<AccountKind> {
    if n == 0 {
        Some(AccountKind::Derived)
    } else if n == 1 {
        Some(AccountKind::Imported)
    } else {
        None
    }
}

impl AccountKind {
    /// The field name used for this value in the protobuf definition.
    pub fn as_str_name(&self) -> (r: &'static str)
        ensures
            r@ == account_kind_name(*self),
    {
        match self {
            AccountKind::Derived => "Derived",
            AccountKind::Imported => "Imported",
        }
    }

    /// The value whose protobuf field name is `value`, if any.
    pub fn from_str_name(value: &str) -> (r: Option<Self>)
        ensures
            r == account_kind_from_name(value@),
    {
        if str_equals(value, "Derived") {
            Some(AccountKind::Derived)
        } else if str_equals(value, "Imported") {
            Some(AccountKind::Imported)
        } else {
            None
        }
    }

    /// The number that stands for this value on the wire.
    pub fn to_i32(&self) -> (r: i32)
        ensures
            r == account_kind_number(*self),
    {
        match self {
            AccountKind::Derived => 0,
            AccountKind::Imported => 1,
        }
    }

    /// The value that the wire number `value` stands for, if any.
    pub fn from_i32(value: i32) -> (r: Option<Self>)
        ensures
            r == account_kind_from_number(value),
    {
        if value == 0 {
            Some(AccountKind::Derived)
        } else if value == 1 {
            Some(AccountKind::Imported)
        } else {
            None
        }
    }

    /// The value that the wire number `value` stands for, or the value numbered zero
    /// where `value` stands for none.
    pub fn from_i32_or_default(value: i32) -> (r: Self)
        ensures
            r == (match account_kind_from_number(value) {
                Some(x) => x,
                None => AccountKind::Derived,
            }),
    {
        match Self::from_i32(value) {
            Some(x) => x,
            None => AccountKind::Derived,
        }
    }
}

/// A `AccountKind` value and a string correspond by name exactly when the value's
/// protobuf field name is that string; and a value is found again from its wire number.
pub proof fn lemma_account_kind_names(x: AccountKind, s: Seq<char>)
    ensures
        account_kind_from_name(s) == Some(x) <==> s == account_kind_name(x),
        account_kind_from_name(account_kind_name(x)) == Some(x),
        account_kind_from_number(account_kind_number(x)) == Some(x),
{
    reveal_strlit("Derived");
    reveal_strlit("Imported");
    assert("Derived"@.len() != "Imported"@.len());
}

/// Whether an account can spend.
#[derive(Clone, Copy, Debug, PartialEq, Eq, Structural, Hash)]
pub enum AccountPurpose {
    Spending,
    ViewOnly,
}

/// The protobuf field name of each `AccountPurpose` value.
pub open spec fn account_purpose_name(x: AccountPurpose) -> Seq<char> {
    match x {
        AccountPurpose::Spending => "Spending"@,
        AccountPurpose::ViewOnly => "ViewOnly"@,
    }
}

/// The `AccountPurpose` value with the given protobuf field name, if any.
pub open spec fn account_purpose_from_name(s: Seq<char>) -> Option<AccountPurpose> {
    if s == "Spending"@ {
        Some(AccountPurpose::Spending)
    } else if s == "ViewOnly"@ {
        Some(AccountPurpose::ViewOnly)
    } else {
        None
    }
}

/// The wire number of each `AccountPurpose` value.
pub open spec fn account_purpose_number(x: AccountPurpose) -> i32 {
    match x {
        AccountPurpose::Spending => 0i32,
        AccountPurpose::ViewOnly => 1i32,
    }
}

/// The `AccountPurpose` value with the given wire number, if any.
pub open spec fn account_purpose_from_number(n: i32) -> Option<AccountPurpose> {
    if n == 0 {
        Some(AccountPurpose::Spending)
    } else if n == 1 {
        Some(AccountPurpose::ViewOnly)
    } else {
        None
    }
}

impl AccountPurpose {
    /// The field name used for this value in the protobuf definition.
    pub fn as_str_name(&self) -> (r: &'static str)
        ensures
            r@ == account_purpose_name(*self),
    {
        match self {
            AccountPurpose::Spending => "Spending",
            AccountPurpose::ViewOnly => "ViewOnly",
        }
    }

    /// The value whose protobuf field name is `value`, if any.
    pub fn from_str_name(value: &str) -> (r: Option<Self>)
        ensures
            r == account_purpose_from_name(value@),
    {
        if str_equals(value, "Spending") {
            Some(AccountPurpose::Spending)
        } else if str_equals(value, "ViewOnly") {
            Some(AccountPurpose::ViewOnly)
        } else {
            None
        }
    }

    /// The number that stands for this value on the wire.
    pub fn to_i32(&self) -> (r: i32)
        ensures
            r == account_purpose_number(*self),
    {
        match self {
            AccountPurpose::Spending => 0,
            AccountPurpose::ViewOnly => 1,
        }
    }

    /// The value that the wire number `value` stands for, if any.
    pub fn from_i32(value: i32) -> (r: Option<Self>)
        ensures
            r == account_purpose_from_number(value),
    {
        if value == 0 {
            Some(AccountPurpose::Spending)
        } else if value == 1 {
            Some(AccountPurpose::ViewOnly)
        } else {
            None
        }
    }

    /// The value that the wire number `value` stands for, or the value numbered zero
    /// where `value` stands for none.
    pub fn from_i32_or_default(value: i32) -> (r: Self)
        ensures
            r == (match account_purpose_from_number(value) {
                Some(x) => x,
                None => AccountPurpose::Spending,
            }),
    {
        match Self::from_i32(value) {
            Some(x) => x,
            None => AccountPurpose::Spending,
        }
    }
}

/// A `AccountPurpose` value and a string correspond by name exactly when the value's
/// protobuf field name is that string; and a value is found again from its wire number.
pub proof fn lemma_account_purpose_names(x: AccountPurpose, s: Seq<char>)
    ensures
        account_purpose_from_name(s) == Some(x) <==> s == account_purpose_name(x),
        account_purpose_from_name(account_purpose_name(x)) == Some(x),
        account_purpose_from_number(account_purpose_number(x)) == Some(x),
{
    reveal_strlit("Spending");
    reveal_strlit("ViewOnly");
    assert("Spending"@[0] != "ViewOnly"@[0]);
}

/// The kind of a request for transaction data.
#[derive(Clone, Copy, Debug, PartialEq, Eq, Structural, Hash)]
pub enum TransactionDataRequestType {
    GetStatus,
    Enhancement,
    SpendsFromAddress,
}

/// The protobuf field name of each `TransactionDataRequestType` value.
pub open spec fn transaction_data_request_type_name(x: TransactionDataRequestType) -> Seq<char> {
    match x {
        TransactionDataRequestType::GetStatus => "GetStatus"@,
        TransactionDataRequestType::Enhancement => "Enhancement"@,
        TransactionDataRequestType::SpendsFromAddress => "SpendsFromAddress"@,
    }
}

/// The `TransactionDataRequestType` value with the given protobuf field name, if any.
pub open spec fn transaction_data_request_type_from_name(s: Seq<char>) -> Option<TransactionDataRequestType> {
    if s == "GetStatus"@ {
        Some(TransactionDataRequestType::GetStatus)
    } else if s == "Enhancement"@ {
        Some(TransactionDataRequestType::Enhancement)
    } else if s == "SpendsFromAddress"@ {
        Some(TransactionDataRequestType::SpendsFromAddress)
    } else {
        None
    }
}

/// The wire number of each `TransactionDataRequestType` value.
pub open spec fn transaction_data_request_type_number(x: TransactionDataRequestType) -> i32 {
    match x {
        TransactionDataRequestType::GetStatus => 0i32,
        TransactionDataRequestType::Enhancement => 1i32,
        TransactionDataRequestType::SpendsFromAddress => 2i32,
    }
}

/// The `TransactionDataRequestType` value with the given wire number, if any.
pub open spec fn transaction_data_request_type_from_number(n: i32) -> Option<TransactionDataRequestType> {
    if n == 0 {
        Some(TransactionDataRequestType::GetStatus)
    } else if n == 1 {
        Some(TransactionDataRequestType::Enhancement)
    } else if n == 2 {
        Some(TransactionDataRequestType::SpendsFromAddress)
    } else {
        None
    }
}

impl TransactionDataRequestType {
    /// The field name used for this value in the protobuf definition.
    pub fn as_str_name(&self) -> (r: &'static str)
        ensures
            r@ == transaction_data_request_type_name(*self),
    {
        match self {
            TransactionDataRequestType::GetStatus => "GetStatus",
            TransactionDataRequestType::Enhancement => "Enhancement",
            TransactionDataRequestType::SpendsFromAddress => "SpendsFromAddress",
        }
    }

    /// The value whose protobuf field name is `value`, if any.
    pub fn from_str_name(value: &str) -> (r: Option<Self>)
        ensures
            r == transaction_data_request_type_from_name(value@),
    {
        if str_equals(value, "GetStatus") {
            Some(TransactionDataRequestType::GetStatus)
        } else if str_equals(value, "Enhancement") {
            Some(TransactionDataRequestType::Enhancement)
        } else if str_equals(value, "SpendsFromAddress") {
            Some(TransactionDataRequestType::SpendsFromAddress)
        } else {
            None
        }
    }

    /// The number that stands for this value on the wire.
    pub fn to_i32(&self) -> (r: i32)
        ensures
            r == transaction_data_request_type_number(*self),
    {
        match self {
            TransactionDataRequestType::GetStatus => 0,
            TransactionDataRequestType::Enhancement => 1,
            TransactionDataRequestType::SpendsFromAddress => 2,
        }
    }

    /// The value that the wire number `value` stands for, if any.
    pub fn from_i32(value: i32) -> (r: Option<Self>)
        ensures
            r == transaction_data_request_type_from_number(value),
    {
        if value == 0 {
            Some(TransactionDataRequestType::GetStatus)
        } else if value == 1 {
            Some(TransactionDataRequestType::Enhancement)
        } else if value == 2 {
            Some(TransactionDataRequestType::SpendsFromAddress)
        } else {
            None
        }
    }

    /// The value that the wire number `value` stands for, or the value numbered zero
    /// where `value` stands for none.
    pub fn from_i32_or_default(value: i32) -> (r: Self)
        ensures
            r == (match transaction_data_request_type_from_number(value) {
                Some(x) => x,
                None => TransactionDataRequestType::GetStatus,
            }),
    {
        match Self::from_i32(value) {
            Some(x) => x,
            None => TransactionDataRequestType::GetStatus,
        }
    }
}

/// A `TransactionDataRequestType` value and a string correspond by name exactly when the value's
/// protobuf field name is that string; and a value is found again from its wire number.
pub proof fn lemma_transaction_data_request_type_names(x: TransactionDataRequestType, s: Seq<char>)
    ensures
        transaction_data_request_type_from_name(s) == Some(x) <==> s == transaction_data_request_type_name(x),
        transaction_data_request_type_from_name(transaction_data_request_type_name(x)) == Some(x),
        transaction_data_request_type_from_number(transaction_data_request_type_number(x)) == Some(x),
{
    reveal_strlit("GetStatus");
    reveal_strlit("Enhancement");
    reveal_strlit("SpendsFromAddress");
    assert("GetStatus"@.len() != "Enhancement"@.len());
    assert("GetStatus"@.len() != "SpendsFromAddress"@.len());
    assert("Enhancement"@.len() != "SpendsFromAddress"@.len());
}

/// The priority of a block range in the scan queue, lowest first.
#[derive(Clone, Copy, Debug, PartialEq, Eq, Structural, Hash)]
pub enum ScanPriority {
    Ignored,
    Scanned,
    Historic,
    OpenAdjacent,
    FoundNote,
    ChainTip,
    Verify,
}

/// The protobuf field name of each `ScanPriority` value.
pub open spec fn scan_priority_name(x: ScanPriority) -> Seq<char> {
    match x {
        ScanPriority::Ignored => "Ignored"@,
        ScanPriority::Scanned => "Scanned"@,
        ScanPriority::Historic => "Historic"@,
        ScanPriority::OpenAdjacent => "OpenAdjacent"@,
        ScanPriority::FoundNote => "FoundNote"@,
        ScanPriority::ChainTip => "ChainTip"@,
        ScanPriority::Verify => "Verify"@,
    }
}

/// The `ScanPriority` value with the given protobuf field name, if any.
pub open spec fn scan_priority_from_name(s: Seq<char>) -> Option<ScanPriority> {
    if s == "Ignored"@ {
        Some(ScanPriority::Ignored)
    } else if s == "Scanned"@ {
        Some(ScanPriority::Scanned)
    } else if s == "Historic"@ {
        Some(ScanPriority::Historic)
    } else if s == "OpenAdjacent"@ {
        Some(ScanPriority::OpenAdjacent)
    } else if s == "FoundNote"@ {
        Some(ScanPriority::FoundNote)
    } else if s == "ChainTip"@ {
        Some(ScanPriority::ChainTip)
    } else if s == "Verify"@ {
        Some(ScanPriority::Verify)
    } else {
        None
    }
}

/// The wire number of each `ScanPriority` value.
pub open spec fn scan_priority_number(x: ScanPriority) -> i32 {
    match x {
        ScanPriority::Ignored => 0i32,
        ScanPriority::Scanned => 1i32,
        ScanPriority::Historic => 2i32,
        ScanPriority::OpenAdjacent => 3i32,
        ScanPriority::FoundNote => 4i32,
        ScanPriority::ChainTip => 5i32,
        ScanPriority::Verify => 6i32,
    }
}

/// The `ScanPriority` value with the given wire number, if any.
pub open spec fn scan_priority_from_number(n: i32) -> Option<ScanPriority> {
    if n == 0 {
        Some(ScanPriority::Ignored)
    } else if n == 1 {
        Some(ScanPriority::Scanned)
    } else if n == 2 {
        Some(ScanPriority::Historic)
    } else if n == 3 {
        Some(ScanPriority::OpenAdjacent)
    } else if n == 4 {
        Some(ScanPriority::FoundNote)
    } else if n == 5 {
        Some(ScanPriority::ChainTip)
    } else if n == 6 {
        Some(ScanPriority::Verify)
    } else {
        None
    }
}

impl ScanPriority {
    /// The field name used for this value in the protobuf definition.
    pub fn as_str_name(&self) -> (r: &'static str)
        ensures
            r@ == scan_priority_name(*self),
    {
        match self {
            ScanPriority::Ignored => "Ignored",
            ScanPriority::Scanned => "Scanned",
            ScanPriority::Historic => "Historic",
            ScanPriority::OpenAdjacent => "OpenAdjacent",
            ScanPriority::FoundNote => "FoundNote",
            ScanPriority::ChainTip => "ChainTip",
            ScanPriority::Verify => "Verify",
        }
    }

    /// The value whose protobuf field name is `value`, if any.
    pub fn from_str_name(value: &str) -> (r: Option<Self>)
        ensures
            r == scan_priority_from_name(value@),
    {
        if str_equals(value, "Ignored") {
            Some(ScanPriority::Ignored)
        } else if str_equals(value, "Scanned") {
            Some(ScanPriority::Scanned)
        } else if str_equals(value, "Historic") {
            Some(ScanPriority::Historic)
        } else if str_equals(value, "OpenAdjacent") {
            Some(ScanPriority::OpenAdjacent)
        } else if str_equals(value, "FoundNote") {
            Some(ScanPriority::FoundNote)
        } else if str_equals(value, "ChainTip") {
            Some(ScanPriority::ChainTip)
        } else if str_equals(value, "Verify") {
            Some(ScanPriority::Verify)
        } else {
            None
        }
    }

    /// The number that stands for this value on the wire.
    pub fn to_i32(&self) -> (r: i32)
        ensures
            r == scan_priority_number(*self),
    {
        match self {
            ScanPriority::Ignored => 0,
            ScanPriority::Scanned => 1,
            ScanPriority::Historic => 2,
            ScanPriority::OpenAdjacent => 3,
            ScanPriority::FoundNote => 4,
            ScanPriority::ChainTip => 5,
            ScanPriority::Verify => 6,
        }
    }

    /// The value that the wire number `value` stands for, if any.
    pub fn from_i32(value: i32) -> (r: Option<Self>)
        ensures
            r == scan_priority_from_number(value),
    {
        if value == 0 {
            Some(ScanPriority::Ignored)
        } else if value == 1 {
            Some(ScanPriority::Scanned)
        } else if value == 2 {
            Some(ScanPriority::Historic)
        } else if value == 3 {
            Some(ScanPriority::OpenAdjacent)
        } else if value == 4 {
            Some(ScanPriority::FoundNote)
        } else if value == 5 {
            Some(ScanPriority::ChainTip)
        } else if value == 6 {
            Some(ScanPriority::Verify)
        } else {
            None
        }
    }

    /// The value that the wire number `value` stands for, or the value numbered zero
    /// where `value` stands for none.
    pub fn from_i32_or_default(value: i32) -> (r: Self)
        ensures
            r == (match scan_priority_from_number(value) {
                Some(x) => x,
                None => ScanPriority::Ignored,
            }),
    {
        match Self::from_i32(value) {
            Some(x) => x,
            None => ScanPriority::Ignored,
        }
    }
}

/// A `ScanPriority` value and a string correspond by name exactly when the value's
/// protobuf field name is that string; and a value is found again from its wire number.
pub proof fn lemma_scan_priority_names(x: ScanPriority, s: Seq<char>)
    ensures
        scan_priority_from_name(s) == Some(x) <==> s == scan_priority_name(x),
        scan_priority_from_name(scan_priority_name(x)) == Some(x),
        scan_priority_from_number(scan_priority_number(x)) == Some(x),
{
    reveal_strlit("Ignored");
    reveal_strlit("Scanned");
    reveal_strlit("Historic");
    reveal_strlit("OpenAdjacent");
    reveal_strlit("FoundNote");
    reveal_strlit("ChainTip");
    reveal_strlit("Verify");
    assert("Ignored"@[0] != "Scanned"@[0]);
    assert("Ignored"@.len() != "Historic"@.len());
    assert("Ignored"@.len() != "OpenAdjacent"@.len());
    assert("Ignored"@.len() != "FoundNote"@.len());
    assert("Ignored"@.len() != "ChainTip"@.len());
    assert("Ignored"@.len() != "Verify"@.len());
    assert("Scanned"@.len() != "Historic"@.len());
    assert("Scanned"@.len() != "OpenAdjacent"@.len());
    assert("Scanned"@.len() != "FoundNote"@.len());
    assert("Scanned"@.len() != "ChainTip"@.len());
    assert("Scanned"@.len() != "Verify"@.len());
    assert("Historic"@.len() != "OpenAdjacent"@.len());
    assert("Historic"@.len() != "FoundNote"@.len());
    assert("Historic"@[0] != "ChainTip"@[0]);
    assert("Historic"@.len() != "Verify"@.len());
    assert("OpenAdjacent"@.len() != "FoundNote"@.len());
    assert("OpenAdjacent"@.len() != "ChainTip"@.len());
    assert("OpenAdjacent"@.len() != "Verify"@.len());
    assert("FoundNote"@.len() != "ChainTip"@.len());
    assert("FoundNote"@.len() != "Verify"@.len());
    assert("ChainTip"@.len() != "Verify"@.len());
}


} // verus!
