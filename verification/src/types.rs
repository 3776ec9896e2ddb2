//! The values the wallet's tables are built from: identifiers, pools, heights,
//! statuses and addresses, each with a mathematical view.
use vstd::prelude::*;
use crate::assoc::KeyEq;

verus! {

/// A block height.
pub type BlockHeight = u32;

/// The Zcash network a wallet follows.
#[derive(Clone, Copy, Debug, PartialEq, Eq, Structural)]
pub enum Network {
    MainNetwork,
    TestNetwork,
}

/// Whether two byte slices hold the same bytes.
pub fn bytes_eq(a: &[u8], b: &[u8]) -> (r: bool)
    ensures
        r == (a@ == b@),
{
    if a.len() != b.len() {
        return false;
    }
    let mut i: usize = 0;
    while i < a.len()
        invariant
            a@.len() == b@.len(),
            i <= a@.len(),
            forall|j: int| 0 <= j < i ==> a@[j] == b@[j],
        decreases a@.len() - i,
    {
        if a[i] != b[i] {
            return false;
        }
        i = i + 1;
    }
    assert(a@ =~= b@);
    true
}

/// A transaction id.
#[derive(Clone, Copy, Debug, Hash)]
pub struct TxId(pub [u8; 32]);

impl View for TxId {
    type V = Seq<u8>;

    open spec fn view(&self) -> Seq<u8> {
        self.0@
    }
}

impl PartialEq for TxId {
    fn eq(&self, other: &Self) -> (r: bool) {
        bytes_eq(self.0.as_slice(), other.0.as_slice())
    }
}

impl vstd::std_specs::cmp::PartialEqSpecImpl for TxId {
    open spec fn obeys_eq_spec() -> bool {
        true
    }

    open spec fn eq_spec(&self, other: &Self) -> bool {
        self@ == other@
    }
}

impl Eq for TxId {}

/// Identifies an account of the wallet. Ids are handed out in increasing order
/// and never reused.
#[derive(Clone, Copy, Debug, PartialEq, Eq, Structural, Hash, Default)]
pub struct AccountId(pub u32);

impl AccountId {
    /// The account id with the given number.
    pub fn from_u32(id: u32) -> (r: Self)
        ensures
            r.0 == id,
    {
        AccountId(id)
    }

    /// The number of this account id.
    pub fn as_u32(&self) -> (r: u32)
        ensures
            r == self.0,
    {
        self.0
    }
}

/// A shielded protocol.
#[derive(Clone, Copy, Debug, PartialEq, Eq, Structural, Hash)]
pub enum ShieldedProtocol {
    Sapling,
    Orchard,
}

/// A value pool.
#[derive(Clone, Copy, Debug, PartialEq, Eq, Structural, Hash)]
pub enum PoolType {
    Transparent,
    Shielded(ShieldedProtocol),
}

/// The key scope under which a note was received.
#[derive(Clone, Copy, Debug, PartialEq, Eq, Structural, Hash)]
pub enum Scope {
    External,
    Internal,
}

/// The chain's view of a transaction.
#[derive(Clone, Copy, Debug, PartialEq, Eq, Structural, Hash)]
pub enum TransactionStatus {
    /// The transaction id was not recognized.
    TxidNotRecognized,
    /// The transaction is known but not mined in the main chain.
    NotInMainChain,
    /// The transaction was mined at the given height.
    Mined(BlockHeight),
}

/// Identifies a shielded note by its transaction, protocol and output index.
#[derive(Clone, Copy, Debug, Hash)]
pub struct NoteId {
    pub txid: TxId,
    pub protocol: ShieldedProtocol,
    pub output_index: u16,
}

impl View for NoteId {
    type V = (Seq<u8>, ShieldedProtocol, u16);

    open spec fn view(&self) -> (Seq<u8>, ShieldedProtocol, u16) {
        (self.txid@, self.protocol, self.output_index)
    }
}

impl PartialEq for NoteId {
    fn eq(&self, other: &Self) -> (r: bool) {
        self.protocol == other.protocol && self.output_index == other.output_index
            && self.txid == other.txid
    }
}

impl vstd::std_specs::cmp::PartialEqSpecImpl for NoteId {
    open spec fn obeys_eq_spec() -> bool {
        true
    }

    open spec fn eq_spec(&self, other: &Self) -> bool {
        self@ == other@
    }
}

impl Eq for NoteId {}

impl NoteId {
    /// The note id of the given output of a transaction.
    pub fn new(txid: TxId, protocol: ShieldedProtocol, output_index: u16) -> (r: Self)
        ensures
            r.txid == txid,
            r.protocol == protocol,
            r.output_index == output_index,
    {
        NoteId { txid, protocol, output_index }
    }
}

/// A nullifier, revealed when a note is spent.
#[derive(Clone, Copy, Debug, Hash)]
pub enum Nullifier {
    Sapling([u8; 32]),
    Orchard([u8; 32]),
}

impl View for Nullifier {
    type V = (ShieldedProtocol, Seq<u8>);

    open spec fn view(&self) -> (ShieldedProtocol, Seq<u8>) {
        match self {
            Nullifier::Sapling(b) => (ShieldedProtocol::Sapling, b@),
            Nullifier::Orchard(b) => (ShieldedProtocol::Orchard, b@),
        }
    }
}

impl PartialEq for Nullifier {
    fn eq(&self, other: &Self) -> (r: bool) {
        match (self, other) {
            (Nullifier::Sapling(a), Nullifier::Sapling(b)) => bytes_eq(a.as_slice(), b.as_slice()),
            (Nullifier::Orchard(a), Nullifier::Orchard(b)) => bytes_eq(a.as_slice(), b.as_slice()),
            _ => false,
        }
    }
}

impl vstd::std_specs::cmp::PartialEqSpecImpl for Nullifier {
    open spec fn obeys_eq_spec() -> bool {
        true
    }

    open spec fn eq_spec(&self, other: &Self) -> bool {
        self@ == other@
    }
}

impl Eq for Nullifier {}

impl Nullifier {
    /// The value pool of the protocol this nullifier belongs to.
    pub fn pool(&self) -> (r: PoolType)
        ensures
            r == PoolType::Shielded(self@.0),
    {
        match self {
            Nullifier::Sapling(_) => PoolType::Shielded(ShieldedProtocol::Sapling),
            Nullifier::Orchard(_) => PoolType::Shielded(ShieldedProtocol::Orchard),
        }
    }
}

/// The protocol-level recipient of a transfer: the raw bytes of a shielded
/// payment address, or a transparent address.
#[derive(Clone, Copy, Debug)]
pub enum Receiver {
    Orchard([u8; 43]),
    Sapling([u8; 43]),
    Transparent(TransparentAddress),
}

/// A transparent address: the hash of a public key or of a script.
#[derive(Clone, Copy, Debug, Hash)]
pub enum TransparentAddress {
    PublicKeyHash([u8; 20]),
    ScriptHash([u8; 20]),
}

impl View for TransparentAddress {
    type V = (bool, Seq<u8>);

    /// Whether the address is a script hash, and the hash.
    open spec fn view(&self) -> (bool, Seq<u8>) {
        match self {
            TransparentAddress::PublicKeyHash(h) => (false, h@),
            TransparentAddress::ScriptHash(h) => (true, h@),
        }
    }
}

impl PartialEq for TransparentAddress {
    fn eq(&self, other: &Self) -> (r: bool) {
        match (self, other) {
            (TransparentAddress::PublicKeyHash(a), TransparentAddress::PublicKeyHash(b)) => {
                bytes_eq(a.as_slice(), b.as_slice())
            },
            (TransparentAddress::ScriptHash(a), TransparentAddress::ScriptHash(b)) => {
                bytes_eq(a.as_slice(), b.as_slice())
            },
            _ => false,
        }
    }
}

impl vstd::std_specs::cmp::PartialEqSpecImpl for TransparentAddress {
    open spec fn obeys_eq_spec() -> bool {
        true
    }

    open spec fn eq_spec(&self, other: &Self) -> bool {
        self@ == other@
    }
}

impl Eq for TransparentAddress {}

/// A reference to an output of a transaction.
#[derive(Clone, Copy, Debug, Hash)]
pub struct OutPoint {
    pub txid: TxId,
    pub n: u32,
}

impl View for OutPoint {
    type V = (Seq<u8>, u32);

    open spec fn view(&self) -> (Seq<u8>, u32) {
        (self.txid@, self.n)
    }
}

impl PartialEq for OutPoint {
    fn eq(&self, other: &Self) -> (r: bool) {
        self.n == other.n && self.txid == other.txid
    }
}

impl vstd::std_specs::cmp::PartialEqSpecImpl for OutPoint {
    open spec fn obeys_eq_spec() -> bool {
        true
    }

    open spec fn eq_spec(&self, other: &Self) -> bool {
        self@ == other@
    }
}

impl Eq for OutPoint {}

impl KeyEq for TxId {
    fn key_eq(&self, other: &Self) -> (r: bool) {
        *self == *other
    }
}

impl KeyEq for NoteId {
    fn key_eq(&self, other: &Self) -> (r: bool) {
        *self == *other
    }
}

impl KeyEq for Nullifier {
    fn key_eq(&self, other: &Self) -> (r: bool) {
        *self == *other
    }
}

impl KeyEq for OutPoint {
    fn key_eq(&self, other: &Self) -> (r: bool) {
        *self == *other
    }
}

impl KeyEq for TransparentAddress {
    fn key_eq(&self, other: &Self) -> (r: bool) {
        *self == *other
    }
}

/// A block height and the index of a transaction within that block.
#[derive(Clone, Copy, Debug, PartialEq, Eq, Structural, Hash)]
pub struct TxLocation {
    pub height: BlockHeight,
    pub index: u32,
}

impl View for TxLocation {
    type V = (BlockHeight, u32);

    open spec fn view(&self) -> (BlockHeight, u32) {
        (self.height, self.index)
    }
}

impl KeyEq for TxLocation {
    fn key_eq(&self, other: &Self) -> (r: bool) {
        self.height == other.height && self.index == other.index
    }
}

} // verus!
