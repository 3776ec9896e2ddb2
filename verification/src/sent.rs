//! Outputs sent by the wallet, keyed by the note or transparent output they
//! created.
use vstd::prelude::*;
use crate::assoc::{AssocList, KeyEq};
use crate::error::Error;
use crate::notes::{empty_memo, is_empty_memo, note_protocol, Note, ReceivedNote};
use crate::types::{AccountId, NoteId, OutPoint, PoolType, Scope, ShieldedProtocol, TransparentAddress, TxId};

verus! {

/// The recipient of an output sent by the wallet.
#[derive(Debug)]
pub enum Recipient {
    /// An address outside the wallet, in the given pool.
    External(String, PoolType),
    /// An ephemeral transparent address of an account of the wallet.
    EphemeralTransparent {
        receiving_account: AccountId,
        ephemeral_address: TransparentAddress,
        outpoint_metadata: OutPoint,
    },
    /// An account of the wallet, receiving the given note.
    InternalAccount { receiving_account: AccountId, external_address: Option<String>, note: Note },
}

/// The pool an output to this recipient goes to.
pub open spec fn recipient_pool(r: Recipient) -> PoolType {
    match r {
        Recipient::External(_, p) => p,
        Recipient::EphemeralTransparent { .. } => PoolType::Transparent,
        Recipient::InternalAccount { note, .. } => PoolType::Shielded(note_protocol(note)),
    }
}

impl Recipient {
    /// A copy of this recipient.
    pub fn duplicate(&self) -> (r: Self)
        ensures
            r == *self,
    {
        match self {
            Recipient::External(a, p) => Recipient::External(a.clone(), *p),
            Recipient::EphemeralTransparent { receiving_account, ephemeral_address, outpoint_metadata } => {
                Recipient::EphemeralTransparent {
                    receiving_account: *receiving_account,
                    ephemeral_address: *ephemeral_address,
                    outpoint_metadata: *outpoint_metadata,
                }
            },
            Recipient::InternalAccount { receiving_account, external_address, note } => {
                let ext = match external_address {
                    Some(a) => Some(a.clone()),
                    None => None,
                };
                Recipient::InternalAccount { receiving_account: *receiving_account, external_address: ext, note: *note }
            },
        }
    }

    /// The pool an output to this recipient goes to.
    pub fn pool(&self) -> (r: PoolType)
        ensures
            r == recipient_pool(*self),
    {
        match self {
            Recipient::External(_, p) => *p,
            Recipient::EphemeralTransparent { .. } => PoolType::Transparent,
            Recipient::InternalAccount { note, .. } => PoolType::Shielded(note.protocol()),
        }
    }
}

/// An output of a transaction built by the wallet.
#[derive(Debug)]
pub struct SentTransactionOutput {
    pub output_index: usize,
    pub recipient: Recipient,
    /// The value, in zatoshis.
    pub value: u64,
    /// The encoded memo, for shielded outputs.
    pub memo: Option<[u8; 512]>,
}

/// A transaction built by the wallet, as the tables need it.
#[derive(Debug)]
pub struct SentTransaction {
    pub txid: TxId,
    pub account_id: AccountId,
    pub expiry_height: u32,
    /// The transaction's encoding.
    pub raw: Vec<u8>,
    pub fee: u64,
    pub target_height: u32,
    /// The nullifiers of the Sapling notes the transaction spends.
    pub sapling_spend_nullifiers: Vec<[u8; 32]>,
    /// The nullifiers of the transaction's Orchard actions.
    pub orchard_action_nullifiers: Vec<[u8; 32]>,
    /// Whether the transaction has an Orchard bundle.
    pub has_orchard_bundle: bool,
    /// The transparent outputs the transaction spends.
    pub utxos_spent: Vec<OutPoint>,
    pub outputs: Vec<SentTransactionOutput>,
}

/// Identifies a sent output: the note it created, or the transparent output.
#[derive(Clone, Copy, Debug)]
pub enum SentNoteId {
    Shielded(NoteId),
    Transparent { txid: TxId, output_index: u32 },
}

impl View for SentNoteId {
    /// The transaction id, the protocol (none for a transparent output) and the
    /// output index.
    type V = (Seq<u8>, Option<ShieldedProtocol>, u32);

    open spec fn view(&self) -> (Seq<u8>, Option<ShieldedProtocol>, u32) {
        match self {
            SentNoteId::Shielded(n) => (n.txid@, Some(n.protocol), n.output_index as u32),
            SentNoteId::Transparent { txid, output_index } => (txid@, None, *output_index),
        }
    }
}

impl KeyEq for SentNoteId {
    fn key_eq(&self, other: &Self) -> (r: bool) {
        match (self, other) {
            (SentNoteId::Shielded(a), SentNoteId::Shielded(b)) => *a == *b,
            (
                SentNoteId::Transparent { txid: ta, output_index: ia },
                SentNoteId::Transparent { txid: tb, output_index: ib },
            ) => *ia == *ib && *ta == *tb,
            _ => false,
        }
    }
}

impl SentNoteId {
    /// The transaction of the sent output.
    pub fn txid(&self) -> (r: &TxId)
        ensures
            r@ == self@.0,
    {
        match self {
            SentNoteId::Shielded(n) => &n.txid,
            SentNoteId::Transparent { txid, .. } => txid,
        }
    }

    /// The sent note id of a shielded note.
    pub fn from_note_id(note_id: NoteId) -> (r: Self)
        ensures
            r == SentNoteId::Shielded(note_id),
    {
        SentNoteId::Shielded(note_id)
    }
}

/// An output sent by the wallet.
#[derive(Debug)]
pub struct SentNote {
    pub from_account_id: AccountId,
    pub to: Recipient,
    pub value: u64,
    pub memo: [u8; 512],
}

/// Whether the output can be recorded: a transparent output's index fits in 32
/// bits; a shielded output's index fits in 16 bits and it carries a memo.
pub open spec fn sent_output_recordable(o: SentTransactionOutput) -> bool {
    match recipient_pool(o.recipient) {
        PoolType::Transparent => o.output_index <= u32::MAX,
        PoolType::Shielded(_) => o.output_index <= u16::MAX && o.memo is Some,
    }
}

/// The key under which an output of transaction `txid` is recorded.
pub open spec fn sent_output_key(txid: TxId, o: SentTransactionOutput) -> SentNoteId {
    match recipient_pool(o.recipient) {
        PoolType::Transparent => SentNoteId::Transparent { txid, output_index: o.output_index as u32 },
        PoolType::Shielded(p) => SentNoteId::Shielded(NoteId { txid, protocol: p, output_index: o.output_index as u16 }),
    }
}

/// The record of an output sent from `from_account_id`: transparent outputs carry
/// the empty memo.
pub open spec fn sent_output_record(from_account_id: AccountId, o: SentTransactionOutput, memo: [u8; 512]) -> bool {
    match recipient_pool(o.recipient) {
        PoolType::Transparent => is_empty_memo(memo),
        PoolType::Shielded(_) => o.memo == Some(memo),
    }
}

/// The outputs sent by the wallet.
pub struct SentNoteTable(pub AssocList<SentNoteId, SentNote>);

impl SentNoteTable {
    /// No output is recorded twice.
    pub open spec fn wf(&self) -> bool {
        self.0.wf()
    }

    /// An empty table.
    pub fn new() -> (r: Self)
        ensures
            r.wf(),
            r.0.entries@ == Seq::<(SentNoteId, SentNote)>::empty(),
    {
        SentNoteTable(AssocList::new())
    }

    /// Records an output of transaction `txid`, sent from `from_account_id`, under
    /// the note id it created or, for a transparent output, under its outpoint.
    pub fn put_sent_output(&mut self, txid: TxId, from_account_id: AccountId, output: &SentTransactionOutput)
        requires
            old(self).wf(),
            sent_output_recordable(*output),
        ensures
            final(self).wf(),
            exists|memo: [u8; 512]| sent_output_record(from_account_id, *output, memo)
                && final(self).0.entries@ == old(self).0.inserted(
                    sent_output_key(txid, *output),
                    SentNote { from_account_id, to: output.recipient, value: output.value, memo },
                ),
    {
        let to = output.recipient.duplicate();
        match output.recipient.pool() {
            PoolType::Transparent => {
                let key = SentNoteId::Transparent { txid, output_index: output.output_index as u32 };
                let memo = empty_memo();
                self.0.insert(key, SentNote { from_account_id, to, value: output.value, memo });
                assert(sent_output_record(from_account_id, *output, memo));
                assert(key == sent_output_key(txid, *output));
            },
            PoolType::Shielded(p) => {
                let key = SentNoteId::Shielded(NoteId::new(txid, p, output.output_index as u16));
                let memo = match output.memo {
                    Some(m) => m,
                    None => empty_memo(),
                };
                self.0.insert(key, SentNote { from_account_id, to, value: output.value, memo });
                assert(sent_output_record(from_account_id, *output, memo));
                assert(key == sent_output_key(txid, *output));
            },
        }
    }

    /// Records an output of a transaction built by the wallet.
    pub fn insert_sent_output(&mut self, tx: &SentTransaction, output: &SentTransactionOutput)
        requires
            old(self).wf(),
            sent_output_recordable(*output),
        ensures
            final(self).wf(),
            exists|memo: [u8; 512]| sent_output_record(tx.account_id, *output, memo)
                && final(self).0.entries@ == old(self).0.inserted(
                    sent_output_key(tx.txid, *output),
                    SentNote { from_account_id: tx.account_id, to: output.recipient, value: output.value, memo },
                ),
    {
        self.put_sent_output(tx.txid, tx.account_id, output)
    }

    /// The sent output that created the given note, if recorded.
    pub fn get_sent_note(&self, note_id: &NoteId) -> (r: Option<&SentNote>)
        requires
            self.wf(),
        ensures
            match r {
                Some(n) => self.0.lookup(SentNoteId::Shielded(*note_id)@) == Some(*n),
                None => self.0.lookup(SentNoteId::Shielded(*note_id)@) is None,
            },
    {
        self.0.get(&SentNoteId::Shielded(*note_id))
    }
}

/// The note an output to an account of the wallet stands for, as received by that
/// account: change, of internal scope, with no nullifier or tree position known yet.
pub open spec fn received_from_sent(txid: TxId, o: SentTransactionOutput, r: ReceivedNote) -> bool {
    match o.recipient {
        Recipient::InternalAccount { receiving_account, note, .. } => {
            &&& r.note_id == NoteId { txid, protocol: note_protocol(note), output_index: o.output_index as u16 }
            &&& r.txid == txid
            &&& r.output_index == o.output_index as u32
            &&& r.account_id == receiving_account
            &&& r.note == note
            &&& r.nf is None
            &&& r.is_change
            &&& o.memo == Some(r.memo)
            &&& r.commitment_tree_position is None
            &&& r.recipient_key_scope == Some(Scope::Internal)
        },
        _ => false,
    }
}

impl ReceivedNote {
    /// The note that an output to an account of the wallet stands for; fails with
    /// `Other` where the recipient is not an account of the wallet.
    pub fn from_sent_tx_output(txid: TxId, output: &SentTransactionOutput) -> (r: Result<Self, Error>)
        requires
            output.recipient is InternalAccount ==> output.memo is Some,
        ensures
            match r {
                Ok(n) => received_from_sent(txid, *output, n),
                Err(e) => !(output.recipient is InternalAccount) && e is Other,
            },
    {
        match &output.recipient {
            Recipient::InternalAccount { receiving_account, note, .. } => {
                let memo = match output.memo {
                    Some(m) => m,
                    None => empty_memo(),
                };
                Ok(ReceivedNote {
                    note_id: NoteId::new(txid, note.protocol(), output.output_index as u16),
                    txid,
                    output_index: output.output_index as u32,
                    account_id: *receiving_account,
                    note: *note,
                    nf: None,
                    is_change: true,
                    memo,
                    commitment_tree_position: None,
                    recipient_key_scope: Some(Scope::Internal),
                })
            },
            _ => Err(Error::Other(String::from_str("Recipient is not an internal shielded account"))),
        }
    }
}

} // verus!
