//! Conversions between the wallet's notes and nullifiers and their protobuf
//! records.
use vstd::prelude::*;
use crate::external::{
    address_parses, decode_transparent_address, encode_transparent_address, memo_readable, spec_address_parses,
    spec_memo_readable, spec_transparent_decoding, spec_transparent_encoding,
};
use crate::error::Error;
use crate::wallet::MAX_MONEY;
use crate::notes::{Note, Rseed};
use crate::proto;
use crate::sent::{Recipient, SentNote, SentNoteId};
use crate::types::{AccountId, NoteId, Nullifier, OutPoint, PoolType, ShieldedProtocol, TxId};

verus! {

/// The bytes of an array, as a vector.
fn array_to_vec(a: &[u8]) -> (r: Vec<u8>)
    ensures
        r@ == a@,
{
    vstd::slice::slice_to_vec(a)
}

/// The array holding the 32 bytes of a vector.
fn vec_to_array32(v: &Vec<u8>) -> (r: [u8; 32])
    requires
        v@.len() == 32,
    ensures
        r@ == v@,
{
    let mut a = [0u8; 32];
    let mut i: usize = 0;
    while i < 32
        invariant
            v@.len() == 32,
            i <= 32,
            forall|k: int| 0 <= k < i ==> a@[k] == v@[k],
        decreases 32 - i,
    {
        a.set(i, v[i]);
        i = i + 1;
    }
    assert(a@ =~= v@);
    a
}

/// The array holding the 43 bytes of a vector.
fn vec_to_array43(v: &Vec<u8>) -> (r: [u8; 43])
    requires
        v@.len() == 43,
    ensures
        r@ == v@,
{
    let mut a = [0u8; 43];
    let mut i: usize = 0;
    while i < 43
        invariant
            v@.len() == 43,
            i <= 43,
            forall|k: int| 0 <= k < i ==> a@[k] == v@[k],
        decreases 43 - i,
    {
        a.set(i, v[i]);
        i = i + 1;
    }
    assert(a@ =~= v@);
    a
}

/// The record stands for the note: the protocol's wire number, the recipient's
/// bytes, the value, and the randomness (for Sapling with its kind, for Orchard
/// with `rho`).
pub open spec fn note_record_of(n: Note, p: proto::Note) -> bool {
    match n {
        Note::Sapling { recipient, value, rseed } => {
            &&& p.protocol == 0
            &&& p.recipient@ == recipient@
            &&& p.value == value
            &&& p.rho is None
            &&& p.rseed matches Some(r) && match rseed {
                Rseed::BeforeZip212(b) => r.rseed_type == Some(0i32) && r.payload@ == b@,
                Rseed::AfterZip212(b) => r.rseed_type == Some(1i32) && r.payload@ == b@,
            }
        },
        Note::Orchard { recipient, value, rho, random_seed } => {
            &&& p.protocol == 1
            &&& p.recipient@ == recipient@
            &&& p.value == value
            &&& p.rho matches Some(h) && h@ == rho@
            &&& p.rseed matches Some(r) && r.rseed_type is None && r.payload@ == random_seed@
        },
    }
}

/// The record can be read as a note: a known protocol, a 43-byte recipient and
/// 32-byte randomness of a known kind (for Sapling), or with a 32-byte `rho`
/// (for Orchard).
pub open spec fn note_record_readable(p: proto::Note) -> bool {
    &&& p.recipient@.len() == 43
    &&& if p.protocol == 0 {
        p.rseed matches Some(r) && (r.rseed_type == Some(0i32) || r.rseed_type == Some(1i32)) && r.payload@.len() == 32
    } else if p.protocol == 1 {
        (p.rho matches Some(h) && h@.len() == 32) && (p.rseed matches Some(r) && r.payload@.len() == 32)
    } else {
        false
    }
}

/// The note read from a record: its fields' bytes, with the Orchard randomness
/// taken whatever kind the record gives it.
pub open spec fn note_read_from(p: proto::Note, n: Note) -> bool {
    match n {
        Note::Sapling { recipient, value, rseed } => {
            &&& p.protocol == 0
            &&& p.recipient@ == recipient@
            &&& p.value == value
            &&& p.rseed matches Some(r) && match rseed {
                Rseed::BeforeZip212(b) => r.rseed_type == Some(0i32) && r.payload@ == b@,
                Rseed::AfterZip212(b) => r.rseed_type == Some(1i32) && r.payload@ == b@,
            }
        },
        Note::Orchard { recipient, value, rho, random_seed } => {
            &&& p.protocol == 1
            &&& p.recipient@ == recipient@
            &&& p.value == value
            &&& p.rho matches Some(h) && h@ == rho@
            &&& p.rseed matches Some(r) && r.payload@ == random_seed@
        },
    }
}

/// The protobuf record of a note.
pub fn note_to_proto(n: &Note) -> (r: proto::Note)
    ensures
        note_record_of(*n, r),
{
    match n {
        Note::Sapling { recipient, value, rseed } => {
            let rseed_record = match rseed {
                Rseed::BeforeZip212(b) => proto::RSeed { rseed_type: Some(0i32), payload: array_to_vec(b.as_slice()) },
                Rseed::AfterZip212(b) => proto::RSeed { rseed_type: Some(1i32), payload: array_to_vec(b.as_slice()) },
            };
            proto::Note {
                protocol: 0,
                recipient: array_to_vec(recipient.as_slice()),
                value: *value,
                rho: None,
                rseed: Some(rseed_record),
            }
        },
        Note::Orchard { recipient, value, rho, random_seed } => proto::Note {
            protocol: 1,
            recipient: array_to_vec(recipient.as_slice()),
            value: *value,
            rho: Some(array_to_vec(rho.as_slice())),
            rseed: Some(proto::RSeed { rseed_type: None, payload: array_to_vec(random_seed.as_slice()) }),
        },
    }
}

/// The note a protobuf record holds.
pub fn note_from_proto(p: &proto::Note) -> (r: Note)
    requires
        note_record_readable(*p),
    ensures
        note_read_from(*p, r),
{
    let recipient = vec_to_array43(&p.recipient);
    if p.protocol == 0 {
        let (kind, payload) = match &p.rseed {
            Some(r) => (r.rseed_type, vec_to_array32(&r.payload)),
            None => (None, [0u8; 32]),
        };
        let rseed = match kind {
            Some(0i32) => Rseed::BeforeZip212(payload),
            _ => Rseed::AfterZip212(payload),
        };
        Note::Sapling { recipient, value: p.value, rseed }
    } else {
        let rho = match &p.rho {
            Some(h) => vec_to_array32(h),
            None => [0u8; 32],
        };
        let random_seed = match &p.rseed {
            Some(r) => vec_to_array32(&r.payload),
            None => [0u8; 32],
        };
        Note::Orchard { recipient, value: p.value, rho, random_seed }
    }
}

/// Reading a note back from its record gives the note.
pub proof fn lemma_note_roundtrip(n: Note, p: proto::Note, m: Note)
    requires
        note_record_of(n, p),
        note_read_from(p, m),
    ensures
        note_record_readable(p),
        m == n,
{
    match (n, m) {
        (Note::Sapling { recipient: r1, rseed: s1, .. }, Note::Sapling { recipient: r2, rseed: s2, .. }) => {
            assert(r1 =~= r2);
            match (s1, s2) {
                (Rseed::BeforeZip212(a), Rseed::BeforeZip212(b)) => {
                    assert(a =~= b);
                },
                (Rseed::AfterZip212(a), Rseed::AfterZip212(b)) => {
                    assert(a =~= b);
                },
                _ => {},
            }
        },
        (Note::Orchard { recipient: r1, rho: h1, random_seed: s1, .. }, Note::Orchard {
            recipient: r2,
            rho: h2,
            random_seed: s2,
            ..
        }) => {
            assert(r1 =~= r2);
            assert(h1 =~= h2);
            assert(s1 =~= s2);
        },
        _ => {},
    }
}

/// The record stands for the nullifier: its protocol's wire number and bytes.
pub open spec fn nullifier_record_of(n: Nullifier, p: proto::Nullifier) -> bool {
    match n {
        Nullifier::Sapling(b) => p.protocol == 0 && p.nullifier@ == b@,
        Nullifier::Orchard(b) => p.protocol == 1 && p.nullifier@ == b@,
    }
}

/// The protobuf record of a nullifier.
pub fn nullifier_to_proto(n: &Nullifier) -> (r: proto::Nullifier)
    ensures
        nullifier_record_of(*n, r),
{
    match n {
        Nullifier::Sapling(b) => proto::Nullifier { protocol: 0, nullifier: array_to_vec(b.as_slice()) },
        Nullifier::Orchard(b) => proto::Nullifier { protocol: 1, nullifier: array_to_vec(b.as_slice()) },
    }
}

/// The nullifier a protobuf record holds; the record must be of a known protocol
/// and hold 32 bytes.
pub fn nullifier_from_proto(p: &proto::Nullifier) -> (r: Nullifier)
    requires
        p.protocol == 0 || p.protocol == 1,
        p.nullifier@.len() == 32,
    ensures
        nullifier_record_of(r, *p),
{
    let b = vec_to_array32(&p.nullifier);
    if p.protocol == 0 {
        Nullifier::Sapling(b)
    } else {
        Nullifier::Orchard(b)
    }
}

/// Reading a nullifier back from its record gives the nullifier.
pub proof fn lemma_nullifier_roundtrip(n: Nullifier, p: proto::Nullifier, m: Nullifier)
    requires
        nullifier_record_of(n, p),
        nullifier_record_of(m, p),
    ensures
        m == n,
{
    match (n, m) {
        (Nullifier::Sapling(a), Nullifier::Sapling(b)) => {
            assert(a =~= b);
        },
        (Nullifier::Orchard(a), Nullifier::Orchard(b)) => {
            assert(a =~= b);
        },
        _ => {},
    }
}

/// Whether the record can be read as a note, as [`note_record_readable`] says.
pub fn note_record_is_readable(p: &proto::Note) -> (r: bool)
    ensures
        r == note_record_readable(*p),
{
    if p.recipient.len() != 43 {
        return false;
    }
    if p.protocol == 0 {
        match &p.rseed {
            Some(r) => (r.rseed_type == Some(0i32) || r.rseed_type == Some(1i32)) && r.payload.len() == 32,
            None => false,
        }
    } else if p.protocol == 1 {
        let rho_ok = match &p.rho {
            Some(h) => h.len() == 32,
            None => false,
        };
        let rseed_ok = match &p.rseed {
            Some(r) => r.payload.len() == 32,
            None => false,
        };
        rho_ok && rseed_ok
    } else {
        false
    }
}

/// The wire number of a value pool.
pub open spec fn pool_wire_number(p: PoolType) -> i32 {
    match p {
        PoolType::Transparent => 0i32,
        PoolType::Shielded(ShieldedProtocol::Sapling) => 1i32,
        PoolType::Shielded(ShieldedProtocol::Orchard) => 2i32,
    }
}

/// The value pool with a wire number; the transparent pool where the number is
/// absent or stands for none.
pub open spec fn pool_from_wire(n: Option<i32>) -> PoolType {
    if n == Some(1i32) {
        PoolType::Shielded(ShieldedProtocol::Sapling)
    } else if n == Some(2i32) {
        PoolType::Shielded(ShieldedProtocol::Orchard)
    } else {
        PoolType::Transparent
    }
}

/// The recipient kind's wire number; the external kind where the number stands
/// for none.
pub open spec fn recipient_kind(n: i32) -> i32 {
    if n == 1 || n == 2 { n } else { 0i32 }
}

/// The record stands for the recipient: its kind's wire number; for an external
/// address, the address and its pool's number; for an ephemeral transparent
/// address, the receiving account, the address encoded (which decodes back to it)
/// and the outpoint; for an account of the wallet, the account, the external
/// address if any, and the note's record.
pub open spec fn recipient_record_of(r: Recipient, p: proto::Recipient) -> bool {
    match r {
        Recipient::External(a, pool) => {
            &&& p.recipient_type == 0
            &&& p.address matches Some(s) && s@ == a@
            &&& p.pool_type == Some(pool_wire_number(pool))
            &&& p.account_id is None
            &&& p.outpoint_metadata is None
            &&& p.note is None
        },
        Recipient::EphemeralTransparent { receiving_account, ephemeral_address, outpoint_metadata } => {
            &&& p.recipient_type == 1
            &&& p.address matches Some(s) && s@ == spec_transparent_encoding(ephemeral_address@)
                && spec_transparent_decoding(s@) == Some(ephemeral_address@)
            &&& p.pool_type == Some(0i32)
            &&& p.account_id == Some(receiving_account.0)
            &&& p.outpoint_metadata matches Some(o) && o.hash@ == outpoint_metadata.txid@ && o.n == outpoint_metadata.n
            &&& p.note is None
        },
        Recipient::InternalAccount { receiving_account, external_address, note } => {
            &&& p.recipient_type == 2
            &&& match external_address {
                Some(a) => p.address matches Some(s) && s@ == a@,
                None => p.address is None,
            }
            &&& p.pool_type is None
            &&& p.account_id == Some(receiving_account.0)
            &&& p.outpoint_metadata is None
            &&& p.note matches Some(n) && note_record_of(note, n)
        },
    }
}

/// The record can be read as a recipient: an external address must read as an
/// address; an ephemeral one needs its account, an address that decodes and an
/// outpoint with a 32-byte hash; an account of the wallet needs its account, a
/// readable note, and an external address, if any, that reads as an address.
pub open spec fn recipient_record_readable(p: proto::Recipient) -> bool {
    let kind = recipient_kind(p.recipient_type);
    if kind == 0 {
        p.address matches Some(s) && spec_address_parses(s@)
    } else if kind == 1 {
        &&& p.account_id is Some
        &&& p.address matches Some(s) && spec_transparent_decoding(s@) is Some
        &&& p.outpoint_metadata matches Some(o) && o.hash@.len() == 32
    } else {
        &&& p.account_id is Some
        &&& p.address matches Some(s) ==> spec_address_parses(s@)
        &&& p.note matches Some(n) && note_record_readable(n)
    }
}

/// The recipient read from a record.
pub open spec fn recipient_read_from(p: proto::Recipient, r: Recipient) -> bool {
    match r {
        Recipient::External(a, pool) => {
            &&& recipient_kind(p.recipient_type) == 0
            &&& p.address matches Some(s) && s@ == a@
            &&& pool == pool_from_wire(p.pool_type)
        },
        Recipient::EphemeralTransparent { receiving_account, ephemeral_address, outpoint_metadata } => {
            &&& recipient_kind(p.recipient_type) == 1
            &&& p.account_id == Some(receiving_account.0)
            &&& p.address matches Some(s) && spec_transparent_decoding(s@) == Some(ephemeral_address@)
            &&& p.outpoint_metadata matches Some(o) && o.hash@ == outpoint_metadata.txid@ && o.n == outpoint_metadata.n
        },
        Recipient::InternalAccount { receiving_account, external_address, note } => {
            &&& recipient_kind(p.recipient_type) == 2
            &&& p.account_id == Some(receiving_account.0)
            &&& match external_address {
                Some(a) => p.address matches Some(s) && s@ == a@,
                None => p.address is None,
            }
            &&& p.note matches Some(n) && note_read_from(n, note)
        },
    }
}

/// The protobuf record of a sent output's recipient.
pub fn recipient_to_proto(r: &Recipient) -> (p: proto::Recipient)
    ensures
        recipient_record_of(*r, p),
{
    match r {
        Recipient::External(a, pool) => {
            let n: i32 = match pool {
                PoolType::Transparent => 0,
                PoolType::Shielded(ShieldedProtocol::Sapling) => 1,
                PoolType::Shielded(ShieldedProtocol::Orchard) => 2,
            };
            proto::Recipient {
                recipient_type: 0,
                address: Some(a.clone()),
                pool_type: Some(n),
                account_id: None,
                outpoint_metadata: None,
                note: None,
            }
        },
        Recipient::EphemeralTransparent { receiving_account, ephemeral_address, outpoint_metadata } => proto::Recipient {
            recipient_type: 1,
            address: Some(encode_transparent_address(ephemeral_address)),
            pool_type: Some(0),
            account_id: Some(receiving_account.0),
            outpoint_metadata: Some(proto::OutPoint {
                hash: array_to_vec(outpoint_metadata.txid.0.as_slice()),
                n: outpoint_metadata.n,
            }),
            note: None,
        },
        Recipient::InternalAccount { receiving_account, external_address, note } => proto::Recipient {
            recipient_type: 2,
            address: match external_address {
                Some(a) => Some(a.clone()),
                None => None,
            },
            pool_type: None,
            account_id: Some(receiving_account.0),
            outpoint_metadata: None,
            note: Some(note_to_proto(note)),
        },
    }
}

/// The recipient a protobuf record holds; `None` where the record cannot be read
/// as one, as [`recipient_record_readable`] says. A kind numbered with no kind is
/// read as the external kind.
pub fn recipient_from_proto(p: &proto::Recipient) -> (r: Option<Recipient>)
    ensures
        r is Some <==> recipient_record_readable(*p),
        r matches Some(x) ==> recipient_read_from(*p, x),
{
    let kind: i32 = if p.recipient_type == 1 || p.recipient_type == 2 { p.recipient_type } else { 0 };
    if kind == 0 {
        let a = match &p.address {
            Some(s) => s,
            None => return None,
        };
        if !address_parses(a.as_str()) {
            return None;
        }
        let pool = match p.pool_type {
            Some(1i32) => PoolType::Shielded(ShieldedProtocol::Sapling),
            Some(2i32) => PoolType::Shielded(ShieldedProtocol::Orchard),
            _ => PoolType::Transparent,
        };
        Some(Recipient::External(a.clone(), pool))
    } else if kind == 1 {
        let account = match p.account_id {
            Some(id) => id,
            None => return None,
        };
        let address = match &p.address {
            Some(s) => match decode_transparent_address(s.as_str()) {
                Some(a) => a,
                None => return None,
            },
            None => return None,
        };
        let outpoint = match &p.outpoint_metadata {
            Some(o) => {
                if o.hash.len() != 32 {
                    return None;
                }
                OutPoint { txid: TxId(vec_to_array32(&o.hash)), n: o.n }
            },
            None => return None,
        };
        Some(Recipient::EphemeralTransparent {
            receiving_account: AccountId(account),
            ephemeral_address: address,
            outpoint_metadata: outpoint,
        })
    } else {
        let account = match p.account_id {
            Some(id) => id,
            None => return None,
        };
        let external_address = match &p.address {
            Some(s) => {
                if !address_parses(s.as_str()) {
                    return None;
                }
                Some(s.clone())
            },
            None => None,
        };
        let note = match &p.note {
            Some(n) => {
                if !note_record_is_readable(n) {
                    return None;
                }
                note_from_proto(n)
            },
            None => return None,
        };
        Some(Recipient::InternalAccount { receiving_account: AccountId(account), external_address, note })
    }
}

/// Two recipients agree: the same kind, accounts, pools, notes, addresses and
/// outpoints, texts compared by their characters.
pub open spec fn recipients_agree(a: Recipient, b: Recipient) -> bool {
    match (a, b) {
        (Recipient::External(x, p), Recipient::External(y, q)) => x@ == y@ && p == q,
        (Recipient::EphemeralTransparent { receiving_account: ra, ephemeral_address: ea, outpoint_metadata: oa },
            Recipient::EphemeralTransparent { receiving_account: rb, ephemeral_address: eb, outpoint_metadata: ob }) =>
            ra == rb && ea == eb && oa == ob,
        (Recipient::InternalAccount { receiving_account: ra, external_address: xa, note: na },
            Recipient::InternalAccount { receiving_account: rb, external_address: xb, note: nb }) => {
            &&& ra == rb
            &&& na == nb
            &&& match (xa, xb) {
                (Some(x), Some(y)) => x@ == y@,
                (None, None) => true,
                _ => false,
            }
        },
        _ => false,
    }
}

/// The addresses a recipient holds as text read as addresses.
pub open spec fn recipient_addresses_parse(r: Recipient) -> bool {
    match r {
        Recipient::External(a, _) => spec_address_parses(a@),
        Recipient::EphemeralTransparent { .. } => true,
        Recipient::InternalAccount { external_address, .. } => match external_address {
            Some(a) => spec_address_parses(a@),
            None => true,
        },
    }
}

/// The record of a recipient whose addresses read as addresses can be read.
pub proof fn lemma_recipient_record_readable(r: Recipient, p: proto::Recipient)
    requires
        recipient_record_of(r, p),
        recipient_addresses_parse(r),
    ensures
        recipient_record_readable(p),
{
}

/// The protobuf value pool named as the pool is: transparent, Sapling or Orchard.
pub open spec fn proto_pool_named(p: PoolType) -> proto::PoolType {
    match p {
        PoolType::Transparent => proto::PoolType::Transparent,
        PoolType::Shielded(ShieldedProtocol::Sapling) => proto::PoolType::ShieldedSapling,
        PoolType::Shielded(ShieldedProtocol::Orchard) => proto::PoolType::ShieldedOrchard,
    }
}

/// The record of an external recipient carries, as its pool, the protobuf wire
/// number of the protobuf pool named as the recipient's pool.
pub proof fn lemma_external_pool_on_wire(a: String, pool: PoolType, p: proto::Recipient)
    requires
        recipient_record_of(Recipient::External(a, pool), p),
    ensures
        p.pool_type matches Some(n) && proto::pool_type_from_number(n) == Some(proto_pool_named(pool)),
{
}

/// An external recipient read from a record whose pool is the wire number of a
/// protobuf pool is in the pool of that name.
pub proof fn lemma_external_pool_read(p: proto::Recipient, a: String, pool: PoolType, x: proto::PoolType)
    requires
        recipient_read_from(p, Recipient::External(a, pool)),
        p.pool_type == Some(proto::pool_type_number(x)),
    ensures
        proto_pool_named(pool) == x,
{
}

/// Reading a recipient back from its record gives the recipient.
pub proof fn lemma_recipient_roundtrip(r: Recipient, p: proto::Recipient, m: Recipient)
    requires
        recipient_record_of(r, p),
        recipient_read_from(p, m),
    ensures
        recipients_agree(r, m),
{
    match (r, m) {
        (Recipient::EphemeralTransparent { ephemeral_address: ea, outpoint_metadata: oa, .. },
            Recipient::EphemeralTransparent { ephemeral_address: eb, outpoint_metadata: ob, .. }) => {
            match (ea, eb) {
                (crate::types::TransparentAddress::PublicKeyHash(x), crate::types::TransparentAddress::PublicKeyHash(y)) => {
                    assert(x =~= y);
                },
                (crate::types::TransparentAddress::ScriptHash(x), crate::types::TransparentAddress::ScriptHash(y)) => {
                    assert(x =~= y);
                },
                _ => {},
            }
            assert(oa.txid.0 =~= ob.txid.0);
        },
        (Recipient::InternalAccount { note: na, .. }, Recipient::InternalAccount { note: nb, .. }) => {
            let pn = p.note->0;
            lemma_note_roundtrip(na, pn, nb);
        },
        _ => {},
    }
}

/// The pool wire number of a sent output's protocol: Sapling 1, Orchard 2, a
/// transparent output 0.
pub open spec fn sent_pool_number(p: Option<ShieldedProtocol>) -> i32 {
    match p {
        Some(ShieldedProtocol::Sapling) => 1i32,
        Some(ShieldedProtocol::Orchard) => 2i32,
        None => 0i32,
    }
}

/// The protocol a pool wire number stands for; a transparent output for any
/// number but 1 and 2.
pub open spec fn sent_pool_protocol(n: i32) -> Option<ShieldedProtocol> {
    if n == 1 {
        Some(ShieldedProtocol::Sapling)
    } else if n == 2 {
        Some(ShieldedProtocol::Orchard)
    } else {
        None
    }
}

/// The record stands for the sent note id: the transaction, the pool's number
/// and the output index.
pub open spec fn sent_note_id_record_of(id: SentNoteId, p: proto::NoteId) -> bool {
    &&& p.tx_id matches Some(t) && t.hash@ == id@.0
    &&& p.pool == sent_pool_number(id@.1)
    &&& p.output_index == id@.2
}

/// The record can be read as a sent note id: it has a 32-byte transaction id, and
/// a shielded note's output index fits in 16 bits.
pub open spec fn sent_note_id_record_readable(p: proto::NoteId) -> bool {
    &&& p.tx_id matches Some(t) && t.hash@.len() == 32
    &&& sent_pool_protocol(p.pool) is Some ==> p.output_index <= u16::MAX
}

/// The protobuf record of a sent note id.
pub fn sent_note_id_to_proto(id: &SentNoteId) -> (p: proto::NoteId)
    ensures
        sent_note_id_record_of(*id, p),
{
    match id {
        SentNoteId::Shielded(n) => proto::NoteId {
            tx_id: Some(proto::TxId { hash: array_to_vec(n.txid.0.as_slice()) }),
            pool: match n.protocol {
                ShieldedProtocol::Sapling => 1,
                ShieldedProtocol::Orchard => 2,
            },
            output_index: n.output_index as u32,
        },
        SentNoteId::Transparent { txid, output_index } => proto::NoteId {
            tx_id: Some(proto::TxId { hash: array_to_vec(txid.0.as_slice()) }),
            pool: 0,
            output_index: *output_index,
        },
    }
}

/// The sent note id a protobuf record holds; `None` where it cannot be read as
/// one, as [`sent_note_id_record_readable`] says.
pub fn sent_note_id_from_proto(p: &proto::NoteId) -> (r: Option<SentNoteId>)
    ensures
        r is Some <==> sent_note_id_record_readable(*p),
        r matches Some(id) ==> p.tx_id matches Some(t) && id@ == (t.hash@, sent_pool_protocol(p.pool), p.output_index),
{
    let txid = match &p.tx_id {
        Some(t) => {
            if t.hash.len() != 32 {
                return None;
            }
            TxId(vec_to_array32(&t.hash))
        },
        None => return None,
    };
    if p.pool == 1 || p.pool == 2 {
        if p.output_index > 0xFFFF {
            return None;
        }
        let protocol = if p.pool == 1 { ShieldedProtocol::Sapling } else { ShieldedProtocol::Orchard };
        Some(SentNoteId::Shielded(NoteId { txid, protocol, output_index: p.output_index as u16 }))
    } else {
        Some(SentNoteId::Transparent { txid, output_index: p.output_index })
    }
}

/// Reading a sent note id back from its record gives the id.
pub proof fn lemma_sent_note_id_roundtrip(id: SentNoteId, p: proto::NoteId, m: SentNoteId)
    requires
        sent_note_id_record_of(id, p),
        p.tx_id matches Some(t) && m@ == (t.hash@, sent_pool_protocol(p.pool), p.output_index),
    ensures
        sent_note_id_record_readable(p),
        m@ == id@,
{
}

/// The record stands for the sent note: its account's number, its recipient's
/// record, its value and its memo's bytes.
pub open spec fn sent_note_record_of(n: SentNote, p: proto::SentNote) -> bool {
    &&& p.from_account_id == n.from_account_id.0
    &&& p.to matches Some(r) && recipient_record_of(n.to, r)
    &&& p.value == n.value
    &&& p.memo@ == n.memo@
}

/// The memo bytes padded with zeros to 512 bytes.
pub open spec fn padded_memo(b: Seq<u8>) -> Seq<u8> {
    b + Seq::new((512 - b.len()) as nat, |i: int| 0u8)
}

/// Reading a sent note from its record: the recipient must be there
/// (`Missing`) and readable (`CorruptedData`), the value at most the total supply
/// (`Balance`), and the memo readable (`MemoDecryption`), in that order; the note
/// holds the memo padded to 512 bytes.
pub open spec fn sent_note_read_from(p: proto::SentNote, r: Result<SentNote, Error>) -> bool {
    match p.to {
        None => r matches Err(e) && e is Missing,
        Some(to) => if !recipient_record_readable(to) {
            r matches Err(e) && e is CorruptedData
        } else if p.value > MAX_MONEY {
            r matches Err(e) && e is Balance
        } else if !spec_memo_readable(p.memo@) {
            r matches Err(e) && e is MemoDecryption
        } else {
            r matches Ok(n) && {
                &&& n.from_account_id.0 == p.from_account_id
                &&& recipient_read_from(to, n.to)
                &&& n.value == p.value
                &&& n.memo@ == padded_memo(p.memo@)
            }
        },
    }
}

/// The protobuf record of a sent note.
pub fn sent_note_to_proto(n: &SentNote) -> (p: proto::SentNote)
    ensures
        sent_note_record_of(*n, p),
{
    proto::SentNote {
        from_account_id: n.from_account_id.0,
        to: Some(recipient_to_proto(&n.to)),
        value: n.value,
        memo: array_to_vec(n.memo.as_slice()),
    }
}

/// The 512 bytes of a memo of at most 512 bytes, padded with zeros.
fn pad_memo(b: &Vec<u8>) -> (r: [u8; 512])
    requires
        b@.len() <= 512,
    ensures
        r@ == padded_memo(b@),
{
    let mut a = [0u8; 512];
    let mut i: usize = 0;
    while i < b.len()
        invariant
            b@.len() <= 512,
            i <= b@.len(),
            forall|k: int| 0 <= k < i ==> a@[k] == b@[k],
            forall|k: int| b@.len() <= k < 512 ==> a@[k] == 0u8,
        decreases b@.len() - i,
    {
        a.set(i, b[i]);
        i = i + 1;
    }
    assert(a@ =~= padded_memo(b@));
    a
}

/// The sent note a protobuf record holds, as [`sent_note_read_from`] says.
pub fn sent_note_from_proto(p: &proto::SentNote) -> (r: Result<SentNote, Error>)
    ensures
        sent_note_read_from(*p, r),
{
    let to = match &p.to {
        Some(t) => t,
        None => return Err(Error::Missing("to".to_string())),
    };
    let recipient = match recipient_from_proto(to) {
        Some(x) => x,
        None => return Err(Error::CorruptedData("the recipient cannot be read".to_string())),
    };
    if p.value > MAX_MONEY {
        return Err(Error::Balance("the value exceeds the total supply".to_string()));
    }
    if !memo_readable(p.memo.as_slice()) {
        return Err(Error::MemoDecryption("the memo cannot be read".to_string()));
    }
    Ok(SentNote {
        from_account_id: AccountId(p.from_account_id),
        to: recipient,
        value: p.value,
        memo: pad_memo(&p.memo),
    })
}

/// Two sent notes agree: the same account, value and memo, and agreeing
/// recipients.
pub open spec fn sent_notes_agree(a: SentNote, b: SentNote) -> bool {
    &&& a.from_account_id == b.from_account_id
    &&& recipients_agree(a.to, b.to)
    &&& a.value == b.value
    &&& a.memo@ == b.memo@
}

/// Reading a sent note back from its record gives the note, where it reads at all.
pub proof fn lemma_sent_note_roundtrip(n: SentNote, p: proto::SentNote, m: SentNote)
    requires
        sent_note_record_of(n, p),
        sent_note_read_from(p, Ok(m)),
    ensures
        sent_notes_agree(n, m),
{
    let to = p.to->0;
    lemma_recipient_roundtrip(n.to, to, m.to);
    assert(padded_memo(p.memo@) =~= p.memo@);
}

} // verus!
