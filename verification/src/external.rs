//! The calls this library makes into the Zcash key and script crates. Each
//! function here is trusted: its contract is taken as true of the crate it
//! calls and is not proved.
use vstd::prelude::*;
use crate::account::DIVERSIFIER_INDEX_LIMIT;
use crate::types::{BlockHeight, Network, Receiver, TransparentAddress};
use zcash_protocol::consensus::Parameters;
use zcash_transparent::keys::IncomingViewingKey;

verus! {

/// The ZIP 32 fingerprint of a seed.
pub uninterp spec fn spec_seed_fingerprint(seed: Seq<u8>) -> Seq<u8>;

/// Whether the ephemeral incoming viewing key can be derived from a serialized
/// transparent account public key.
pub uninterp spec fn spec_ephemeral_ivk_derivable(account_key: Seq<u8>) -> bool;

/// The public key hash of the ephemeral address at `index` under a serialized
/// transparent account public key, where it can be derived.
pub uninterp spec fn spec_ephemeral_address(account_key: Seq<u8>, index: u32) -> Option<Seq<u8>>;

/// The public key hash of the external transparent address at `index` under a
/// serialized transparent account public key, where it can be derived.
pub uninterp spec fn spec_external_address(account_key: Seq<u8>, index: u32) -> Option<Seq<u8>>;

/// Whether the text reads as a unified full viewing key on the network.
pub uninterp spec fn spec_ufvk_decodes(network: Network, text: Seq<char>) -> bool;

/// The encoding on the main network of the unified full viewing key that the text
/// encodes on the given network, where it reads as one.
pub uninterp spec fn spec_ufvk_main_text(network: Network, text: Seq<char>) -> Option<Seq<char>>;

/// The address a transparent output script pays to, as (is a script hash, hash),
/// where the script is a standard pay-to-public-key-hash one
/// (`OP_DUP OP_HASH160 <20 bytes> OP_EQUALVERIFY OP_CHECKSIG`) or pay-to-script-hash
/// one (`OP_HASH160 <20 bytes> OP_EQUAL`).
pub open spec fn spec_script_address(script: Seq<u8>) -> Option<(bool, Seq<u8>)> {
    if script.len() == 25 && script[0] == 0x76u8 && script[1] == 0xa9u8 && script[2] == 0x14u8
        && script[23] == 0x88u8 && script[24] == 0xacu8 {
        Some((false, script.subrange(3, 23)))
    } else if script.len() == 23 && script[0] == 0xa9u8 && script[1] == 0x14u8 && script[22] == 0x87u8 {
        Some((true, script.subrange(2, 22)))
    } else {
        None
    }
}


/// The unified address that the encoded unified full viewing key gives at the
/// first diversifier index from `from` on that has one: the index, the encoded
/// address and its transparent receiver, as (is a script hash, hash).
pub uninterp spec fn spec_find_address(network: Network, viewing_key: Seq<char>, from: u128) -> Option<(u128, Seq<char>, Option<(bool, Seq<u8>)>)>;

/// Whether the encoded address holds the receiver (or, for a single-receiver
/// address, is it).
pub uninterp spec fn spec_receiver_corresponds(address: Seq<char>, receiver: Receiver) -> bool;

/// The consensus branch id (as its number) in force at `height` on the network.
pub uninterp spec fn spec_branch_id_for_height(network: Network, height: BlockHeight) -> u32;

/// Whether the bytes read as a transaction under the consensus branch id.
pub uninterp spec fn spec_transaction_readable(raw: Seq<u8>, branch_id: u32) -> bool;

/// The expiry height that the transaction the bytes hold states, read under the
/// consensus branch id.
pub uninterp spec fn spec_stated_expiry(raw: Seq<u8>, branch_id: u32) -> u32;

/// Whether the transaction the bytes hold, read under the placeholder branch, can
/// be rebuilt under the consensus branch id.
pub uninterp spec fn spec_rebuild_succeeds(raw: Seq<u8>, branch_id: u32) -> bool;

/// The transaction the bytes hold, read under the consensus branch id.
pub uninterp spec fn spec_parsed_transaction(raw: Seq<u8>, branch_id: u32) -> zcash_primitives::transaction::Transaction;

/// The transaction the bytes hold, read under the placeholder branch and rebuilt
/// under the consensus branch id.
pub uninterp spec fn spec_rebuilt_transaction(raw: Seq<u8>, branch_id: u32) -> zcash_primitives::transaction::Transaction;

/// The unified full viewing key, encoded, of the unified spending key that the seed
/// derives at the ZIP 32 account index; `None` where none can be derived.
pub uninterp spec fn spec_derived_viewing_key(network: Network, seed: Seq<u8>, account_index: u32) -> Option<Seq<char>>;

/// Whether the text reads as a Zcash address of any kind.
pub uninterp spec fn spec_address_parses(address: Seq<char>) -> bool;

/// The Base58Check encoding of a transparent address, as (is a script hash, hash),
/// under the main network's prefixes.
pub uninterp spec fn spec_transparent_encoding(address: (bool, Seq<u8>)) -> Seq<char>;

/// The transparent address, as (is a script hash, hash), that the text encodes
/// under the main network's prefixes, where it encodes one.
pub uninterp spec fn spec_transparent_decoding(text: Seq<char>) -> Option<(bool, Seq<u8>)>;

/// Whether the bytes read as a memo (ZIP 302), once padded to 512 bytes.
pub uninterp spec fn spec_memo_readable(bytes: Seq<u8>) -> bool;

/// The transparent account public key of the encoded unified full viewing key,
/// serialized, where the key has one; `None` where the key cannot be read.
pub uninterp spec fn spec_transparent_account_key(network: Network, viewing_key: Seq<char>) -> Option<Option<Seq<u8>>>;

/// Reads the unified full viewing key with `UnifiedFullViewingKey::decode` and
/// calls its `find_address` from diversifier index `from`, asking for a receiver of
/// every kind the key has. Claims what its documentation says: the index found is
/// not below `from` (and, being a diversifier index, below 2^88); and that the
/// answer depends on these arguments alone. It does not claim that an address is
/// found.
#[verifier::external_body]
pub(crate) fn find_address(network: Network, viewing_key: &str, from: u128) -> (r: Option<(u128, String, Option<TransparentAddress>)>)
    requires
        from < DIVERSIFIER_INDEX_LIMIT,
    ensures
        match r {
            Some((j, a, t)) => spec_find_address(network, viewing_key@, from) == Some((j, a@, match t {
                Some(x) => Some(x@),
                None => None,
            })) && from <= j < DIVERSIFIER_INDEX_LIMIT,
            None => spec_find_address(network, viewing_key@, from) is None,
        },
{
    let params = match network {
        Network::MainNetwork => zcash_protocol::consensus::Network::MainNetwork,
        Network::TestNetwork => zcash_protocol::consensus::Network::TestNetwork,
    };
    let ufvk = zcash_keys::keys::UnifiedFullViewingKey::decode(&params, viewing_key).ok()?;
    let start = zip32::DiversifierIndex::try_from(from).ok()?;
    let (ua, j) = ufvk.find_address(start, zcash_keys::keys::UnifiedAddressRequest::AllAvailableKeys).ok()?;
    let receiver = match ua.transparent() {
        Some(zcash_transparent::address::TransparentAddress::PublicKeyHash(h)) => Some(TransparentAddress::PublicKeyHash(*h)),
        Some(zcash_transparent::address::TransparentAddress::ScriptHash(h)) => Some(TransparentAddress::ScriptHash(*h)),
        None => None,
    };
    Some((u128::from(j), ua.encode(&params), receiver))
}

/// Reads the unified full viewing key with `UnifiedFullViewingKey::decode` and
/// serializes its transparent account public key (`p2pkh`), where it has one.
/// Claims only that the answer depends on these arguments alone.
#[verifier::external_body]
pub(crate) fn transparent_account_key(network: Network, viewing_key: &str) -> (r: Option<Option<[u8; 65]>>)
    ensures
        match r {
            Some(Some(k)) => spec_transparent_account_key(network, viewing_key@) == Some(Some(k@)),
            Some(None) => spec_transparent_account_key(network, viewing_key@) == Some(None::<Seq<u8>>),
            None => spec_transparent_account_key(network, viewing_key@) is None,
        },
{
    let params = match network {
        Network::MainNetwork => zcash_protocol::consensus::Network::MainNetwork,
        Network::TestNetwork => zcash_protocol::consensus::Network::TestNetwork,
    };
    let ufvk = zcash_keys::keys::UnifiedFullViewingKey::decode(&params, viewing_key).ok()?;
    match ufvk.p2pkh() {
        Some(key) => <[u8; 65]>::try_from(key.serialize().as_slice()).ok().map(Some),
        None => Some(None),
    }
}

/// Calls `Parameters::activation_height` of `zcash_protocol::consensus::Network` for
/// the Sapling upgrade. Claims the heights that its source gives: 419 200 on the
/// main network and 280 000 on the test network.
#[verifier::external_body]
pub(crate) fn sapling_activation_height(network: Network) -> (r: Option<BlockHeight>)
    ensures
        r == match network {
            Network::MainNetwork => Some(419_200u32),
            Network::TestNetwork => Some(280_000u32),
        },
{
    let params = match network {
        Network::MainNetwork => zcash_protocol::consensus::Network::MainNetwork,
        Network::TestNetwork => zcash_protocol::consensus::Network::TestNetwork,
    };
    params.activation_height(zcash_protocol::consensus::NetworkUpgrade::Sapling).map(u32::from)
}

/// Calls `zip32::fingerprint::SeedFingerprint::from_seed`. Claims what its
/// documentation says: it gives a fingerprint exactly when the seed is 32 to 252
/// bytes long; and that the fingerprint depends on the seed bytes alone.
#[verifier::external_body]
pub(crate) fn seed_fingerprint(seed: &[u8]) -> (r: Option<[u8; 32]>)
    ensures
        r is Some <==> 32 <= seed@.len() <= 252,
        r matches Some(f) ==> f@ == spec_seed_fingerprint(seed@),
{
    zip32::fingerprint::SeedFingerprint::from_seed(seed).map(|f| f.to_bytes())
}

/// Calls `zcash_transparent::keys::AccountPubKey::derive_ephemeral_ivk` on the
/// account public key read by `AccountPubKey::deserialize`. Claims only that the
/// answer depends on the key bytes alone.
#[verifier::external_body]
pub(crate) fn ephemeral_ivk_derivable(account_key: &[u8; 65]) -> (r: bool)
    ensures
        r == spec_ephemeral_ivk_derivable(account_key@),
{
    match zcash_transparent::keys::AccountPubKey::deserialize(account_key) {
        Ok(k) => k.derive_ephemeral_ivk().is_ok(),
        Err(_) => false,
    }
}

/// Calls `zcash_transparent::keys::EphemeralIvk::derive_ephemeral_address` with the
/// child index `index`, under the ephemeral key derived from the account public
/// key read by `AccountPubKey::deserialize`. Claims that the resulting public key
/// hash depends on the key bytes and the index alone; it does not claim that the
/// derivation succeeds. The index must be a non-hardened one, below 2^31.
#[verifier::external_body]
pub(crate) fn derive_ephemeral_address(account_key: &[u8; 65], index: u32) -> (r: Option<[u8; 20]>)
    requires
        index < 0x8000_0000u32,
    ensures
        match r {
            Some(h) => spec_ephemeral_address(account_key@, index) == Some(h@),
            None => spec_ephemeral_address(account_key@, index) is None,
        },
{
    let key = zcash_transparent::keys::AccountPubKey::deserialize(account_key).ok()?;
    let ivk = key.derive_ephemeral_ivk().ok()?;
    let child = zcash_transparent::keys::NonHardenedChildIndex::from_index(index)?;
    match ivk.derive_ephemeral_address(child).ok()? {
        zcash_transparent::address::TransparentAddress::PublicKeyHash(h) => Some(h),
        zcash_transparent::address::TransparentAddress::ScriptHash(_) => None,
    }
}

/// Calls `zcash_transparent::keys::IncomingViewingKey::derive_address` with the
/// child index `index`, under the external key (`derive_external_ivk`) of the
/// account public key read by `AccountPubKey::deserialize`. Claims that the
/// resulting public key hash depends on the key bytes and the index alone; it does
/// not claim that the derivation succeeds. The index must be a non-hardened one,
/// below 2^31.
#[verifier::external_body]
pub(crate) fn derive_external_address(account_key: &[u8; 65], index: u32) -> (r: Option<[u8; 20]>)
    requires
        index < 0x8000_0000u32,
    ensures
        match r {
            Some(h) => spec_external_address(account_key@, index) == Some(h@),
            None => spec_external_address(account_key@, index) is None,
        },
{
    let key = zcash_transparent::keys::AccountPubKey::deserialize(account_key).ok()?;
    let ivk = key.derive_external_ivk().ok()?;
    let child = zcash_transparent::keys::NonHardenedChildIndex::from_index(index)?;
    match ivk.derive_address(child).ok()? {
        zcash_transparent::address::TransparentAddress::PublicKeyHash(h) => Some(h),
        zcash_transparent::address::TransparentAddress::ScriptHash(_) => None,
    }
}

/// Calls `zcash_transparent::bundle::TxOut::recipient_address` on an output with the
/// given script. Claims what its source shows (`script::PubKey::parse`, then
/// `solver::standard` and `TransparentAddress::from_script_kind`): the address is
/// the key hash of a standard pay-to-public-key-hash script and the script hash of
/// a standard pay-to-script-hash one, and there is none for any other script; the
/// output's value plays no part.
#[verifier::external_body]
pub(crate) fn script_recipient_address(script: &Vec<u8>) -> (r: Option<TransparentAddress>)
    ensures
        match r {
            Some(a) => spec_script_address(script@) == Some(a@),
            None => spec_script_address(script@) is None,
        },
{
    let txout = zcash_transparent::bundle::TxOut::new(
        zcash_protocol::value::Zatoshis::ZERO,
        zcash_transparent::address::Script(zcash_script::script::Code(script.clone())),
    );
    match txout.recipient_address()? {
        zcash_transparent::address::TransparentAddress::PublicKeyHash(h) => Some(TransparentAddress::PublicKeyHash(h)),
        zcash_transparent::address::TransparentAddress::ScriptHash(h) => Some(TransparentAddress::ScriptHash(h)),
    }
}

/// Reads the address with `zcash_address::ZcashAddress::try_from_encoded` and asks
/// its `matches_receiver` whether it holds the receiver, given as the raw receiver
/// that `zcash_keys::address::Receiver::corresponds` hands to that same method. An
/// address that cannot be read holds no receiver. Claims only that the answer
/// depends on these arguments alone.
#[verifier::external_body]
pub(crate) fn receiver_corresponds(address: &str, receiver: &Receiver) -> (r: bool)
    ensures
        r == spec_receiver_corresponds(address@, *receiver),
{
    let raw = match receiver {
        Receiver::Orchard(b) => zcash_address::unified::Receiver::Orchard(*b),
        Receiver::Sapling(b) => zcash_address::unified::Receiver::Sapling(*b),
        Receiver::Transparent(TransparentAddress::PublicKeyHash(h)) => zcash_address::unified::Receiver::P2pkh(*h),
        Receiver::Transparent(TransparentAddress::ScriptHash(h)) => zcash_address::unified::Receiver::P2sh(*h),
    };
    match zcash_address::ZcashAddress::try_from_encoded(address) {
        Ok(a) => a.matches_receiver(&raw),
        Err(_) => false,
    }
}

/// A transaction of the Zcash protocol, as `zcash_primitives` reads it. Its
/// contents stay opaque here.
#[verifier::external_type_specification]
#[verifier::external_body]
pub struct ExTransaction(zcash_primitives::transaction::Transaction);

/// Calls `zcash_protocol::consensus::BranchId::for_height` and gives the branch's
/// number (`u32::from`). Claims only that the number depends on the network and
/// the height alone.
#[verifier::external_body]
pub(crate) fn branch_id_for_height(network: Network, height: BlockHeight) -> (r: u32)
    ensures
        r == spec_branch_id_for_height(network, height),
{
    let params = match network {
        Network::MainNetwork => zcash_protocol::consensus::Network::MainNetwork,
        Network::TestNetwork => zcash_protocol::consensus::Network::TestNetwork,
    };
    u32::from(zcash_protocol::consensus::BranchId::for_height(&params, zcash_protocol::consensus::BlockHeight::from_u32(height)))
}

/// Calls `zcash_primitives::transaction::Transaction::read` on the bytes, under the
/// consensus branch with the given number (`BranchId::try_from`; an unknown number
/// fails as a read would), and gives the transaction with the expiry height it
/// states (`TransactionData::expiry_height`). Claims only that whether the read
/// succeeds, the transaction read and the stated expiry height depend on the
/// bytes and the number alone; the error is the read's, as text.
#[verifier::external_body]
pub(crate) fn read_transaction(raw: &[u8], branch_id: u32) -> (r: Result<(zcash_primitives::transaction::Transaction, BlockHeight), String>)
    ensures
        r is Ok <==> spec_transaction_readable(raw@, branch_id),
        r matches Ok((t, e)) ==> t == spec_parsed_transaction(raw@, branch_id) && e == spec_stated_expiry(raw@, branch_id),
{
    let branch = match zcash_protocol::consensus::BranchId::try_from(branch_id) {
        Ok(b) => b,
        Err(e) => return Err(e.to_string()),
    };
    match zcash_primitives::transaction::Transaction::read(raw, branch) {
        Ok(tx) => {
            let expiry = u32::from(tx.expiry_height());
            Ok((tx, expiry))
        },
        Err(e) => Err(e.to_string()),
    }
}

/// Reads the bytes as a transaction under the placeholder branch (number 0,
/// `Transaction::read`), then rebuilds its data under the consensus branch with
/// the given number (`into_data`, `TransactionData::from_parts` with every other
/// part kept, `freeze`). Claims that whether this succeeds, and the transaction
/// it gives, depend on the bytes and the number alone, and that it fails where
/// the first read does; the error is the read's or `freeze`'s, as text.
#[verifier::external_body]
pub(crate) fn rebuild_under_branch(raw: &[u8], branch_id: u32) -> (r: Result<zcash_primitives::transaction::Transaction, String>)
    ensures
        r is Ok <==> spec_rebuild_succeeds(raw@, branch_id),
        r is Ok ==> spec_transaction_readable(raw@, 0),
        r matches Ok(t) ==> t == spec_rebuilt_transaction(raw@, branch_id),
{
    let branch = match zcash_protocol::consensus::BranchId::try_from(branch_id) {
        Ok(b) => b,
        Err(e) => return Err(e.to_string()),
    };
    let d = match zcash_primitives::transaction::Transaction::read(raw, zcash_protocol::consensus::BranchId::Sprout) {
        Ok(tx) => tx.into_data(),
        Err(e) => return Err(e.to_string()),
    };
    match zcash_primitives::transaction::TransactionData::from_parts(
        d.version(), branch, d.lock_time(), d.expiry_height(), d.transparent_bundle().cloned(),
        d.sprout_bundle().cloned(), d.sapling_bundle().cloned(), d.orchard_bundle().cloned(),
    ).freeze() {
        Ok(tx) => Ok(tx),
        Err(e) => Err(e.to_string()),
    }
}

/// Derives the unified spending key of the seed at the account index with
/// `zcash_keys::keys::UnifiedSpendingKey::from_seed` and encodes its unified full
/// viewing key (`UnifiedFullViewingKey::encode`). Claims only that the answer
/// depends on these arguments alone. The seed must be at least 32 bytes long, as
/// `from_seed` panics on a shorter one, and the index a ZIP 32 account index.
#[verifier::external_body]
pub(crate) fn derive_viewing_key(network: Network, seed: &[u8], account_index: u32) -> (r: Option<String>)
    requires
        seed@.len() >= 32,
        account_index < 0x8000_0000,
    ensures
        match r {
            Some(k) => spec_derived_viewing_key(network, seed@, account_index) == Some(k@),
            None => spec_derived_viewing_key(network, seed@, account_index) is None,
        },
{
    let params = match network {
        Network::MainNetwork => zcash_protocol::consensus::Network::MainNetwork,
        Network::TestNetwork => zcash_protocol::consensus::Network::TestNetwork,
    };
    let index = zip32::AccountId::try_from(account_index).ok()?;
    let usk = zcash_keys::keys::UnifiedSpendingKey::from_seed(&params, seed, index).ok()?;
    usk.to_unified_full_viewing_key().encode(&params).ok()
}

/// Calls `zcash_address::ZcashAddress::try_from_encoded` and tells whether it
/// succeeds. Claims only that the answer depends on the text alone.
#[verifier::external_body]
pub(crate) fn address_parses(address: &str) -> (r: bool)
    ensures
        r == spec_address_parses(address@),
{
    zcash_address::ZcashAddress::try_from_encoded(address).is_ok()
}

/// Encodes a transparent address with `zcash_keys::encoding::AddressCodec::encode`
/// under the main network's parameters. Claims that the text depends on the
/// address alone, and that decoding it under the same parameters gives the address
/// back: the source writes the network's two-byte prefix for the address kind and
/// the 20-byte hash under Base58Check, and decoding checks that prefix and takes
/// the 20 bytes after it.
#[verifier::external_body]
pub(crate) fn encode_transparent_address(address: &TransparentAddress) -> (r: String)
    ensures
        r@ == spec_transparent_encoding(address@),
        spec_transparent_decoding(r@) == Some(address@),
{
    let a = match address {
        TransparentAddress::PublicKeyHash(h) => zcash_transparent::address::TransparentAddress::PublicKeyHash(*h),
        TransparentAddress::ScriptHash(h) => zcash_transparent::address::TransparentAddress::ScriptHash(*h),
    };
    zcash_keys::encoding::AddressCodec::encode(&a, &zcash_protocol::consensus::Network::MainNetwork)
}

/// Decodes a transparent address with `zcash_keys::encoding::AddressCodec::decode`
/// under the main network's parameters; `None` where that fails. Claims only that
/// the answer depends on the text alone.
#[verifier::external_body]
pub(crate) fn decode_transparent_address(text: &str) -> (r: Option<TransparentAddress>)
    ensures
        match r {
            Some(a) => spec_transparent_decoding(text@) == Some(a@),
            None => spec_transparent_decoding(text@) is None,
        },
{
    let decoded: Result<zcash_transparent::address::TransparentAddress, _> =
        zcash_keys::encoding::AddressCodec::decode(&zcash_protocol::consensus::Network::MainNetwork, text);
    match decoded {
        Ok(zcash_transparent::address::TransparentAddress::PublicKeyHash(h)) => Some(TransparentAddress::PublicKeyHash(h)),
        Ok(zcash_transparent::address::TransparentAddress::ScriptHash(h)) => Some(TransparentAddress::ScriptHash(h)),
        Err(_) => None,
    }
}

/// Calls `zcash_protocol::memo::Memo::from_bytes` and tells whether it succeeds.
/// Claims what its source shows: it fails on more than 512 bytes; and that the
/// answer depends on the bytes alone.
#[verifier::external_body]
pub(crate) fn memo_readable(bytes: &[u8]) -> (r: bool)
    ensures
        r == spec_memo_readable(bytes@),
        bytes@.len() > 512 ==> !r,
{
    zcash_protocol::memo::Memo::from_bytes(bytes).is_ok()
}

/// Calls `std::str::from_utf8`. Claims what its documentation says: it succeeds
/// exactly on valid UTF-8, and then gives the characters the bytes encode.
#[verifier::external_body]
pub(crate) fn utf8_text(bytes: &[u8]) -> (r: Option<String>)
    ensures
        r is Some <==> vstd::utf8::valid_utf8(bytes@),
        r matches Some(t) ==> t@ == vstd::utf8::decode_utf8(bytes@),
{
    match std::str::from_utf8(bytes) {
        Ok(t) => Some(t.to_string()),
        Err(_) => None,
    }
}

/// Calls `zcash_keys::keys::UnifiedFullViewingKey::decode` and tells whether it
/// succeeds. Claims only that the answer depends on the network and the text alone.
#[verifier::external_body]
pub(crate) fn ufvk_decodes(network: Network, text: &str) -> (r: bool)
    ensures
        r == spec_ufvk_decodes(network, text@),
{
    let params = match network {
        Network::MainNetwork => zcash_protocol::consensus::Network::MainNetwork,
        Network::TestNetwork => zcash_protocol::consensus::Network::TestNetwork,
    };
    zcash_keys::keys::UnifiedFullViewingKey::decode(&params, text).is_ok()
}

/// Reads the unified full viewing key with `UnifiedFullViewingKey::decode` on the
/// given network and encodes it on the main network (`encode`); `None` where
/// either fails. Claims that the text depends on these arguments alone, and that
/// it reads back on the main network: `encode` writes the key's items as the
/// ZIP 316 string that `decode` parses.
#[verifier::external_body]
pub(crate) fn ufvk_main_text(network: Network, text: &str) -> (r: Option<String>)
    ensures
        match r {
            Some(t) => spec_ufvk_main_text(network, text@) == Some(t@) && spec_ufvk_decodes(Network::MainNetwork, t@),
            None => spec_ufvk_main_text(network, text@) is None,
        },
{
    let params = match network {
        Network::MainNetwork => zcash_protocol::consensus::Network::MainNetwork,
        Network::TestNetwork => zcash_protocol::consensus::Network::TestNetwork,
    };
    let ufvk = zcash_keys::keys::UnifiedFullViewingKey::decode(&params, text).ok()?;
    ufvk.encode(&zcash_protocol::consensus::Network::MainNetwork).ok()
}

} // verus!
