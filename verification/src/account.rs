//! Accounts of the wallet: their addresses, and the ephemeral transparent
//! addresses each account keeps reserved ahead of use.
use vstd::prelude::*;
use crate::error::Error;
use crate::external::{
    derive_ephemeral_address, derive_external_address, ephemeral_ivk_derivable, find_address,
    receiver_corresponds, spec_ephemeral_address, spec_ephemeral_ivk_derivable, spec_external_address,
    spec_find_address, spec_receiver_corresponds, spec_transparent_account_key, transparent_account_key,
};
use crate::types::{Network, Receiver};
use crate::proto::AccountPurpose;
use crate::types::{AccountId, BlockHeight, TransparentAddress, TxId};
use crate::GAP_LIMIT;

verus! {

/// Non-hardened child indices, under which ephemeral addresses are derived, are
/// below this bound.
pub const NON_HARDENED_LIMIT: u32 = 0x8000_0000;

/// Diversifier indices are 88-bit numbers; they are below this bound.
pub const DIVERSIFIER_INDEX_LIMIT: u128 = 0x100_0000_0000_0000_0000_0000;

/// An ephemeral transparent address and the transactions it was used or seen in.
/// An address that was used was necessarily also seen.
#[derive(Clone, Copy, Debug)]
pub struct EphemeralAddress {
    pub address: TransparentAddress,
    pub used: Option<TxId>,
    pub seen: Option<TxId>,
}

impl EphemeralAddress {
    /// Records that the address was used, and so also seen, in `tx`.
    pub fn mark_used(&mut self, tx: TxId)
        ensures
            *final(self) == (EphemeralAddress { used: Some(tx), seen: Some(tx), ..*old(self) }),
    {
        self.used = Some(tx);
        self.seen = Some(tx);
    }

    /// Records that the address was seen in `tx`, and returns the transaction it
    /// was recorded as seen in before.
    pub fn mark_seen(&mut self, tx: TxId) -> (r: Option<TxId>)
        ensures
            *final(self) == (EphemeralAddress { seen: Some(tx), ..*old(self) }),
            r == old(self).seen,
    {
        let prev = self.seen;
        self.seen = Some(tx);
        prev
    }
}

/// A diversified unified address of an account, under its diversifier index.
#[derive(Debug)]
pub struct AddressEntry {
    /// The diversifier index, as a number.
    pub diversifier_index: u128,
    /// The address, encoded.
    pub address: String,
    /// The transparent receiver of the address, if it has one.
    pub transparent_receiver: Option<TransparentAddress>,
}

/// How an account came into the wallet.
#[derive(Clone, Copy, Debug)]
pub enum AccountSource {
    /// Derived by ZIP 32 from a seed with the given fingerprint, at the given index.
    Derived { seed_fingerprint: [u8; 32], account_index: u32 },
    /// Imported from a viewing key.
    Imported { purpose: AccountPurpose },
}

/// The state of the chain at a block.
#[derive(Debug)]
pub struct ChainState {
    pub block_height: BlockHeight,
    pub block_hash: [u8; 32],
    /// The Sapling note commitment tree frontier, serialized.
    pub final_sapling_tree: Vec<u8>,
    /// The Orchard note commitment tree frontier, serialized.
    pub final_orchard_tree: Vec<u8>,
}

/// The chain state just before an account was created, and the height until
/// which the account is recovering.
#[derive(Debug)]
pub struct AccountBirthday {
    pub prior_chain_state: ChainState,
    pub recover_until: Option<BlockHeight>,
}

impl AccountBirthday {
    /// The birthday's prior block is not the last representable height.
    pub open spec fn wf(&self) -> bool {
        self.prior_chain_state.block_height < u32::MAX
    }

    /// The birthday height: the block after the prior chain state.
    pub open spec fn spec_height(&self) -> int {
        self.prior_chain_state.block_height + 1
    }

    /// The birthday height: the block after the prior chain state.
    pub fn height(&self) -> (r: BlockHeight)
        requires
            self.wf(),
        ensures
            r == self.spec_height(),
    {
        self.prior_chain_state.block_height + 1
    }
}

/// An account of the wallet.
#[derive(Debug)]
pub struct Account {
    pub account_id: AccountId,
    pub kind: AccountSource,
    /// The unified full viewing key, encoded.
    pub viewing_key: String,
    pub birthday: AccountBirthday,
    pub purpose: AccountPurpose,
    /// The addresses generated for the account, by increasing diversifier index.
    pub addresses: Vec<AddressEntry>,
    /// The transparent component of the viewing key (an account public key),
    /// serialized, where the key has one.
    pub transparent_key: Option<[u8; 65]>,
    /// The ephemeral addresses reserved so far; the one at position `i` is the one
    /// derived at child index `i`.
    pub ephemeral_addresses: Vec<EphemeralAddress>,
}

/// The ephemeral address stored at position `i` is the one the account key
/// derives at index `i`.
pub open spec fn ephemeral_matches_key(key: [u8; 65], e: EphemeralAddress, i: int) -> bool {
    &&& !e.address@.0
    &&& spec_ephemeral_address(key@, i as u32) == Some(e.address@.1)
}

/// The end of the range `reserve_until(next)` fills: `GAP_LIMIT` addresses past
/// `next`, or what is stored already, if more.
pub open spec fn reserve_end(len: int, next: u32) -> int {
    if len >= next + GAP_LIMIT { len } else { next + GAP_LIMIT }
}

impl Account {
    /// Addresses are stored by strictly increasing diversifier index, each a valid
    /// 88-bit index, and there is at least one.
    pub open spec fn addresses_wf(&self) -> bool {
        &&& self.addresses@.len() > 0
        &&& forall|i: int, j: int| 0 <= i < j < self.addresses@.len()
            ==> self.addresses@[i].diversifier_index < self.addresses@[j].diversifier_index
        &&& forall|i: int| 0 <= i < self.addresses@.len()
            ==> #[trigger] self.addresses@[i].diversifier_index < DIVERSIFIER_INDEX_LIMIT
    }

    /// The ephemeral addresses are exactly those the account key derives at the
    /// first indices, and there are none without a key.
    pub open spec fn ephemeral_wf(&self) -> bool {
        &&& self.ephemeral_addresses@.len() <= NON_HARDENED_LIMIT
        &&& match self.transparent_key {
            None => self.ephemeral_addresses@.len() == 0,
            Some(k) => forall|i: int| 0 <= i < self.ephemeral_addresses@.len()
                ==> ephemeral_matches_key(k, #[trigger] self.ephemeral_addresses@[i], i),
        }
    }

    /// The account's invariant.
    pub open spec fn wf(&self) -> bool {
        &&& self.addresses_wf()
        &&& self.ephemeral_wf()
        &&& self.birthday.wf()
    }

    /// The fields other than the ephemeral addresses are those of `other`.
    pub open spec fn same_but_ephemeral(&self, other: &Account) -> bool {
        &&& self.account_id == other.account_id
        &&& self.kind == other.kind
        &&& self.viewing_key == other.viewing_key
        &&& self.birthday == other.birthday
        &&& self.purpose == other.purpose
        &&& self.addresses == other.addresses
        &&& self.transparent_key == other.transparent_key
    }

    /// The gap limit is kept: every ephemeral address seen in a transaction (and
    /// so every used one) has `GAP_LIMIT` addresses stored past it.
    pub open spec fn gap_kept(&self) -> bool {
        forall|i: int| 0 <= i < self.ephemeral_addresses@.len() && (#[trigger] self.ephemeral_addresses@[i]).seen is Some
            ==> i + 1 + GAP_LIMIT <= self.ephemeral_addresses@.len()
    }

    /// Whether `reserve_until(next)` succeeds: there is no transparent key, or the
    /// ephemeral key derives from it and every address from the first unstored
    /// index up to the reserve end can be derived.
    pub open spec fn reserve_succeeds(&self, next: u32) -> bool {
        let len = self.ephemeral_addresses@.len() as int;
        match self.transparent_key {
            None => true,
            Some(k) => {
                &&& spec_ephemeral_ivk_derivable(k@)
                &&& forall|j: int| len <= j < reserve_end(len, next) ==> #[trigger] spec_ephemeral_address(k@, j as u32) is Some
            },
        }
    }

    /// Whether marking `address` as used or seen succeeds: there is no ephemeral
    /// address equal to it, or reserving past the first one succeeds.
    pub open spec fn mark_succeeds(&self, address: TransparentAddress) -> bool {
        match self.first_ephemeral_match(address) {
            None => true,
            Some(i) => self.reserve_succeeds((i + 1) as u32),
        }
    }

    /// `reserve_until(next)` can run without failing an index bound: the range end
    /// fits in 32 bits and, where addresses would be derived, stays below the
    /// non-hardened bound.
    pub open spec fn reserve_defined(&self, next: u32) -> bool {
        &&& next + GAP_LIMIT <= u32::MAX
        &&& (self.transparent_key is Some && self.ephemeral_addresses@.len() < next + GAP_LIMIT)
            ==> next + GAP_LIMIT <= NON_HARDENED_LIMIT
    }

    /// What `reserve_until(next)` does to the account: with no transparent key,
    /// nothing; with a key whose ephemeral key cannot be derived, nothing but a
    /// `KeyDerivation` error; otherwise the addresses from the first unstored index
    /// up to the reserve end are derived and stored in order, unused and unseen;
    /// where one cannot be derived, those before it stay stored and the call fails
    /// with `KeyDerivation`.
    pub open spec fn reserve_state(old: &Account, next: u32, new: &Account, r: Result<(), Error>) -> bool {
        let len = old.ephemeral_addresses@.len() as int;
        let end = reserve_end(len, next);
        &&& new.same_but_ephemeral(old)
        &&& match old.transparent_key {
            None => r is Ok && new.ephemeral_addresses@ == old.ephemeral_addresses@,
            Some(k) => {
                let stored = new.ephemeral_addresses@.len() as int;
                &&& len <= stored <= end
                &&& new.ephemeral_addresses@.take(len) == old.ephemeral_addresses@
                &&& forall|i: int| len <= i < stored ==> {
                    &&& ephemeral_matches_key(k, #[trigger] new.ephemeral_addresses@[i], i)
                    &&& new.ephemeral_addresses@[i].used is None
                    &&& new.ephemeral_addresses@[i].seen is None
                }
                &&& match r {
                    Ok(_) => spec_ephemeral_ivk_derivable(k@) && stored == end,
                    Err(e) => {
                        &&& e is KeyDerivation
                        &&& (!spec_ephemeral_ivk_derivable(k@) && stored == len
                            || spec_ephemeral_ivk_derivable(k@) && stored < end
                                && spec_ephemeral_address(k@, stored as u32) is None)
                    },
                }
            },
        }
    }

    /// The list `reserve_until` returns: each newly stored address with its index.
    pub open spec fn reserve_list(old: &Account, new: &Account, list: Seq<(TransparentAddress, u32)>) -> bool {
        let len = old.ephemeral_addresses@.len() as int;
        &&& list.len() == new.ephemeral_addresses@.len() - len
        &&& forall|j: int| 0 <= j < list.len() ==> #[trigger] list[j] == (
            new.ephemeral_addresses@[len + j].address,
            (len + j) as u32,
        )
    }

    /// The first ephemeral index with no stored address.
    pub fn first_unstored_index(&self) -> (r: Result<u32, Error>)
        requires
            self.wf(),
        ensures
            r == Ok::<u32, Error>(self.ephemeral_addresses@.len() as u32),
    {
        Ok(self.ephemeral_addresses.len() as u32)
    }

    /// The first ephemeral index that is not reserved: `GAP_LIMIT` below the first
    /// unstored one. Fails with `CorruptedData` where fewer than `GAP_LIMIT`
    /// addresses are stored.
    pub fn first_unreserved_index(&self) -> (r: Result<u32, Error>)
        requires
            self.wf(),
        ensures
            self.ephemeral_addresses@.len() >= GAP_LIMIT
                ==> r == Ok::<u32, Error>((self.ephemeral_addresses@.len() - GAP_LIMIT) as u32),
            self.ephemeral_addresses@.len() < GAP_LIMIT ==> (r matches Err(e) && e is CorruptedData),
    {
        let first_unstored = self.ephemeral_addresses.len() as u32;
        match first_unstored.checked_sub(GAP_LIMIT) {
            Some(i) => Ok(i),
            None => Err(Error::CorruptedData(String::from_str("ephemeral_addresses corrupted"))),
        }
    }

    /// Whether the account has an ephemeral key: `false` without a transparent key;
    /// fails with `KeyDerivation` where the key is there but the ephemeral key
    /// cannot be derived from it.
    pub fn ephemeral_ivk(&self) -> (r: Result<bool, Error>)
        ensures
            match self.transparent_key {
                None => r == Ok::<bool, Error>(false),
                Some(k) => if spec_ephemeral_ivk_derivable(k@) {
                    r == Ok::<bool, Error>(true)
                } else {
                    r matches Err(e) && e is KeyDerivation
                },
            },
    {
        match &self.transparent_key {
            None => Ok(false),
            Some(k) => if ephemeral_ivk_derivable(k) {
                Ok(true)
            } else {
                Err(Error::KeyDerivation(String::from_str("cannot derive the ephemeral key")))
            },
        }
    }

    /// Derives and stores ephemeral addresses so that `GAP_LIMIT` are reserved past
    /// index `next_to_reserve`, and returns the new ones with their indices. See
    /// [`Account::reserve_outcome`].
    pub fn reserve_until(&mut self, next_to_reserve: u32) -> (r: Result<Vec<(TransparentAddress, u32)>, Error>)
        requires
            old(self).wf(),
            old(self).reserve_defined(next_to_reserve),
        ensures
            final(self).wf(),
            Account::reserve_state(
                old(self),
                next_to_reserve,
                final(self),
                match r {
                    Ok(_) => Ok(()),
                    Err(e) => Err(e),
                },
            ),
            r matches Ok(list) ==> Account::reserve_list(old(self), final(self), list@),
    {
        let key = match self.transparent_key {
            None => return Ok(Vec::new()),
            Some(k) => k,
        };
        assert(self.ephemeral_addresses@.take(self.ephemeral_addresses@.len() as int) =~= self.ephemeral_addresses@);
        if !ephemeral_ivk_derivable(&key) {
            return Err(Error::KeyDerivation(String::from_str("cannot derive the ephemeral key")));
        }
        let ghost old_eph = self.ephemeral_addresses@;
        let first_unstored = self.ephemeral_addresses.len() as u32;
        let end = next_to_reserve + GAP_LIMIT;
        let mut list: Vec<(TransparentAddress, u32)> = Vec::new();
        if first_unstored >= end {
            return Ok(list);
        }
        let mut raw_index = first_unstored;
        while raw_index < end
            invariant
                first_unstored == old_eph.len(),
                first_unstored <= raw_index <= end,
                end == next_to_reserve + GAP_LIMIT,
                end <= NON_HARDENED_LIMIT,
                self.transparent_key == Some(key),
                self.same_but_ephemeral(old(self)),
                self.ephemeral_addresses@.len() == raw_index,
                self.ephemeral_addresses@.take(first_unstored as int) == old_eph,
                old(self).wf(),
                spec_ephemeral_ivk_derivable(key@),
                old_eph == old(self).ephemeral_addresses@,
                forall|i: int| 0 <= i < raw_index ==> ephemeral_matches_key(key, #[trigger] self.ephemeral_addresses@[i], i),
                forall|i: int| first_unstored <= i < raw_index ==> {
                    &&& (#[trigger] self.ephemeral_addresses@[i]).used is None
                    &&& self.ephemeral_addresses@[i].seen is None
                },
                list@.len() == raw_index - first_unstored,
                forall|j: int| 0 <= j < list@.len() ==> #[trigger] list@[j] == (
                    self.ephemeral_addresses@[first_unstored + j].address,
                    (first_unstored + j) as u32,
                ),
            decreases end - raw_index,
        {
            let hash = match derive_ephemeral_address(&key, raw_index) {
                Some(h) => h,
                None => {
                    assert(spec_ephemeral_address(key@, self.ephemeral_addresses@.len() as u32) is None);
                    return Err(Error::KeyDerivation(String::from_str("cannot derive an ephemeral address")));
                },
            };
            let address = TransparentAddress::PublicKeyHash(hash);
            let ghost before = self.ephemeral_addresses@;
            self.ephemeral_addresses.push(EphemeralAddress { address, seen: None, used: None });
            assert(self.ephemeral_addresses@.take(first_unstored as int) =~= before.take(first_unstored as int));
            list.push((address, raw_index));
            raw_index = raw_index + 1;
        }
        Ok(list)
    }

    /// The position of the first ephemeral address equal to `address`, if any.
    pub open spec fn first_ephemeral_match(&self, address: TransparentAddress) -> Option<int> {
        if exists|i: int| 0 <= i < self.ephemeral_addresses@.len()
            && #[trigger] self.ephemeral_addresses@[i].address@ == address@ {
            Some(choose|i: int| 0 <= i < self.ephemeral_addresses@.len()
                && #[trigger] self.ephemeral_addresses@[i].address@ == address@
                && forall|j: int| 0 <= j < i ==> #[trigger] self.ephemeral_addresses@[j].address@ != address@)
        } else {
            None
        }
    }

    /// Finds the first ephemeral address equal to `address`.
    pub fn find_ephemeral(&self, address: &TransparentAddress) -> (r: Option<usize>)
        ensures
            match r {
                Some(i) => i < self.ephemeral_addresses@.len()
                    && self.ephemeral_addresses@[i as int].address@ == address@
                    && forall|j: int| 0 <= j < i ==> #[trigger] self.ephemeral_addresses@[j].address@ != address@,
                None => forall|j: int| 0 <= j < self.ephemeral_addresses@.len()
                    ==> #[trigger] self.ephemeral_addresses@[j].address@ != address@,
            },
    {
        let mut i: usize = 0;
        while i < self.ephemeral_addresses.len()
            invariant
                i <= self.ephemeral_addresses@.len(),
                forall|j: int| 0 <= j < i ==> #[trigger] self.ephemeral_addresses@[j].address@ != address@,
            decreases self.ephemeral_addresses@.len() - i,
        {
            if self.ephemeral_addresses[i].address == *address {
                return Some(i);
            }
            i = i + 1;
        }
        proof {
            reveal(first_account_with_receiver);
            reveal(first_account_with_ephemeral);
            reveal(first_account_with_legacy);
        }
        None
    }

    /// Records that the first ephemeral address equal to `address` was used in
    /// `tx_id`, then reserves addresses so that `GAP_LIMIT` stay reserved past it.
    /// An address that is not among the account's ephemeral addresses changes
    /// nothing.
    pub fn mark_ephemeral_address_as_used(&mut self, address: &TransparentAddress, tx_id: TxId) -> (r: Result<(), Error>)
        requires
            old(self).wf(),
            old(self).mark_defined(*address),
        ensures
            final(self).wf(),
            match old(self).first_ephemeral_match(*address) {
                None => r is Ok && final(self).same_but_ephemeral(old(self))
                    && final(self).ephemeral_addresses@ == old(self).ephemeral_addresses@,
                Some(i) => exists|mid: Account| {
                    &&& mid.same_but_ephemeral(old(self))
                    &&& #[trigger] mid.ephemeral_addresses@ == old(self).ephemeral_addresses@.update(
                        i,
                        EphemeralAddress { used: Some(tx_id), seen: Some(tx_id), ..old(self).ephemeral_addresses@[i] },
                    )
                    &&& Account::reserve_state(&mid, (i + 1) as u32, final(self), r)
                },
            },
            r is Ok && old(self).transparent_key is Some && old(self).first_ephemeral_match(*address) is Some
                ==> final(self).ephemeral_addresses@.len() >= old(self).first_ephemeral_match(*address)->0 + 1 + GAP_LIMIT,
            r is Ok && old(self).gap_kept() ==> final(self).gap_kept(),
            r is Ok <==> old(self).mark_succeeds(*address),
            old(self).first_ephemeral_match(*address) matches Some(i) ==> final(self).ephemeral_addresses@[i]
                == (EphemeralAddress { used: Some(tx_id), seen: Some(tx_id), ..old(self).ephemeral_addresses@[i] }),
            final(self).same_but_ephemeral(old(self)),
            final(self).ephemeral_addresses@.len() >= old(self).ephemeral_addresses@.len(),
    {
        match self.find_ephemeral(address) {
            None => {
                proof {
                    assert(old(self).first_ephemeral_match(*address) is None);
                }
                Ok(())
            },
            Some(i) => {
                let mut e = self.ephemeral_addresses[i];
                e.mark_used(tx_id);
                self.ephemeral_addresses.set(i, e);
                proof {
                    assert(old(self).first_ephemeral_match(*address) == Some(i as int));
                }
                let ghost mid = *self;
                let ghost mid_eph = self.ephemeral_addresses@;
                let res = self.reserve_until((i + 1) as u32);
                proof {
                    if res is Ok && old(self).gap_kept() {
                        lemma_mark_keeps_gap(*old(self), i as int, e, mid, *self);
                    }
                    let rr: Result<(), Error> = if res is Ok { Ok(()) } else { Err(res->Err_0) };
                    lemma_reserve_outcome(mid, (i + 1) as u32, *self, rr);
                    assert(old(self).first_ephemeral_match(*address) == Some(i as int));
                    if self.transparent_key is Some {
                        assert(self.ephemeral_addresses@.take(mid_eph.len() as int)[i as int] == self.ephemeral_addresses@[i as int]);
                    }
                }
                match res {
                    Ok(_) => Ok(()),
                    Err(e) => Err(e),
                }
            },
        }
    }

    /// Records that the first ephemeral address equal to `address` was seen in
    /// `tx_id`, then reserves addresses so that `GAP_LIMIT` stay reserved past it.
    /// An address that is not among the account's ephemeral addresses changes
    /// nothing.
    pub fn mark_ephemeral_address_as_seen(&mut self, address: &TransparentAddress, tx_id: TxId) -> (r: Result<(), Error>)
        requires
            old(self).wf(),
            old(self).mark_defined(*address),
        ensures
            final(self).wf(),
            match old(self).first_ephemeral_match(*address) {
                None => r is Ok && final(self).same_but_ephemeral(old(self))
                    && final(self).ephemeral_addresses@ == old(self).ephemeral_addresses@,
                Some(i) => exists|mid: Account| {
                    &&& mid.same_but_ephemeral(old(self))
                    &&& #[trigger] mid.ephemeral_addresses@ == old(self).ephemeral_addresses@.update(
                        i,
                        EphemeralAddress { seen: Some(tx_id), ..old(self).ephemeral_addresses@[i] },
                    )
                    &&& Account::reserve_state(&mid, (i + 1) as u32, final(self), r)
                },
            },
            r is Ok && old(self).transparent_key is Some && old(self).first_ephemeral_match(*address) is Some
                ==> final(self).ephemeral_addresses@.len() >= old(self).first_ephemeral_match(*address)->0 + 1 + GAP_LIMIT,
            r is Ok && old(self).gap_kept() ==> final(self).gap_kept(),
            r is Ok <==> old(self).mark_succeeds(*address),
            old(self).first_ephemeral_match(*address) matches Some(i) ==> final(self).ephemeral_addresses@[i]
                == (EphemeralAddress { seen: Some(tx_id), ..old(self).ephemeral_addresses@[i] }),
            final(self).same_but_ephemeral(old(self)),
            final(self).ephemeral_addresses@.len() >= old(self).ephemeral_addresses@.len(),
            r matches Err(e) ==> e is KeyDerivation,
    {
        match self.find_ephemeral(address) {
            None => {
                proof {
                    assert(old(self).first_ephemeral_match(*address) is None);
                }
                Ok(())
            },
            Some(i) => {
                let mut e = self.ephemeral_addresses[i];
                e.mark_seen(tx_id);
                self.ephemeral_addresses.set(i, e);
                proof {
                    assert(old(self).first_ephemeral_match(*address) == Some(i as int));
                }
                let ghost mid_eph = self.ephemeral_addresses@;
                let ghost mid = *self;
                let res = self.reserve_until((i + 1) as u32);
                proof {
                    if res is Ok && old(self).gap_kept() {
                        lemma_mark_keeps_gap(*old(self), i as int, e, mid, *self);
                    }
                    let rr: Result<(), Error> = if res is Ok { Ok(()) } else { Err(res->Err_0) };
                    lemma_reserve_outcome(mid, (i + 1) as u32, *self, rr);
                    assert(old(self).first_ephemeral_match(*address) == Some(i as int));
                    if self.transparent_key is Some {
                        assert(self.ephemeral_addresses@.take(mid_eph.len() as int)[i as int] == self.ephemeral_addresses@[i as int]);
                    }
                }
                match res {
                    Ok(_) => Ok(()),
                    Err(e) => Err(e),
                }
            },
        }
    }

    /// Marking `address` can reserve without failing an index bound.
    pub open spec fn mark_defined(&self, address: TransparentAddress) -> bool {
        forall|i: int| 0 <= i < self.ephemeral_addresses@.len()
            && #[trigger] self.ephemeral_addresses@[i].address@ == address@
            ==> (self.transparent_key is Some && self.ephemeral_addresses@.len() < i + 1 + GAP_LIMIT
                ==> i + 1 + GAP_LIMIT <= NON_HARDENED_LIMIT)
    }

    /// The ephemeral addresses with their child indices.
    pub fn ephemeral_addresses(&self) -> (r: Result<Vec<(TransparentAddress, u32)>, Error>)
        requires
            self.wf(),
        ensures
            r matches Ok(v) && v@.len() == self.ephemeral_addresses@.len()
                && forall|i: int| 0 <= i < v@.len() ==> #[trigger] v@[i] == (self.ephemeral_addresses@[i].address, i as u32),
    {
        let mut v: Vec<(TransparentAddress, u32)> = Vec::new();
        let mut i: usize = 0;
        while i < self.ephemeral_addresses.len()
            invariant
                i <= self.ephemeral_addresses@.len(),
                self.ephemeral_addresses@.len() <= NON_HARDENED_LIMIT,
                v@.len() == i,
                forall|j: int| 0 <= j < i ==> #[trigger] v@[j] == (self.ephemeral_addresses@[j].address, j as u32),
            decreases self.ephemeral_addresses@.len() - i,
        {
            v.push((self.ephemeral_addresses[i].address, i as u32));
            i = i + 1;
        }
        Ok(v)
    }
}

impl Account {
    /// A new account with its default address, the first address its viewing key
    /// gives, and its first `GAP_LIMIT` ephemeral addresses reserved where the key
    /// has a transparent part. Fails with `AddressGeneration` where the key cannot be
    /// read or gives no address, and with `KeyDerivation` where the ephemeral
    /// addresses cannot be derived.
    pub fn new(
        account_id: AccountId,
        kind: AccountSource,
        viewing_key: String,
        birthday: AccountBirthday,
        purpose: AccountPurpose,
        network: Network,
    ) -> (r: Result<Account, Error>)
        requires
            birthday.wf(),
        ensures
            match (spec_find_address(network, viewing_key@, 0), spec_transparent_account_key(network, viewing_key@)) {
                (Some((j, addr, t)), Some(key)) => match r {
                    Ok(a) => {
                        &&& a.wf()
                        &&& a.account_id == account_id
                        &&& a.kind == kind
                        &&& a.viewing_key == viewing_key
                        &&& a.birthday == birthday
                        &&& a.purpose == purpose
                        &&& a.addresses@.len() == 1
                        &&& a.addresses@[0].diversifier_index == j
                        &&& a.addresses@[0].address@ == addr
                        &&& match a.addresses@[0].transparent_receiver {
                            Some(x) => t == Some(x@),
                            None => t is None,
                        }
                        &&& match key {
                            None => a.transparent_key is None && a.ephemeral_addresses@.len() == 0,
                            Some(k) => a.transparent_key matches Some(tk) && tk@ == k
                                && a.ephemeral_addresses@.len() == GAP_LIMIT
                                && forall|i: int| 0 <= i < GAP_LIMIT ==> {
                                    &&& ephemeral_matches_key(tk, #[trigger] a.ephemeral_addresses@[i], i)
                                    &&& a.ephemeral_addresses@[i].used is None
                                    &&& a.ephemeral_addresses@[i].seen is None
                                },
                        }
                    },
                    Err(e) => e is KeyDerivation,
                },
                _ => r matches Err(e) && e is AddressGeneration,
            },
            r matches Ok(a) ==> a.gap_kept(),
    {
        let default_address = match find_address(network, viewing_key.as_str(), 0) {
            Some((j, address, receiver)) => AddressEntry { diversifier_index: j, address, transparent_receiver: receiver },
            None => {
                return Err(Error::AddressGeneration(String::from_str("the viewing key gives no default address")));
            },
        };
        let transparent_key = match transparent_account_key(network, viewing_key.as_str()) {
            Some(k) => k,
            None => {
                return Err(Error::AddressGeneration(String::from_str("the viewing key cannot be read")));
            },
        };
        let mut addresses: Vec<AddressEntry> = Vec::new();
        addresses.push(default_address);
        let mut acc = Account {
            account_id,
            kind,
            viewing_key,
            birthday,
            purpose,
            addresses,
            transparent_key,
            ephemeral_addresses: Vec::new(),
        };
        match acc.reserve_until(0) {
            Ok(_) => Ok(acc),
            Err(e) => Err(e),
        }
    }

    /// The account's addresses, by increasing diversifier index.
    pub fn addresses(&self) -> (r: &Vec<AddressEntry>)
        ensures
            r == &self.addresses,
    {
        &self.addresses
    }

    /// The account's birthday.
    pub fn birthday(&self) -> (r: &AccountBirthday)
        ensures
            r == &self.birthday,
    {
        &self.birthday
    }

    /// How the account came into the wallet.
    pub fn kind(&self) -> (r: &AccountSource)
        ensures
            r == &self.kind,
    {
        &self.kind
    }

    /// The account's id.
    pub fn account_id(&self) -> (r: AccountId)
        ensures
            r == self.account_id,
    {
        self.account_id
    }

    /// The first of the account's addresses, by diversifier index, that holds the
    /// receiver; `None` where none does. Never fails.
    pub fn select_receiving_address(&self, receiver: &Receiver) -> (r: Result<Option<String>, Error>)
        ensures
            r matches Ok(found) && match found {
                Some(a) => exists|i: int| #![trigger self.addresses@[i]]
                    0 <= i < self.addresses@.len()
                    && a@ == self.addresses@[i].address@
                    && spec_receiver_corresponds(self.addresses@[i].address@, *receiver)
                    && forall|j: int| 0 <= j < i ==> !spec_receiver_corresponds(
                        #[trigger] self.addresses@[j].address@, *receiver),
                None => forall|j: int| 0 <= j < self.addresses@.len() ==> !spec_receiver_corresponds(
                    #[trigger] self.addresses@[j].address@, *receiver),
            },
    {
        let mut i: usize = 0;
        while i < self.addresses.len()
            invariant
                i <= self.addresses@.len(),
                forall|j: int| 0 <= j < i ==> !spec_receiver_corresponds(
                    #[trigger] self.addresses@[j].address@, *receiver),
            decreases self.addresses@.len() - i,
        {
            let entry = &self.addresses[i];
            if receiver_corresponds(entry.address.as_str(), receiver) {
                return Ok(Some(entry.address.clone()));
            }
            i = i + 1;
        }
        Ok(None)
    }

    /// The address with the highest diversifier index: the one generated last.
    pub fn current_address(&self) -> (r: &AddressEntry)
        requires
            self.wf(),
        ensures
            *r == self.addresses@.last(),
            forall|i: int| 0 <= i < self.addresses@.len() ==> #[trigger] self.addresses@[i].diversifier_index
                <= r.diversifier_index,
    {
        let n = self.addresses.len();
        &self.addresses[n - 1]
    }

    /// The diversifier index from which the next address is searched for: the one
    /// after the current address's. Fails with `AddressGeneration` where the current
    /// index is the last one.
    pub fn next_address_search_start(&self) -> (r: Result<u128, Error>)
        requires
            self.wf(),
        ensures
            self.addresses@.last().diversifier_index + 1 < DIVERSIFIER_INDEX_LIMIT
                ==> r == Ok::<u128, Error>((self.addresses@.last().diversifier_index + 1) as u128),
            self.addresses@.last().diversifier_index + 1 == DIVERSIFIER_INDEX_LIMIT
                ==> (r matches Err(e) && e is AddressGeneration),
    {
        let current = self.current_address().diversifier_index;
        if current + 1 < DIVERSIFIER_INDEX_LIMIT {
            Ok(current + 1)
        } else {
            Err(Error::AddressGeneration(String::from_str("DiversifierSpaceExhausted")))
        }
    }

    /// What generating the account's next address gives: the account is the same
    /// but for the new address at the end, as [`Self::next_available_address`] says.
    pub open spec fn next_address_outcome(old: Account, network: Network, new: Account, r: Result<String, Error>) -> bool {
        &&& new.account_id == old.account_id
        &&& new.ephemeral_addresses@ == old.ephemeral_addresses@
        &&& new.transparent_key == old.transparent_key
        &&& new.viewing_key == old.viewing_key
        &&& new.kind == old.kind
        &&& new.purpose == old.purpose
        &&& new.birthday == old.birthday
        &&& {
            let start = old.addresses@.last().diversifier_index + 1;
            if start >= DIVERSIFIER_INDEX_LIMIT {
                r matches Err(e) && e is AddressGeneration && new.addresses@ == old.addresses@
            } else {
                match spec_find_address(network, old.viewing_key@, start as u128) {
                    None => r matches Err(e) && e is AddressGeneration && new.addresses@ == old.addresses@,
                    Some((j, a, t)) => r matches Ok(s) && s@ == a
                        && new.addresses@.len() == old.addresses@.len() + 1
                        && new.addresses@.drop_last() == old.addresses@
                        && new.addresses@.last().diversifier_index == j
                        && new.addresses@.last().address@ == a
                        && match new.addresses@.last().transparent_receiver {
                            Some(x) => t == Some(x@),
                            None => t is None,
                        },
                }
            }
        }
    }

    /// Generates the account's next address: the first one its viewing key gives
    /// from the diversifier index after the current address's on, which becomes the
    /// current address. Fails with `AddressGeneration` where the current index is
    /// the last one, or where no address is found.
    pub fn next_available_address(&mut self, network: Network) -> (r: Result<String, Error>)
        requires
            old(self).wf(),
        ensures
            final(self).wf(),
            Account::next_address_outcome(*old(self), network, *final(self), r),
    {
        let start = match self.next_address_search_start() {
            Ok(j) => j,
            Err(e) => return Err(e),
        };
        match find_address(network, self.viewing_key.as_str(), start) {
            None => Err(Error::AddressGeneration(String::from_str("no address was found"))),
            Some((j, address, receiver)) => {
                let result = address.clone();
                self.push_address(AddressEntry { diversifier_index: j, address, transparent_receiver: receiver });
                proof {
                    assert(self.addresses@.drop_last() =~= old(self).addresses@);
                }
                Ok(result)
            },
        }
    }

    /// Adds an address found at a diversifier index above the current one; it
    /// becomes the current address.
    pub fn push_address(&mut self, entry: AddressEntry)
        requires
            old(self).wf(),
            old(self).addresses@.last().diversifier_index < entry.diversifier_index < DIVERSIFIER_INDEX_LIMIT,
        ensures
            final(self).wf(),
            final(self).addresses@ == old(self).addresses@.push(entry),
            final(self).account_id == old(self).account_id,
            final(self).ephemeral_addresses@ == old(self).ephemeral_addresses@,
            final(self).transparent_key == old(self).transparent_key,
            final(self).viewing_key == old(self).viewing_key,
            final(self).kind == old(self).kind,
            final(self).purpose == old(self).purpose,
            final(self).birthday == old(self).birthday,
    {
        self.addresses.push(entry);
        proof {
            let a = self.addresses@;
            assert forall|i: int, j: int| 0 <= i < j < a.len() implies a[i].diversifier_index < a[j].diversifier_index by {
                if j == a.len() - 1 && i < j {
                    assert(old(self).addresses@[i].diversifier_index <= old(self).addresses@.last().diversifier_index);
                }
            }
        }
    }
}

/// The accounts of the wallet, by increasing id, and the number of accounts
/// created so far, from which new ids are made.
pub struct Accounts {
    pub nonce: u32,
    pub accounts: Vec<Account>,
}

impl Accounts {
    /// Ids increase strictly and none exceeds the nonce; every account is well formed.
    pub open spec fn wf(&self) -> bool {
        &&& forall|i: int, j: int| 0 <= i < j < self.accounts@.len()
            ==> self.accounts@[i].account_id.0 < self.accounts@[j].account_id.0
        &&& forall|i: int| 0 <= i < self.accounts@.len() ==> (#[trigger] self.accounts@[i]).account_id.0 <= self.nonce
        &&& forall|i: int| 0 <= i < self.accounts@.len() ==> (#[trigger] self.accounts@[i]).wf()
    }

    /// Whether an account has the given id.
    pub open spec fn has(&self, id: AccountId) -> bool {
        exists|i: int| 0 <= i < self.accounts@.len() && #[trigger] self.accounts@[i].account_id == id
    }

    /// No accounts.
    pub fn new() -> (r: Self)
        ensures
            r.wf(),
            r.nonce == 0,
            r.accounts@.len() == 0,
    {
        Accounts { nonce: 0, accounts: Vec::new() }
    }

    /// Creates an account under the next id; the nonce advances even where the
    /// account cannot be created. See [`Account::new`].
    pub fn new_account(
        &mut self,
        kind: AccountSource,
        viewing_key: String,
        birthday: AccountBirthday,
        purpose: AccountPurpose,
        network: Network,
    ) -> (r: Result<AccountId, Error>)
        requires
            old(self).wf(),
            old(self).nonce < u32::MAX,
            birthday.wf(),
        ensures
            final(self).wf(),
            final(self).nonce == old(self).nonce + 1,
            match r {
                Ok(id) => {
                    &&& id.0 == final(self).nonce
                    &&& final(self).accounts@.len() == old(self).accounts@.len() + 1
                    &&& final(self).accounts@.drop_last() == old(self).accounts@
                    &&& final(self).accounts@.last().account_id == id
                    &&& final(self).accounts@.last().kind == kind
                    &&& final(self).accounts@.last().purpose == purpose
                    &&& final(self).accounts@.last().viewing_key == viewing_key
                    &&& final(self).accounts@.last().gap_kept()
                    &&& spec_find_address(network, viewing_key@, 0) matches Some((j, addr, t))
                        && final(self).accounts@.last().addresses@.len() == 1
                        && final(self).accounts@.last().addresses@[0].diversifier_index == j
                        && final(self).accounts@.last().addresses@[0].address@ == addr
                    &&& spec_transparent_account_key(network, viewing_key@) matches Some(key) && match key {
                        None => final(self).accounts@.last().transparent_key is None,
                        Some(k) => final(self).accounts@.last().transparent_key matches Some(tk) && tk@ == k,
                    }
                },
                Err(e) => final(self).accounts@ == old(self).accounts@ && if spec_find_address(network, viewing_key@, 0) is None
                    || spec_transparent_account_key(network, viewing_key@) is None {
                    e is AddressGeneration
                } else {
                    e is KeyDerivation
                },
            },
    {
        self.nonce = self.nonce + 1;
        let id = AccountId(self.nonce);
        match Account::new(id, kind, viewing_key, birthday, purpose, network) {
            Ok(acc) => {
                self.accounts.push(acc);
                proof {
                    assert(self.accounts@.drop_last() =~= old(self).accounts@);
                    assert forall|i: int, j: int| 0 <= i < j < self.accounts@.len()
                        implies self.accounts@[i].account_id.0 < self.accounts@[j].account_id.0 by {
                        if j == self.accounts@.len() - 1 {
                            assert(old(self).accounts@[i].account_id.0 <= old(self).nonce);
                        }
                    }
                }
                Ok(id)
            },
            Err(e) => Err(e),
        }
    }

    /// The position of the account with the given id, if any.
    pub fn position(&self, account_id: AccountId) -> (r: Option<usize>)
        ensures
            match r {
                Some(i) => i < self.accounts@.len() && self.accounts@[i as int].account_id == account_id,
                None => !self.has(account_id),
            },
    {
        let mut i: usize = 0;
        while i < self.accounts.len()
            invariant
                i <= self.accounts@.len(),
                forall|j: int| 0 <= j < i ==> #[trigger] self.accounts@[j].account_id != account_id,
            decreases self.accounts@.len() - i,
        {
            if self.accounts[i].account_id == account_id {
                return Some(i);
            }
            i = i + 1;
        }
        proof {
            reveal(first_account_with_receiver);
            reveal(first_account_with_ephemeral);
            reveal(first_account_with_legacy);
        }
        None
    }

    /// The account with the given id, if any.
    pub fn get(&self, account_id: AccountId) -> (r: Option<&Account>)
        ensures
            match r {
                Some(a) => a.account_id == account_id && self.accounts@.contains(*a),
                None => !self.has(account_id),
            },
    {
        match self.position(account_id) {
            Some(i) => Some(&self.accounts[i]),
            None => None,
        }
    }

    /// Generates the next address of the account with the given id, as
    /// [`Account::next_available_address`] says; `None` where no account has the id.
    pub fn next_available_address(&mut self, account_id: AccountId, network: Network) -> (r: Result<Option<String>, Error>)
        requires
            old(self).wf(),
        ensures
            final(self).wf(),
            final(self).nonce == old(self).nonce,
            !old(self).has(account_id) ==> (r matches Ok(None) && final(self).accounts@ == old(self).accounts@),
            forall|i: int| 0 <= i < old(self).accounts@.len() && (#[trigger] old(self).accounts@[i]).account_id == account_id
                ==> final(self).accounts@ == old(self).accounts@.update(i, final(self).accounts@[i])
                    && Account::next_address_outcome(
                        old(self).accounts@[i],
                        network,
                        final(self).accounts@[i],
                        match r {
                            Ok(Some(s)) => Ok::<String, Error>(s),
                            Ok(None) => Err::<String, Error>(Error::NoteNotFound),
                            Err(e) => Err::<String, Error>(e),
                        },
                    ) && !(r matches Ok(None)),
    {
        match self.position(account_id) {
            None => Ok(None),
            Some(i) => {
                let ghost before = self.accounts@;
                let mut account = self.accounts.remove(i);
                let r = account.next_available_address(network);
                self.accounts.insert(i, account);
                proof {
                    let a = self.accounts@;
                    assert(a =~= before.update(i as int, a[i as int]));
                    assert forall|x: int, y: int| 0 <= x < y < a.len() implies a[x].account_id.0 < a[y].account_id.0 by {
                        assert(before[x].account_id.0 < before[y].account_id.0);
                    }
                    assert forall|x: int| 0 <= x < a.len() implies (#[trigger] a[x]).account_id.0 <= self.nonce by {
                        assert(before[x].account_id.0 <= self.nonce);
                    }
                    assert forall|x: int| 0 <= x < a.len() implies (#[trigger] a[x]).wf() by {
                        assert(x == i || a[x] == before[x]);
                    }
                    assert forall|k: int| 0 <= k < before.len() && (#[trigger] before[k]).account_id == account_id
                        implies k == i as int by {
                        if k < i as int {
                            assert(before[k].account_id.0 < before[i as int].account_id.0);
                        } else if k > i as int {
                            assert(before[i as int].account_id.0 < before[k].account_id.0);
                        }
                    }
                }
                match r {
                    Ok(s) => Ok(Some(s)),
                    Err(e) => Err(e),
                }
            },
        }
    }

    /// The ids of all accounts, in increasing order.
    pub fn account_ids(&self) -> (r: Vec<AccountId>)
        ensures
            r@.len() == self.accounts@.len(),
            forall|i: int| 0 <= i < r@.len() ==> #[trigger] r@[i] == self.accounts@[i].account_id,
    {
        let mut r: Vec<AccountId> = Vec::new();
        let mut i: usize = 0;
        while i < self.accounts.len()
            invariant
                i <= self.accounts@.len(),
                r@.len() == i,
                forall|j: int| 0 <= j < i ==> #[trigger] r@[j] == self.accounts@[j].account_id,
            decreases self.accounts@.len() - i,
        {
            r.push(self.accounts[i].account_id);
            i = i + 1;
        }
        r
    }

    /// The first account, by id, among whose ephemeral addresses `address` is.
    pub fn find_account_for_ephemeral_address(&self, address: &TransparentAddress) -> (r: Result<Option<AccountId>, Error>)
        ensures
            r == Ok::<Option<AccountId>, Error>(
                match first_account_with_ephemeral(self.accounts@, *address) {
                    Some(i) => Some(self.accounts@[i].account_id),
                    None => None,
                },
            ),
    {
        match self.position_with_ephemeral(address) {
            Some(i) => Ok(Some(self.accounts[i].account_id)),
            None => Ok(None),
        }
    }

    /// Records, in every account, that the first of its ephemeral addresses equal
    /// to `address` was seen in `tx_id`; see [`Account::mark_ephemeral_address_as_seen`].
    /// Stops at the first account that fails.
    pub fn mark_ephemeral_address_as_seen(&mut self, address: &TransparentAddress, tx_id: TxId) -> (r: Result<(), Error>)
        requires
            old(self).wf(),
            forall|i: int| 0 <= i < old(self).accounts@.len() ==> (#[trigger] old(self).accounts@[i]).mark_defined(*address),
        ensures
            final(self).wf(),
            final(self).nonce == old(self).nonce,
            final(self).accounts@.len() == old(self).accounts@.len(),
            forall|i: int| 0 <= i < final(self).accounts@.len()
                ==> (#[trigger] final(self).accounts@[i]).same_but_ephemeral(&old(self).accounts@[i]),
            r matches Err(e) ==> e is KeyDerivation,
            r is Ok ==> forall|i: int| 0 <= i < old(self).accounts@.len() ==> {
                let a = #[trigger] old(self).accounts@[i];
                let b = final(self).accounts@[i];
                match a.first_ephemeral_match(*address) {
                    None => b.ephemeral_addresses@ == a.ephemeral_addresses@,
                    Some(k) => {
                        &&& b.ephemeral_addresses@[k] == (EphemeralAddress { seen: Some(tx_id), ..a.ephemeral_addresses@[k] })
                        &&& a.transparent_key is Some ==> b.ephemeral_addresses@.len() >= k + 1 + GAP_LIMIT
                    },
                }
            },
            r is Ok ==> forall|i: int| 0 <= i < old(self).accounts@.len()
                ==> (#[trigger] old(self).accounts@[i]).gap_kept() ==> final(self).accounts@[i].gap_kept(),
            r is Ok <==> forall|i: int| 0 <= i < old(self).accounts@.len()
                ==> (#[trigger] old(self).accounts@[i]).mark_succeeds(*address),
    {
        let mut i: usize = 0;
        while i < self.accounts.len()
            invariant
                i <= self.accounts@.len(),
                self.wf(),
                self.nonce == old(self).nonce,
                self.accounts@.len() == old(self).accounts@.len(),
                forall|j: int| 0 <= j < self.accounts@.len()
                    ==> (#[trigger] self.accounts@[j]).same_but_ephemeral(&old(self).accounts@[j]),
                forall|j: int| i <= j < self.accounts@.len() ==> #[trigger] self.accounts@[j] == old(self).accounts@[j],
                forall|j: int| 0 <= j < old(self).accounts@.len() ==> (#[trigger] old(self).accounts@[j]).mark_defined(*address),
                forall|j: int| 0 <= j < i ==> (#[trigger] old(self).accounts@[j]).gap_kept() ==> self.accounts@[j].gap_kept(),
                forall|j: int| 0 <= j < i ==> (#[trigger] old(self).accounts@[j]).mark_succeeds(*address),
                forall|j: int| 0 <= j < i ==> {
                    let a = #[trigger] old(self).accounts@[j];
                    let b = self.accounts@[j];
                    match a.first_ephemeral_match(*address) {
                        None => b.ephemeral_addresses@ == a.ephemeral_addresses@,
                        Some(k) => {
                            &&& b.ephemeral_addresses@[k] == (EphemeralAddress { seen: Some(tx_id), ..a.ephemeral_addresses@[k] })
                            &&& a.transparent_key is Some ==> b.ephemeral_addresses@.len() >= k + 1 + GAP_LIMIT
                        },
                    }
                },
            decreases self.accounts@.len() - i,
        {
            let ghost before = self.accounts@;
            let mut acc = self.accounts.remove(i);
            let res = acc.mark_ephemeral_address_as_seen(address, tx_id);
            self.accounts.insert(i, acc);
            proof {
                assert forall|x: int, y: int| 0 <= x < y < self.accounts@.len()
                    implies self.accounts@[x].account_id.0 < self.accounts@[y].account_id.0 by {
                    assert(before[x].account_id.0 < before[y].account_id.0);
                    if x == i as int { assert(self.accounts@[x].account_id == before[x].account_id); }
                    if y == i as int { assert(self.accounts@[y].account_id == before[y].account_id); }
                    if x != i as int { assert(self.accounts@[x] == before[x]); }
                    if y != i as int { assert(self.accounts@[y] == before[y]); }
                }
                assert forall|x: int| 0 <= x < self.accounts@.len()
                    implies (#[trigger] self.accounts@[x]).account_id.0 <= self.nonce && self.accounts@[x].wf() by {
                    if x != i as int { assert(self.accounts@[x] == before[x]); }
                }
                assert forall|x: int| 0 <= x < self.accounts@.len()
                    implies (#[trigger] self.accounts@[x]).same_but_ephemeral(&old(self).accounts@[x]) by {
                    if x != i as int { assert(self.accounts@[x] == before[x]); }
                }
            }
            match res {
                Ok(()) => {},
                Err(e) => {
                    proof {
                        assert(before[i as int] == old(self).accounts@[i as int]);
                        assert(!old(self).accounts@[i as int].mark_succeeds(*address));
                    }
                    return Err(e);
                },
            }
            proof {
                assert forall|j: int| 0 <= j < i + 1 implies {
                    let a = #[trigger] old(self).accounts@[j];
                    let b = self.accounts@[j];
                    match a.first_ephemeral_match(*address) {
                        None => b.ephemeral_addresses@ == a.ephemeral_addresses@,
                        Some(k) => {
                            &&& b.ephemeral_addresses@[k] == (EphemeralAddress { seen: Some(tx_id), ..a.ephemeral_addresses@[k] })
                            &&& a.transparent_key is Some ==> b.ephemeral_addresses@.len() >= k + 1 + GAP_LIMIT
                        },
                    }
                } by {
                    if j != i as int { assert(self.accounts@[j] == before[j]); }
                }
                assert(before[i as int] == old(self).accounts@[i as int]);
                assert(old(self).accounts@[i as int].mark_succeeds(*address));
                assert forall|j: int| 0 <= j < i + 1 implies
                    (#[trigger] old(self).accounts@[j]).gap_kept() ==> self.accounts@[j].gap_kept() by {
                    if j != i as int { assert(self.accounts@[j] == before[j]); }
                }
            }
            i = i + 1;
        }
        Ok(())
    }

    /// The position of the first account with an address whose transparent
    /// receiver is `address`.
    pub fn position_with_receiver(&self, address: &TransparentAddress) -> (r: Option<usize>)
        ensures
            match r {
                Some(i) => i < self.accounts@.len() && first_account_with_receiver(self.accounts@, *address) == Some(i as int),
                None => first_account_with_receiver(self.accounts@, *address) is None,
            },
    {
        let mut i: usize = 0;
        while i < self.accounts.len()
            invariant
                i <= self.accounts@.len(),
                forall|j: int| 0 <= j < i ==> !has_receiver(#[trigger] self.accounts@[j], *address),
            decreases self.accounts@.len() - i,
        {
            let found = account_has_receiver(&self.accounts[i], address);
            if found {
                proof {
                    reveal(first_account_with_receiver);
                    let s = self.accounts@;
                    assert(has_receiver(s[i as int], *address));
                    assert(0 <= i < s.len() && has_receiver(s[i as int], *address)
                        && forall|j: int| 0 <= j < i ==> !has_receiver(#[trigger] s[j], *address));
                    let w = choose|w: int| 0 <= w < s.len() && has_receiver(#[trigger] s[w], *address)
                        && forall|j: int| 0 <= j < w ==> !has_receiver(#[trigger] s[j], *address);
                    assert(0 <= w < s.len() && has_receiver(s[w], *address)
                        && forall|j: int| 0 <= j < w ==> !has_receiver(#[trigger] s[j], *address));
                    if w < i as int {
                        assert(!has_receiver(s[w], *address));
                    }
                    if w > i as int {
                        assert(!has_receiver(s[i as int], *address));
                    }
                }
                return Some(i);
            }
            i = i + 1;
        }
        proof {
            reveal(first_account_with_receiver);
            reveal(first_account_with_ephemeral);
            reveal(first_account_with_legacy);
        }
        None
    }

    /// The position of the first account among whose ephemeral addresses
    /// `address` is.
    pub fn position_with_ephemeral(&self, address: &TransparentAddress) -> (r: Option<usize>)
        ensures
            match r {
                Some(i) => i < self.accounts@.len() && first_account_with_ephemeral(self.accounts@, *address) == Some(i as int),
                None => first_account_with_ephemeral(self.accounts@, *address) is None,
            },
    {
        let mut i: usize = 0;
        while i < self.accounts.len()
            invariant
                i <= self.accounts@.len(),
                forall|j: int| 0 <= j < i ==> (#[trigger] self.accounts@[j]).first_ephemeral_match(*address) is None,
            decreases self.accounts@.len() - i,
        {
            let found = self.accounts[i].find_ephemeral(address);
            if found.is_some() {
                proof {
                    reveal(first_account_with_ephemeral);
                    let s = self.accounts@;
                    let k = found->0 as int;
                    assert(s[i as int].ephemeral_addresses@[k].address@ == address@);
                    assert(s[i as int].first_ephemeral_match(*address) is Some);
                    assert(0 <= i < s.len() && s[i as int].first_ephemeral_match(*address) is Some
                        && forall|j: int| 0 <= j < i ==> (#[trigger] s[j]).first_ephemeral_match(*address) is None);
                    let w = choose|w: int| 0 <= w < s.len() && (#[trigger] s[w]).first_ephemeral_match(*address) is Some
                        && forall|j: int| 0 <= j < w ==> (#[trigger] s[j]).first_ephemeral_match(*address) is None;
                    assert(0 <= w < s.len() && s[w].first_ephemeral_match(*address) is Some
                        && forall|j: int| 0 <= j < w ==> (#[trigger] s[j]).first_ephemeral_match(*address) is None);
                    if w > i as int {
                        assert(s[i as int].first_ephemeral_match(*address) is None);
                    }
                    if w < i as int {
                        assert(s[w].first_ephemeral_match(*address) is None);
                    }
                }
                return Some(i);
            }
            proof {
                assert(self.accounts@[i as int].first_ephemeral_match(*address) is None);
            }
            i = i + 1;
        }
        proof {
            reveal(first_account_with_receiver);
            reveal(first_account_with_ephemeral);
            reveal(first_account_with_legacy);
        }
        None
    }

    /// The position of the first account whose legacy transparent address is
    /// `address`.
    pub fn position_with_legacy(&self, address: &TransparentAddress) -> (r: Option<usize>)
        ensures
            match r {
                Some(i) => i < self.accounts@.len() && first_account_with_legacy(self.accounts@, *address) == Some(i as int),
                None => first_account_with_legacy(self.accounts@, *address) is None,
            },
    {
        let hash = match address {
            TransparentAddress::PublicKeyHash(h) => *h,
            TransparentAddress::ScriptHash(_) => {
                proof {
                    reveal(first_account_with_legacy);
                }
                return None;
            },
        };
        let mut i: usize = 0;
        while i < self.accounts.len()
            invariant
                i <= self.accounts@.len(),
                *address == TransparentAddress::PublicKeyHash(hash),
                forall|j: int| 0 <= j < i ==> !has_legacy_address(#[trigger] self.accounts@[j], *address),
            decreases self.accounts@.len() - i,
        {
            let found = match &self.accounts[i].transparent_key {
                Some(k) => match legacy_address(k) {
                    Some(h) => crate::types::bytes_eq(h.as_slice(), hash.as_slice()),
                    None => false,
                },
                None => false,
            };
            if found {
                proof {
                    reveal(first_account_with_legacy);
                    let s = self.accounts@;
                    assert(has_legacy_address(s[i as int], *address));
                    let w = choose|w: int| 0 <= w < s.len() && has_legacy_address(#[trigger] s[w], *address)
                        && forall|j: int| 0 <= j < w ==> !has_legacy_address(#[trigger] s[j], *address);
                    if w > i as int {
                        assert(!has_legacy_address(s[i as int], *address));
                    }
                    if w < i as int {
                        assert(!has_legacy_address(s[w], *address));
                    }
                }
                return Some(i);
            }
            i = i + 1;
        }
        proof {
            reveal(first_account_with_legacy);
        }
        None
    }

    /// The first account, by id, that has an address with `address` as its
    /// transparent receiver; failing that, the first among whose ephemeral
    /// addresses `address` is; failing that, the first whose legacy transparent
    /// address (the first external address of its transparent key) it is.
    pub fn find_account_for_transparent_address(&self, address: &TransparentAddress) -> (r: Result<Option<AccountId>, Error>)
        ensures
            r == Ok::<Option<AccountId>, Error>(
                match first_account_with_receiver(self.accounts@, *address) {
                    Some(i) => Some(self.accounts@[i].account_id),
                    None => match first_account_with_ephemeral(self.accounts@, *address) {
                        Some(i) => Some(self.accounts@[i].account_id),
                        None => match first_account_with_legacy(self.accounts@, *address) {
                            Some(i) => Some(self.accounts@[i].account_id),
                            None => None,
                        },
                    },
                },
            ),
    {
        if let Some(i) = self.position_with_receiver(address) {
            return Ok(Some(self.accounts[i].account_id));
        }
        if let Some(i) = self.position_with_ephemeral(address) {
            return Ok(Some(self.accounts[i].account_id));
        }
        if let Some(i) = self.position_with_legacy(address) {
            return Ok(Some(self.accounts[i].account_id));
        }
        Ok(None)
    }

    /// The birthday height of an account; fails with `AccountUnknown` where no
    /// account has the id.
    pub fn get_account_birthday(&self, account_id: AccountId) -> (r: Result<BlockHeight, Error>)
        requires
            self.wf(),
        ensures
            match r {
                Ok(h) => exists|i: int| 0 <= i < self.accounts@.len() && #[trigger] self.accounts@[i].account_id == account_id
                    && h == self.accounts@[i].birthday.spec_height(),
                Err(e) => !self.has(account_id) && (e matches Error::AccountUnknown(id) && id == account_id),
            },
    {
        match self.position(account_id) {
            Some(i) => Ok(self.accounts[i].birthday.height()),
            None => Err(Error::AccountUnknown(account_id)),
        }
    }

    /// The earliest birthday height among the accounts; `None` without accounts.
    pub fn get_wallet_birthday(&self) -> (r: Option<BlockHeight>)
        requires
            self.wf(),
        ensures
            r is None <==> self.accounts@.len() == 0,
            r matches Some(h) ==> {
                &&& exists|i: int| 0 <= i < self.accounts@.len() && h == (#[trigger] self.accounts@[i]).birthday.spec_height()
                &&& forall|i: int| 0 <= i < self.accounts@.len() ==> h <= (#[trigger] self.accounts@[i]).birthday.spec_height()
            },
    {
        let mut best: Option<BlockHeight> = None;
        let mut i: usize = 0;
        while i < self.accounts.len()
            invariant
                i <= self.accounts@.len(),
                self.wf(),
                best is None <==> i == 0,
                best matches Some(h) ==> {
                    &&& exists|j: int| 0 <= j < i && h == (#[trigger] self.accounts@[j]).birthday.spec_height()
                    &&& forall|j: int| 0 <= j < i ==> h <= (#[trigger] self.accounts@[j]).birthday.spec_height()
                },
            decreases self.accounts@.len() - i,
        {
            let h = self.accounts[i].birthday.height();
            best = match best {
                Some(b) => if h < b { Some(h) } else { Some(b) },
                None => Some(h),
            };
            i = i + 1;
        }
        best
    }
}

/// Whether some address of the account has `address` as its transparent receiver.
pub fn account_has_receiver(a: &Account, address: &TransparentAddress) -> (r: bool)
    ensures
        r == has_receiver(*a, *address),
{
    let mut k: usize = 0;
    while k < a.addresses.len()
        invariant
            k <= a.addresses@.len(),
            forall|x: int| 0 <= x < k ==> !receiver_is(#[trigger] a.addresses@[x], *address),
        decreases a.addresses@.len() - k,
    {
        let hit = match &a.addresses[k].transparent_receiver {
            Some(t) => *t == *address,
            None => false,
        };
        if hit {
            assert(receiver_is(a.addresses@[k as int], *address));
            return true;
        }
        k = k + 1;
    }
    false
}

/// The address entry has `address` as its transparent receiver.
pub open spec fn receiver_is(e: AddressEntry, address: TransparentAddress) -> bool {
    e.transparent_receiver is Some && e.transparent_receiver->0@ == address@
}

/// Some address of the account has `address` as its transparent receiver.
pub open spec fn has_receiver(a: Account, address: TransparentAddress) -> bool {
    exists|x: int| 0 <= x < a.addresses@.len() && receiver_is(#[trigger] a.addresses@[x], address)
}

/// The position of the first account with an address whose transparent receiver is
/// `address`.
#[verifier::opaque]
pub open spec fn first_account_with_receiver(s: Seq<Account>, address: TransparentAddress) -> Option<int> {
    if exists|i: int| 0 <= i < s.len() && has_receiver(#[trigger] s[i], address) {
        Some(choose|i: int| 0 <= i < s.len() && has_receiver(#[trigger] s[i], address)
            && forall|j: int| 0 <= j < i ==> !has_receiver(#[trigger] s[j], address))
    } else {
        None
    }
}

/// The position of the first account among whose ephemeral addresses `address` is.
#[verifier::opaque]
pub open spec fn first_account_with_ephemeral(s: Seq<Account>, address: TransparentAddress) -> Option<int> {
    if exists|i: int| 0 <= i < s.len() && (#[trigger] s[i]).first_ephemeral_match(address) is Some {
        Some(choose|i: int| 0 <= i < s.len() && (#[trigger] s[i]).first_ephemeral_match(address) is Some
            && forall|j: int| 0 <= j < i ==> (#[trigger] s[j]).first_ephemeral_match(address) is None)
    } else {
        None
    }
}

/// The account key's legacy transparent address: the first external address its
/// key gives, from child index `i` on (as a public key hash).
pub open spec fn legacy_from(key: Seq<u8>, i: int) -> Option<Seq<u8>>
    decreases 0x8000_0000 - i,
{
    if i < 0 || i >= 0x8000_0000 {
        None
    } else {
        match spec_external_address(key, i as u32) {
            Some(h) => Some(h),
            None => legacy_from(key, i + 1),
        }
    }
}

/// The account's legacy transparent address (the first external address of its
/// transparent key) is `address`.
pub open spec fn has_legacy_address(a: Account, address: TransparentAddress) -> bool {
    &&& a.transparent_key matches Some(k)
    &&& address matches TransparentAddress::PublicKeyHash(h) && legacy_from(k@, 0) == Some(h@)
}

/// The position of the first account whose legacy transparent address is `address`.
#[verifier::opaque]
pub open spec fn first_account_with_legacy(s: Seq<Account>, address: TransparentAddress) -> Option<int> {
    if exists|i: int| 0 <= i < s.len() && has_legacy_address(#[trigger] s[i], address) {
        Some(choose|i: int| 0 <= i < s.len() && has_legacy_address(#[trigger] s[i], address)
            && forall|j: int| 0 <= j < i ==> !has_legacy_address(#[trigger] s[j], address))
    } else {
        None
    }
}

/// The legacy transparent address of a transparent account key, as
/// [`legacy_from`] says: the first external address it gives.
pub fn legacy_address(key: &[u8; 65]) -> (r: Option<[u8; 20]>)
    ensures
        match r {
            Some(h) => legacy_from(key@, 0) == Some(h@),
            None => legacy_from(key@, 0) is None,
        },
{
    let mut i: u32 = 0;
    while i < 0x8000_0000u32
        invariant
            i <= 0x8000_0000u32,
            legacy_from(key@, 0) == legacy_from(key@, i as int),
        decreases 0x8000_0000u32 - i,
    {
        match derive_external_address(key, i) {
            Some(h) => return Some(h),
            None => {},
        }
        i = i + 1;
    }
    None
}

/// Reserving keeps the gap limit: where every seen ephemeral address has
/// `GAP_LIMIT` addresses stored past it, it still does after a reservation that
/// succeeds, which only adds unseen addresses.
pub proof fn lemma_reserve_keeps_gap(old: Account, next: u32, new: Account)
    requires
        old.gap_kept(),
        Account::reserve_state(&old, next, &new, Ok(())),
    ensures
        new.gap_kept(),
        old.transparent_key is Some ==> new.ephemeral_addresses@.len() >= next + GAP_LIMIT,
{
    let len = old.ephemeral_addresses@.len() as int;
    match old.transparent_key {
        None => {},
        Some(k) => {
            assert forall|i: int| 0 <= i < new.ephemeral_addresses@.len()
                && (#[trigger] new.ephemeral_addresses@[i]).seen is Some
                implies i + 1 + GAP_LIMIT <= new.ephemeral_addresses@.len() by {
                if i < len {
                    assert(new.ephemeral_addresses@.take(len)[i] == new.ephemeral_addresses@[i]);
                    assert(old.ephemeral_addresses@[i].seen is Some);
                }
            }
        },
    }
}

/// Marking an ephemeral address as seen (or used) in a transaction, then
/// reserving past it, keeps the gap limit: the marked address gets `GAP_LIMIT`
/// addresses stored past it, and the others keep theirs.
pub proof fn lemma_mark_keeps_gap(old: Account, i: int, marked: EphemeralAddress, mid: Account, new: Account)
    requires
        old.wf(),
        old.gap_kept(),
        0 <= i < old.ephemeral_addresses@.len(),
        i + 1 <= u32::MAX,
        mid.same_but_ephemeral(&old),
        mid.ephemeral_addresses@ == old.ephemeral_addresses@.update(i, marked),
        Account::reserve_state(&mid, (i + 1) as u32, &new, Ok(())),
    ensures
        new.gap_kept(),
{
    let len = mid.ephemeral_addresses@.len() as int;
    let k = old.transparent_key->0;
    assert(old.transparent_key is Some);
    assert(new.ephemeral_addresses@.len() >= i + 1 + GAP_LIMIT);
    assert forall|j: int| 0 <= j < new.ephemeral_addresses@.len()
        && (#[trigger] new.ephemeral_addresses@[j]).seen is Some
        implies j + 1 + GAP_LIMIT <= new.ephemeral_addresses@.len() by {
        if j < len {
            assert(new.ephemeral_addresses@.take(len)[j] == new.ephemeral_addresses@[j]);
            if j != i {
                assert(old.ephemeral_addresses@[j].seen is Some);
            }
        }
    }
}

/// A reservation succeeds exactly as [`Account::reserve_succeeds`] says.
pub proof fn lemma_reserve_outcome(old: Account, next: u32, new: Account, r: Result<(), Error>)
    requires
        old.ephemeral_wf(),
        Account::reserve_state(&old, next, &new, r),
    ensures
        r is Ok <==> old.reserve_succeeds(next),
{
    let len = old.ephemeral_addresses@.len() as int;
    match old.transparent_key {
        None => {},
        Some(k) => {
            let stored = new.ephemeral_addresses@.len() as int;
            if r is Ok {
                assert forall|j: int| len <= j < reserve_end(len, next)
                    implies #[trigger] spec_ephemeral_address(k@, j as u32) is Some by {
                    assert(ephemeral_matches_key(k, new.ephemeral_addresses@[j], j));
                }
            } else if spec_ephemeral_ivk_derivable(k@) {
                assert(len <= stored < reserve_end(len, next));
                assert(spec_ephemeral_address(k@, stored as u32) is None);
            }
        },
    }
}

} // verus!
