//! Creating accounts from a seed: each new account takes the ZIP 32 account index
//! after the highest one already derived from the same seed.
use vstd::prelude::*;
use crate::account::{Account, AccountBirthday, AccountSource, Accounts};
use crate::error::Error;
use crate::external::{derive_viewing_key, seed_fingerprint, spec_derived_viewing_key, spec_seed_fingerprint};
use crate::proto::AccountPurpose;
use crate::types::{bytes_eq, AccountId};
use crate::wallet::MemoryWalletDb;

verus! {

/// The ZIP 32 account index of an account derived from the seed with the given
/// fingerprint; `None` for any other account.
pub open spec fn derived_index(a: Account, fingerprint: Seq<u8>) -> Option<u32> {
    match a.kind {
        AccountSource::Derived { seed_fingerprint, account_index } =>
            if seed_fingerprint@ == fingerprint { Some(account_index) } else { None },
        _ => None,
    }
}

/// The highest ZIP 32 account index among the accounts derived from the seed with
/// the given fingerprint; `None` where there is none.
pub open spec fn max_derived_index(s: Seq<Account>, fingerprint: Seq<u8>) -> Option<u32>
    decreases s.len(),
{
    if s.len() == 0 {
        None
    } else {
        let rest = max_derived_index(s.drop_last(), fingerprint);
        match derived_index(s.last(), fingerprint) {
            None => rest,
            Some(i) => match rest {
                None => Some(i),
                Some(m) => Some(if i > m { i } else { m }),
            },
        }
    }
}

/// The account index a new account takes: 0 for the first one from a seed, else
/// the one after the highest; `None` past the last ZIP 32 account index.
pub open spec fn next_zip32_index(max: Option<u32>) -> Option<u32> {
    match max {
        None => Some(0),
        Some(i) => if i < 0x7FFF_FFFF { Some((i + 1) as u32) } else { None },
    }
}

impl Accounts {
    /// The highest ZIP 32 account index among the accounts derived from the seed
    /// with the given fingerprint, as [`max_derived_index`] says.
    pub fn max_zip32_account_index(&self, fingerprint: &[u8; 32]) -> (r: Option<u32>)
        ensures
            r == max_derived_index(self.accounts@, fingerprint@),
    {
        let mut best: Option<u32> = None;
        let mut i: usize = 0;
        while i < self.accounts.len()
            invariant
                i <= self.accounts@.len(),
                best == max_derived_index(self.accounts@.take(i as int), fingerprint@),
            decreases self.accounts@.len() - i,
        {
            assert(self.accounts@.take(i + 1).drop_last() =~= self.accounts@.take(i as int));
            let a = &self.accounts[i];
            match a.kind {
                AccountSource::Derived { seed_fingerprint, account_index } => {
                    if bytes_eq(seed_fingerprint.as_slice(), fingerprint.as_slice()) {
                        best = match best {
                            None => Some(account_index),
                            Some(m) => Some(if account_index > m { account_index } else { m }),
                        };
                    }
                },
                _ => {},
            }
            i = i + 1;
        }
        assert(self.accounts@.take(i as int) =~= self.accounts@);
        best
    }
}

impl MemoryWalletDb {
    /// Creates a spending account from a seed, at the ZIP 32 account index after
    /// the highest one already derived from that seed (0 for the first). Gives its
    /// id and its unified full viewing key, encoded. Fails with `InvalidSeedLength`
    /// where the seed is not 32 to 252 bytes long, `AccountOutOfRange` past the last
    /// account index and `KeyDerivation` where no key can be derived, changing
    /// nothing; else as [`crate::account::Accounts::new_account`] says.
    pub fn create_account(&mut self, seed: &[u8], birthday: AccountBirthday) -> (r: Result<(AccountId, String), Error>)
        requires
            old(self).wf(),
            old(self).accounts.nonce < u32::MAX,
            birthday.wf(),
        ensures
            final(self).wf(),
            final(self).scan_state() == old(self).scan_state(),
            !(32 <= seed@.len() <= 252) ==> (r matches Err(e) && e is InvalidSeedLength
                && final(self).accounts == old(self).accounts),
            32 <= seed@.len() <= 252 ==> match next_zip32_index(
                max_derived_index(old(self).accounts.accounts@, spec_seed_fingerprint(seed@))) {
                None => r matches Err(e) && e is AccountOutOfRange && final(self).accounts == old(self).accounts,
                Some(index) => match spec_derived_viewing_key(old(self).network, seed@, index) {
                    None => r matches Err(e) && e is KeyDerivation && final(self).accounts == old(self).accounts,
                    Some(key) => {
                        &&& final(self).accounts.nonce == old(self).accounts.nonce + 1
                        &&& match r {
                            Ok((id, k)) => {
                                &&& k@ == key
                                &&& id.0 == final(self).accounts.nonce
                                &&& final(self).accounts.accounts@.drop_last() == old(self).accounts.accounts@
                                &&& final(self).accounts.accounts@.len() == old(self).accounts.accounts@.len() + 1
                                &&& final(self).accounts.accounts@.last().account_id == id
                                &&& final(self).accounts.accounts@.last().kind matches AccountSource::Derived {
                                    seed_fingerprint, account_index }
                                    && seed_fingerprint@ == spec_seed_fingerprint(seed@) && account_index == index
                                &&& final(self).accounts.accounts@.last().purpose == AccountPurpose::Spending
                                &&& final(self).accounts.accounts@.last().viewing_key@ == key
                            },
                            Err(e) => final(self).accounts.accounts@ == old(self).accounts.accounts@
                                && (e is AddressGeneration || e is KeyDerivation),
                        }
                    },
                },
            },
    {
        let fingerprint = match seed_fingerprint(seed) {
            Some(f) => f,
            None => return Err(Error::InvalidSeedLength),
        };
        let index = match self.accounts.max_zip32_account_index(&fingerprint) {
            None => 0,
            Some(m) => if m < 0x7FFF_FFFF { m + 1 } else { return Err(Error::AccountOutOfRange) },
        };
        let key = match derive_viewing_key(self.network, seed, index) {
            Some(k) => k,
            None => return Err(Error::KeyDerivation("no unified spending key derives from the seed".to_string())),
        };
        let kind = AccountSource::Derived { seed_fingerprint: fingerprint, account_index: index };
        match self.accounts.new_account(kind, key.clone(), birthday, AccountPurpose::Spending, self.network) {
            Ok(id) => Ok((id, key)),
            Err(e) => Err(e),
        }
    }
}

} // verus!
