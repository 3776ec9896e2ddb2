//! Reads of the wallet's accounts and sent notes: current addresses, viewing keys,
//! the account a viewing key belongs to, and the history of sent transactions.
use vstd::prelude::*;
use crate::account::Account;
use crate::error::Error;
use crate::external::{find_address, spec_find_address};
use crate::text::str_equals;
use crate::types::{AccountId, TxId};
use crate::wallet::MemoryWalletDb;

verus! {

/// Whether the encoded viewing key's default address (the first it gives from
/// diversifier index 0) is the encoded address.
pub open spec fn default_address_is(network: crate::types::Network, viewing_key: Seq<char>, address: Seq<char>) -> bool {
    spec_find_address(network, viewing_key, 0) matches Some(f) && f.1 == address
}

impl MemoryWalletDb {
    /// The address generated last for the account, encoded; `None` where no account
    /// has the id. Never fails.
    pub fn get_current_address(&self, account_id: AccountId) -> (r: Result<Option<String>, Error>)
        requires
            self.wf(),
        ensures
            match r {
                Ok(Some(a)) => exists|i: int| 0 <= i < self.accounts.accounts@.len()
                    && (#[trigger] self.accounts.accounts@[i]).account_id == account_id
                    && a@ == self.accounts.accounts@[i].addresses@.last().address@,
                Ok(None) => !self.accounts.has(account_id),
                Err(_) => false,
            },
    {
        match self.accounts.get(account_id) {
            Some(a) => {
                proof {
                    let i = choose|i: int| 0 <= i < self.accounts.accounts@.len() && self.accounts.accounts@[i] == *a;
                    assert(self.accounts.accounts@[i].wf());
                }
                Ok(Some(a.current_address().address.clone()))
            },
            None => Ok(None),
        }
    }

    /// The unified full viewing key of every account, encoded, under its id, in the
    /// order of the accounts.
    pub fn get_unified_full_viewing_keys(&self) -> (r: Vec<(AccountId, String)>)
        ensures
            r@.len() == self.accounts.accounts@.len(),
            forall|i: int| 0 <= i < r@.len() ==> (#[trigger] r@[i]).0 == self.accounts.accounts@[i].account_id
                && r@[i].1@ == self.accounts.accounts@[i].viewing_key@,
    {
        let mut r: Vec<(AccountId, String)> = Vec::new();
        let mut i: usize = 0;
        while i < self.accounts.accounts.len()
            invariant
                i <= self.accounts.accounts@.len(),
                r@.len() == i,
                forall|j: int| 0 <= j < i ==> (#[trigger] r@[j]).0 == self.accounts.accounts@[j].account_id
                    && r@[j].1@ == self.accounts.accounts@[j].viewing_key@,
            decreases self.accounts.accounts@.len() - i,
        {
            let a = &self.accounts.accounts[i];
            r.push((a.account_id, a.viewing_key.clone()));
            i = i + 1;
        }
        r
    }

    /// The first account whose viewing key has the same default address as the
    /// given encoded viewing key; `None` where there is none. Fails with
    /// `AddressGeneration` where the given key gives no default address.
    pub fn get_account_for_ufvk(&self, viewing_key: &str) -> (r: Result<Option<&Account>, Error>)
        ensures
            match spec_find_address(self.network, viewing_key@, 0) {
                None => r matches Err(e) && e is AddressGeneration,
                Some(target) => match r {
                    Ok(Some(a)) => exists|i: int| #![trigger self.accounts.accounts@[i]]
                        0 <= i < self.accounts.accounts@.len()
                        && self.accounts.accounts@[i] == *a
                        && default_address_is(self.network, a.viewing_key@, target.1)
                        && forall|j: int| 0 <= j < i ==> !default_address_is(
                            self.network, (#[trigger] self.accounts.accounts@[j]).viewing_key@, target.1),
                    Ok(None) => forall|j: int| 0 <= j < self.accounts.accounts@.len() ==> !default_address_is(
                        self.network, (#[trigger] self.accounts.accounts@[j]).viewing_key@, target.1),
                    Err(_) => false,
                },
            },
    {
        let target = match find_address(self.network, viewing_key, 0) {
            Some((_, a, _)) => a,
            None => return Err(Error::AddressGeneration("no default address for the viewing key".to_string())),
        };
        let mut i: usize = 0;
        while i < self.accounts.accounts.len()
            invariant
                i <= self.accounts.accounts@.len(),
                spec_find_address(self.network, viewing_key@, 0) matches Some(t) && t.1 == target@,
                forall|j: int| 0 <= j < i ==> !default_address_is(
                    self.network, (#[trigger] self.accounts.accounts@[j]).viewing_key@, target@),
            decreases self.accounts.accounts@.len() - i,
        {
            let a = &self.accounts.accounts[i];
            match find_address(self.network, a.viewing_key.as_str(), 0) {
                Some((_, own, _)) => {
                    if str_equals(own.as_str(), target.as_str()) {
                        return Ok(Some(a));
                    }
                },
                None => {},
            }
            i = i + 1;
        }
        Ok(None)
    }

    /// The sent notes' accounts and transactions, in the order of the sent note
    /// table.
    pub fn get_tx_history(&self) -> (r: Vec<(AccountId, TxId)>)
        ensures
            r@.len() == self.sent_notes.0.entries@.len(),
            forall|i: int| 0 <= i < r@.len() ==> (#[trigger] r@[i]).0 == self.sent_notes.0.entries@[i].1.from_account_id
                && r@[i].1@ == self.sent_notes.0.entries@[i].0@.0,
    {
        let entries = &self.sent_notes.0.entries;
        let mut r: Vec<(AccountId, TxId)> = Vec::new();
        let mut i: usize = 0;
        while i < entries.len()
            invariant
                i <= entries@.len(),
                r@.len() == i,
                forall|j: int| 0 <= j < i ==> (#[trigger] r@[j]).0 == entries@[j].1.from_account_id
                    && r@[j].1@ == entries@[j].0@.0,
            decreases entries@.len() - i,
        {
            let txid = *entries[i].0.txid();
            r.push((entries[i].1.from_account_id, txid));
            i = i + 1;
        }
        r
    }
}

} // verus!
