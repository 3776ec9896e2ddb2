//! Reading back a stored transaction: the consensus branch under which its bytes
//! are parsed is chosen from what the wallet knows of it.
use vstd::prelude::*;
use crate::error::Error;
use crate::external::{
    branch_id_for_height, read_transaction, rebuild_under_branch, spec_branch_id_for_height,
    spec_parsed_transaction, spec_rebuild_succeeds, spec_rebuilt_transaction, spec_stated_expiry,
    spec_transaction_readable,
};
use crate::transaction::TransactionEntry;
use crate::types::{BlockHeight, TransactionStatus, TxId};
use crate::wallet::MemoryWalletDb;

verus! {

/// The height whose consensus branch a stored transaction is read under: its mined
/// height, else its known non-zero expiry height (a transaction is never mined
/// across a network upgrade, so the expiry height lies in the same epoch); `None`
/// where neither is known.
pub open spec fn branch_height(status: TransactionStatus, expiry: Option<BlockHeight>) -> Option<BlockHeight> {
    match status {
        TransactionStatus::Mined(h) => Some(h),
        _ => if expiry matches Some(h) && h > 0 { expiry } else { None },
    }
}

/// The stored bytes of a transaction; none where they are not known.
pub open spec fn raw_bytes(e: TransactionEntry) -> Seq<u8> {
    match e.raw {
        Some(v) => v@,
        None => Seq::empty(),
    }
}

/// The height whose consensus branch a stored transaction is read under, as
/// [`branch_height`] says.
pub fn transaction_branch_height(status: TransactionStatus, expiry: Option<BlockHeight>) -> (r: Option<BlockHeight>)
    ensures
        r == branch_height(status, expiry),
{
    match status {
        TransactionStatus::Mined(h) => Some(h),
        _ => match expiry {
            Some(h) => if h > 0 { Some(h) } else { None },
            None => None,
        },
    }
}

/// Where neither a mined height nor an expiry height is known, the transaction is
/// first parsed under a placeholder branch; the expiry height it states then
/// decides: a non-zero one gives the branch, zero leaves it unknown.
pub fn parsed_branch_height(stated_expiry: BlockHeight) -> (r: Result<BlockHeight, Error>)
    ensures
        match r {
            Ok(h) => stated_expiry > 0 && h == stated_expiry,
            Err(e) => stated_expiry == 0 && e is CorruptedData,
        },
{
    if stated_expiry > 0 {
        Ok(stated_expiry)
    } else {
        Err(Error::CorruptedData(
            "Consensus branch ID not known, cannot parse this transaction until it is mined".to_string(),
        ))
    }
}

impl MemoryWalletDb {
    /// The stored transaction, parsed; `None` where the transaction is unknown. Its
    /// bytes are read under the branch of [`branch_height`]. Where that is unknown,
    /// they are first read under the placeholder branch (number 0); the expiry
    /// height they state then decides as [`parsed_branch_height`] says, and the
    /// transaction is rebuilt under the branch of that height. A read or rebuild
    /// that fails gives `Io`.
    pub fn get_transaction(&self, txid: TxId) -> (r: Result<Option<zcash_primitives::transaction::Transaction>, Error>)
        requires
            self.tx_table.wf(),
        ensures
            match self.tx_table.entry(txid@) {
                None => r matches Ok(None),
                Some(e) => {
                    &&& r is Ok ==> r->Ok_0 is Some
                    &&& match branch_height(e.tx_status, e.expiry_height) {
                        Some(h) => {
                            &&& (r is Ok <==> spec_transaction_readable(raw_bytes(e), spec_branch_id_for_height(self.network, h)))
                            &&& r matches Ok(Some(t)) ==> t == spec_parsed_transaction(
                                raw_bytes(e),
                                spec_branch_id_for_height(self.network, h),
                            )
                            &&& r is Err ==> r->Err_0 is Io
                        },
                        None => if !spec_transaction_readable(raw_bytes(e), 0) {
                            r matches Err(er) && er is Io
                        } else if spec_stated_expiry(raw_bytes(e), 0) == 0 {
                            r matches Err(er) && er is CorruptedData
                        } else {
                            &&& (r is Ok <==> spec_rebuild_succeeds(
                                raw_bytes(e),
                                spec_branch_id_for_height(self.network, spec_stated_expiry(raw_bytes(e), 0)),
                            ))
                            &&& r matches Ok(Some(t)) ==> t == spec_rebuilt_transaction(
                                raw_bytes(e),
                                spec_branch_id_for_height(self.network, spec_stated_expiry(raw_bytes(e), 0)),
                            )
                            &&& r is Err ==> r->Err_0 is Io
                        },
                    }
                },
            },
    {
        let entry = match self.tx_table.get(&txid) {
            Some(e) => e,
            None => return Ok(None),
        };
        let empty: Vec<u8> = Vec::new();
        let raw: &[u8] = match &entry.raw {
            Some(v) => v.as_slice(),
            None => empty.as_slice(),
        };
        match transaction_branch_height(entry.tx_status, entry.expiry_height) {
            Some(h) => {
                let branch = branch_id_for_height(self.network, h);
                match read_transaction(raw, branch) {
                    Ok((tx, _)) => Ok(Some(tx)),
                    Err(msg) => Err(Error::Io(msg)),
                }
            },
            None => {
                let stated = match read_transaction(raw, 0) {
                    Ok((_, e)) => e,
                    Err(msg) => return Err(Error::Io(msg)),
                };
                let h = parsed_branch_height(stated)?;
                let branch = branch_id_for_height(self.network, h);
                match rebuild_under_branch(raw, branch) {
                    Ok(tx) => Ok(Some(tx)),
                    Err(msg) => Err(Error::Io(msg)),
                }
            },
        }
    }
}

} // verus!
