//! Requests for transaction data that the wallet hands to its caller, in the
//! order they were made.
use vstd::prelude::*;
use crate::types::{BlockHeight, TransparentAddress, TxId};

verus! {

/// Data about a transaction, or about an address, that the wallet needs from the
/// chain.
#[derive(Clone, Copy, Debug)]
pub enum TransactionDataRequest {
    /// The chain's view of the transaction: mined, not mined, or unknown.
    GetStatus(TxId),
    /// The complete raw data of the transaction.
    Enhancement(TxId),
    /// The transactions that involve the address within the block range (open at
    /// the end where none is given).
    SpendsFromAddress {
        address: TransparentAddress,
        block_range_start: BlockHeight,
        block_range_end: Option<BlockHeight>,
    },
}

/// The queue of pending requests, oldest first.
pub struct TransactionDataRequestQueue(pub Vec<TransactionDataRequest>);

impl View for TransactionDataRequestQueue {
    type V = Seq<TransactionDataRequest>;

    open spec fn view(&self) -> Seq<TransactionDataRequest> {
        self.0@
    }
}

impl TransactionDataRequestQueue {
    /// An empty queue.
    pub fn new() -> (r: Self)
        ensures
            r@ == Seq::<TransactionDataRequest>::empty(),
    {
        TransactionDataRequestQueue(Vec::new())
    }

    /// Queues a request for the status of the transaction, behind those already
    /// queued.
    pub fn queue_status_retrieval(&mut self, txid: &TxId)
        ensures
            final(self)@ == old(self)@.push(TransactionDataRequest::GetStatus(*txid)),
    {
        self.0.push(TransactionDataRequest::GetStatus(*txid));
    }

    /// The queued requests, oldest first.
    pub fn requests(&self) -> (r: &Vec<TransactionDataRequest>)
        ensures
            r@ == self@,
    {
        &self.0
    }
}

} // verus!
