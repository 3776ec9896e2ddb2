//! An in-memory wallet store for Zcash light clients: the tables a wallet keeps
//! (accounts, transactions, received and sent notes, nullifiers, blocks, scan
//! queue) together with the rules by which scanning and sending update them.
use vstd::prelude::*;

pub mod proto;
pub mod text;
pub mod types;
pub mod external;
pub mod assoc;
pub mod error;
pub mod notes;
pub mod transaction;
pub mod nullifier;
pub mod sent;
pub mod account;
pub mod transparent;
pub mod block;
pub mod scanning;
pub mod data_requests;
pub mod wallet;
pub mod wallet_write;
pub mod checkpoints;
pub mod shard_tree;
pub mod proto_convert;
pub mod scan;
pub mod tx_read;
pub mod create;
pub mod reads;
pub mod utxo;
pub mod ufvk_bytes;
pub mod chain_tip;

verus! {

/// The maximum number of blocks the wallet is allowed to rewind. Block data deeper
/// than this delta from the chain tip may be pruned.
pub const PRUNING_DEPTH: u32 = 100;

/// The number of blocks to verify ahead when the chain tip is updated.
pub const VERIFY_LOOKAHEAD: u32 = 10;

/// The number of ephemeral transparent addresses kept reserved beyond the last one
/// that was used or seen.
pub const GAP_LIMIT: u32 = 20;

} // verus!
