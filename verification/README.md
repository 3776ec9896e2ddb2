# zcash_client_memory

An in-memory wallet store for Zcash light clients, written in Verus: the
wallet's tables (accounts and their addresses, transactions, received and sent
notes, nullifiers, blocks, the scan queue) and the rules by which scanning,
sending and reading update and query them, each with a contract that Verus
proves.

Layout:

- `src/` — the verified library. `wallet.rs` holds the wallet and its queries,
  `reads.rs` and `tx_read.rs` more of them, `wallet_write.rs` what scanning and
  sending do to it, `create.rs` accounts created from a seed, `utxo.rs` transparent
  outputs received, `chain_tip.rs` the scan queue on a new chain tip, `scan.rs`
  the decisions of scanning cached blocks, `ufvk_bytes.rs` viewing keys as bytes, `account.rs` accounts, addresses and ephemeral
  addresses, `notes.rs`, `sent.rs`, `transaction.rs`, `nullifier.rs`,
  `transparent.rs`, `block.rs` the tables, `scanning.rs` and `checkpoints.rs` the
  scan ranges and commitment tree checkpoints, `shard_tree.rs` the byte format of
  note commitment tree shards, `proto.rs` and `proto_convert.rs` the protobuf
  records and the conversions to and from them. `external.rs` holds every call
  into the Zcash crates, each behind a contract that is trusted, not proved.
- `tests/` — scenario tests of scanning and sending, and unit tests.
- `app/` — the protobuf wire encoding of the records, with `prost`.

What is not here: the wallet as a whole is not serialized. The serde adapters
by which the wallet's tables could be written out (for outside types such as
keys, frontiers and shard stores) are not reproduced; only the protobuf records
of notes, nullifiers, recipients and sent notes, the byte form of commitment
tree shards and of viewing keys have a format here.
