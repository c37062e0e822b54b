//! Deterministic signing-message constructions for a UTXO-cell blockchain.
//!
//! The crate builds the byte stream that a lock script authenticates for a
//! transaction under one script group, in two variants: `cighash_all`, which
//! covers the transaction hash, every input cell, the first witness of the
//! group (with its lock slot omitted) and the remaining group witnesses; and
//! `ckb_tx_message_all`, which additionally covers the witnesses that have no
//! matching input cell.  Each variant has a constructor that walks a fully
//! materialized mock transaction and a streaming constructor that fetches
//! payloads in fixed-size chunks through an abstract reader, as an on-chain
//! script does.  Both are proved to emit exactly the same byte sequence.

pub mod assertion;
pub mod bytes_util;
pub mod cells;
pub mod cighash_all_from_mock_tx;
pub mod cighash_all_in_ckb_vm;
pub mod ckb_tx_message_all_from_mock_tx;
pub mod ckb_tx_message_all_in_ckb_vm;
pub mod codec;
pub mod digest;
pub mod errors;
pub mod group;
pub mod laws;
pub mod message;
pub mod mock_reader;
pub mod model;
pub mod signer;
pub mod sink;
pub mod stream;
pub mod witness;
