//! A wallet-identity core with machine-checked contracts: deterministic
//! keypair derivation from a seed phrase, on-chain address derivation, a
//! durable wallet record whose save/load round trip is proved exact, and the
//! decision rules of a value transfer.
//!
//! File and network I/O stay outside: a host hands plain values in — word
//! lists, typed recovery input, document texts, balances — and carries the
//! results to disk or to the ledger.

use vstd::prelude::*;

pub mod address;
pub mod errors;
pub mod hexutil;
pub mod keys;
pub mod phrase;
pub mod recordjson;
pub mod transfer;
pub mod units;
pub mod wallet;

verus! {

} // verus!
