//! The closed set of failure kinds that wallet operations report.

use vstd::prelude::*;

verus! {

/// Every fallible wallet operation reports one of these kinds, so callers can
/// match on the kind of failure instead of inspecting message text.
#[derive(Clone, Copy, Debug, PartialEq, Eq, Structural)]
pub enum WalletError {
    /// The backing store (word list or record file) could not be read or written.
    Io,
    /// A document or a stored field is malformed: bad record layout, bad hex,
    /// or a malformed externally supplied address string.
    Parse,
    /// A public-key encoding is missing the expected uncompressed-point marker.
    CryptoFormat,
    /// The remote ledger could not be reached or an RPC call failed.
    Network,
    /// A requested transfer value is not strictly below the current balance.
    InsufficientFunds,
    /// A numeric amount supplied by the caller could not be understood.
    Input,
}

impl WalletError {
    /// A short human-readable description of the failure kind.
    pub fn describe(&self) -> (r: &'static str)
        ensures
            r@.len() > 0,
    {
        proof {
            reveal_strlit("file could not be read or written");
            reveal_strlit("malformed document or field");
            reveal_strlit("public key encoding is corrupt");
            reveal_strlit("ledger connection or call failed");
            reveal_strlit("insufficient funds for the requested transfer");
            reveal_strlit("unparsable numeric amount");
        }
        match self {
            WalletError::Io => "file could not be read or written",
            WalletError::Parse => "malformed document or field",
            WalletError::CryptoFormat => "public key encoding is corrupt",
            WalletError::Network => "ledger connection or call failed",
            WalletError::InsufficientFunds => "insufficient funds for the requested transfer",
            WalletError::Input => "unparsable numeric amount",
        }
    }
}

} // verus!
