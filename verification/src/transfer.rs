//! Building a value transfer: destination-address parsing and the balance
//! precondition.
//!
//! A transfer plan comes into being only when the requested value is strictly
//! below the current balance and the destination parses; without a plan,
//! nothing can be signed or submitted, so an insufficient balance performs no
//! network write at all.

use vstd::prelude::*;

use crate::errors::WalletError;
use crate::hexutil::{all_hex_digits, hex_decode, hex_decode_of};

verus! {

/// Whether a string is a textual on-chain address: `0x` then 40 hexadecimal
/// characters, 42 in all.
pub open spec fn valid_address_chars(s: Seq<char>) -> bool {
    s.len() == 42 && s[0] == '0' && s[1] == 'x' && all_hex_digits(s.subrange(2, 42))
}

/// Reads a textual address into its 20 raw bytes.
///
/// Succeeds exactly on the `0x`-prefixed 42-character hexadecimal form; any
/// other shape is a malformed externally supplied address.
pub fn parse_address(s: &str) -> (r: Result<Vec<u8>, WalletError>)
    ensures
        r is Ok <==> valid_address_chars(s@),
        r matches Ok(b) ==> b@ == hex_decode_of(s@.subrange(2, 42)) && b@.len() == 20,
        r matches Err(e) ==> e == WalletError::Parse,
{
    if s.unicode_len() != 42 {
        return Err(WalletError::Parse);
    }
    if s.get_char(0) != '0' || s.get_char(1) != 'x' {
        return Err(WalletError::Parse);
    }
    let digits = s.substring_char(2, 42);
    hex_decode(digits)
}

/// A transfer ready to be signed and submitted: the destination's 20 address
/// bytes and the value in smallest units.
#[derive(Debug)]
pub struct TransferPlan {
    pub to_address: Vec<u8>,
    pub value_wei: u128,
}

/// Decides a requested transfer against the current balance.
///
/// The plan exists exactly when the value is strictly below the balance and
/// the destination address is well formed; the balance precondition is
/// checked first. A refusal yields no plan, so nothing reaches the network:
/// an insufficient balance is a normal outcome that leaves wallet and ledger
/// untouched.
pub fn plan_transfer(to: &str, value_wei: u128, balance_wei: u128) -> (r: Result<
    TransferPlan,
    WalletError,
>)
    ensures
        r is Ok <==> (value_wei < balance_wei && valid_address_chars(to@)),
        r matches Ok(p) ==> p.value_wei == value_wei && p.to_address@ == hex_decode_of(
            to@.subrange(2, 42),
        ) && p.to_address@.len() == 20,
        r matches Err(e) ==> e == (if value_wei >= balance_wei {
            WalletError::InsufficientFunds
        } else {
            WalletError::Parse
        }),
{
    if value_wei >= balance_wei {
        return Err(WalletError::InsufficientFunds);
    }
    let to_address = match parse_address(to) {
        Ok(b) => b,
        Err(e) => {
            return Err(e);
        },
    };
    Ok(TransferPlan { to_address, value_wei })
}

} // verus!
