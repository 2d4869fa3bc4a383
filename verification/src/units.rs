//! Conversion between the ledger's smallest unit and the displayed major
//! unit, on integers.
//!
//! One major unit is 10^18 smallest units. The split into whole major units
//! and a remainder is exact and exactly invertible here; the floating-point
//! display form that a host may build from these parts loses precision above
//! 2^53 and must never be used for accounting.

use vstd::prelude::*;

verus! {

/// Smallest units per major unit.
pub const WEI_PER_ETH: u128 = 1_000_000_000_000_000_000;

/// Splits an amount of smallest units into whole major units and the
/// remainder of smallest units.
pub fn wei_to_eth_parts(wei: u128) -> (r: (u128, u128))
    ensures
        r.0 == wei / (WEI_PER_ETH as u128),
        r.1 == wei % (WEI_PER_ETH as u128),
        wei == r.0 * (WEI_PER_ETH as u128) + r.1,
        r.1 < WEI_PER_ETH,
{
    proof {
        vstd::arithmetic::div_mod::lemma_fundamental_div_mod(
            wei as int,
            WEI_PER_ETH as int,
        );
    }
    (wei / WEI_PER_ETH, wei % WEI_PER_ETH)
}

/// Rejoins whole major units and a remainder into smallest units; the exact
/// inverse of the split, for every amount the smallest-unit type can hold.
pub fn eth_parts_to_wei(eth: u128, rem: u128) -> (r: u128)
    requires
        rem < WEI_PER_ETH,
        eth * (WEI_PER_ETH as int) + rem <= u128::MAX,
    ensures
        r == eth * (WEI_PER_ETH as u128) + rem,
        (eth, rem) == wei_to_eth_parts_spec(r),
{
    proof {
        vstd::arithmetic::div_mod::lemma_fundamental_div_mod_converse(
            (eth * (WEI_PER_ETH as u128) + rem) as int,
            WEI_PER_ETH as int,
            eth as int,
            rem as int,
        );
    }
    eth * WEI_PER_ETH + rem
}

/// The split as a mathematical function: quotient and remainder by 10^18.
pub open spec fn wei_to_eth_parts_spec(wei: u128) -> (u128, u128) {
    ((wei / (WEI_PER_ETH as u128)), (wei % (WEI_PER_ETH as u128)))
}

/// Splitting and rejoining recovers every amount exactly: the integer unit
/// conversion loses nothing in either direction.
pub proof fn lemma_units_round_trip(wei: u128)
    ensures
        wei_to_eth_parts_spec(wei).0 * (WEI_PER_ETH as u128) + wei_to_eth_parts_spec(wei).1 == wei,
        wei_to_eth_parts_spec(wei).1 < WEI_PER_ETH,
{
    vstd::arithmetic::div_mod::lemma_fundamental_div_mod(wei as int, WEI_PER_ETH as int);
    assert(wei as int == (WEI_PER_ETH as int) * ((wei as int) / (WEI_PER_ETH as int)) + (
    wei as int) % (WEI_PER_ETH as int));
    assert((wei / (WEI_PER_ETH as u128)) as int == (wei as int) / (WEI_PER_ETH as int));
    assert((wei % (WEI_PER_ETH as u128)) as int == (wei as int) % (WEI_PER_ETH as int));
}

} // verus!
