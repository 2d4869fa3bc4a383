//! Transfer planning, address parsing, hex codecs and unit conversion.

use eth_wallet::errors::WalletError;
use eth_wallet::hexutil::{hex_decode, hex_encode};
use eth_wallet::transfer::{parse_address, plan_transfer};
use eth_wallet::units::{eth_parts_to_wei, wei_to_eth_parts, WEI_PER_ETH};

#[test]
fn insufficient_balance_refuses_the_transfer() {
    let to = "0x00112233445566778899aabbccddeeff00112233";
    let err = plan_transfer(to, 100, 100).unwrap_err();
    assert_eq!(err, WalletError::InsufficientFunds);
    let err = plan_transfer(to, 101, 100).unwrap_err();
    assert_eq!(err, WalletError::InsufficientFunds);
}

#[test]
fn strictly_smaller_value_is_planned() {
    let to = "0x00112233445566778899aabbccddeeff00112233";
    let plan = plan_transfer(to, 99, 100).unwrap();
    assert_eq!(plan.value_wei, 99);
    assert_eq!(
        plan.to_address,
        vec![
            0x00, 0x11, 0x22, 0x33, 0x44, 0x55, 0x66, 0x77, 0x88, 0x99, 0xaa, 0xbb, 0xcc, 0xdd,
            0xee, 0xff, 0x00, 0x11, 0x22, 0x33,
        ]
    );
}

#[test]
fn balance_is_checked_before_the_address() {
    let err = plan_transfer("nonsense", 5, 5).unwrap_err();
    assert_eq!(err, WalletError::InsufficientFunds);
}

#[test]
fn malformed_address_fails_the_plan() {
    let err = plan_transfer("nonsense", 5, 10).unwrap_err();
    assert_eq!(err, WalletError::Parse);
}

#[test]
fn parse_address_accepts_the_canonical_form() {
    let bytes = parse_address("0xffeeddccbbaa99887766554433221100ffeeddcc").unwrap();
    assert_eq!(bytes.len(), 20);
    assert_eq!(bytes[0], 0xff);
    assert_eq!(bytes[19], 0xcc);
}

#[test]
fn parse_address_rejects_bad_shapes() {
    assert_eq!(parse_address("").unwrap_err(), WalletError::Parse);
    assert_eq!(
        parse_address("ffeeddccbbaa99887766554433221100ffeeddccaa").unwrap_err(),
        WalletError::Parse
    );
    assert_eq!(
        parse_address("0xffeeddccbbaa99887766554433221100ffeedd").unwrap_err(),
        WalletError::Parse
    );
    assert_eq!(
        parse_address("0xffeeddccbbaa99887766554433221100ffeeddzz").unwrap_err(),
        WalletError::Parse
    );
}

#[test]
fn hex_codec_matches_known_vectors() {
    assert_eq!(hex_encode(&[0x00, 0xff, 0x10, 0xab]), "00ff10ab");
    assert_eq!(hex_encode(&[]), "");
    assert_eq!(hex_decode("00ff10ab").unwrap(), vec![0x00, 0xff, 0x10, 0xab]);
    assert_eq!(hex_decode("ABCDEF01").unwrap(), vec![0xab, 0xcd, 0xef, 0x01]);
    assert_eq!(hex_decode("abc").unwrap_err(), WalletError::Parse);
    assert_eq!(hex_decode("gg").unwrap_err(), WalletError::Parse);
}

#[test]
fn unit_split_matches_the_scale_factor() {
    let (eth, rem) = wei_to_eth_parts(1_500_000_000_000_000_000);
    assert_eq!(eth, 1);
    assert_eq!(rem, 500_000_000_000_000_000);
    let (eth, rem) = wei_to_eth_parts(999);
    assert_eq!(eth, 0);
    assert_eq!(rem, 999);
}

#[test]
fn unit_conversion_round_trips_exactly() {
    let amounts: [u128; 4] = [0, 1, WEI_PER_ETH, 123_456_789_012_345_678_901_234_567];
    for &wei in amounts.iter() {
        let (eth, rem) = wei_to_eth_parts(wei);
        assert_eq!(eth_parts_to_wei(eth, rem), wei);
    }
}

#[test]
fn integer_split_stays_exact_where_float_display_rounds() {
    // 2^53 + 1 is the first integer a double cannot hold: going through a
    // float loses it, while the integer split recovers it exactly.
    let wei: u128 = (1u128 << 53) + 1;
    let through_float = (wei as f64) as u128;
    assert_ne!(through_float, wei);

    let (eth, rem) = wei_to_eth_parts(wei);
    assert_eq!(eth_parts_to_wei(eth, rem), wei);
}
