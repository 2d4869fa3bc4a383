//! Phrase sampling, deterministic derivation, address shape, and the
//! recovery-input tokenizer.

use std::collections::HashSet;

use eth_wallet::address::public_key_address;
use eth_wallet::errors::WalletError;
use eth_wallet::hexutil::hex_encode;
use eth_wallet::keys::{generate_keypair, generate_keypair_from_seed, Keypair};
use eth_wallet::phrase::{choose_words, extract_words};

fn word_list() -> Vec<String> {
    let words = [
        "apple", "breeze", "candle", "damsel", "eagle", "fable", "garnet", "harbor", "island",
        "jungle", "kettle", "lantern", "meadow", "nectar", "orchid", "pebble", "quiver", "ripple",
        "saddle", "timber", "umbrella", "velvet", "walnut", "xenon", "yonder", "zephyr", "amber",
        "bramble", "cinder", "drift",
    ];
    words.iter().map(|w| w.to_string()).collect()
}

#[test]
fn fresh_phrase_has_twenty_four_distinct_words() {
    let chosen = choose_words(word_list());
    assert_eq!(chosen.len(), 24);
    let distinct: HashSet<&String> = chosen.iter().collect();
    assert_eq!(distinct.len(), 24);
    let list = word_list();
    for w in &chosen {
        assert!(list.contains(w));
    }
}

#[test]
fn short_list_yields_all_its_words() {
    let words: Vec<String> = vec!["alpha".to_string(), "beta".to_string()];
    let chosen = choose_words(words);
    assert_eq!(chosen.len(), 2);
}

#[test]
fn derivation_is_deterministic_per_phrase() {
    let phrase: Vec<String> =
        vec!["orchid".to_string(), "timber".to_string(), "zephyr".to_string()];
    let (_, first) = generate_keypair_from_seed(phrase.clone());
    let (_, second) = generate_keypair_from_seed(phrase);

    assert_eq!(first.secret_bytes, second.secret_bytes);
    assert_eq!(first.public_compressed, second.public_compressed);
    assert_eq!(first.public_uncompressed, second.public_uncompressed);
}

#[test]
fn word_order_changes_the_keypair() {
    let (_, forward) =
        generate_keypair_from_seed(vec!["alpha".to_string(), "beta".to_string()]);
    let (_, backward) =
        generate_keypair_from_seed(vec!["beta".to_string(), "alpha".to_string()]);
    assert_ne!(forward.secret_bytes, backward.secret_bytes);
}

#[test]
fn fixed_draw_from_small_list_recovers_byte_identical_keys() {
    let list: Vec<String> = vec![
        "alpha".to_string(),
        "beta".to_string(),
        "gamma".to_string(),
        "delta".to_string(),
    ];
    // A fixed draw: the sampled phrase, whatever its order, is fed back in
    // twice; both independent derivations must agree byte for byte.
    let drawn = choose_words(list);
    assert_eq!(drawn.len(), 4);
    let (_, first) = generate_keypair_from_seed(drawn.clone());
    let (_, second) = generate_keypair_from_seed(drawn);
    assert_eq!(first.secret_bytes, second.secret_bytes);
    assert_eq!(
        hex_encode(&first.secret_bytes),
        hex_encode(&second.secret_bytes)
    );
}

#[test]
fn generated_keys_have_the_canonical_stored_lengths() {
    let (_, keypair) = generate_keypair(word_list());
    assert_eq!(keypair.secret_hex().len(), 64);
    assert_eq!(keypair.public_hex().len(), 66);
    let address = public_key_address(&keypair).unwrap();
    assert_eq!(address.len(), 42);
    assert!(address.starts_with("0x"));
}

#[test]
fn address_is_stable_across_calls() {
    let (_, keypair) = generate_keypair_from_seed(vec!["test".to_string()]);
    let first = public_key_address(&keypair).unwrap();
    let second = public_key_address(&keypair).unwrap();
    assert_eq!(first, second);
}

#[test]
fn address_really_hashes_the_payload() {
    let mut uncompressed = vec![4u8];
    uncompressed.extend(std::iter::repeat(7u8).take(64));
    let keypair = Keypair {
        secret_bytes: vec![1u8; 32],
        public_compressed: vec![2u8; 33],
        public_uncompressed: uncompressed.clone(),
    };
    let address = public_key_address(&keypair).unwrap();
    // Were the digest just the input handed back, the address would be the
    // hex of bytes 13..33 of the encoding.
    let echoed = format!("0x{}", hex_encode(&uncompressed[13..33]));
    assert_ne!(address, echoed);
}

#[test]
fn corrupt_marker_byte_is_rejected() {
    let keypair = Keypair {
        secret_bytes: vec![1u8; 32],
        public_compressed: vec![2u8; 33],
        public_uncompressed: vec![9u8; 65],
    };
    assert_eq!(public_key_address(&keypair).unwrap_err(), WalletError::CryptoFormat);
}

#[test]
fn tokenizer_takes_maximal_word_runs_in_order() {
    let words = extract_words("alpha, beta\n gamma_delta! epsilon");
    assert_eq!(
        words,
        vec![
            "alpha".to_string(),
            "beta".to_string(),
            "gamma_delta".to_string(),
            "epsilon".to_string(),
        ]
    );
}

#[test]
fn tokenizer_preserves_case_and_digits() {
    let words = extract_words("  Zebra42  ;; x ");
    assert_eq!(words, vec!["Zebra42".to_string(), "x".to_string()]);
}

#[test]
fn tokenizer_of_blank_input_finds_nothing() {
    assert_eq!(extract_words(" .,;\n\t ").len(), 0);
}

#[test]
fn tokenized_recovery_input_recovers_the_same_keys() {
    let typed = "alpha beta gamma delta";
    let (_, first) = generate_keypair_from_seed(extract_words(typed));
    let (_, second) = generate_keypair_from_seed(vec![
        "alpha".to_string(),
        "beta".to_string(),
        "gamma".to_string(),
        "delta".to_string(),
    ]);
    assert_eq!(first.secret_bytes, second.secret_bytes);
}
