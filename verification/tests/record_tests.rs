//! Record construction, the document round trip, and malformed documents.

use eth_wallet::errors::WalletError;
use eth_wallet::keys::{generate_keypair, generate_keypair_from_seed};
use eth_wallet::wallet::Wallet;

fn word_list() -> Vec<String> {
    let words = [
        "apple", "breeze", "candle", "damsel", "eagle", "fable", "garnet", "harbor", "island",
        "jungle", "kettle", "lantern", "meadow", "nectar", "orchid", "pebble", "quiver", "ripple",
        "saddle", "timber", "umbrella", "velvet", "walnut", "xenon", "yonder", "zephyr", "amber",
        "bramble", "cinder", "drift",
    ];
    words.iter().map(|w| w.to_string()).collect()
}

#[test]
fn test_create_wallet() {
    let (seed_phrase, keypair) = generate_keypair(word_list());
    let wallet = Wallet::new(seed_phrase, &keypair).expect("derived keypair carries the marker");

    let document = wallet.to_json();
    let reloaded = Wallet::from_json(&document).expect("saved wallet must load back");

    let num_seed_phrases = reloaded.seed_phrase.len();
    let num_secret_key_chars = reloaded.secret_key.len();
    let num_public_key_chars = reloaded.public_key.len();
    let num_public_address_chars = reloaded.public_address.len();

    assert_eq!(num_seed_phrases, 24);
    assert_eq!(num_secret_key_chars, 64);
    assert_eq!(num_public_key_chars, 66);
    assert_eq!(num_public_address_chars, 42);
}

#[test]
fn test_load_wallet() {
    let recovery_phrase: Vec<String> = vec![
        "test", "test", "test", "test", "test", "test", "test", "test", "test", "test", "test",
        "test", "test", "test", "test", "test", "test", "test", "test", "test", "test", "test",
        "test", "test",
    ]
    .into_iter()
    .map(|w| w.to_string())
    .collect();
    let (seed_reference, keypair) = generate_keypair_from_seed(recovery_phrase);

    let crypto_wallet =
        Wallet::new(seed_reference, &keypair).expect("derived keypair carries the marker");

    let document = crypto_wallet.to_json();

    let wallet_json: serde_json::Value =
        serde_json::from_str(&document).expect("Failed to parse wallet file");

    assert_eq!(
        wallet_json["seed_phrase"].as_array().unwrap().len(),
        24,
        "Invalid seed phrase length"
    );

    assert_eq!(
        wallet_json["secret_key"].as_str().unwrap().len(),
        64,
        "Invalid secret key length"
    );

    assert_eq!(
        wallet_json["public_key"].as_str().unwrap().len(),
        66,
        "Invalid public key length"
    );

    assert_eq!(
        wallet_json["public_address"].as_str().unwrap().len(),
        42,
        "Invalid public address length"
    );
}

#[test]
fn round_trip_restores_every_field() {
    let (seed_phrase, keypair) = generate_keypair(word_list());
    let wallet = Wallet::new(seed_phrase, &keypair).unwrap();

    let reloaded = Wallet::from_json(&wallet.to_json()).unwrap();

    assert_eq!(reloaded.seed_phrase, wallet.seed_phrase);
    assert_eq!(reloaded.secret_key, wallet.secret_key);
    assert_eq!(reloaded.public_key, wallet.public_key);
    assert_eq!(reloaded.public_address, wallet.public_address);
}

#[test]
fn round_trip_restores_empty_phrase() {
    let (_, keypair) = generate_keypair_from_seed(vec!["solo".to_string()]);
    let wallet = Wallet::new(Vec::new(), &keypair).unwrap();

    let reloaded = Wallet::from_json(&wallet.to_json()).unwrap();

    assert_eq!(reloaded.seed_phrase.len(), 0);
    assert_eq!(reloaded.secret_key, wallet.secret_key);
    assert_eq!(reloaded.public_key, wallet.public_key);
    assert_eq!(reloaded.public_address, wallet.public_address);
}

#[test]
fn renderer_emits_the_canonical_document() {
    let wallet = Wallet {
        seed_phrase: vec!["alpha".to_string(), "beta".to_string()],
        secret_key: "ab".to_string(),
        public_key: "cd".to_string(),
        public_address: "0xef".to_string(),
    };
    let expected = "{\n  \"seed_phrase\": [\"alpha\", \"beta\"],\n  \"secret_key\": \"ab\",\n  \"public_key\": \"cd\",\n  \"public_address\": \"0xef\"\n}";
    assert_eq!(wallet.to_json(), expected);

    let reloaded = Wallet::from_json(expected).unwrap();
    assert_eq!(reloaded.seed_phrase, wallet.seed_phrase);
    assert_eq!(reloaded.secret_key, "ab");
    assert_eq!(reloaded.public_key, "cd");
    assert_eq!(reloaded.public_address, "0xef");
}

#[test]
fn missing_public_key_field_fails_with_parse_error() {
    let (seed_phrase, keypair) = generate_keypair_from_seed(vec!["test".to_string()]);
    let wallet = Wallet::new(seed_phrase, &keypair).unwrap();
    let document = wallet.to_json();

    let renamed = document.replace("public_key", "public_kex");
    let err = Wallet::from_json(&renamed).unwrap_err();
    assert_eq!(err, WalletError::Parse);
}

#[test]
fn garbage_document_fails_with_parse_error() {
    let err = Wallet::from_json("not a wallet document").unwrap_err();
    assert_eq!(err, WalletError::Parse);
}

#[test]
fn get_secret_key_round_trips_the_stored_hex() {
    let (seed_phrase, keypair) = generate_keypair_from_seed(vec!["test".to_string()]);
    let wallet = Wallet::new(seed_phrase, &keypair).unwrap();

    let bytes = wallet.get_secret_key().expect("stored secret key is 64 hex chars");
    assert_eq!(bytes.len(), 32);
    assert_eq!(eth_wallet::hexutil::hex_encode(&bytes), wallet.secret_key);
}

#[test]
fn get_secret_key_rejects_a_malformed_field() {
    let wallet = Wallet {
        seed_phrase: Vec::new(),
        secret_key: "zz".to_string(),
        public_key: String::new(),
        public_address: String::new(),
    };
    assert_eq!(wallet.get_secret_key().unwrap_err(), WalletError::Parse);
}
