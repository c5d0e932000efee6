use nopu_nostr::error::NostrError;
use nopu_nostr::hex::canonical_hex64;
use nopu_nostr::keys::{generate_keys, keys_from_secret_key, pubkey_from_secret_key};

const SECRET: &str = "6b911fd37cdf5c81d4c0adb1ab7fa822ed253ab0ad9aa18d77257c88b29b718e";
const PUBLIC: &str = "385c3a6ec0b9d57a4330dbd6284989be5bd00e41c535f9ca39b6ae7c521b81cd";

#[test]
fn keys_from_secret_key_derives_the_public_key() {
    let keys = keys_from_secret_key(SECRET.to_string()).unwrap();
    assert_eq!(keys.private_key, SECRET);
    assert_eq!(keys.public_key, PUBLIC);
}

#[test]
fn pubkey_from_secret_key_agrees_with_keys_from_secret_key() {
    let public = pubkey_from_secret_key(SECRET.to_string()).unwrap();
    assert_eq!(public, PUBLIC);
}

#[test]
fn derivation_is_stable_across_calls() {
    let a = keys_from_secret_key(SECRET.to_string()).unwrap();
    let b = keys_from_secret_key(SECRET.to_string()).unwrap();
    assert_eq!(a.public_key, b.public_key);
    assert_eq!(a.private_key, b.private_key);
}

#[test]
fn upper_case_secret_is_accepted_and_printed_in_lower_case() {
    let keys = keys_from_secret_key(SECRET.to_uppercase()).unwrap();
    assert_eq!(keys.private_key, SECRET);
    assert_eq!(keys.public_key, PUBLIC);
}

#[test]
fn malformed_secret_is_rejected() {
    for bad in ["", "abc", "zz", &SECRET[..62], &format!("{}00", SECRET)] {
        let r = keys_from_secret_key(bad.to_string());
        assert!(matches!(r, Err(NostrError::InvalidSecretKey(_))));
        let r = pubkey_from_secret_key(bad.to_string());
        assert!(matches!(r, Err(NostrError::InvalidSecretKey(_))));
    }
}

#[test]
fn secret_outside_the_scalar_range_is_rejected() {
    let zero = "0".repeat(64);
    assert!(matches!(keys_from_secret_key(zero), Err(NostrError::InvalidSecretKey(_))));
    let all_ones = "f".repeat(64);
    assert!(matches!(keys_from_secret_key(all_ones), Err(NostrError::InvalidSecretKey(_))));
}

#[test]
fn generated_keys_round_trip_through_their_secret() {
    let keys = generate_keys();
    assert_eq!(keys.public_key.len(), 64);
    assert_eq!(keys.private_key.len(), 64);
    let again = keys_from_secret_key(keys.private_key.clone()).unwrap();
    assert_eq!(again.public_key, keys.public_key);
    assert_eq!(again.private_key, keys.private_key);
}

#[test]
fn generated_keys_differ() {
    let a = generate_keys();
    let b = generate_keys();
    assert_ne!(a.private_key, b.private_key);
}

#[test]
fn error_message_joins_label_and_detail() {
    let e = NostrError::RelayConnectionFailed("wss://relay.example".to_string());
    assert_eq!(e.message(), "Relay connection failed: wss://relay.example");
    let e = NostrError::InvalidSecretKey("bad".to_string());
    assert_eq!(e.message(), "Invalid secret key: bad");
}

#[test]
fn canonical_hex_puts_sixty_four_digits_in_lower_case() {
    assert_eq!(canonical_hex64(SECRET), Some(SECRET.to_string()));
    assert_eq!(canonical_hex64(&SECRET.to_uppercase()), Some(SECRET.to_string()));
    let mixed = format!("ABCDEFabcdef0123456789{}", &SECRET[22..]);
    assert_eq!(canonical_hex64(&mixed), Some(format!("abcdefabcdef0123456789{}", &SECRET[22..])));
}

#[test]
fn canonical_hex_rejects_everything_else() {
    assert_eq!(canonical_hex64(""), None);
    assert_eq!(canonical_hex64(&SECRET[..63]), None);
    assert_eq!(canonical_hex64(&format!("{}0", SECRET)), None);
    assert_eq!(canonical_hex64(&format!("{}g", &SECRET[..63])), None);
    assert_eq!(canonical_hex64(&format!("{} ", &SECRET[..63])), None);
    assert_eq!(canonical_hex64(&format!("{}\u{e9}", &SECRET[..63])), None);
}
