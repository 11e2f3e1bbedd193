use kreep::capsule::Capsule;
use kreep::credential::{Credential, CryptoError};

fn fresh_credential(user: &str, password: &str) -> Credential {
    Credential::new(user, password).expect("secure random source should be available")
}

#[test]
fn new_credential_shape() {
    let c = fresh_credential("alice", "s3cret");
    assert_eq!(c.id.len(), 16);
    assert_eq!(c.api_key.len(), 32);
    assert_eq!(c.user, "alice");
    assert_eq!(c.password, "s3cret");
    // Random-identifier shape: version nibble four, variant bits one-zero.
    assert_eq!(c.id[6] >> 4, 4);
    assert_eq!(c.id[8] >> 6, 2);
}

#[test]
fn new_credentials_are_distinct() {
    let a = fresh_credential("alice", "pw");
    let b = fresh_credential("alice", "pw");
    assert_ne!(a.id, b.id);
    assert_ne!(a.api_key, b.api_key);
}

#[test]
fn seal_open_round_trip() {
    let c = fresh_credential("alice", "s3cret");
    let cap = c.capsule().expect("sealing should succeed");
    assert_eq!(cap.nonce.len(), 12);
    let (user, password) = cap.open(&c.api_key, &c.id).expect("opening with the right key and id");
    assert_eq!(user, "alice");
    assert_eq!(password, "s3cret");
}

#[test]
fn seal_open_round_trip_unicode() {
    let c = fresh_credential("ålice ✓", "pässwörd ☃");
    let cap = c.capsule().expect("sealing should succeed");
    let (user, password) = cap.open(&c.api_key, &c.id).expect("opening with the right key and id");
    assert_eq!(user, "ålice ✓");
    assert_eq!(password, "pässwörd ☃");
}

#[test]
fn tamper_detection_every_bit() {
    let c = fresh_credential("alice", "s3cret");
    let cap = c.capsule().expect("sealing should succeed");
    for byte in 0..cap.nonce.len() {
        for bit in 0..8 {
            let mut nonce = cap.nonce.clone();
            nonce[byte] ^= 1u8 << bit;
            let bent = Capsule { nonce, token: cap.token.clone() };
            assert!(matches!(bent.open(&c.api_key, &c.id), Err(CryptoError::Authentication)));
        }
    }
    for byte in 0..cap.token.len() {
        for bit in 0..8 {
            let mut token = cap.token.clone();
            token[byte] ^= 1u8 << bit;
            let bent = Capsule { nonce: cap.nonce.clone(), token };
            assert!(matches!(bent.open(&c.api_key, &c.id), Err(CryptoError::Authentication)));
        }
    }
}

#[test]
fn identity_binding() {
    let c = fresh_credential("alice", "s3cret");
    let cap = c.capsule().expect("sealing should succeed");
    let mut other_id = c.id.clone();
    other_id[0] ^= 0xff;
    assert!(matches!(cap.open(&c.api_key, &other_id), Err(CryptoError::Authentication)));
    let other = fresh_credential("bob", "hunter2");
    assert!(matches!(cap.open(&c.api_key, &other.id), Err(CryptoError::Authentication)));
}

#[test]
fn key_isolation() {
    let c1 = fresh_credential("alice", "s3cret");
    let c2 = fresh_credential("bob", "hunter2");
    let cap = c1.capsule().expect("sealing should succeed");
    assert!(matches!(cap.open(&c2.api_key, &c1.id), Err(CryptoError::Authentication)));
}

#[test]
fn seal_draws_a_fresh_nonce_each_time() {
    let c = fresh_credential("alice", "s3cret");
    let cap1 = c.capsule().expect("sealing should succeed");
    let cap2 = c.capsule().expect("sealing should succeed");
    assert_ne!(cap1.nonce, cap2.nonce);
    assert_ne!(cap1.token, cap2.token);
}

#[test]
fn wire_format_shape() {
    let c = fresh_credential("alice", "s3cret");
    let cap = c.capsule().expect("sealing should succeed");
    let bytes = cap.to_bytes();
    assert_eq!(bytes.len(), 12 + cap.token.len());
    assert_eq!(&bytes[..12], cap.nonce.as_slice());
    assert_eq!(&bytes[12..], cap.token.as_slice());
    let text = cap.to_hex();
    assert_eq!(text.len(), 24 + 2 * cap.token.len());
    assert_eq!(text, hex::encode(&bytes));
    let back = Capsule::from_bytes(bytes.as_slice()).expect("long enough to split");
    assert_eq!(back.nonce, cap.nonce);
    assert_eq!(back.token, cap.token);
    let (user, password) = back.open(&c.api_key, &c.id).expect("rebuilt capsule still opens");
    assert_eq!(user, "alice");
    assert_eq!(password, "s3cret");
}

#[test]
fn from_bytes_rejects_short_input() {
    assert!(Capsule::from_bytes(&[0u8; 11]).is_none());
    assert!(Capsule::from_bytes(&[]).is_none());
}

#[test]
fn hex_accessors_match_reference_encoding() {
    let c = fresh_credential("alice", "s3cret");
    assert_eq!(c.api_key_hex(), hex::encode(&c.api_key));
    assert_eq!(c.id_hex(), hex::encode(&c.id));
    let expected = uuid::Uuid::from_slice(c.id.as_slice()).unwrap().hyphenated().to_string();
    assert_eq!(c.id_hyphenated(), expected);
}
