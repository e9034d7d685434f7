use vnq_server::credentials::{generate_salt, hex_decode, hex_encode, verify};

#[test]
fn derive_then_verify_succeeds() {
    let salt = [7u8; 64];
    let hash = vnq_server::credentials::derive(&salt, "hunter2");
    assert_eq!(hash.len(), 64);
    assert!(verify(&salt, "hunter2", &hash));
}

#[test]
fn wrong_password_fails_verification() {
    let salt = [7u8; 64];
    let hash = vnq_server::credentials::derive(&salt, "wrongPassword");
    assert!(!verify(&salt, "hunter2", &hash));
}

#[test]
fn derivation_is_deterministic() {
    let salt = [42u8; 64];
    assert_eq!(vnq_server::credentials::derive(&salt, "secret"), vnq_server::credentials::derive(&salt, "secret"));
}

#[test]
fn derivation_depends_on_salt() {
    let hash_a = vnq_server::credentials::derive(&[1u8; 64], "secret");
    let hash_b = vnq_server::credentials::derive(&[2u8; 64], "secret");
    assert_ne!(hash_a, hash_b);
}

#[test]
fn derived_hash_is_not_the_password() {
    let hash = vnq_server::credentials::derive(&[0u8; 64], "secret");
    assert_ne!(&hash[..], "secret".as_bytes());
}

#[test]
fn wrong_length_hash_is_rejected() {
    let salt = [7u8; 64];
    let hash = vnq_server::credentials::derive(&salt, "hunter2");
    assert!(!verify(&salt, "hunter2", &hash[..32]));
    assert!(!verify(&salt, "hunter2", &[]));
}

#[test]
fn salts_have_credential_length_and_vary() {
    let a = generate_salt().expect("random source");
    let b = generate_salt().expect("random source");
    assert_eq!(a.len(), 64);
    assert_eq!(b.len(), 64);
    assert_ne!(a, b);
}

#[test]
fn hex_encodes_lowercase_pairs() {
    assert_eq!(hex_encode(&[]), "");
    assert_eq!(hex_encode(&[0x00]), "00");
    assert_eq!(hex_encode(&[0xde, 0xad, 0xbe, 0xef]), "deadbeef");
    assert_eq!(hex_encode(&[0x0f, 0xa0]), "0fa0");
}

#[test]
fn hex_decodes_what_it_encodes() {
    let bytes: Vec<u8> = (0u8..=255).collect();
    let text = hex_encode(&bytes);
    assert_eq!(hex_decode(&text), Some(bytes));
}

#[test]
fn hex_decode_rejects_bad_input() {
    assert_eq!(hex_decode("abc"), None, "odd length");
    assert_eq!(hex_decode("DE"), None, "uppercase digits");
    assert_eq!(hex_decode("zz"), None, "not hex at all");
    assert_eq!(hex_decode(""), Some(Vec::new()));
}
