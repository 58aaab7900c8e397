use chacha20poly1305::aead::{Aead, KeyInit};
use chacha20poly1305::{XChaCha20Poly1305, XNonce};
use hopchat::crypto::encryption::{decrypt_message, encrypt_message, encrypt_message_with_nonce, CryptoError};
use hopchat::crypto::key_exchange::{KeyExchangeError, X25519KeyPair};
use hopchat::identity::LocalIdentity;

fn bytes32(hex_text: &str) -> [u8; 32] {
    let v = hex::decode(hex_text).unwrap();
    let mut a = [0u8; 32];
    a.copy_from_slice(&v);
    a
}

#[test]
fn encrypt_then_decrypt_gives_the_text_back() {
    let key = [7u8; 32];
    let payload = encrypt_message(&key, "hello, world").unwrap();
    assert_eq!(payload.len(), 2 * (24 + 12 + 16));
    assert!(payload.chars().all(|c| c.is_ascii_digit() || ('a'..='f').contains(&c)));
    assert_eq!(decrypt_message(&key, &payload), Ok("hello, world".to_string()));
}

#[test]
fn encryption_matches_the_cipher_with_the_nonce_in_front() {
    let key = [1u8; 32];
    let nonce = [2u8; 24];
    let payload = encrypt_message_with_nonce(&key, &nonce, "abc").unwrap();
    let cipher = XChaCha20Poly1305::new((&key).into());
    let ct = cipher.encrypt(XNonce::from_slice(&nonce), b"abc".as_slice()).unwrap();
    let mut expected = nonce.to_vec();
    expected.extend_from_slice(&ct);
    assert_eq!(payload, hex::encode(expected));
    assert!(payload.starts_with(&"02".repeat(24)));
}

#[test]
fn decrypt_errors() {
    let key = [3u8; 32];
    assert_eq!(decrypt_message(&key, "zz"), Err(CryptoError::HexDecode));
    assert_eq!(decrypt_message(&key, "abc"), Err(CryptoError::HexDecode));
    assert_eq!(decrypt_message(&key, "00ff"), Err(CryptoError::PayloadTooShort));
    let payload = encrypt_message(&key, "secret").unwrap();
    assert_eq!(decrypt_message(&[4u8; 32], &payload), Err(CryptoError::Decryption));
    // a sealed byte string that is not UTF-8
    let nonce = [5u8; 24];
    let cipher = XChaCha20Poly1305::new((&key).into());
    let ct = cipher.encrypt(XNonce::from_slice(&nonce), [0xffu8, 0xfe].as_slice()).unwrap();
    let mut combined = nonce.to_vec();
    combined.extend_from_slice(&ct);
    assert_eq!(decrypt_message(&key, &hex::encode(combined)), Err(CryptoError::InvalidUtf8));
}

#[test]
fn x25519_rfc7748_vectors_and_agreement() {
    let alice = X25519KeyPair::from_secret(bytes32(
        "77076d0a7318a57d3c16c17251b26645df4c2f87ebc0992ab177fba51db92c2a",
    ));
    let bob = X25519KeyPair::from_secret(bytes32(
        "5dab087e624a8a4b79e17f8b83800ee66f3bb1292618b6fd1c2f8b27ff88e0eb",
    ));
    assert_eq!(
        alice.public_key_hex(),
        "8520f0098930a754748b7ddcb43ef75a0dbf3a0d26381af4eba4a98eaa9b4e6a"
    );
    assert_eq!(
        bob.public_key_hex(),
        "de9edb7d7b7dc1b4d35b61c2ece435373f8343c85b78674dadfc7e146f882b4f"
    );
    // session key = SHA-256 of the shared secret 4a5d9d5b...1742
    let expected = bytes32("dead45a1d43d6902aa9240b43c0d75a0b5fc750660590d6d45461cbfc4010684");
    assert_eq!(alice.derive_session_key(&bob.public_key_hex()), Ok(expected));
    assert_eq!(bob.derive_session_key(&alice.public_key_hex()), Ok(expected));
}

#[test]
fn generated_pairs_agree() {
    let a = X25519KeyPair::generate();
    let b = X25519KeyPair::generate();
    let ka = a.derive_session_key(&b.public_key_hex()).unwrap();
    let kb = b.derive_session_key(&a.public_key_hex()).unwrap();
    assert_eq!(ka, kb);
}

#[test]
fn session_key_errors() {
    let a = X25519KeyPair::generate();
    assert_eq!(a.derive_session_key("not hex"), Err(KeyExchangeError::HexDecode));
    assert_eq!(a.derive_session_key("abcd"), Err(KeyExchangeError::WrongLength));
    assert_eq!(KeyExchangeError::HexDecode.message(), "Peer public key hex decode error");
    assert_eq!(KeyExchangeError::WrongLength.message(), "Peer public key must be exactly 32 bytes");
}

#[test]
fn crypto_error_texts() {
    assert_eq!(CryptoError::Encryption.message(), "Encryption failed: aead::Error");
    assert_eq!(CryptoError::HexDecode.message(), "Hex decode error");
    assert_eq!(CryptoError::PayloadTooShort.message(), "Payload too short (missing nonce)");
    assert_eq!(CryptoError::Decryption.message(), "Decryption/Authentication failed");
    assert_eq!(CryptoError::InvalidUtf8.message(), "Invalid UTF-8 in decrypted data");
}

#[test]
fn fingerprints_have_sixteen_hex_digits() {
    let a = X25519KeyPair::generate();
    let f = a.tofu_fingerprint();
    assert_eq!(f.len(), 16);
    assert!(f.chars().all(|c| c.is_ascii_digit() || ('a'..='f').contains(&c)));
    let id = LocalIdentity::generate("x".to_string());
    let g = id.tofu_fingerprint();
    assert_eq!(g.len(), 16);
    assert!(g.chars().all(|c| c.is_ascii_digit() || ('a'..='f').contains(&c)));
}

#[test]
fn a_key_that_is_no_curve_point_verifies_nothing() {
    // y = 2 has no matching x on the curve
    let not_a_point = format!("02{}", "00".repeat(31));
    let id = LocalIdentity::generate("x".to_string());
    let sig = id.sign_payload(b"m");
    assert!(!LocalIdentity::verify_signature(&not_a_point, b"m", &sig));
}

#[test]
fn x25519_fingerprint() {
    let alice = X25519KeyPair::from_secret(bytes32(
        "77076d0a7318a57d3c16c17251b26645df4c2f87ebc0992ab177fba51db92c2a",
    ));
    assert_eq!(alice.tofu_fingerprint(), "300c9c9603b92a4b");
}

#[test]
fn ed25519_rfc8032_vector() {
    let seed = bytes32("9d61b19deffd5a60ba844af492ec2cc44449c5697b326919703bac031cae7f60");
    let id = LocalIdentity::from_seed("alice".to_string(), seed);
    let public = "d75a980182b10ab7d54bfed3c964073a0ee172f3daa62325af021a68f707511a";
    assert_eq!(id.public_key_hex(), public);
    let sig = id.sign_payload(b"");
    assert_eq!(
        sig,
        "e5564300c360ac729086e2cc806e828a84877f1eb8e5d974d873e065224901555fb8821590a33bacc61e39701cf9b46bd25bf5f0595bbe24655141438e7a100b"
    );
    assert!(LocalIdentity::verify_signature(public, b"", &sig));
    assert_eq!(id.tofu_fingerprint(), "21fe31dfa154a261");
    assert_eq!(id.username(), "alice");
    assert_eq!(id.secret_seed(), seed);
}

#[test]
fn signatures_do_not_transfer() {
    let id = LocalIdentity::generate("bob".to_string());
    let other = LocalIdentity::generate("eve".to_string());
    let sig = id.sign_payload(b"payload");
    assert!(LocalIdentity::verify_signature(&id.public_key_hex(), b"payload", &sig));
    assert!(!LocalIdentity::verify_signature(&id.public_key_hex(), b"payloae", &sig));
    assert!(!LocalIdentity::verify_signature(&other.public_key_hex(), b"payload", &sig));
    assert!(!LocalIdentity::verify_signature("zz", b"payload", &sig));
    assert!(!LocalIdentity::verify_signature(&id.public_key_hex(), b"payload", "abcd"));
}

#[test]
fn identity_is_loaded_or_created() {
    let seed = [3u8; 32];
    let (id, save) = LocalIdentity::load_or_create("al/ice", Some(("alice".to_string(), seed)));
    assert_eq!(id.username(), "alice");
    assert_eq!(id.secret_seed(), seed);
    assert!(!save);
    let (id, save) = LocalIdentity::load_or_create("", None);
    assert_eq!(id.username(), "anon");
    assert!(save);
    assert_eq!(hopchat::identity::identity_file_name(), ".hopchat_id");
}

#[test]
fn stored_identity_under_a_new_name() {
    let seed = [9u8; 32];
    let (id, changed) = LocalIdentity::from_stored("old".to_string(), seed, "new".to_string());
    assert!(changed);
    assert_eq!(id.username(), "new");
    assert_eq!(id.secret_seed(), seed);
    let (_, same) = LocalIdentity::from_stored("new".to_string(), seed, "new".to_string());
    assert!(!same);
}
