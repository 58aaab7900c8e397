//! The cryptographic primitives HOPCHAT builds on, taken from their crates:
//! XChaCha20-Poly1305 (`chacha20poly1305`), X25519 (`x25519-dalek`),
//! Ed25519 (`ed25519-dalek`), SHA-256 (`sha2`) and the operating system's
//! random number generator. Each function here only makes the call; what is
//! claimed of it is written in its contract and doc comment.

use vstd::prelude::*;
use chacha20poly1305::aead::{Aead, KeyInit, OsRng};
use chacha20poly1305::{XChaCha20Poly1305, XNonce};
use ed25519_dalek::{Signature, Signer, SigningKey, Verifier, VerifyingKey};
use rand::RngCore;
use sha2::{Digest, Sha256};
use x25519_dalek::{PublicKey, StaticSecret};

verus! {

/// The longest plaintext XChaCha20-Poly1305 seals: fewer than `u32::MAX`
/// blocks of 64 bytes.
pub open spec fn aead_len_ok(len: nat) -> bool {
    len / 64 < 0xffff_ffff
}

/// What `XChaCha20Poly1305::encrypt` returns for a key, a nonce and a
/// plaintext (ciphertext followed by the 16-byte tag).
pub uninterp spec fn spec_xchacha_seal(key: Seq<u8>, nonce: Seq<u8>, plaintext: Seq<u8>) -> Seq<u8>;

/// What `XChaCha20Poly1305::decrypt` returns for a key, a nonce and a
/// ciphertext: the plaintext, or `None` when authentication fails.
pub uninterp spec fn spec_xchacha_open(key: Seq<u8>, nonce: Seq<u8>, ciphertext: Seq<u8>) -> Option<
    Seq<u8>,
>;

/// The X25519 public key of a 32-byte secret (`PublicKey::from(&StaticSecret)`).
pub uninterp spec fn spec_x25519_public(secret: Seq<u8>) -> Seq<u8>;

/// The X25519 shared secret of a 32-byte secret and a peer's public key
/// (`StaticSecret::diffie_hellman`).
pub uninterp spec fn spec_x25519_shared(secret: Seq<u8>, peer_public: Seq<u8>) -> Seq<u8>;

/// The SHA-256 digest of `data`.
pub uninterp spec fn spec_sha256(data: Seq<u8>) -> Seq<u8>;

/// The Ed25519 public key of a 32-byte secret seed.
pub uninterp spec fn spec_ed25519_public(seed: Seq<u8>) -> Seq<u8>;

/// The Ed25519 signature of `message` under a 32-byte secret seed.
pub uninterp spec fn spec_ed25519_sign(seed: Seq<u8>, message: Seq<u8>) -> Seq<u8>;

/// Whether `VerifyingKey::from_bytes` accepts the 32 bytes `public`: they
/// decompress to a point of the curve.
pub uninterp spec fn spec_ed25519_key_valid(public: Seq<u8>) -> bool;

/// Whether `signature` is a valid Ed25519 signature of `message` under the
/// public key `public` (false when `public` is no curve point).
pub uninterp spec fn spec_ed25519_verify(public: Seq<u8>, message: Seq<u8>, signature: Seq<u8>) -> bool;

/// `XChaCha20Poly1305::encrypt` with no associated data. It fails exactly
/// when the plaintext has `u32::MAX` or more 64-byte blocks (the crate's
/// length check; `Vec` never refuses to grow). The ciphertext is as long as
/// the plaintext, followed by the 16-byte Poly1305 tag. Decrypting what it
/// returns with the same key and nonce gives the plaintext back.
#[verifier::external_body]
pub(crate) fn xchacha_seal(key: &[u8; 32], nonce: &[u8; 24], plaintext: &[u8]) -> (r: Option<Vec<u8>>)
    ensures
        r is Some <==> aead_len_ok(plaintext@.len()),
        r matches Some(c) ==> c@ == spec_xchacha_seal(key@, nonce@, plaintext@),
        r matches Some(c) ==> c@.len() == plaintext@.len() + 16,
        r matches Some(c) ==> spec_xchacha_open(key@, nonce@, c@) == Some(plaintext@),
{
    XChaCha20Poly1305::new(key.into()).encrypt(XNonce::from_slice(nonce), plaintext).ok()
}

/// `XChaCha20Poly1305::decrypt` with no associated data: the plaintext, or
/// `None` when the ciphertext does not authenticate.
#[verifier::external_body]
pub(crate) fn xchacha_open(key: &[u8; 32], nonce: &[u8; 24], ciphertext: &[u8]) -> (r: Option<Vec<u8>>)
    ensures
        r matches Some(p) ==> spec_xchacha_open(key@, nonce@, ciphertext@) == Some(p@),
        r is None ==> spec_xchacha_open(key@, nonce@, ciphertext@) is None,
{
    XChaCha20Poly1305::new(key.into()).decrypt(XNonce::from_slice(nonce), ciphertext).ok()
}

/// 24 bytes from the operating system's random number generator
/// (`OsRng::fill_bytes`). Nothing is claimed of their value.
#[verifier::external_body]
pub(crate) fn random_nonce() -> (r: [u8; 24]) {
    let mut nonce = [0u8; 24];
    OsRng.fill_bytes(&mut nonce);
    nonce
}

/// A fresh X25519 secret (`StaticSecret::random_from_rng(OsRng)`), as its
/// bytes. Nothing is claimed of their value.
#[verifier::external_body]
pub(crate) fn x25519_random_secret() -> (r: [u8; 32]) {
    StaticSecret::random_from_rng(OsRng).to_bytes()
}

/// The X25519 public key of a secret.
#[verifier::external_body]
pub(crate) fn x25519_public(secret: &[u8; 32]) -> (r: [u8; 32])
    ensures
        r@ == spec_x25519_public(secret@),
{
    PublicKey::from(&StaticSecret::from(*secret)).to_bytes()
}

/// X25519 Diffie-Hellman of a secret with a peer's public key. Both sides
/// compute the same value: with the peer's secret `other`, the peer
/// combines it with this side's public key to the same bytes (both are the
/// clamped scalars times the base point).
#[verifier::external_body]
pub(crate) fn x25519_shared(secret: &[u8; 32], peer_public: &[u8; 32]) -> (r: [u8; 32])
    ensures
        r@ == spec_x25519_shared(secret@, peer_public@),
        forall|other: Seq<u8>|
            other.len() == 32 && peer_public@ == spec_x25519_public(other) ==> r@
                == spec_x25519_shared(other, spec_x25519_public(secret@)),
{
    StaticSecret::from(*secret).diffie_hellman(&PublicKey::from(*peer_public)).to_bytes()
}

/// The SHA-256 digest of `data`.
#[verifier::external_body]
pub(crate) fn sha256(data: &[u8]) -> (r: [u8; 32])
    ensures
        r@ == spec_sha256(data@),
{
    let mut hasher = Sha256::new();
    hasher.update(data);
    let digest = hasher.finalize();
    let mut out = [0u8; 32];
    out.copy_from_slice(&digest);
    out
}

/// A fresh Ed25519 secret seed (`SigningKey::generate(&mut OsRng)`).
/// Nothing is claimed of its value.
#[verifier::external_body]
pub(crate) fn ed25519_random_seed() -> (r: [u8; 32]) {
    SigningKey::generate(&mut OsRng).to_bytes()
}

/// The Ed25519 public key of a secret seed
/// (`SigningKey::from_bytes(seed).verifying_key()`), compressed to 32
/// bytes. It is the compression of a curve point, so `VerifyingKey::from_bytes`
/// accepts it.
#[verifier::external_body]
pub(crate) fn ed25519_public(seed: &[u8; 32]) -> (r: [u8; 32])
    ensures
        r@ == spec_ed25519_public(seed@),
        spec_ed25519_key_valid(r@),
{
    SigningKey::from_bytes(seed).verifying_key().to_bytes()
}

/// The Ed25519 signature of `message` under a seed (`SigningKey::sign`).
/// Ed25519 signing is deterministic, and the public key of the same seed
/// accepts the signature.
#[verifier::external_body]
pub(crate) fn ed25519_sign(seed: &[u8; 32], message: &[u8]) -> (r: [u8; 64])
    ensures
        r@ == spec_ed25519_sign(seed@, message@),
        spec_ed25519_verify(spec_ed25519_public(seed@), message@, r@),
{
    SigningKey::from_bytes(seed).sign(message).to_bytes()
}

/// Checks an Ed25519 signature: `VerifyingKey::from_bytes`, which refuses
/// bytes that decompress to no curve point (then the answer is `false`),
/// then `Verifier::verify`.
#[verifier::external_body]
pub(crate) fn ed25519_verify(public: &[u8; 32], message: &[u8], signature: &[u8; 64]) -> (r: bool)
    ensures
        r == spec_ed25519_verify(public@, message@, signature@),
        !spec_ed25519_key_valid(public@) ==> !r,
{
    match VerifyingKey::from_bytes(public) {
        Ok(key) => key.verify(message, &Signature::from_bytes(signature)).is_ok(),
        Err(_) => false,
    }
}

} // verus!
