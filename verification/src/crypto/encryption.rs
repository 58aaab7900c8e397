//! End-to-end encryption of chat payloads with XChaCha20-Poly1305.
//!
//! Data format: `[24-byte nonce][ciphertext + 16-byte tag]`, written as
//! hexadecimal text so that it fits in a text packet.

use vstd::prelude::*;
use vstd::utf8::{decode_utf8, encode_utf8, valid_utf8};
use crate::crypto::primitives::{
    aead_len_ok, random_nonce, spec_xchacha_open, spec_xchacha_seal, xchacha_open, xchacha_seal,
};
use crate::text::{chars_of, string_of};
use crate::hexcodec::{hex_decode, hex_encode, lemma_hex_roundtrip, spec_hex_decode, spec_hex_encode};

verus! {

/// `std::string::FromUtf8Error`, carried only to be told apart from success.
#[verifier::external_type_specification]
#[verifier::external_body]
pub struct ExFromUtf8Error(std::string::FromUtf8Error);

/// `String::from_utf8` accepts exactly the valid UTF-8 byte strings and
/// decodes them.
pub assume_specification[ String::from_utf8 ](vec: Vec<u8>) -> (r: Result<
    String,
    std::string::FromUtf8Error,
>)
    ensures
        r is Ok <==> valid_utf8(vec@),
        r matches Ok(s) ==> s@ == decode_utf8(vec@),
;

/// Why encrypting or decrypting a payload failed.
#[derive(Debug, PartialEq, Eq, Structural, Clone, Copy)]
pub enum CryptoError {
    /// The plaintext is too long for the cipher.
    Encryption,
    /// The payload is not hexadecimal text.
    HexDecode,
    /// The payload is shorter than a nonce.
    PayloadTooShort,
    /// The ciphertext does not authenticate under the key.
    Decryption,
    /// The plaintext is not valid UTF-8.
    InvalidUtf8,
}

/// The text of an error. The details that the outside errors carry (which
/// hexadecimal character is wrong, where the UTF-8 breaks) are not kept.
pub open spec fn spec_crypto_error_text(e: CryptoError) -> Seq<char> {
    match e {
        CryptoError::Encryption => "Encryption failed: aead::Error"@,
        CryptoError::HexDecode => "Hex decode error"@,
        CryptoError::PayloadTooShort => "Payload too short (missing nonce)"@,
        CryptoError::Decryption => "Decryption/Authentication failed"@,
        CryptoError::InvalidUtf8 => "Invalid UTF-8 in decrypted data"@,
    }
}

impl CryptoError {
    /// The error's text.
    pub fn message(&self) -> (r: String)
        ensures
            r@ == spec_crypto_error_text(*self),
    {
        let text = match self {
            CryptoError::Encryption => "Encryption failed: aead::Error",
            CryptoError::HexDecode => "Hex decode error",
            CryptoError::PayloadTooShort => "Payload too short (missing nonce)",
            CryptoError::Decryption => "Decryption/Authentication failed",
            CryptoError::InvalidUtf8 => "Invalid UTF-8 in decrypted data",
        };
        string_of(chars_of(text).as_slice())
    }
}

/// The length of the nonce that starts every payload.
pub const NONCE_LEN: usize = 24;

/// The payload text for `plaintext` sealed under `key` with `nonce`.
pub open spec fn spec_sealed_payload(key: Seq<u8>, nonce: Seq<u8>, plaintext: Seq<char>) -> Seq<
    char,
> {
    spec_hex_encode(nonce + spec_xchacha_seal(key, nonce, encode_utf8(plaintext)))
}

/// What decrypting a payload text gives.
pub open spec fn spec_decrypt_message(key: Seq<u8>, payload: Seq<char>) -> Result<
    Seq<char>,
    CryptoError,
> {
    match spec_hex_decode(payload) {
        None => Err(CryptoError::HexDecode),
        Some(combined) => if combined.len() < 24 {
            Err(CryptoError::PayloadTooShort)
        } else {
            match spec_xchacha_open(key, combined.take(24), combined.skip(24)) {
                None => Err(CryptoError::Decryption),
                Some(p) => if valid_utf8(p) {
                    Ok(decode_utf8(p))
                } else {
                    Err(CryptoError::InvalidUtf8)
                },
            }
        },
    }
}

/// Encrypts `plaintext` under `key` with the given nonce; the payload is the
/// hexadecimal text of the nonce followed by the ciphertext.
pub fn encrypt_message_with_nonce(key: &[u8; 32], nonce: &[u8; 24], plaintext: &str) -> (r:
    Result<String, CryptoError>)
    ensures
        r is Ok <==> aead_len_ok(encode_utf8(plaintext@).len()),
        r matches Err(e) ==> e == CryptoError::Encryption,
        r matches Ok(h) ==> h@ == spec_sealed_payload(key@, nonce@, plaintext@),
        r matches Ok(h) ==> h@.len() == 2 * (24 + encode_utf8(plaintext@).len() + 16),
        r matches Ok(h) ==> spec_decrypt_message(key@, h@) == Ok::<Seq<char>, CryptoError>(
            plaintext@,
        ),
{
    let bytes = plaintext.as_bytes();
    let ciphertext = match xchacha_seal(key, nonce, bytes) {
        Some(c) => c,
        None => return Err(CryptoError::Encryption),
    };
    let mut combined: Vec<u8> = Vec::new();
    let mut i: usize = 0;
    while i < 24
        invariant
            i <= 24,
            combined@ == nonce@.take(i as int),
        decreases 24 - i,
    {
        combined.push(nonce[i]);
        i = i + 1;
        assert(nonce@.take(i as int) =~= nonce@.take(i - 1).push(nonce@[i - 1]));
    }
    assert(nonce@.take(24) =~= nonce@);
    let mut j: usize = 0;
    while j < ciphertext.len()
        invariant
            j <= ciphertext.len(),
            combined@ == nonce@ + ciphertext@.take(j as int),
        decreases ciphertext.len() - j,
    {
        combined.push(ciphertext[j]);
        j = j + 1;
        assert(ciphertext@.take(j as int) =~= ciphertext@.take(j - 1).push(ciphertext@[j - 1]));
    }
    assert(ciphertext@.take(ciphertext.len() as int) =~= ciphertext@);
    let h = hex_encode(combined.as_slice());
    proof {
        lemma_decrypt_sealed(key@, nonce@, plaintext@, ciphertext@);
    }
    Ok(h)
}

/// Encrypts a plaintext string under `key` with a fresh random nonce and
/// returns the hexadecimal payload (nonce followed by ciphertext).
pub fn encrypt_message(key: &[u8; 32], plaintext: &str) -> (r: Result<String, CryptoError>)
    ensures
        r is Ok <==> aead_len_ok(encode_utf8(plaintext@).len()),
        r matches Err(e) ==> e == CryptoError::Encryption,
        r matches Ok(h) ==> exists|nonce: Seq<u8>|
            nonce.len() == 24 && h@ == spec_sealed_payload(key@, nonce, plaintext@),
        r matches Ok(h) ==> h@.len() == 2 * (24 + encode_utf8(plaintext@).len() + 16),
        r matches Ok(h) ==> spec_decrypt_message(key@, h@) == Ok::<Seq<char>, CryptoError>(
            plaintext@,
        ),
{
    let nonce = random_nonce();
    encrypt_message_with_nonce(key, &nonce, plaintext)
}

/// Decrypts a hexadecimal payload (nonce followed by ciphertext) and returns
/// the plaintext string.
pub fn decrypt_message(key: &[u8; 32], hex_payload: &str) -> (r: Result<String, CryptoError>)
    ensures
        r matches Ok(s) ==> spec_decrypt_message(key@, hex_payload@) == Ok::<
            Seq<char>,
            CryptoError,
        >(s@),
        r matches Err(e) ==> spec_decrypt_message(key@, hex_payload@) == Err::<
            Seq<char>,
            CryptoError,
        >(e),
{
    let combined = match hex_decode(hex_payload) {
        Some(b) => b,
        None => return Err(CryptoError::HexDecode),
    };
    if combined.len() < 24 {
        return Err(CryptoError::PayloadTooShort);
    }
    let mut nonce = [0u8; 24];
    let mut i: usize = 0;
    while i < 24
        invariant
            i <= 24,
            24 <= combined.len(),
            nonce@.len() == 24,
            forall|k: int| 0 <= k < i ==> nonce@[k] == combined@[k],
        decreases 24 - i,
    {
        nonce[i] = combined[i];
        i = i + 1;
    }
    assert(nonce@ =~= combined@.take(24));
    let mut ciphertext: Vec<u8> = Vec::new();
    let mut j: usize = 24;
    while j < combined.len()
        invariant
            24 <= j <= combined.len(),
            ciphertext@ == combined@.subrange(24, j as int),
        decreases combined.len() - j,
    {
        ciphertext.push(combined[j]);
        j = j + 1;
        assert(combined@.subrange(24, j as int) =~= combined@.subrange(24, j - 1).push(
            combined@[j - 1],
        ));
    }
    assert(ciphertext@ =~= combined@.skip(24));
    let plain = match xchacha_open(key, &nonce, ciphertext.as_slice()) {
        Some(p) => p,
        None => return Err(CryptoError::Decryption),
    };
    match String::from_utf8(plain) {
        Ok(s) => Ok(s),
        Err(_) => Err(CryptoError::InvalidUtf8),
    }
}

/// Decrypting what was sealed gives the plaintext back.
pub proof fn lemma_decrypt_sealed(
    key: Seq<u8>,
    nonce: Seq<u8>,
    plaintext: Seq<char>,
    ciphertext: Seq<u8>,
)
    requires
        nonce.len() == 24,
        ciphertext == spec_xchacha_seal(key, nonce, encode_utf8(plaintext)),
        spec_xchacha_open(key, nonce, ciphertext) == Some(encode_utf8(plaintext)),
    ensures
        spec_decrypt_message(key, spec_sealed_payload(key, nonce, plaintext)) == Ok::<
            Seq<char>,
            CryptoError,
        >(plaintext),
{
    let combined = nonce + ciphertext;
    lemma_hex_roundtrip(combined);
    assert(combined.take(24) =~= nonce);
    assert(combined.skip(24) =~= ciphertext);
    vstd::utf8::encode_utf8_valid_utf8(plaintext);
    vstd::utf8::encode_utf8_decode_utf8(plaintext);
}

} // verus!
