//! X25519 key exchange: each session's symmetric key is the SHA-256 hash of
//! the Diffie-Hellman shared secret of the two peers' key pairs.

use vstd::prelude::*;
use crate::crypto::primitives::{
    sha256, spec_sha256, spec_x25519_public, spec_x25519_shared, x25519_public,
    x25519_random_secret, x25519_shared,
};
use crate::hexcodec::{
    hex_decode, hex_encode, lemma_hex_encode_chars, lemma_hex_roundtrip, spec_hex_decode,
    spec_hex_encode,
};
use crate::text::{chars_of, string_of, sub_chars};

verus! {

/// Why a session key could not be derived from a peer's public key text.
#[derive(Debug, PartialEq, Eq, Structural, Clone, Copy)]
pub enum KeyExchangeError {
    /// The text is not hexadecimal.
    HexDecode,
    /// The key is not exactly 32 bytes.
    WrongLength,
}

/// The text of a key exchange error. The hex crate's detail of a decoding
/// error is not kept.
pub open spec fn spec_key_exchange_error_text(e: KeyExchangeError) -> Seq<char> {
    match e {
        KeyExchangeError::HexDecode => "Peer public key hex decode error"@,
        KeyExchangeError::WrongLength => "Peer public key must be exactly 32 bytes"@,
    }
}

impl KeyExchangeError {
    /// The error's text.
    pub fn message(&self) -> (r: String)
        ensures
            r@ == spec_key_exchange_error_text(*self),
    {
        let text = match self {
            KeyExchangeError::HexDecode => "Peer public key hex decode error",
            KeyExchangeError::WrongLength => "Peer public key must be exactly 32 bytes",
        };
        string_of(chars_of(text).as_slice())
    }
}

/// A local X25519 key pair, held as its 32-byte secret and public key.
pub struct X25519KeyPair {
    pub secret: [u8; 32],
    pub public: [u8; 32],
}

/// The session key derived from a secret and the peer's public key text.
pub open spec fn spec_derive_session_key(secret: Seq<u8>, peer_hex: Seq<char>) -> Result<
    Seq<u8>,
    KeyExchangeError,
> {
    match spec_hex_decode(peer_hex) {
        None => Err(KeyExchangeError::HexDecode),
        Some(b) => if b.len() != 32 {
            Err(KeyExchangeError::WrongLength)
        } else {
            Ok(spec_sha256(spec_x25519_shared(secret, b)))
        },
    }
}

/// The first 16 hexadecimal digits of the SHA-256 hash of a public key:
/// the security code people compare out of band.
pub open spec fn spec_fingerprint(public: Seq<u8>) -> Seq<char> {
    spec_hex_encode(spec_sha256(public)).take(16)
}

impl X25519KeyPair {
    /// The public key belongs to the secret.
    pub open spec fn wf(&self) -> bool {
        self.public@ == spec_x25519_public(self.secret@)
    }

    /// The key pair of a given secret.
    pub fn from_secret(secret: [u8; 32]) -> (r: Self)
        ensures
            r.wf(),
            r.secret == secret,
    {
        let public = x25519_public(&secret);
        X25519KeyPair { secret, public }
    }

    /// Generates a new random X25519 keypair.
    pub fn generate() -> (r: Self)
        ensures
            r.wf(),
    {
        let secret = x25519_random_secret();
        Self::from_secret(secret)
    }

    /// Returns the public key encoded as a hex string for UDP transport.
    pub fn public_key_hex(&self) -> (r: String)
        ensures
            r@ == spec_hex_encode(self.public@),
    {
        hex_encode(&self.public)
    }

    /// Derives a 32-byte symmetric session key given a peer's hex public key:
    /// X25519 Diffie-Hellman, then SHA-256 of the shared secret. A peer that
    /// derives its key from this pair's public key text gets the same key.
    pub fn derive_session_key(&self, peer_pub_key_hex: &str) -> (r: Result<
        [u8; 32],
        KeyExchangeError,
    >)
        ensures
            r matches Ok(k) ==> spec_derive_session_key(self.secret@, peer_pub_key_hex@) == Ok::<
                Seq<u8>,
                KeyExchangeError,
            >(k@),
            r matches Err(e) ==> spec_derive_session_key(self.secret@, peer_pub_key_hex@) == Err::<
                Seq<u8>,
                KeyExchangeError,
            >(e),
            self.wf() ==> forall|peer: X25519KeyPair|
                peer.wf() && peer_pub_key_hex@ == spec_hex_encode(peer.public@) ==> r is Ok
                    && spec_derive_session_key(peer.secret@, spec_hex_encode(self.public@)) == Ok::<
                    Seq<u8>,
                    KeyExchangeError,
                >(r->Ok_0@),
    {
        let peer_bytes = match hex_decode(peer_pub_key_hex) {
            Some(b) => b,
            None => {
                proof {
                    lemma_public_hex_decodes_any();
                }
                return Err(KeyExchangeError::HexDecode);
            },
        };
        if peer_bytes.len() != 32 {
            proof {
                lemma_public_hex_decodes_any();
            }
            return Err(KeyExchangeError::WrongLength);
        }
        let mut public_bytes = [0u8; 32];
        let mut i: usize = 0;
        while i < 32
            invariant
                i <= 32,
                peer_bytes@.len() == 32,
                public_bytes@.len() == 32,
                forall|k: int| 0 <= k < i ==> public_bytes@[k] == peer_bytes@[k],
            decreases 32 - i,
        {
            public_bytes[i] = peer_bytes[i];
            i = i + 1;
        }
        assert(public_bytes@ =~= peer_bytes@);
        let shared = x25519_shared(&self.secret, &public_bytes);
        let key = sha256(&shared);
        proof {
            lemma_public_hex_decodes_any();
            if self.wf() {
                lemma_hex_roundtrip(self.public@);
                assert forall|peer: X25519KeyPair|
                    peer.wf() && peer_pub_key_hex@ == spec_hex_encode(
                        peer.public@,
                    ) implies spec_derive_session_key(peer.secret@, spec_hex_encode(self.public@))
                    == Ok::<Seq<u8>, KeyExchangeError>(key@) by {
                    lemma_hex_roundtrip(peer.public@);
                    assert(public_bytes@ == peer.public@);
                    assert(peer.secret@.len() == 32);
                    assert(shared@ == spec_x25519_shared(peer.secret@, spec_x25519_public(self.secret@)));
                }
            }
        }
        Ok(key)
    }

    /// Generates a "Trust on First Use" (TOFU) fingerprint: the first 16
    /// hexadecimal digits of the SHA-256 hash of the public key.
    pub fn tofu_fingerprint(&self) -> (r: String)
        ensures
            r@ == spec_fingerprint(self.public@),
            r@.len() == 16,
            forall|i: int| 0 <= i < 16 ==> ('0' <= #[trigger] r@[i] <= '9') || ('a' <= r@[i] <= 'f'),
    {
        let digest = sha256(&self.public);
        proof {
            lemma_fingerprint_digits(self.public@);
        }
        let h = hex_encode(&digest);
        let v = chars_of(h.as_str());
        let first = sub_chars(v.as_slice(), 0, 16);
        assert(first@ =~= spec_fingerprint(self.public@));
        string_of(first.as_slice())
    }
}

/// Every character of the fingerprint of a key whose 32-byte digest was
/// computed is a lowercase hexadecimal digit.
pub proof fn lemma_fingerprint_digits(public: Seq<u8>)
    requires
        spec_sha256(public).len() == 32,
    ensures
        forall|i: int|
            0 <= i < spec_fingerprint(public).len() ==> ('0' <= #[trigger] spec_fingerprint(
                public,
            )[i] <= '9') || ('a' <= spec_fingerprint(public)[i] <= 'f'),
{
    let h = spec_hex_encode(spec_sha256(public));
    lemma_hex_encode_chars(spec_sha256(public));
    assert forall|i: int| 0 <= i < spec_fingerprint(public).len() implies ('0' <= #[trigger] spec_fingerprint(
        public,
    )[i] <= '9') || ('a' <= spec_fingerprint(public)[i] <= 'f') by {
        assert(spec_fingerprint(public)[i] == h[i]);
    }
}

/// The hexadecimal text of any 32-byte public key decodes back to it.
proof fn lemma_public_hex_decodes_any()
    ensures
        forall|p: Seq<u8>| #[trigger] spec_hex_decode(spec_hex_encode(p)) == Some(p),
{
    assert forall|p: Seq<u8>| #[trigger] spec_hex_decode(spec_hex_encode(p)) == Some(p) by {
        lemma_hex_roundtrip(p);
    }
}

} // verus!
