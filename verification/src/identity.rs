//! The local user's long-term Ed25519 identity. Handshakes carry the
//! ephemeral X25519 key signed with it, so that a peer can pin the identity
//! key on first contact and notice when it changes.

use vstd::prelude::*;
use crate::crypto::key_exchange::{lemma_fingerprint_digits, spec_fingerprint};
use crate::crypto::primitives::{
    ed25519_public, ed25519_random_seed, ed25519_sign, ed25519_verify, sha256,
    spec_ed25519_key_valid, spec_ed25519_public, spec_ed25519_sign, spec_ed25519_verify,
};
use crate::hexcodec::{hex_decode, hex_encode, lemma_hex_roundtrip, spec_hex_decode, spec_hex_encode};
use crate::text::{chars_of, string_of, sub_chars};
use crate::username::{sanitize_identity_username, spec_identity_username};

verus! {

/// Whether `sig_hex` is the hexadecimal text of a valid signature of
/// `payload` under the public key written in `pub_hex`: both must decode,
/// to 32 and 64 bytes, and the key must be a curve point.
pub open spec fn spec_verify_signature(pub_hex: Seq<char>, payload: Seq<u8>, sig_hex: Seq<char>) -> bool {
    match (spec_hex_decode(pub_hex), spec_hex_decode(sig_hex)) {
        (Some(p), Some(s)) => p.len() == 32 && s.len() == 64 && spec_ed25519_key_valid(p)
            && spec_ed25519_verify(p, payload, s),
        _ => false,
    }
}

/// The local user's identity: a username and a 32-byte Ed25519 secret seed,
/// with the public key and its fingerprint computed once.
pub struct LocalIdentity {
    username: String,
    secret_seed: [u8; 32],
    verifying_key: [u8; 32],
    tofu: String,
}

impl LocalIdentity {
    #[verifier::type_invariant]
    spec fn inv(&self) -> bool {
        &&& self.verifying_key@ == spec_ed25519_public(self.secret_seed@)
        &&& spec_ed25519_key_valid(self.verifying_key@)
        &&& self.tofu@ == spec_fingerprint(self.verifying_key@)
        &&& self.tofu@.len() == 16
        &&& forall|i: int|
            0 <= i < 16 ==> ('0' <= #[trigger] self.tofu@[i] <= '9') || ('a' <= self.tofu@[i] <= 'f')
    }

    /// The secret seed.
    pub closed spec fn seed(&self) -> Seq<u8> {
        self.secret_seed@
    }

    /// The name the identity is kept under.
    pub closed spec fn name(&self) -> Seq<char> {
        self.username@
    }

    /// The identity of a seed, with its public key and fingerprint computed.
    pub fn from_seed(username: String, seed: [u8; 32]) -> (r: Self)
        ensures
            r.seed() == seed@,
            r.name() == username@,
    {
        let verifying_key = ed25519_public(&seed);
        let tofu = fingerprint_of(&verifying_key);
        LocalIdentity { username, secret_seed: seed, verifying_key, tofu }
    }

    /// A new identity with a fresh random seed.
    pub fn generate(username: String) -> (r: Self)
        ensures
            r.name() == username@,
    {
        let seed = ed25519_random_seed();
        Self::from_seed(username, seed)
    }

    /// The identity kept under `stored_username`, taken up under `username`.
    /// The flag tells whether the name changed, so that the stored copy must
    /// be written again.
    pub fn from_stored(stored_username: String, seed: [u8; 32], username: String) -> (r: (
        Self,
        bool,
    ))
        ensures
            r.0.seed() == seed@,
            r.0.name() == username@,
            r.1 == (stored_username@ != username@),
    {
        let changed = stored_username != username;
        (Self::from_seed(username, seed), changed)
    }

    /// Takes up the identity of `raw_username` (sanitized, `anon` when
    /// nothing remains): the stored one, given as the name it was stored
    /// under and its seed (its key is kept, whatever the name), or a new one
    /// when none could be read.
    /// The flag tells whether the identity must be written (new, or stored
    /// under another name).
    pub fn load_or_create(raw_username: &str, stored: Option<(String, [u8; 32])>) -> (r: (
        Self,
        bool,
    ))
        ensures
            r.0.name() == spec_identity_username(raw_username@),
            match stored {
                Some((stored_name, seed)) => r.0.seed() == seed@ && r.1 == (stored_name@
                    != spec_identity_username(raw_username@)),
                None => r.1,
            },
    {
        let username = sanitize_identity_username(raw_username);
        match stored {
            Some((stored_name, seed)) => Self::from_stored(stored_name, seed, username),
            None => (Self::generate(username), true),
        }
    }

    /// The name the identity is kept under.
    pub fn username(&self) -> (r: &String)
        ensures
            r@ == self.name(),
    {
        &self.username
    }

    /// The secret seed, for storing the identity.
    pub fn secret_seed(&self) -> (r: [u8; 32])
        ensures
            r@ == self.seed(),
    {
        self.secret_seed
    }

    /// Returns our public key hex for transmitting in handshakes.
    pub fn public_key_hex(&self) -> (r: String)
        ensures
            r@ == spec_hex_encode(spec_ed25519_public(self.seed())),
    {
        proof {
            use_type_invariant(self);
        }
        hex_encode(&self.verifying_key)
    }

    /// Signs a payload (like the ephemeral X25519 key) to prove identity
    /// ownership; the signature text is accepted by `verify_signature` with
    /// this identity's public key text.
    pub fn sign_payload(&self, payload: &[u8]) -> (r: String)
        ensures
            r@ == spec_hex_encode(spec_ed25519_sign(self.seed(), payload@)),
            spec_verify_signature(
                spec_hex_encode(spec_ed25519_public(self.seed())),
                payload@,
                r@,
            ),
    {
        proof {
            use_type_invariant(self);
        }
        let signature = ed25519_sign(&self.secret_seed, payload);
        proof {
            lemma_hex_roundtrip(spec_ed25519_public(self.secret_seed@));
            lemma_hex_roundtrip(signature@);
            assert(spec_ed25519_public(self.secret_seed@).len() == 32);
        }
        hex_encode(&signature)
    }

    /// Verifies another peer's signature over a payload given their public
    /// key hex. Every malformed input gives `false`.
    pub fn verify_signature(pub_hex: &str, payload: &[u8], sig_hex: &str) -> (r: bool)
        ensures
            r == spec_verify_signature(pub_hex@, payload@, sig_hex@),
    {
        let pub_bytes = match hex_decode(pub_hex) {
            Some(b) => b,
            None => return false,
        };
        if pub_bytes.len() != 32 {
            return false;
        }
        let sig_bytes = match hex_decode(sig_hex) {
            Some(b) => b,
            None => return false,
        };
        if sig_bytes.len() != 64 {
            return false;
        }
        let mut pub_array = [0u8; 32];
        let mut i: usize = 0;
        while i < 32
            invariant
                i <= 32,
                pub_bytes@.len() == 32,
                pub_array@.len() == 32,
                forall|k: int| 0 <= k < i ==> pub_array@[k] == pub_bytes@[k],
            decreases 32 - i,
        {
            pub_array[i] = pub_bytes[i];
            i = i + 1;
        }
        assert(pub_array@ =~= pub_bytes@);
        let mut sig_array = [0u8; 64];
        let mut j: usize = 0;
        while j < 64
            invariant
                j <= 64,
                sig_bytes@.len() == 64,
                sig_array@.len() == 64,
                forall|k: int| 0 <= k < j ==> sig_array@[k] == sig_bytes@[k],
            decreases 64 - j,
        {
            sig_array[j] = sig_bytes[j];
            j = j + 1;
        }
        assert(sig_array@ =~= sig_bytes@);
        ed25519_verify(&pub_array, payload, &sig_array)
    }

    /// Returns the pre-computed TOFU fingerprint: the first 16 hexadecimal
    /// digits of the SHA-256 hash of the identity's public key.
    pub fn tofu_fingerprint(&self) -> (r: String)
        ensures
            r@ == spec_fingerprint(spec_ed25519_public(self.seed())),
            r@.len() == 16,
            forall|i: int| 0 <= i < 16 ==> ('0' <= #[trigger] r@[i] <= '9') || ('a' <= r@[i] <= 'f'),
    {
        proof {
            use_type_invariant(self);
        }
        self.tofu.clone()
    }
}

/// The name of the file, in the home directory, the identity is kept in
/// (`~/.hopchat_id`). There is one identity per user account: a new name
/// typed at the prompt keeps the key and is written back to the file.
pub open spec fn spec_identity_file_name() -> Seq<char> {
    ".hopchat_id"@
}

pub fn identity_file_name() -> (r: String)
    ensures
        r@ == spec_identity_file_name(),
{
    string_of(chars_of(".hopchat_id").as_slice())
}

fn fingerprint_of(public: &[u8; 32]) -> (r: String)
    ensures
        r@ == spec_fingerprint(public@),
        r@.len() == 16,
        forall|i: int| 0 <= i < 16 ==> ('0' <= #[trigger] r@[i] <= '9') || ('a' <= r@[i] <= 'f'),
{
    let digest = sha256(public);
    proof {
        lemma_fingerprint_digits(public@);
    }
    let h = hex_encode(&digest);
    let v = chars_of(h.as_str());
    let first = sub_chars(v.as_slice(), 0, 16);
    assert(first@ =~= spec_fingerprint(public@));
    string_of(first.as_slice())
}

} // verus!
