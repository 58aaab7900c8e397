//! Chat messages and their encrypted packets. A message travels as its
//! JSON text (written and read by the application), encrypted under the
//! session key and framed as `HOPCHAT_MSG|ciphertext_hex`, so that sender,
//! receiver, id and time are hidden from the network.

use vstd::prelude::*;
use crate::crypto::encryption::{
    decrypt_message, encrypt_message, spec_decrypt_message, spec_sealed_payload, CryptoError,
};
use crate::crypto::primitives::aead_len_ok;
use vstd::utf8::encode_utf8;
use crate::protocol::{
    lemma_message_frame_roundtrip, message_frame, spec_message_frame, spec_unframe_message,
    unframe_message,
};

verus! {

/// A chat message.
pub struct MessageView {
    pub id: u64,
    pub sender: Seq<char>,
    pub receiver: Seq<char>,
    pub content: Seq<char>,
    pub timestamp: u64,
}

/// Represents a single chat message between peers.
pub struct ChatMessage {
    /// A unique incrementing ID for this message
    pub id: u64,
    /// The username of the sender
    pub sender: String,
    /// The username of the receiver
    pub receiver: String,
    /// The message content string
    pub content: String,
    /// Unix timestamp in seconds
    pub timestamp: u64,
}

impl View for ChatMessage {
    type V = MessageView;

    open spec fn view(&self) -> MessageView {
        MessageView {
            id: self.id,
            sender: self.sender@,
            receiver: self.receiver@,
            content: self.content@,
            timestamp: self.timestamp,
        }
    }
}

impl ChatMessage {
    /// Creates a message with the given id (from the process's
    /// `MessageIdCounter`) and Unix timestamp in seconds.
    pub fn new(sender: &str, receiver: &str, content: &str, id: u64, timestamp: u64) -> (r: Self)
        ensures
            r@ == (MessageView {
                id,
                sender: sender@,
                receiver: receiver@,
                content: content@,
                timestamp,
            }),
    {
        ChatMessage {
            id,
            sender: sender.to_owned(),
            receiver: receiver.to_owned(),
            content: content.to_owned(),
            timestamp,
        }
    }

    /// A copy of this message.
    pub fn duplicate(&self) -> (r: Self)
        ensures
            r@ == self@,
    {
        ChatMessage {
            id: self.id,
            sender: self.sender.clone(),
            receiver: self.receiver.clone(),
            content: self.content.clone(),
            timestamp: self.timestamp,
        }
    }
}

/// Message ids: they start at a random value (chosen by the
/// application) and go up by one, wrapping around, so that a sequence of
/// ids reveals nothing of how many messages came before.
pub struct MessageIdCounter {
    next: u64,
}

impl View for MessageIdCounter {
    type V = u64;

    closed spec fn view(&self) -> u64 {
        self.next
    }
}

impl MessageIdCounter {
    pub fn new(start: u64) -> (r: Self)
        ensures
            r@ == start,
    {
        MessageIdCounter { next: start }
    }

    /// The next id; the counter moves on by one, wrapping around.
    pub fn next_id(&mut self) -> (r: u64)
        ensures
            r == old(self)@,
            final(self)@ == (if old(self)@ == u64::MAX {
                0
            } else {
                (old(self)@ + 1) as u64
            }),
    {
        let id = self.next;
        self.next = if id == u64::MAX {
            0
        } else {
            id + 1
        };
        id
    }
}

/// The id the counter started at `start` hands out at its `k`-th call
/// (counted from 0): `start + k`, wrapping around at 2^64.
pub open spec fn spec_nth_id(start: u64, k: nat) -> u64 {
    ((start + k) % 0x1_0000_0000_0000_0000) as u64
}

/// The ids of the first `n` calls of a counter started at `start`.
pub open spec fn spec_ids(start: u64, n: nat) -> Seq<u64> {
    Seq::new(n, |k: int| spec_nth_id(start, k as nat))
}

/// One call moves a counter from the `k`-th id to the next: what `next_id`
/// leaves behind, starting from `spec_nth_id(start, k)`, is
/// `spec_nth_id(start, k + 1)`.
pub proof fn lemma_next_id_step(start: u64, k: nat)
    ensures
        (if spec_nth_id(start, k) == u64::MAX {
            0
        } else {
            (spec_nth_id(start, k) + 1) as u64
        }) == spec_nth_id(start, k + 1),
{
    let m: int = 0x1_0000_0000_0000_0000;
    let x: int = start + k;
    assert(spec_nth_id(start, k) == x % m);
    assert((x + 1) % m == if x % m == m - 1 { 0 } else { x % m + 1 }) by (nonlinear_arith)
        requires
            m == 0x1_0000_0000_0000_0000,
            x >= 0,
    {
        vstd::arithmetic::div_mod::lemma_add_mod_noop(x, 1, m);
        vstd::arithmetic::div_mod::lemma_small_mod(1, m as nat);
        vstd::arithmetic::div_mod::lemma_mod_bound(x, m);
        if x % m == m - 1 {
            vstd::arithmetic::div_mod::lemma_mod_self_0(m);
        } else {
            vstd::arithmetic::div_mod::lemma_small_mod((x % m + 1) as nat, m as nat);
        }
    }
}

/// Message ids do not repeat: up to 2^64 calls of `next_id` give pairwise
/// different ids.
pub proof fn lemma_ids_distinct(start: u64, n: nat)
    requires
        n <= 0x1_0000_0000_0000_0000,
    ensures
        spec_ids(start, n).no_duplicates(),
{
    let m: int = 0x1_0000_0000_0000_0000;
    assert forall|i: int, j: int| 0 <= i < j < n implies spec_ids(start, n)[i] != spec_ids(
        start,
        n,
    )[j] by {
        let a: int = start + i;
        let b: int = start + j;
        assert(a % m != b % m) by (nonlinear_arith)
            requires
                m == 0x1_0000_0000_0000_0000,
                0 <= start < m,
                0 <= i < j < m,
                a == start + i,
                b == start + j,
        {
            vstd::arithmetic::div_mod::lemma_fundamental_div_mod(a, m);
            vstd::arithmetic::div_mod::lemma_fundamental_div_mod(b, m);
            vstd::arithmetic::div_mod::lemma_mod_bound(a, m);
            vstd::arithmetic::div_mod::lemma_mod_bound(b, m);
        }
    }
}

/// The message text carried by a packet under `key`: the packet must be a
/// chat message packet whose ciphertext decrypts.
pub open spec fn spec_open_packet(key: Seq<u8>, text: Seq<char>) -> Option<Seq<char>> {
    match spec_unframe_message(text) {
        None => None,
        Some(c) => match spec_decrypt_message(key, c) {
            Ok(m) => Some(m),
            Err(_) => None,
        },
    }
}

/// Encrypts a message's JSON text under the session key with a fresh
/// nonce and frames it as `HOPCHAT_MSG|ciphertext_hex`: the packet shows
/// only the hexadecimal nonce and ciphertext, and reading it back with the
/// same key gives the same text.
pub fn seal_packet(key: &[u8; 32], json: &str) -> (r: Result<String, CryptoError>)
    ensures
        r is Ok <==> aead_len_ok(encode_utf8(json@).len()),
        r matches Ok(p) ==> spec_open_packet(key@, p@) == Some(json@),
        r matches Ok(p) ==> exists|nonce: Seq<u8>|
            nonce.len() == 24 && p@ == spec_message_frame(spec_sealed_payload(key@, nonce, json@)),
        r matches Err(e) ==> e == CryptoError::Encryption,
{
    let hex = encrypt_message(key, json)?;
    let p = message_frame(hex.as_str());
    proof {
        lemma_message_frame_roundtrip(hex@);
    }
    Ok(p)
}

/// The message text in a packet, if it is a chat message packet whose
/// ciphertext decrypts under `key`. A packet sealed under another key, or
/// tampered with, gives `None`.
pub fn open_packet(text: &str, key: &[u8; 32]) -> (r: Option<String>)
    ensures
        r matches Some(m) ==> spec_open_packet(key@, text@) == Some(m@),
        r is None ==> spec_open_packet(key@, text@) is None,
{
    match unframe_message(text) {
        None => None,
        Some(c) => match decrypt_message(key, c.as_str()) {
            Ok(m) => Some(m),
            Err(_) => None,
        },
    }
}

} // verus!
