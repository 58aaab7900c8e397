//! The state a running chat node shares between its listeners and its user
//! interface, and the decisions taken on each received packet: who is
//! known and where, which session keys were agreed, which identity keys
//! are pinned, which messages were delivered and what each conversation
//! holds. Sockets, clocks and JSON stay with the caller: each decision
//! takes the values they produced and says what to do next.

use vstd::prelude::*;
use vstd::utf8::encode_utf8;
use crate::caches::{spec_fifo_insert, DedupCache, FifoMap, DEDUP_CAP, HISTORY_CAP, IP_CACHE_CAP};
use crate::commands::{
    command_reply, command_result, spec_command_reply, spec_command_result, spec_system_target,
    system_target, Command, CommandResult,
};
use crate::crypto::key_exchange::{spec_derive_session_key, spec_fingerprint, X25519KeyPair};
use crate::crypto::primitives::{
    spec_ed25519_public, spec_ed25519_sign, spec_sha256, spec_x25519_shared,
};
use crate::hexcodec::{lemma_hex_encode_chars, spec_hex_decode, spec_hex_encode};
use crate::history::{conversation, message_views, spec_record, ChatHistory};
use crate::identity::{spec_verify_signature, LocalIdentity};
use crate::messages::{open_packet, spec_open_packet, ChatMessage, MessageIdCounter, MessageView};
use crate::names::{spec_check_pin, NameMap, PinCheck, TofuRegistry};
use crate::peers::{
    keep_fresh, spec_record_discovery, spec_record_handshake, spec_touch, DiscoveryUpdate, Peer,
    PeerTable, PeerView, PEER_TIMEOUT_MS,
};
use crate::protocol::{
    ack_payload, classify_packet, key_exchange_payload, lemma_key_exchange_roundtrip,
    message_frame, spec_ack_payload, spec_classify, spec_key_exchange_payload, spec_message_frame,
    Packet, SpecPacket,
};
use crate::text::{chars_of, contains_char, is_white_space, push_str, string_of};
use crate::username::spec_network_username;

verus! {

/// The port the chat listener prefers to bind; peers are written to there.
pub const PREFERRED_CHAT_PORT: u16 = 9878;

/// The UDP port used for peer discovery broadcasts.
pub const DISCOVERY_PORT: u16 = 9877;

/// The state of a node.
pub struct NodeView {
    /// Our own username.
    pub username: Seq<char>,
    /// The known peers, in the order they were first seen.
    pub peers: Seq<PeerView>,
    /// The peers we agreed a session key with, in the order of agreement.
    pub key_names: Seq<Seq<char>>,
    /// The session key of each such peer.
    pub keys: Map<Seq<char>, Seq<u8>>,
    /// The identity key text pinned for each username.
    pub pins: Map<Seq<char>, Seq<char>>,
    /// The ids of recently delivered messages.
    pub delivered: Set<u64>,
    /// The conversations, by peer username.
    pub history: Map<Seq<char>, Seq<MessageView>>,
    /// The username last seen at each source address.
    pub routes: Map<u128, Seq<char>>,
    /// The source addresses of `routes`, oldest first.
    pub route_order: Seq<u128>,
    /// The id the next message will get.
    pub next_id: u64,
}

/// The shared state of a chat node.
pub struct Node {
    username: String,
    peers: PeerTable,
    keys: NameMap<[u8; 32]>,
    pins: TofuRegistry,
    delivered: DedupCache,
    history: ChatHistory,
    routes: FifoMap<String>,
    ids: MessageIdCounter,
}

impl View for Node {
    type V = NodeView;

    closed spec fn view(&self) -> NodeView {
        NodeView {
            username: self.username@,
            peers: self.peers@,
            key_names: self.keys.names(),
            keys: self.keys.as_map().map_values(|k: [u8; 32]| k@),
            pins: self.pins.pins(),
            delivered: self.delivered.ids(),
            history: self.history@,
            routes: route_views(self.routes.entries()),
            route_order: self.routes.order(),
            next_id: self.ids@,
        }
    }
}

/// What a discovery packet did.
#[derive(Debug, PartialEq, Eq, Structural, Clone, Copy)]
pub enum DiscoveryOutcome {
    /// It announced our own name: ignored.
    OwnName,
    /// A new name while 1000 peers are known: ignored.
    Full,
    /// A known peer's address and time were refreshed.
    Refreshed,
    /// A new peer was added; its hostname may be looked up.
    Added,
}

impl DiscoveryOutcome {
    /// Whether the sender is now a known peer, to be answered with our own
    /// discovery and key exchange packets.
    pub fn answered(&self) -> (r: bool)
        ensures
            r == (*self == DiscoveryOutcome::Refreshed || *self == DiscoveryOutcome::Added),
    {
        match self {
            DiscoveryOutcome::Refreshed | DiscoveryOutcome::Added => true,
            _ => false,
        }
    }
}

/// The state after a discovery packet from `username`, seen coming from
/// `ip`, that names `port` as its chat port.
pub open spec fn spec_on_discovery(
    v: NodeView,
    username: Seq<char>,
    ip: Seq<char>,
    port: u16,
    now_ms: u64,
) -> (NodeView, DiscoveryOutcome) {
    if username == v.username {
        (v, DiscoveryOutcome::OwnName)
    } else {
        let (peers, u) = spec_record_discovery(v.peers, username, ip, port, now_ms);
        (
            NodeView { peers, ..v },
            match u {
                DiscoveryUpdate::Full => DiscoveryOutcome::Full,
                DiscoveryUpdate::Refreshed => DiscoveryOutcome::Refreshed,
                DiscoveryUpdate::Added => DiscoveryOutcome::Added,
            },
        )
    }
}

/// What a key exchange packet did.
#[derive(Debug, PartialEq, Eq, Structural, Clone, Copy)]
pub enum KeyOutcome {
    /// It carried our own name: ignored.
    OwnName,
    /// The name is pinned to another identity key: a possible man in the
    /// middle; dropped.
    IdentityMismatch,
    /// The ephemeral key is not signed by the identity key: dropped.
    BadSignature,
    /// The ephemeral key is not 32 bytes of hexadecimal: dropped.
    BadKey,
    /// A session key was agreed and stored. `had_key` tells whether one was
    /// agreed before (else our own key exchange packet is owed in reply),
    /// `new_peer` whether the peer was unknown (its hostname may be looked
    /// up).
    Accepted { had_key: bool, new_peer: bool },
}

/// The views of the values of an address map.
pub open spec fn route_views(m: Map<u128, String>) -> Map<u128, Seq<char>> {
    m.map_values(|s: String| s@)
}

/// The state after a key exchange packet from `username`, received from
/// address `src` (written `src_ip`), offering the ephemeral key
/// `x25519_hex` signed (`signature_hex`) with the identity key
/// `ed25519_hex`; `secret` is our own ephemeral secret. A name pinned to
/// another identity key is refused first; then the signature is verified
/// and a session key derived, and only when both succeed is the identity
/// key pinned (when the name is new) and the peer accepted: routed by its
/// address and registered at it on the preferred chat port. A refused
/// packet changes nothing.
pub open spec fn spec_on_key_exchange(
    v: NodeView,
    secret: Seq<u8>,
    username: Seq<char>,
    x25519_hex: Seq<char>,
    ed25519_hex: Seq<char>,
    signature_hex: Seq<char>,
    src: u128,
    src_ip: Seq<char>,
    now_ms: u64,
) -> (NodeView, KeyOutcome) {
    if username == v.username {
        (v, KeyOutcome::OwnName)
    } else {
        let (pins, check) = spec_check_pin(v.pins, username, ed25519_hex);
        if check == PinCheck::Mismatch {
            (v, KeyOutcome::IdentityMismatch)
        } else if !spec_verify_signature(ed25519_hex, encode_utf8(x25519_hex), signature_hex) {
            (v, KeyOutcome::BadSignature)
        } else {
            match spec_derive_session_key(secret, x25519_hex) {
                Err(_) => (v, KeyOutcome::BadKey),
                Ok(k) => {
                    let had_key = v.keys.contains_key(username);
                    let (routes, route_order) = spec_fifo_insert(
                        v.routes,
                        v.route_order,
                        IP_CACHE_CAP as nat,
                        src,
                        username,
                    );
                    let (peers, new_peer) = spec_record_handshake(
                        v.peers,
                        username,
                        src_ip,
                        PREFERRED_CHAT_PORT,
                        now_ms,
                    );
                    (
                        NodeView {
                            pins,
                            peers,
                            key_names: if had_key {
                                v.key_names
                            } else {
                                v.key_names.push(username)
                            },
                            keys: v.keys.insert(username, k),
                            routes,
                            route_order,
                            ..v
                        },
                        KeyOutcome::Accepted { had_key, new_peer },
                    )
                },
            }
        }
    }
}

/// The views of a list of (username, text) pairs.
pub open spec fn pair_views(s: Seq<(String, String)>) -> Seq<(Seq<char>, Seq<char>)> {
    s.map_values(|p: (String, String)| (p.0@, p.1@))
}

/// The peers among `names`, in order, whose session key opens the packet
/// `text`, each with the message text it gives.
pub open spec fn spec_openers(
    keys: Map<Seq<char>, Seq<u8>>,
    names: Seq<Seq<char>>,
    text: Seq<char>,
) -> Seq<(Seq<char>, Seq<char>)>
    decreases names.len(),
{
    if names.len() == 0 {
        Seq::empty()
    } else {
        let rest = spec_openers(keys, names.drop_last(), text);
        let n = names.last();
        match spec_open_packet(keys[n], text) {
            Some(m) => rest.push((n, m)),
            None => rest,
        }
    }
}

/// The peer last seen at address `src`, with the message text, when its
/// session key opens the packet `text`.
pub open spec fn spec_routed_opener(v: NodeView, src: u128, text: Seq<char>) -> Seq<
    (Seq<char>, Seq<char>),
> {
    if v.routes.contains_key(src) && v.keys.contains_key(v.routes[src]) {
        match spec_open_packet(v.keys[v.routes[src]], text) {
            Some(m) => seq![(v.routes[src], m)],
            None => Seq::empty(),
        }
    } else {
        Seq::empty()
    }
}

/// Who may have sent the chat packet `text` received from `src`, in the
/// order they are tried: first the peer last seen at that address, then
/// every peer with a session key, in the order the keys were agreed. Each
/// comes with the message text its key opens the packet into; the first
/// whose text is a well-formed message is the sender.
pub open spec fn spec_candidates(v: NodeView, src: u128, text: Seq<char>) -> Seq<
    (Seq<char>, Seq<char>),
> {
    spec_routed_opener(v, src, text) + spec_openers(v.keys, v.key_names, text)
}

/// The state after the message `m`, sent by `from` and received from
/// address `src`, was opened and read: the sender is routed by the address
/// and its time refreshed, and the message is added to the conversation
/// unless its id was delivered recently. Also whether it was new.
pub open spec fn spec_deliver(
    v: NodeView,
    from: Seq<char>,
    src: u128,
    m: MessageView,
    now_ms: u64,
) -> (NodeView, bool) {
    let (routes, route_order) = spec_fifo_insert(v.routes, v.route_order, IP_CACHE_CAP as nat, src, from);
    let fresh = !v.delivered.contains(m.id);
    (
        NodeView {
            routes,
            route_order,
            peers: spec_touch(v.peers, from, now_ms),
            delivered: if !fresh {
                v.delivered
            } else if v.delivered.len() >= DEDUP_CAP {
                Set::empty().insert(m.id)
            } else {
                v.delivered.insert(m.id)
            },
            history: if fresh {
                spec_record(v.history, from, m)
            } else {
                v.history
            },
            ..v
        },
        fresh,
    )
}

/// The id that follows `id`, wrapping around.
pub open spec fn next_after(id: u64) -> u64 {
    if id == u64::MAX {
        0
    } else {
        (id + 1) as u64
    }
}

/// The sender name of the notes the application itself adds to a
/// conversation.
pub open spec fn system_name() -> Seq<char> {
    "SYSTEM"@
}

/// The note added after a message is handed over for encrypted delivery.
pub open spec fn sent_notice() -> Seq<char> {
    "Sent (Encrypted ✓)"@
}

/// The note added when a message cannot be sent yet for want of a session
/// key, showing our security code `code`.
pub open spec fn handshake_notice(code: Seq<char>) -> Seq<char> {
    "Key exchange initiated. Your TOFU Security Code is ["@ + code
        + "]. Please wait a moment and press Enter again to resend."@
}

/// A note from the application to the conversation with `target`.
pub open spec fn system_note(id: u64, target: Seq<char>, text: Seq<char>, now_s: u64) -> MessageView {
    MessageView { id, sender: system_name(), receiver: target, content: text, timestamp: now_s }
}

/// What to do with a message typed for a peer.
pub enum Outgoing {
    /// Encrypt `message` under `key` and send it, retrying until it is
    /// acknowledged.
    Encrypted { message: ChatMessage, key: [u8; 32] },
    /// There is no session key yet: send our key exchange packet to the
    /// peer; the typed text stays in the input line.
    Handshake,
}

/// The state after the text `text` was typed for `peer` at `now_s` (Unix
/// seconds), `code` being our security code. With a session key, the
/// message and a note that it was sent encrypted join the conversation;
/// without, a note that the key exchange was started, with the code.
pub open spec fn spec_compose(
    v: NodeView,
    peer: Seq<char>,
    text: Seq<char>,
    now_s: u64,
    code: Seq<char>,
) -> NodeView {
    if v.keys.contains_key(peer) {
        let m = MessageView {
            id: v.next_id,
            sender: v.username,
            receiver: peer,
            content: text,
            timestamp: now_s,
        };
        let note = system_note(next_after(v.next_id), peer, sent_notice(), now_s);
        NodeView {
            history: spec_record(spec_record(v.history, peer, m), peer, note),
            next_id: next_after(next_after(v.next_id)),
            ..v
        }
    } else {
        NodeView {
            history: spec_record(
                v.history,
                peer,
                system_note(v.next_id, peer, handshake_notice(code), now_s),
            ),
            next_id: next_after(v.next_id),
            ..v
        }
    }
}

/// What the chat listener made of a received packet.
#[allow(inconsistent_fields)]
pub enum Reaction {
    /// Not a packet of ours, or one that is incomplete.
    Ignored,
    /// A discovery packet from `username`.
    Discovery { username: String, outcome: DiscoveryOutcome },
    /// The peer acknowledged the message with id `id`.
    Ack { id: u64 },
    /// A key exchange packet from `username`.
    KeyExchange { username: String, outcome: KeyOutcome },
    /// A chat message; `openers` are its possible readings (see
    /// `spec_candidates`), to be tried in order.
    Message { openers: Vec<(String, String)> },
    /// A chat message whose ciphertext has an impossible length: dropped.
    Malformed,
}

/// Where a reply goes.
#[derive(Debug, PartialEq, Eq, Structural, Clone, Copy)]
pub enum Destination {
    /// The address the packet came from.
    Source,
    /// The source's IP address, at the preferred chat port.
    SourceChatPort,
}

/// A packet to send in reply.
pub struct Reply {
    pub to: Destination,
    pub payload: String,
}

/// The views of a list of replies.
pub open spec fn reply_views(r: Seq<Reply>) -> Seq<(Destination, Seq<char>)> {
    r.map_values(|x: Reply| (x.to, x.payload@))
}

impl Reaction {
    /// The packets owed in reply, given our own discovery and key exchange
    /// packets: a peer that is now known gets both, at its source address
    /// and at its chat port; a peer whose key exchange was accepted and
    /// that had no session key yet gets our key exchange packet back.
    pub fn replies(&self, discovery: &String, key_exchange: &String) -> (r: Vec<Reply>)
        ensures
            reply_views(r@) == (match self {
                Reaction::Discovery { outcome, .. } => if *outcome == DiscoveryOutcome::Refreshed
                    || *outcome == DiscoveryOutcome::Added {
                    seq![
                        (Destination::Source, discovery@),
                        (Destination::SourceChatPort, discovery@),
                        (Destination::Source, key_exchange@),
                        (Destination::SourceChatPort, key_exchange@),
                    ]
                } else {
                    Seq::empty()
                },
                Reaction::KeyExchange { outcome, .. } => if *outcome matches KeyOutcome::Accepted {
                    had_key: false,
                    ..
                } {
                    seq![(Destination::Source, key_exchange@)]
                } else {
                    Seq::empty()
                },
                _ => Seq::empty(),
            }),
    {
        let mut r: Vec<Reply> = Vec::new();
        match self {
            Reaction::Discovery { outcome, .. } => {
                if outcome.answered() {
                    r.push(Reply { to: Destination::Source, payload: discovery.clone() });
                    r.push(Reply { to: Destination::SourceChatPort, payload: discovery.clone() });
                    r.push(Reply { to: Destination::Source, payload: key_exchange.clone() });
                    r.push(Reply { to: Destination::SourceChatPort, payload: key_exchange.clone() });
                }
            },
            Reaction::KeyExchange { outcome, .. } => {
                if let KeyOutcome::Accepted { had_key: false, .. } = outcome {
                    r.push(Reply { to: Destination::Source, payload: key_exchange.clone() });
                }
            },
            _ => {},
        }
        assert(reply_views(r@) =~= (match self {
            Reaction::Discovery { outcome, .. } => if *outcome == DiscoveryOutcome::Refreshed
                || *outcome == DiscoveryOutcome::Added {
                seq![
                    (Destination::Source, discovery@),
                    (Destination::SourceChatPort, discovery@),
                    (Destination::Source, key_exchange@),
                    (Destination::SourceChatPort, key_exchange@),
                ]
            } else {
                Seq::empty()
            },
            Reaction::KeyExchange { outcome, .. } => if *outcome matches KeyOutcome::Accepted {
                had_key: false,
                ..
            } {
                seq![(Destination::Source, key_exchange@)]
            } else {
                Seq::empty()
            },
            _ => Seq::empty(),
        }));
        r
    }

    /// The peer whose hostname is to be looked up at the packet's source
    /// address: one that was not known before.
    pub fn hostname_lookup(&self) -> (r: Option<String>)
        ensures
            r matches Some(n) ==> (self matches Reaction::Discovery { username, outcome }
                && outcome == DiscoveryOutcome::Added && n@ == username@) || (
            self matches Reaction::KeyExchange { username, outcome } && outcome matches KeyOutcome::Accepted {
                new_peer: true,
                ..
            } && n@ == username@),
            r is None ==> !(self matches Reaction::Discovery { outcome, .. } && outcome
                == DiscoveryOutcome::Added) && !(self matches Reaction::KeyExchange {
                outcome,
                ..
            } && outcome matches KeyOutcome::Accepted { new_peer: true, .. }),
    {
        match self {
            Reaction::Discovery { username, outcome } => {
                if *outcome == DiscoveryOutcome::Added {
                    Some(username.clone())
                } else {
                    None
                }
            },
            Reaction::KeyExchange { username, outcome } => {
                if let KeyOutcome::Accepted { new_peer: true, .. } = outcome {
                    Some(username.clone())
                } else {
                    None
                }
            },
            _ => None,
        }
    }
}

/// The three hexadecimal fields of our key exchange packet: the ephemeral
/// X25519 public key, the Ed25519 identity key of `seed`, and the identity
/// key's signature of the ephemeral key's text.
pub open spec fn spec_handshake_fields(public: Seq<u8>, seed: Seq<u8>) -> (
    Seq<char>,
    Seq<char>,
    Seq<char>,
) {
    let x = spec_hex_encode(public);
    (
        x,
        spec_hex_encode(spec_ed25519_public(seed)),
        spec_hex_encode(spec_ed25519_sign(seed, encode_utf8(x))),
    )
}

proof fn lemma_hex_text_plain(b: Seq<u8>)
    ensures
        !contains_char(spec_hex_encode(b), '|'),
        spec_hex_encode(b).len() == 0 || !is_white_space(spec_hex_encode(b).last()),
{
    lemma_hex_encode_chars(b);
    let h = spec_hex_encode(b);
    if contains_char(h, '|') {
        let i = choose|i: int| 0 <= i < h.len() && h[i] == '|';
        assert(('0' <= h[i] <= '9') || ('a' <= h[i] <= 'f'));
    }
    if h.len() > 0 {
        let c = h[h.len() - 1];
        assert(('0' <= c <= '9') || ('a' <= c <= 'f'));
    }
}

/// Our key exchange packet `HOPCHAT_KEY|username|x25519|ed25519|signature`:
/// the signature is valid, and a peer reads the packet back with the
/// fields it carries, provided the username holds no `|` and keeps at
/// least one username character.
pub fn handshake_payload(username: &str, keypair: &X25519KeyPair, identity: &LocalIdentity) -> (r:
    String)
    ensures
        ({
            let (x, ed, sig) = spec_handshake_fields(keypair.public@, identity.seed());
            &&& r@ == spec_key_exchange_payload(username@, x, ed, sig)
            &&& spec_verify_signature(ed, encode_utf8(x), sig)
            &&& !contains_char(username@, '|') && spec_network_username(username@) is Some
                ==> spec_classify(r@) == (SpecPacket::KeyExchange {
                username: spec_network_username(username@)->Some_0,
                x25519_hex: x,
                ed25519_hex: ed,
                signature_hex: sig,
            })
        }),
{
    let x = keypair.public_key_hex();
    let ed = identity.public_key_hex();
    let sig = identity.sign_payload(x.as_str().as_bytes());
    proof {
        let (xs, eds, sigs) = spec_handshake_fields(keypair.public@, identity.seed());
        lemma_hex_text_plain(keypair.public@);
        lemma_hex_text_plain(spec_ed25519_public(identity.seed()));
        lemma_hex_text_plain(spec_ed25519_sign(identity.seed(), encode_utf8(xs)));
        if !contains_char(username@, '|') && spec_network_username(username@) is Some {
            lemma_key_exchange_roundtrip(username@, xs, eds, sigs);
        }
    }
    key_exchange_payload(username, x.as_str(), ed.as_str(), sig.as_str())
}

/// A key exchange packet from a name other than ours, whose identity key is
/// the pinned one (or the name is new), with a valid signature over a
/// 32-byte ephemeral key, is accepted: the identity key is pinned, the
/// session key is the hash of the Diffie-Hellman secret, and the source
/// address now routes to the peer.
pub proof fn lemma_valid_handshake_accepted(
    v: NodeView,
    secret: Seq<u8>,
    username: Seq<char>,
    x25519_hex: Seq<char>,
    ed25519_hex: Seq<char>,
    signature_hex: Seq<char>,
    src: u128,
    src_ip: Seq<char>,
    now_ms: u64,
)
    requires
        username != v.username,
        v.pins.contains_key(username) ==> v.pins[username] == ed25519_hex,
        spec_verify_signature(ed25519_hex, encode_utf8(x25519_hex), signature_hex),
        spec_hex_decode(x25519_hex) matches Some(b) && b.len() == 32,
    ensures
        ({
            let (w, outcome) = spec_on_key_exchange(
                v,
                secret,
                username,
                x25519_hex,
                ed25519_hex,
                signature_hex,
                src,
                src_ip,
                now_ms,
            );
            &&& outcome matches KeyOutcome::Accepted { had_key, .. } && had_key
                == v.keys.contains_key(username)
            &&& w.keys == v.keys.insert(
                username,
                spec_sha256(spec_x25519_shared(secret, spec_hex_decode(x25519_hex)->Some_0)),
            )
            &&& w.pins.contains_key(username) && w.pins[username] == ed25519_hex
            &&& w.routes.contains_key(src) && w.routes[src] == username
        }),
{
}

/// Trust on first use: a pinned name presenting another identity key is
/// dropped, and nothing about the node changes.
pub proof fn lemma_identity_mismatch_changes_nothing(
    v: NodeView,
    secret: Seq<u8>,
    username: Seq<char>,
    x25519_hex: Seq<char>,
    ed25519_hex: Seq<char>,
    signature_hex: Seq<char>,
    src: u128,
    src_ip: Seq<char>,
    now_ms: u64,
)
    requires
        username != v.username,
        v.pins.contains_key(username),
        v.pins[username] != ed25519_hex,
    ensures
        spec_on_key_exchange(
            v,
            secret,
            username,
            x25519_hex,
            ed25519_hex,
            signature_hex,
            src,
            src_ip,
            now_ms,
        ) == (v, KeyOutcome::IdentityMismatch),
{
    assert(v.pins.insert(username, v.pins[username]) =~= v.pins);
}

/// A key exchange packet that is not accepted (our own name, a changed
/// identity key, a forged signature or a malformed ephemeral key) changes
/// nothing: in particular a forged packet pins no identity key.
pub proof fn lemma_refused_handshake_changes_nothing(
    v: NodeView,
    secret: Seq<u8>,
    username: Seq<char>,
    x25519_hex: Seq<char>,
    ed25519_hex: Seq<char>,
    signature_hex: Seq<char>,
    src: u128,
    src_ip: Seq<char>,
    now_ms: u64,
)
    ensures
        ({
            let (w, outcome) = spec_on_key_exchange(
                v,
                secret,
                username,
                x25519_hex,
                ed25519_hex,
                signature_hex,
                src,
                src_ip,
                now_ms,
            );
            !(outcome is Accepted) ==> w == v
        }),
{
}

/// A chat packet from the address a peer was last seen at, opened by that
/// peer's session key, is read first as coming from that peer.
pub proof fn lemma_routed_sender_first(v: NodeView, src: u128, text: Seq<char>, json: Seq<char>)
    requires
        v.routes.contains_key(src),
        v.keys.contains_key(v.routes[src]),
        spec_open_packet(v.keys[v.routes[src]], text) == Some(json),
    ensures
        spec_candidates(v, src, text).len() >= 1,
        spec_candidates(v, src, text)[0] == (v.routes[src], json),
{
}

/// A message is delivered once: handing the same message over again (a
/// retransmission whose acknowledgement was lost) leaves the delivered ids
/// and the conversations as they were, and reports it as not new.
pub proof fn lemma_deliver_once(
    v: NodeView,
    from: Seq<char>,
    src: u128,
    m: MessageView,
    now_ms: u64,
    later_ms: u64,
)
    ensures
        ({
            let (w, _) = spec_deliver(v, from, src, m, now_ms);
            let (w2, fresh_again) = spec_deliver(w, from, src, m, later_ms);
            &&& !fresh_again
            &&& w2.history == w.history
            &&& w2.delivered == w.delivered
        }),
{
}

/// Delivering a message from `from` refreshes that peer's time to `now_ms`
/// (so a peer that is chatting is not dropped as stale), leaves every other
/// peer and every other field of the sender's entry as it was, routes the
/// source address to the sender, and, when the message is new, makes it the
/// last message of the sender's conversation; a repeated message leaves the
/// conversations alone.
pub proof fn lemma_deliver_refreshes_sender(
    v: NodeView,
    from: Seq<char>,
    src: u128,
    m: MessageView,
    now_ms: u64,
)
    requires
        crate::peers::usernames(v.peers).no_duplicates(),
    ensures
        ({
            let (w, fresh) = spec_deliver(v, from, src, m, now_ms);
            &&& w.peers.len() == v.peers.len()
            &&& forall|i: int|
                0 <= i < v.peers.len() && v.peers[i].username == from ==> {
                    &&& #[trigger] w.peers[i].last_seen_ms == now_ms
                    &&& w.peers[i].username == v.peers[i].username
                    &&& w.peers[i].ip == v.peers[i].ip
                    &&& w.peers[i].port == v.peers[i].port
                    &&& w.peers[i].hostname == v.peers[i].hostname
                }
            &&& forall|i: int|
                0 <= i < v.peers.len() && v.peers[i].username != from ==> #[trigger] w.peers[i]
                    == v.peers[i]
            &&& w.routes.contains_key(src) && w.routes[src] == from
            &&& fresh == !v.delivered.contains(m.id)
            &&& w.delivered.contains(m.id)
            &&& fresh ==> conversation(w.history, from).last() == m
            &&& !fresh ==> w.history == v.history
            &&& w.keys == v.keys && w.pins == v.pins && w.next_id == v.next_id
        }),
{
    let (w, fresh) = spec_deliver(v, from, src, m, now_ms);
    assert forall|i: int| 0 <= i < v.peers.len() && v.peers[i].username == from implies #[trigger] w.peers[i].last_seen_ms == now_ms by {
        assert(crate::peers::usernames(v.peers)[i] == from);
        assert(crate::peers::usernames(v.peers).contains(from));
        let k = choose|k: int| 0 <= k < v.peers.len() && v.peers[k].username == from;
        assert(crate::peers::usernames(v.peers)[k] == from);
    }
    assert forall|i: int| 0 <= i < v.peers.len() && v.peers[i].username == from implies w.peers[i].username == v.peers[i].username && w.peers[i].ip == v.peers[i].ip && w.peers[i].port == v.peers[i].port && w.peers[i].hostname == v.peers[i].hostname by {
        assert(crate::peers::usernames(v.peers)[i] == from);
        assert(crate::peers::usernames(v.peers).contains(from));
        let k = choose|k: int| 0 <= k < v.peers.len() && v.peers[k].username == from;
        assert(crate::peers::usernames(v.peers)[k] == from);
    }
    assert forall|i: int| 0 <= i < v.peers.len() && v.peers[i].username != from implies #[trigger] w.peers[i] == v.peers[i] by {
        if crate::peers::usernames(v.peers).contains(from) {
            let k = choose|k: int| 0 <= k < v.peers.len() && v.peers[k].username == from;
            assert(k != i);
        }
    }
    if fresh {
        crate::history::lemma_record_appends(v.history, from, m);
    }
}

/// An accepted key exchange registers the peer at the packet's source IP
/// on the preferred chat port, with no hostname yet and seen at `now_ms`;
/// its session key is stored, its identity key pinned, and its source
/// address routed to it.
pub proof fn lemma_accepted_handshake_registers(
    v: NodeView,
    secret: Seq<u8>,
    username: Seq<char>,
    x25519_hex: Seq<char>,
    ed25519_hex: Seq<char>,
    signature_hex: Seq<char>,
    src: u128,
    src_ip: Seq<char>,
    now_ms: u64,
)
    ensures
        ({
            let (w, outcome) = spec_on_key_exchange(
                v,
                secret,
                username,
                x25519_hex,
                ed25519_hex,
                signature_hex,
                src,
                src_ip,
                now_ms,
            );
            outcome is Accepted ==> {
                &&& exists|i: int|
                    0 <= i < w.peers.len() && #[trigger] w.peers[i] == (PeerView {
                        username,
                        ip: src_ip,
                        port: PREFERRED_CHAT_PORT,
                        hostname: None,
                        last_seen_ms: now_ms,
                    })
                &&& w.keys.contains_key(username)
                &&& w.pins.contains_key(username) && w.pins[username] == ed25519_hex
                &&& w.routes.contains_key(src) && w.routes[src] == username
                &&& w.peers.len() >= v.peers.len()
            }
        }),
{
    let (w, outcome) = spec_on_key_exchange(
        v,
        secret,
        username,
        x25519_hex,
        ed25519_hex,
        signature_hex,
        src,
        src_ip,
        now_ms,
    );
    if outcome is Accepted {
        let p = PeerView {
            username,
            ip: src_ip,
            port: PREFERRED_CHAT_PORT,
            hostname: None,
            last_seen_ms: now_ms,
        };
        match crate::peers::find(v.peers, username) {
            Some(i) => {
                assert(0 <= i < v.peers.len()) by {
                    assert(crate::peers::usernames(v.peers).contains(username));
                }
                assert(w.peers[i] == p);
            },
            None => {
                assert(w.peers[v.peers.len() as int] == p);
            },
        }
    }
}

/// Typing `text` for `peer`: with a session key, the conversation with the
/// peer ends with our own message (from our username to the peer, the
/// typed text, the next id, the time given) followed by the note
/// `Sent (Encrypted ✓)` from `SYSTEM`; without one, it ends with the note
/// that the key exchange was started, showing our security code. No other
/// conversation, key, pin, peer or route changes; one id is used per
/// message added.
pub proof fn lemma_compose_records(
    v: NodeView,
    peer: Seq<char>,
    text: Seq<char>,
    now_s: u64,
    code: Seq<char>,
)
    ensures
        ({
            let w = spec_compose(v, peer, text, now_s, code);
            let c = conversation(w.history, peer);
            &&& w.keys == v.keys && w.pins == v.pins && w.peers == v.peers && w.routes == v.routes
            &&& w.delivered == v.delivered && w.username == v.username
            &&& forall|n: Seq<char>|
                n != peer ==> #[trigger] conversation(w.history, n) == conversation(v.history, n)
            &&& v.keys.contains_key(peer) ==> {
                &&& c.len() >= 2
                &&& c[c.len() - 2] == (MessageView {
                    id: v.next_id,
                    sender: v.username,
                    receiver: peer,
                    content: text,
                    timestamp: now_s,
                })
                &&& c.last().sender == "SYSTEM"@
                &&& c.last().receiver == peer
                &&& c.last().content == "Sent (Encrypted ✓)"@
                &&& c.last().id != v.next_id
                &&& w.next_id == (if v.next_id as int + 2 <= u64::MAX {
                    (v.next_id + 2) as u64
                } else {
                    (v.next_id as int + 2 - 0x1_0000_0000_0000_0000) as u64
                })
            }
            &&& !v.keys.contains_key(peer) ==> {
                &&& c.len() >= 1
                &&& c.last().sender == "SYSTEM"@
                &&& c.last().receiver == peer
                &&& c.last().id == v.next_id
                &&& c.last().content == "Key exchange initiated. Your TOFU Security Code is ["@ + code
                    + "]. Please wait a moment and press Enter again to resend."@
                &&& w.next_id == (if v.next_id == u64::MAX {
                    0
                } else {
                    (v.next_id + 1) as u64
                })
            }
        }),
{
    let w = spec_compose(v, peer, text, now_s, code);
    if v.keys.contains_key(peer) {
        let m = MessageView {
            id: v.next_id,
            sender: v.username,
            receiver: peer,
            content: text,
            timestamp: now_s,
        };
        let h1 = spec_record(v.history, peer, m);
        let note = system_note(next_after(v.next_id), peer, sent_notice(), now_s);
        crate::history::lemma_record_appends(v.history, peer, m);
        crate::history::lemma_record_appends(h1, peer, note);
        assert forall|n: Seq<char>| n != peer implies #[trigger] conversation(w.history, n)
            == conversation(v.history, n) by {
            assert(conversation(w.history, n) == conversation(h1, n));
        }
    } else {
        let note = system_note(v.next_id, peer, handshake_notice(code), now_s);
        crate::history::lemma_record_appends(v.history, peer, note);
    }
}

/// A discovery packet from another name refreshes a known peer's address,
/// port and time (keeping its name and hostname), or adds a new peer at
/// the end, seen now and with no hostname, unless 1000 peers are known;
/// our own name, or a full registry, changes nothing. Only the registry
/// changes.
pub proof fn lemma_discovery_records(
    v: NodeView,
    username: Seq<char>,
    ip: Seq<char>,
    port: u16,
    now_ms: u64,
)
    requires
        crate::peers::usernames(v.peers).no_duplicates(),
    ensures
        ({
            let (w, outcome) = spec_on_discovery(v, username, ip, port, now_ms);
            &&& w == (NodeView { peers: w.peers, ..v })
            &&& username == v.username ==> w == v && outcome == DiscoveryOutcome::OwnName
            &&& username != v.username ==> {
                &&& forall|i: int|
                    0 <= i < v.peers.len() && v.peers[i].username == username ==> {
                        &&& outcome == DiscoveryOutcome::Refreshed
                        &&& w.peers.len() == v.peers.len()
                        &&& #[trigger] w.peers[i] == (PeerView {
                            username,
                            ip,
                            port,
                            hostname: v.peers[i].hostname,
                            last_seen_ms: now_ms,
                        })
                        &&& forall|j: int| 0 <= j < v.peers.len() && j != i ==> w.peers[j] == v.peers[j]
                    }
                &&& (forall|i: int| 0 <= i < v.peers.len() ==> v.peers[i].username != username)
                    ==> if v.peers.len() < 1000 {
                    &&& outcome == DiscoveryOutcome::Added
                    &&& w.peers == v.peers.push(
                        PeerView { username, ip, port, hostname: None, last_seen_ms: now_ms },
                    )
                } else {
                    outcome == DiscoveryOutcome::Full && w == v
                }
            }
        }),
{
    let u = crate::peers::usernames(v.peers);
    if username != v.username {
        let (w, outcome) = spec_on_discovery(v, username, ip, port, now_ms);
        assert forall|i: int| 0 <= i < v.peers.len() && v.peers[i].username == username implies {
            &&& outcome == DiscoveryOutcome::Refreshed
            &&& w.peers.len() == v.peers.len()
            &&& #[trigger] w.peers[i] == (PeerView {
                username,
                ip,
                port,
                hostname: v.peers[i].hostname,
                last_seen_ms: now_ms,
            })
            &&& forall|j: int| 0 <= j < v.peers.len() && j != i ==> w.peers[j] == v.peers[j]
        } by {
            assert(u[i] == username);
            assert(u.contains(username));
            let k = choose|k: int| 0 <= k < v.peers.len() && v.peers[k].username == username;
            assert(u[k] == username);
            assert(k == i);
        }
        if forall|i: int| 0 <= i < v.peers.len() ==> v.peers[i].username != username {
            if u.contains(username) {
                let k = choose|k: int| 0 <= k < u.len() && u[k] == username;
                assert(v.peers[k].username == username);
            }
        }
    }
}

proof fn lemma_fifo_insert_views(
    entries: Map<u128, String>,
    order: Seq<u128>,
    cap: nat,
    k: u128,
    v: String,
)
    ensures
        spec_fifo_insert(route_views(entries), order, cap, k, v@) == (
            route_views(spec_fifo_insert(entries, order, cap, k, v).0),
            spec_fifo_insert(entries, order, cap, k, v).1,
        ),
{
    if entries.contains_key(k) {
        assert(route_views(entries).insert(k, v@) =~= route_views(entries.insert(k, v)));
    } else if order.len() >= cap {
        assert(route_views(entries).remove(order[0]).insert(k, v@) =~= route_views(
            entries.remove(order[0]).insert(k, v),
        ));
    } else {
        assert(route_views(entries).insert(k, v@) =~= route_views(entries.insert(k, v)));
    }
}

impl Node {
    pub closed spec fn wf(&self) -> bool {
        &&& self.peers.wf()
        &&& self.keys.wf()
        &&& self.pins.wf()
        &&& self.delivered.wf()
        &&& self.history.wf()
        &&& self.routes.wf()
        &&& self.routes.capacity() == IP_CACHE_CAP
    }

    /// What every operation keeps: each peer name is listed once, and so is
    /// each name with a session key; at most 1024 addresses are routed
    /// (each listed once, oldest first), at most 500 delivered ids are
    /// remembered, and no conversation holds more than 1000 messages.
    pub proof fn lemma_bounded(&self)
        requires
            self.wf(),
        ensures
            crate::peers::usernames(self@.peers).no_duplicates(),
            self@.key_names.no_duplicates(),
            self@.keys.dom() == self@.key_names.to_set(),
            self@.route_order.len() <= IP_CACHE_CAP,
            self@.route_order.no_duplicates(),
            self@.routes.dom() == self@.route_order.to_set(),
            self@.delivered.finite(),
            self@.delivered.len() <= DEDUP_CAP,
            forall|n: Seq<char>| #[trigger]
                self@.history.contains_key(n) ==> self@.history[n].len() <= HISTORY_CAP,
    {
        self.routes.lemma_bounded();
        self.delivered.lemma_bounded();
        self.history.lemma_bounded();
        assert(self@.routes.dom() =~= self.routes.entries().dom());
        assert(self@.keys.dom() =~= self@.key_names.to_set());
    }

    /// A node for `username` that knows nobody yet; its message ids start
    /// at `first_id`.
    pub fn new(username: String, first_id: u64) -> (r: Self)
        ensures
            r.wf(),
            r@ == (NodeView {
                username: username@,
                peers: Seq::empty(),
                key_names: Seq::empty(),
                keys: Map::empty(),
                pins: Map::empty(),
                delivered: Set::empty(),
                history: Map::empty(),
                routes: Map::empty(),
                route_order: Seq::empty(),
                next_id: first_id,
            }),
    {
        let r = Node {
            username,
            peers: PeerTable::new(),
            keys: NameMap::new(),
            pins: TofuRegistry::new(),
            delivered: DedupCache::new(),
            history: ChatHistory::new(),
            routes: FifoMap::new(IP_CACHE_CAP),
            ids: MessageIdCounter::new(first_id),
        };
        proof {
            assert(r.keys.as_map() =~= Map::<Seq<char>, [u8; 32]>::empty());
            assert(r@.keys =~= Map::<Seq<char>, Seq<u8>>::empty());
            assert(r@.routes =~= Map::<u128, Seq<char>>::empty());
        }
        r
    }

    /// Our own username.
    pub fn username(&self) -> (r: &String)
        ensures
            r@ == self@.username,
    {
        &self.username
    }

    /// The known peers, in the order they were first seen.
    pub fn peer_list(&self) -> (r: Vec<Peer>)
        requires
            self.wf(),
        ensures
            r@.map_values(|p: Peer| p@) == self@.peers,
    {
        let r = self.peers.snapshot();
        assert(r@.map_values(|p: Peer| p@) =~= self@.peers);
        r
    }

    /// The session key agreed with `name`, if any.
    pub fn session_key(&self, name: &String) -> (r: Option<[u8; 32]>)
        requires
            self.wf(),
        ensures
            r matches Some(k) ==> self@.keys.contains_key(name@) && self@.keys[name@] == k@,
            r is None ==> !self@.keys.contains_key(name@),
    {
        match self.keys.get(name) {
            Some(k) => Some(*k),
            None => None,
        }
    }

    /// A copy of the conversation with `name`.
    pub fn conversation(&self, name: &String) -> (r: Vec<ChatMessage>)
        requires
            self.wf(),
        ensures
            message_views(r@) == conversation(self@.history, name@),
    {
        self.history.conversation(name)
    }

    /// Stores the resolved hostname of a known peer.
    pub fn set_hostname(&mut self, username: &String, hostname: String)
        requires
            old(self).wf(),
        ensures
            final(self).wf(),
            final(self)@ == (NodeView {
                peers: match crate::peers::find(old(self)@.peers, username@) {
                    Some(i) => old(self)@.peers.update(
                        i,
                        PeerView { hostname: Some(hostname@), ..old(self)@.peers[i] },
                    ),
                    None => old(self)@.peers,
                },
                ..old(self)@
            }),
    {
        self.peers.set_hostname(username, hostname);
    }

    /// Drops the peers not heard from for 60 seconds.
    pub fn remove_stale(&mut self, now_ms: u64)
        requires
            old(self).wf(),
        ensures
            final(self).wf(),
            final(self)@ == (NodeView {
                peers: keep_fresh(old(self)@.peers, now_ms, PEER_TIMEOUT_MS),
                ..old(self)@
            }),
    {
        self.peers.remove_stale(now_ms, PEER_TIMEOUT_MS);
    }

    /// Handles a discovery packet from `username`, seen coming from `ip`,
    /// naming `port` as its chat port. Our own name is ignored; otherwise
    /// the peer is recorded at the packet's true source address.
    pub fn on_discovery(&mut self, username: &String, ip: &String, port: u16, now_ms: u64) -> (r:
        DiscoveryOutcome)
        requires
            old(self).wf(),
        ensures
            final(self).wf(),
            (final(self)@, r) == spec_on_discovery(old(self)@, username@, ip@, port, now_ms),
    {
        if *username == self.username {
            return DiscoveryOutcome::OwnName;
        }
        let u = self.peers.record_discovery(username, ip, port, now_ms);
        match u {
            DiscoveryUpdate::Full => DiscoveryOutcome::Full,
            DiscoveryUpdate::Refreshed => DiscoveryOutcome::Refreshed,
            DiscoveryUpdate::Added => DiscoveryOutcome::Added,
        }
    }
    /// Handles a key exchange packet (see `spec_on_key_exchange`).
    pub fn on_key_exchange(
        &mut self,
        keypair: &X25519KeyPair,
        username: &String,
        x25519_hex: &String,
        ed25519_hex: &String,
        signature_hex: &String,
        src: u128,
        src_ip: &String,
        now_ms: u64,
    ) -> (r: KeyOutcome)
        requires
            old(self).wf(),
        ensures
            final(self).wf(),
            (final(self)@, r) == spec_on_key_exchange(
                old(self)@,
                keypair.secret@,
                username@,
                x25519_hex@,
                ed25519_hex@,
                signature_hex@,
                src,
                src_ip@,
                now_ms,
            ),
    {
        if *username == self.username {
            return KeyOutcome::OwnName;
        }
        match self.pins.pinned(username) {
            Some(pinned_key) => {
                if *pinned_key != *ed25519_hex {
                    return KeyOutcome::IdentityMismatch;
                }
            },
            None => {},
        }
        let payload = x25519_hex.as_str().as_bytes();
        if !LocalIdentity::verify_signature(ed25519_hex.as_str(), payload, signature_hex.as_str()) {
            return KeyOutcome::BadSignature;
        }
        let key = match keypair.derive_session_key(x25519_hex.as_str()) {
            Ok(k) => k,
            Err(_) => {
                return KeyOutcome::BadKey;
            },
        };
        self.pins.check_and_pin(username, ed25519_hex);
        let ghost keys_before = self.keys.as_map();
        let ghost routes_before = self.routes.entries();
        let ghost order_before = self.routes.order();
        let had_key = self.keys.insert(username.clone(), key);
        let route_name = username.clone();
        let ghost rn = route_name;
        self.routes.insert(src, route_name);
        let new_peer = self.peers.record_handshake(username, src_ip, PREFERRED_CHAT_PORT, now_ms);
        proof {
            assert(self.keys.as_map().map_values(|k: [u8; 32]| k@) =~= keys_before.map_values(
                |k: [u8; 32]| k@,
            ).insert(username@, key@));
            lemma_fifo_insert_views(routes_before, order_before, IP_CACHE_CAP as nat, src, rn);
        }
        KeyOutcome::Accepted { had_key, new_peer }
    }
    /// Every reading of the chat packet `text` received from `src` (see
    /// `spec_candidates`).
    pub fn open_candidates(&self, text: &str, src: u128) -> (r: Vec<(String, String)>)
        requires
            self.wf(),
        ensures
            pair_views(r@) == spec_candidates(self@, src, text@),
    {
        let mut out: Vec<(String, String)> = Vec::new();
        match self.routes.get(src) {
            Some(name) => match self.keys.get(name) {
                Some(key) => match open_packet(text, key) {
                    Some(m) => {
                        out.push((name.clone(), m));
                    },
                    None => {},
                },
                None => {},
            },
            None => {},
        }
        let ghost fast = pair_views(out@);
        assert(fast =~= spec_routed_opener(self@, src, text@));
        let ghost names = self.keys.names();
        let mut i: usize = 0;
        while i < self.keys.len()
            invariant
                self.wf(),
                names == self.keys.names(),
                i <= names.len(),
                pair_views(out@) == fast + spec_openers(self@.keys, names.take(i as int), text@),
            decreases names.len() - i,
        {
            let (name, key) = self.keys.entry(i);
            let ghost before = out@;
            assert(names.take(i + 1).drop_last() =~= names.take(i as int));
            assert(names.take(i + 1).last() == names[i as int]);
            assert(self@.keys[names[i as int]] == key@);
            match open_packet(text, key) {
                Some(m) => {
                    out.push((name.clone(), m));
                    assert(pair_views(out@) =~= pair_views(before).push((name@, m@)));
                },
                None => {},
            }
            i = i + 1;
        }
        assert(names.take(names.len() as int) =~= names);
        out
    }

    /// Delivers the message `msg`, read from a packet of `from` received
    /// from address `src` (see `spec_deliver`). Returns the acknowledgement
    /// owed to the sender, sent for every copy, and whether the message
    /// was new.
    pub fn deliver(&mut self, from: &String, src: u128, msg: ChatMessage, now_ms: u64) -> (r: (
        String,
        bool,
    ))
        requires
            old(self).wf(),
        ensures
            final(self).wf(),
            r.0@ == spec_ack_payload(msg.id),
            (final(self)@, r.1) == spec_deliver(old(self)@, from@, src, msg@, now_ms),
    {
        let ghost routes_before = self.routes.entries();
        let ghost order_before = self.routes.order();
        let route_name = from.clone();
        let ghost rn = route_name;
        self.routes.insert(src, route_name);
        proof {
            lemma_fifo_insert_views(routes_before, order_before, IP_CACHE_CAP as nat, src, rn);
        }
        let ack = ack_payload(msg.id);
        self.peers.touch(from, now_ms);
        let fresh = self.delivered.check_and_insert(msg.id);
        if fresh {
            self.history.record(from, msg);
        }
        (ack, fresh)
    }
    /// Adds a note from the application to the conversation with `target`.
    pub fn post_system(&mut self, target: &String, text: &str, now_s: u64)
        requires
            old(self).wf(),
        ensures
            final(self).wf(),
            final(self)@ == (NodeView {
                history: spec_record(
                    old(self)@.history,
                    target@,
                    system_note(old(self)@.next_id, target@, text@, now_s),
                ),
                next_id: next_after(old(self)@.next_id),
                ..old(self)@
            }),
    {
        let id = self.ids.next_id();
        let note = ChatMessage::new("SYSTEM", target.as_str(), text, id, now_s);
        self.history.record(target, note);
    }

    /// Handles the text `text` typed for `peer` at `now_s` (see
    /// `spec_compose`).
    pub fn compose(&mut self, peer: &String, text: &str, now_s: u64, identity: &LocalIdentity) -> (r:
        Outgoing)
        requires
            old(self).wf(),
        ensures
            final(self).wf(),
            final(self)@ == spec_compose(
                old(self)@,
                peer@,
                text@,
                now_s,
                spec_fingerprint(spec_ed25519_public(identity.seed())),
            ),
            old(self)@.keys.contains_key(peer@) ==> (r matches Outgoing::Encrypted { message, key }
                && key@ == old(self)@.keys[peer@] && message@ == (MessageView {
                id: old(self)@.next_id,
                sender: old(self)@.username,
                receiver: peer@,
                content: text@,
                timestamp: now_s,
            })),
            !old(self)@.keys.contains_key(peer@) ==> r is Handshake,
    {
        match self.session_key(peer) {
            Some(key) => {
                let id = self.ids.next_id();
                let message = ChatMessage::new(self.username.as_str(), peer.as_str(), text, id, now_s);
                self.history.record(peer, message.duplicate());
                self.post_system(peer, "Sent (Encrypted ✓)", now_s);
                Outgoing::Encrypted { message, key }
            },
            None => {
                let code = identity.tofu_fingerprint();
                let mut note = string_of(
                    chars_of("Key exchange initiated. Your TOFU Security Code is [").as_slice(),
                );
                push_str(&mut note, code.as_str());
                push_str(&mut note, "]. Please wait a moment and press Enter again to resend.");
                self.post_system(peer, note.as_str(), now_s);
                Outgoing::Handshake
            },
        }
    }
    /// Handles a packet received by the chat listener from address `src`
    /// (written `src_ip`), once it passed the rate limiter: discovery and
    /// key exchange packets update the state; acknowledgements and chat
    /// messages are handed back to the caller, a chat message with every
    /// reading of it.
    pub fn on_chat_packet(
        &mut self,
        keypair: &X25519KeyPair,
        text: &str,
        src: u128,
        src_ip: &String,
        now_ms: u64,
    ) -> (r: Reaction)
        requires
            old(self).wf(),
        ensures
            final(self).wf(),
            match spec_classify(text@) {
                SpecPacket::Discovery { username, port } => (r matches Reaction::Discovery {
                    username: u,
                    outcome,
                } && u@ == username && (final(self)@, outcome) == spec_on_discovery(
                    old(self)@,
                    username,
                    src_ip@,
                    port,
                    now_ms,
                )),
                SpecPacket::Ack { id } => (r matches Reaction::Ack { id: i } && i == id)
                    && final(self)@ == old(self)@,
                SpecPacket::KeyExchange { username, x25519_hex, ed25519_hex, signature_hex } => (
                r matches Reaction::KeyExchange { username: u, outcome } && u@ == username && (
                final(self)@,
                outcome,
                ) == spec_on_key_exchange(
                    old(self)@,
                    keypair.secret@,
                    username,
                    x25519_hex,
                    ed25519_hex,
                    signature_hex,
                    src,
                    src_ip@,
                    now_ms,
                )),
                SpecPacket::Message { ciphertext_hex } => (r matches Reaction::Message { openers }
                    && pair_views(openers@) == spec_candidates(
                    old(self)@,
                    src,
                    spec_message_frame(ciphertext_hex),
                )) && final(self)@ == old(self)@,
                SpecPacket::MalformedMessage => r is Malformed && final(self)@ == old(self)@,
                SpecPacket::Ignored => r is Ignored && final(self)@ == old(self)@,
            },
    {
        match classify_packet(text) {
            Packet::Discovery { username, port } => {
                let outcome = self.on_discovery(&username, src_ip, port, now_ms);
                Reaction::Discovery { username, outcome }
            },
            Packet::Ack { id } => Reaction::Ack { id },
            Packet::KeyExchange { username, x25519_hex, ed25519_hex, signature_hex } => {
                let outcome = self.on_key_exchange(
                    keypair,
                    &username,
                    &x25519_hex,
                    &ed25519_hex,
                    &signature_hex,
                    src,
                    src_ip,
                    now_ms,
                );
                Reaction::KeyExchange { username, outcome }
            },
            Packet::Message { ciphertext_hex } => {
                let framed = message_frame(ciphertext_hex.as_str());
                let openers = self.open_candidates(framed.as_str(), src);
                Reaction::Message { openers }
            },
            Packet::MalformedMessage => Reaction::Malformed,
            Packet::Ignored => Reaction::Ignored,
        }
    }
}

/// Runs a command typed in the input line: its answer, if it has one, is
/// posted as a note to the selected peer's conversation (or `GLOBAL`), and
/// the result tells the event loop how to go on. `ip_valid` tells whether
/// a `/connect` target is an IP address; sending the handshake to it is
/// left to the caller.
pub fn handle_command(node: &mut Node, cmd: &Command, selected: usize, ip_valid: bool, now_s: u64) -> (r:
    CommandResult)
    requires
        old(node).wf(),
    ensures
        final(node).wf(),
        r == spec_command_result(cmd@),
        match spec_command_reply(cmd@, old(node)@.peers, ip_valid) {
            Some(text) => {
                let target = spec_system_target(old(node)@.peers, selected as int);
                final(node)@ == (NodeView {
                    history: spec_record(
                        old(node)@.history,
                        target,
                        system_note(old(node)@.next_id, target, text, now_s),
                    ),
                    next_id: next_after(old(node)@.next_id),
                    ..old(node)@
                })
            },
            None => final(node)@ == old(node)@,
        },
{
    let peers = node.peer_list();
    assert(Seq::new(peers@.len(), |i: int| peers@[i]@) =~= node@.peers);
    match command_reply(cmd, peers.as_slice(), ip_valid) {
        Some(text) => {
            let target = system_target(peers.as_slice(), selected);
            node.post_system(&target, text.as_str(), now_s);
        },
        None => {},
    }
    command_result(cmd)
}

} // verus!
