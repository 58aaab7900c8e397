//! The HOPCHAT wire format. Every packet is a UTF-8 text:
//!
//! * discovery:    `HOPCHAT|username|ip|port`
//! * key exchange: `HOPCHAT_KEY|username|x25519_pub_hex|ed25519_pub_hex|signature_hex`
//! * acknowledgement: `HOPCHAT_ACK|id`
//! * chat message: `HOPCHAT_MSG|ciphertext_hex` (sender, receiver, id and
//!   time travel inside the ciphertext)
//!
//! This module builds these texts and classifies received ones.

use vstd::prelude::*;
use vstd::utf8::{decode_utf8, encode_utf8, valid_utf8};
use crate::text::{
    chars_of, decimal_chars, decimal_string, has_white_space, is_white_space,
    is_white_space_char, lemma_decimal_string_digits, lemma_parse_decimal_string,
    lemma_split_append, lemma_split_no_sep, parse_unsigned, parse_unsigned_chars, push_all,
    push_str, split_chars, split_on, starts_with, string_of, sub_chars, trim, trim_chars,
    contains_char, views, chars_eq,
};
use crate::username::{sanitize_network_username, spec_network_username};

verus! {

broadcast use vstd::utf8::char_is_scalar;

pub open spec fn discovery_tag() -> Seq<char> {
    "HOPCHAT"@
}

pub open spec fn discovery_prefix() -> Seq<char> {
    "HOPCHAT|"@
}

pub open spec fn ack_prefix() -> Seq<char> {
    "HOPCHAT_ACK|"@
}

pub open spec fn key_prefix() -> Seq<char> {
    "HOPCHAT_KEY|"@
}

pub open spec fn message_prefix() -> Seq<char> {
    "HOPCHAT_MSG|"@
}

pub open spec fn sep() -> Seq<char> {
    seq!['|']
}

/// `HOPCHAT|username|ip|port`
pub open spec fn spec_discovery_payload(username: Seq<char>, ip: Seq<char>, port: u16) -> Seq<
    char,
> {
    discovery_prefix() + username + sep() + ip + sep() + decimal_string(port as nat)
}

/// `HOPCHAT_KEY|username|x25519_pub|ed25519_pub|signature`
pub open spec fn spec_key_exchange_payload(
    username: Seq<char>,
    x25519_hex: Seq<char>,
    ed25519_hex: Seq<char>,
    signature_hex: Seq<char>,
) -> Seq<char> {
    key_prefix() + username + sep() + x25519_hex + sep() + ed25519_hex + sep() + signature_hex
}

/// `HOPCHAT_ACK|id`
pub open spec fn spec_ack_payload(id: u64) -> Seq<char> {
    ack_prefix() + decimal_string(id as nat)
}

/// `HOPCHAT_MSG|ciphertext_hex`
pub open spec fn spec_message_frame(ciphertext_hex: Seq<char>) -> Seq<char> {
    message_prefix() + ciphertext_hex
}

/// The ciphertext of a chat message packet, as `splitn(2, '|')` finds it:
/// present when the text is `HOPCHAT_MSG|` followed by anything.
pub open spec fn spec_unframe_message(text: Seq<char>) -> Option<Seq<char>> {
    if message_prefix().is_prefix_of(text) {
        Some(text.skip(message_prefix().len() as int))
    } else {
        None
    }
}

/// What a (trimmed) discovery packet announces: the sanitized username and
/// the chat port. The advertised IP is not used: the packet's source
/// address is trusted instead.
pub open spec fn spec_parse_discovery(t: Seq<char>) -> Option<(Seq<char>, u16)> {
    let parts = split_on(t, '|');
    if parts.len() == 4 && parts[0] == discovery_tag() {
        match (spec_network_username(parts[1]), parse_unsigned(parts[3], 65535)) {
            (Some(u), Some(p)) => Some((u, p as u16)),
            _ => None,
        }
    } else {
        None
    }
}

/// The length in bytes of the UTF-8 encoding of `s` (`str::len`).
pub open spec fn utf8_len(s: Seq<char>) -> nat {
    encode_utf8(s).len()
}

/// A chat message ciphertext is refused unless its hex text has an even
/// length of 32 to 8192 bytes.
pub open spec fn ciphertext_len_ok(c: Seq<char>) -> bool {
    let n = utf8_len(c);
    n % 2 == 0 && 32 <= n <= 8192
}

/// A received packet, as the chat listener sees it.
pub enum SpecPacket {
    Discovery { username: Seq<char>, port: u16 },
    Ack { id: u64 },
    KeyExchange {
        username: Seq<char>,
        x25519_hex: Seq<char>,
        ed25519_hex: Seq<char>,
        signature_hex: Seq<char>,
    },
    Message { ciphertext_hex: Seq<char> },
    MalformedMessage,
    Ignored,
}

/// How the chat listener reads a received text: it is trimmed, then told
/// apart by its prefix.
pub open spec fn spec_classify(text: Seq<char>) -> SpecPacket {
    let t = trim(text);
    if discovery_prefix().is_prefix_of(t) {
        match spec_parse_discovery(t) {
            Some((u, p)) => SpecPacket::Discovery { username: u, port: p },
            None => SpecPacket::Ignored,
        }
    } else if ack_prefix().is_prefix_of(t) {
        let parts = split_on(t, '|');
        if parts.len() == 2 {
            match parse_unsigned(parts[1], u64::MAX as nat) {
                Some(id) => SpecPacket::Ack { id: id as u64 },
                None => SpecPacket::Ignored,
            }
        } else {
            SpecPacket::Ignored
        }
    } else if key_prefix().is_prefix_of(t) {
        let parts = split_on(t, '|');
        if parts.len() == 5 {
            match spec_network_username(parts[1]) {
                Some(u) => SpecPacket::KeyExchange {
                    username: u,
                    x25519_hex: parts[2],
                    ed25519_hex: parts[3],
                    signature_hex: parts[4],
                },
                None => SpecPacket::Ignored,
            }
        } else {
            SpecPacket::Ignored
        }
    } else if message_prefix().is_prefix_of(t) {
        let c = t.skip(message_prefix().len() as int);
        if ciphertext_len_ok(c) {
            SpecPacket::Message { ciphertext_hex: c }
        } else {
            SpecPacket::MalformedMessage
        }
    } else {
        SpecPacket::Ignored
    }
}

/// A received packet, as the chat listener sees it.
pub enum Packet {
    /// A peer announces itself under `username`, listening on `port`.
    Discovery { username: String, port: u16 },
    /// The peer received the message with this id.
    Ack { id: u64 },
    /// A peer offers its X25519 key, signed with its Ed25519 identity.
    KeyExchange {
        username: String,
        x25519_hex: String,
        ed25519_hex: String,
        signature_hex: String,
    },
    /// An encrypted chat message.
    Message { ciphertext_hex: String },
    /// A chat message whose ciphertext has an impossible length.
    MalformedMessage,
    /// Anything else.
    Ignored,
}

impl View for Packet {
    type V = SpecPacket;

    open spec fn view(&self) -> SpecPacket {
        match self {
            Packet::Discovery { username, port } => SpecPacket::Discovery {
                username: username@,
                port: *port,
            },
            Packet::Ack { id } => SpecPacket::Ack { id: *id },
            Packet::KeyExchange { username, x25519_hex, ed25519_hex, signature_hex } =>
                SpecPacket::KeyExchange {
                username: username@,
                x25519_hex: x25519_hex@,
                ed25519_hex: ed25519_hex@,
                signature_hex: signature_hex@,
            },
            Packet::Message { ciphertext_hex } => SpecPacket::Message {
                ciphertext_hex: ciphertext_hex@,
            },
            Packet::MalformedMessage => SpecPacket::MalformedMessage,
            Packet::Ignored => SpecPacket::Ignored,
        }
    }
}

/// What a discovery packet announces.
pub struct Discovery {
    pub username: String,
    pub port: u16,
}

// ---------------------------------------------------------------------------
// Building packets
// ---------------------------------------------------------------------------

/// The discovery packet `HOPCHAT|username|ip|port`.
pub fn discovery_payload(username: &str, ip: &str, port: u16) -> (r: String)
    ensures
        r@ == spec_discovery_payload(username@, ip@, port),
{
    let mut s = string_of(chars_of("HOPCHAT|").as_slice());
    push_str(&mut s, username);
    s.push('|');
    push_str(&mut s, ip);
    s.push('|');
    let d = decimal_chars(port as u64);
    push_all(&mut s, d.as_slice());
    s
}

/// The key exchange packet `HOPCHAT_KEY|username|x25519|ed25519|signature`.
pub fn key_exchange_payload(
    username: &str,
    x25519_hex: &str,
    ed25519_hex: &str,
    signature_hex: &str,
) -> (r: String)
    ensures
        r@ == spec_key_exchange_payload(username@, x25519_hex@, ed25519_hex@, signature_hex@),
{
    let mut s = string_of(chars_of("HOPCHAT_KEY|").as_slice());
    push_str(&mut s, username);
    s.push('|');
    push_str(&mut s, x25519_hex);
    s.push('|');
    push_str(&mut s, ed25519_hex);
    s.push('|');
    push_str(&mut s, signature_hex);
    s
}

/// The acknowledgement `HOPCHAT_ACK|id`.
pub fn ack_payload(id: u64) -> (r: String)
    ensures
        r@ == spec_ack_payload(id),
{
    let mut s = string_of(chars_of("HOPCHAT_ACK|").as_slice());
    let d = decimal_chars(id);
    push_all(&mut s, d.as_slice());
    s
}

/// The chat message packet `HOPCHAT_MSG|ciphertext_hex`.
pub fn message_frame(ciphertext_hex: &str) -> (r: String)
    ensures
        r@ == spec_message_frame(ciphertext_hex@),
{
    let mut s = string_of(chars_of("HOPCHAT_MSG|").as_slice());
    push_str(&mut s, ciphertext_hex);
    s
}

/// The ciphertext of a chat message packet, if `text` is one.
pub fn unframe_message(text: &str) -> (r: Option<String>)
    ensures
        r matches Some(c) ==> spec_unframe_message(text@) == Some(c@),
        r is None ==> spec_unframe_message(text@) is None,
{
    let v = chars_of(text);
    let prefix = chars_of("HOPCHAT_MSG|");
    if starts_with(v.as_slice(), prefix.as_slice()) {
        let c = sub_chars(v.as_slice(), prefix.len(), v.len());
        Some(string_of(c.as_slice()))
    } else {
        None
    }
}

// ---------------------------------------------------------------------------
// Reading packets
// ---------------------------------------------------------------------------

/// The text of a received datagram: packets are UTF-8 text, anything else
/// is dropped.
pub fn datagram_text(bytes: &[u8]) -> (r: Option<String>)
    ensures
        r matches Some(t) ==> valid_utf8(bytes@) && t@ == decode_utf8(bytes@),
        r is None ==> !valid_utf8(bytes@),
{
    match String::from_utf8(vstd::slice::slice_to_vec(bytes)) {
        Ok(t) => Some(t),
        Err(_) => None,
    }
}

fn parse_discovery_chars(t: &[char]) -> (r: Option<Discovery>)
    ensures
        r matches Some(d) ==> spec_parse_discovery(t@) == Some((d.username@, d.port)),
        r is None ==> spec_parse_discovery(t@) is None,
{
    let parts = split_chars(t, '|');
    assert(parts@.len() == split_on(t@, '|').len());
    if parts.len() != 4 {
        return None;
    }
    assert(parts@[0]@ == split_on(t@, '|')[0]);
    assert(parts@[1]@ == split_on(t@, '|')[1]);
    assert(parts@[3]@ == split_on(t@, '|')[3]);
    let tag = chars_of("HOPCHAT");
    if !chars_eq(parts[0].as_slice(), tag.as_slice()) {
        return None;
    }
    let name = string_of(parts[1].as_slice());
    let username = match sanitize_network_username(name.as_str()) {
        Some(u) => u,
        None => return None,
    };
    match parse_unsigned_chars(parts[3].as_slice(), 65535) {
        Some(p) => Some(Discovery { username, port: p as u16 }),
        None => None,
    }
}

/// What a discovery packet announces, if `text` is one (`HOPCHAT|username|ip|port`
/// once trimmed, with a username that keeps at least one character and a
/// valid port).
pub fn parse_discovery_packet(text: &str) -> (r: Option<Discovery>)
    ensures
        r matches Some(d) ==> spec_parse_discovery(trim(text@)) == Some((d.username@, d.port)),
        r is None ==> spec_parse_discovery(trim(text@)) is None,
{
    let raw = chars_of(text);
    let t = trim_chars(raw.as_slice());
    parse_discovery_chars(t.as_slice())
}

/// The UTF-8 length of `v`, or `None` when it exceeds `limit`.
fn utf8_len_up_to(v: &[char], limit: usize) -> (r: Option<usize>)
    ensures
        r matches Some(n) ==> n == utf8_len(v@) && n <= limit,
        r is None ==> utf8_len(v@) > limit,
{
    let mut n: usize = 0;
    let mut i: usize = 0;
    assert(v@.take(0) =~= Seq::<char>::empty());
    while i < v.len()
        invariant
            i <= v.len(),
            n == utf8_len(v@.take(i as int)),
            n <= limit,
        decreases v.len() - i,
    {
        let c = v[i];
        let u = c as u32;
        let w: usize = if u < 0x80 {
            1
        } else if u < 0x800 {
            2
        } else if u < 0x10000 {
            3
        } else {
            4
        };
        proof {
            lemma_encode_utf8_push(v@.take(i as int), c);
            assert(v@.take(i + 1) =~= v@.take(i as int).push(c));
        }
        if w > limit - n {
            proof {
                lemma_encode_utf8_prefix_len(v@, i + 1);
            }
            return None;
        }
        n = n + w;
        i = i + 1;
    }
    assert(v@.take(v.len() as int) =~= v@);
    Some(n)
}

/// Reads a received packet.
pub fn classify_packet(text: &str) -> (r: Packet)
    ensures
        r@ == spec_classify(text@),
{
    let raw = chars_of(text);
    let t = trim_chars(raw.as_slice());
    let disc = chars_of("HOPCHAT|");
    let ack = chars_of("HOPCHAT_ACK|");
    let key = chars_of("HOPCHAT_KEY|");
    let msg = chars_of("HOPCHAT_MSG|");
    assert(t@ == trim(text@));
    if starts_with(t.as_slice(), disc.as_slice()) {
        let r = match parse_discovery_chars(t.as_slice()) {
            Some(d) => Packet::Discovery { username: d.username, port: d.port },
            None => Packet::Ignored,
        };
        assert(r@ == spec_classify(text@));
        return r;
    }
    if starts_with(t.as_slice(), ack.as_slice()) {
        let parts = split_chars(t.as_slice(), '|');
        assert(parts@.len() == split_on(t@, '|').len());
        if parts.len() == 2 {
            assert(parts@[1]@ == split_on(t@, '|')[1]);
            let r = match parse_unsigned_chars(parts[1].as_slice(), u64::MAX) {
                Some(id) => Packet::Ack { id },
                None => Packet::Ignored,
            };
            assert(r@ == spec_classify(text@));
            return r;
        }
        return Packet::Ignored;
    }
    if starts_with(t.as_slice(), key.as_slice()) {
        let parts = split_chars(t.as_slice(), '|');
        assert(parts@.len() == split_on(t@, '|').len());
        if parts.len() == 5 {
            assert(parts@[1]@ == split_on(t@, '|')[1]);
            assert(parts@[2]@ == split_on(t@, '|')[2]);
            assert(parts@[3]@ == split_on(t@, '|')[3]);
            assert(parts@[4]@ == split_on(t@, '|')[4]);
            let name = string_of(parts[1].as_slice());
            let r = match sanitize_network_username(name.as_str()) {
                Some(u) => Packet::KeyExchange {
                    username: u,
                    x25519_hex: string_of(parts[2].as_slice()),
                    ed25519_hex: string_of(parts[3].as_slice()),
                    signature_hex: string_of(parts[4].as_slice()),
                },
                None => Packet::Ignored,
            };
            assert(r@ == spec_classify(text@));
            return r;
        }
        return Packet::Ignored;
    }
    if starts_with(t.as_slice(), msg.as_slice()) {
        let c = sub_chars(t.as_slice(), msg.len(), t.len());
        assert(c@ =~= t@.skip(message_prefix().len() as int));
        let r = match utf8_len_up_to(c.as_slice(), 8192) {
            Some(n) => {
                if n % 2 != 0 || n < 32 {
                    Packet::MalformedMessage
                } else {
                    Packet::Message { ciphertext_hex: string_of(c.as_slice()) }
                }
            },
            None => Packet::MalformedMessage,
        };
        assert(r@ == spec_classify(text@));
        return r;
    }
    Packet::Ignored
}

// ---------------------------------------------------------------------------
// Lemmas
// ---------------------------------------------------------------------------

pub proof fn lemma_encode_utf8_append(a: Seq<char>, b: Seq<char>)
    ensures
        encode_utf8(a + b) == encode_utf8(a) + encode_utf8(b),
    decreases a.len(),
{
    if a.len() == 0 {
        assert(a + b =~= b);
        assert(encode_utf8(a) =~= Seq::<u8>::empty());
        assert(encode_utf8(a) + encode_utf8(b) =~= encode_utf8(b));
    } else {
        lemma_encode_utf8_append(a.drop_first(), b);
        assert((a + b).drop_first() =~= a.drop_first() + b);
        assert((a + b)[0] == a[0]);
        assert(encode_utf8(a + b) =~= encode_utf8(a) + encode_utf8(b));
    }
}

pub proof fn lemma_encode_utf8_push(a: Seq<char>, c: char)
    ensures
        utf8_len(a.push(c)) == utf8_len(a) + (if (c as u32) < 0x80 {
            1int
        } else if (c as u32) < 0x800 {
            2int
        } else if (c as u32) < 0x10000 {
            3int
        } else {
            4int
        }),
{
    lemma_encode_utf8_append(a, seq![c]);
    assert(a + seq![c] =~= a.push(c));
    assert(seq![c].drop_first() =~= Seq::<char>::empty());
    assert(encode_utf8(seq![c]) =~= vstd::utf8::encode_scalar(c as u32) + encode_utf8(
        Seq::<char>::empty(),
    ));
}

pub proof fn lemma_encode_utf8_prefix_len(s: Seq<char>, k: int)
    requires
        0 <= k <= s.len(),
    ensures
        utf8_len(s.take(k)) <= utf8_len(s),
{
    lemma_encode_utf8_append(s.take(k), s.skip(k));
    assert(s.take(k) + s.skip(k) =~= s);
}

/// The characters of a literal built from `'|'`-free pieces.
proof fn lemma_tags()
    ensures
        discovery_prefix() == discovery_tag() + sep(),
        !contains_char(discovery_tag(), '|'),
        key_prefix() == "HOPCHAT_KEY"@ + sep(),
        !contains_char("HOPCHAT_KEY"@, '|'),
        ack_prefix() == "HOPCHAT_ACK"@ + sep(),
        !contains_char("HOPCHAT_ACK"@, '|'),
        !is_white_space(discovery_prefix()[0]),
        !is_white_space(key_prefix()[0]),
        !is_white_space(ack_prefix()[0]),
        discovery_prefix().len() == 8,
        ack_prefix().len() == 12,
        key_prefix().len() == 12,
        message_prefix().len() == 12,
        !discovery_prefix().is_prefix_of(ack_prefix()),
        !discovery_prefix().is_prefix_of(key_prefix()),
        !ack_prefix().is_prefix_of(key_prefix()),
{
    reveal_strlit("HOPCHAT");
    reveal_strlit("HOPCHAT|");
    reveal_strlit("HOPCHAT_KEY");
    reveal_strlit("HOPCHAT_KEY|");
    reveal_strlit("HOPCHAT_ACK");
    reveal_strlit("HOPCHAT_ACK|");
    reveal_strlit("HOPCHAT_MSG|");
    assert(discovery_prefix() =~= discovery_tag() + sep());
    assert(key_prefix() =~= "HOPCHAT_KEY"@ + sep());
    assert(ack_prefix() =~= "HOPCHAT_ACK"@ + sep());
    assert(discovery_prefix()[7] != ack_prefix()[7]);
    assert(discovery_prefix()[7] != key_prefix()[7]);
    assert(ack_prefix()[8] != key_prefix()[8]);
}

/// A peer that announces itself is read back under its sanitized name and
/// the port it announced, whatever IP it advertises, as long as neither the
/// name nor the IP holds the separator `|` and the name keeps at least one
/// username character.
pub proof fn lemma_discovery_roundtrip(username: Seq<char>, ip: Seq<char>, port: u16)
    requires
        !contains_char(username, '|'),
        !contains_char(ip, '|'),
        spec_network_username(username) is Some,
    ensures
        spec_classify(spec_discovery_payload(username, ip, port)) == (SpecPacket::Discovery {
            username: spec_network_username(username)->Some_0,
            port,
        }),
        spec_parse_discovery(trim(spec_discovery_payload(username, ip, port))) == Some(
            (spec_network_username(username)->Some_0, port),
        ),
{
    lemma_tags();
    let d = decimal_string(port as nat);
    lemma_decimal_string_digits(port as nat);
    lemma_parse_decimal_string(port as nat, 65535);
    assert(!contains_char(d, '|')) by {
        if contains_char(d, '|') {
            let i = choose|i: int| 0 <= i < d.len() && d[i] == '|';
            assert(d[i] != '|');
        }
    }
    let s = spec_discovery_payload(username, ip, port);
    let t = discovery_tag();
    // split step by step
    lemma_split_no_sep(t, '|');
    lemma_split_append(t, '|', username);
    lemma_split_append(t + sep() + username, '|', ip);
    lemma_split_append(t + sep() + username + sep() + ip, '|', d);
    assert(s =~= t + sep() + username + sep() + ip + sep() + d);
    assert(s[0] == discovery_prefix()[0]);
    assert(s.last() == d.last());
    crate::text::lemma_trim_noop(s);
    assert(discovery_prefix().is_prefix_of(s)) by {
        assert(s.subrange(0, 8) =~= discovery_prefix());
    }
}

/// A key exchange packet is read back with the sanitized name and the three
/// hex fields it carries, as long as none of them holds `|`, the signature
/// does not end in white space, and the name keeps at least one username
/// character.
pub proof fn lemma_key_exchange_roundtrip(
    username: Seq<char>,
    x25519_hex: Seq<char>,
    ed25519_hex: Seq<char>,
    signature_hex: Seq<char>,
)
    requires
        !contains_char(username, '|'),
        !contains_char(x25519_hex, '|'),
        !contains_char(ed25519_hex, '|'),
        !contains_char(signature_hex, '|'),
        signature_hex.len() == 0 || !is_white_space(signature_hex.last()),
        spec_network_username(username) is Some,
    ensures
        spec_classify(spec_key_exchange_payload(username, x25519_hex, ed25519_hex, signature_hex))
            == (SpecPacket::KeyExchange {
            username: spec_network_username(username)->Some_0,
            x25519_hex,
            ed25519_hex,
            signature_hex,
        }),
{
    lemma_tags();
    let t = "HOPCHAT_KEY"@;
    let s = spec_key_exchange_payload(username, x25519_hex, ed25519_hex, signature_hex);
    lemma_split_no_sep(t, '|');
    lemma_split_append(t, '|', username);
    lemma_split_append(t + sep() + username, '|', x25519_hex);
    lemma_split_append(t + sep() + username + sep() + x25519_hex, '|', ed25519_hex);
    lemma_split_append(
        t + sep() + username + sep() + x25519_hex + sep() + ed25519_hex,
        '|',
        signature_hex,
    );
    assert(s =~= t + sep() + username + sep() + x25519_hex + sep() + ed25519_hex + sep()
        + signature_hex);
    assert(s[0] == key_prefix()[0]);
    if signature_hex.len() == 0 {
        assert(s.last() == '|');
    } else {
        assert(s.last() == signature_hex.last());
    }
    crate::text::lemma_trim_noop(s);
    assert(key_prefix().is_prefix_of(s)) by {
        assert(s.subrange(0, 12) =~= key_prefix());
    }
    assert(!discovery_prefix().is_prefix_of(s)) by {
        if discovery_prefix().is_prefix_of(s) {
            assert(s[7] == discovery_prefix()[7]);
            assert(s[7] == key_prefix()[7]);
        }
    }
    assert(!ack_prefix().is_prefix_of(s)) by {
        if ack_prefix().is_prefix_of(s) {
            assert(s[8] == ack_prefix()[8]);
            assert(s[8] == key_prefix()[8]);
        }
    }
}

/// An acknowledgement is read back with the id it carries.
pub proof fn lemma_ack_roundtrip(id: u64)
    ensures
        spec_classify(spec_ack_payload(id)) == (SpecPacket::Ack { id }),
{
    lemma_tags();
    let d = decimal_string(id as nat);
    lemma_decimal_string_digits(id as nat);
    lemma_parse_decimal_string(id as nat, u64::MAX as nat);
    assert(!contains_char(d, '|')) by {
        if contains_char(d, '|') {
            let i = choose|i: int| 0 <= i < d.len() && d[i] == '|';
            assert(d[i] != '|');
        }
    }
    let t = "HOPCHAT_ACK"@;
    let s = spec_ack_payload(id);
    lemma_split_no_sep(t, '|');
    lemma_split_append(t, '|', d);
    assert(s =~= t + sep() + d);
    assert(s[0] == ack_prefix()[0]);
    assert(s.last() == d.last());
    crate::text::lemma_trim_noop(s);
    assert(ack_prefix().is_prefix_of(s)) by {
        assert(s.subrange(0, 12) =~= ack_prefix());
    }
    assert(!discovery_prefix().is_prefix_of(s)) by {
        if discovery_prefix().is_prefix_of(s) {
            assert(s[7] == discovery_prefix()[7]);
            assert(s[7] == ack_prefix()[7]);
        }
    }
}

/// The ciphertext framed into a chat message packet is found again.
pub proof fn lemma_message_frame_roundtrip(ciphertext_hex: Seq<char>)
    ensures
        spec_unframe_message(spec_message_frame(ciphertext_hex)) == Some(ciphertext_hex),
{
    let s = spec_message_frame(ciphertext_hex);
    assert(message_prefix().is_prefix_of(s)) by {
        assert(s.subrange(0, message_prefix().len() as int) =~= message_prefix());
    }
    assert(s.skip(message_prefix().len() as int) =~= ciphertext_hex);
}

} // verus!
