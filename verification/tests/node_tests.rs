use hopchat::commands::{parse_command, CommandResult};
use hopchat::crypto::key_exchange::X25519KeyPair;
use hopchat::identity::LocalIdentity;
use hopchat::messages::{seal_packet, ChatMessage};
use hopchat::node::{
    handle_command, handshake_payload, Destination, DiscoveryOutcome, KeyOutcome, Node, Outgoing,
    Reaction, PREFERRED_CHAT_PORT,
};
use hopchat::protocol::discovery_payload;

struct Side {
    node: Node,
    keypair: X25519KeyPair,
    identity: LocalIdentity,
}

fn side(name: &str, first_id: u64) -> Side {
    Side {
        node: Node::new(name.to_string(), first_id),
        keypair: X25519KeyPair::generate(),
        identity: LocalIdentity::generate(name.to_string()),
    }
}

fn handshake(s: &Side) -> String {
    handshake_payload(s.node.username(), &s.keypair, &s.identity)
}

#[test]
fn discovery_registers_the_sender_at_its_source() {
    let mut a = side("alice", 1);
    let p = discovery_payload("bob", "127.0.0.1", 9999);
    let r = a.node.on_chat_packet(&a.keypair, &p, 5, &"10.0.0.2".to_string(), 1000);
    match &r {
        Reaction::Discovery { username, outcome } => {
            assert_eq!(username, "bob");
            assert_eq!(*outcome, DiscoveryOutcome::Added);
        }
        _ => panic!("expected a discovery"),
    }
    let peers = a.node.peer_list();
    assert_eq!(peers.len(), 1);
    assert_eq!(peers[0].ip, "10.0.0.2");
    assert_eq!(peers[0].port, 9999);
    assert_eq!(r.hostname_lookup(), Some("bob".to_string()));
    let replies = r.replies(&"D".to_string(), &"K".to_string());
    let got: Vec<(Destination, String)> = replies.into_iter().map(|x| (x.to, x.payload)).collect();
    assert_eq!(
        got,
        vec![
            (Destination::Source, "D".to_string()),
            (Destination::SourceChatPort, "D".to_string()),
            (Destination::Source, "K".to_string()),
            (Destination::SourceChatPort, "K".to_string()),
        ]
    );
    let again = a.node.on_chat_packet(&a.keypair, &p, 5, &"10.0.0.2".to_string(), 2000);
    assert!(matches!(again, Reaction::Discovery { outcome: DiscoveryOutcome::Refreshed, .. }));
    assert_eq!(again.hostname_lookup(), None);
}

#[test]
fn own_discovery_is_ignored() {
    let mut a = side("alice", 1);
    let p = discovery_payload("alice", "10.0.0.1", 9878);
    let r = a.node.on_chat_packet(&a.keypair, &p, 1, &"10.0.0.1".to_string(), 0);
    assert!(matches!(r, Reaction::Discovery { outcome: DiscoveryOutcome::OwnName, .. }));
    assert!(r.replies(&"D".to_string(), &"K".to_string()).is_empty());
    assert!(a.node.peer_list().is_empty());
    assert_eq!(a.node.on_discovery(&"alice".to_string(), &"x".to_string(), 1, 0), DiscoveryOutcome::OwnName);
}

#[test]
fn handshake_gives_both_sides_the_same_key() {
    let mut a = side("alice", 100);
    let mut b = side("bob", 200);
    let from_a = handshake(&a);
    let rb = b.node.on_chat_packet(&b.keypair, &from_a, 1, &"10.0.0.1".to_string(), 0);
    match &rb {
        Reaction::KeyExchange { username, outcome } => {
            assert_eq!(username, "alice");
            assert_eq!(*outcome, KeyOutcome::Accepted { had_key: false, new_peer: true });
        }
        _ => panic!("expected a key exchange"),
    }
    // bob owes his own key exchange packet back
    let replies = rb.replies(&"D".to_string(), &"K".to_string());
    assert_eq!(replies.len(), 1);
    assert_eq!(replies[0].to, Destination::Source);
    let from_b = handshake(&b);
    let ra = a.node.on_chat_packet(&a.keypair, &from_b, 2, &"10.0.0.2".to_string(), 0);
    assert!(matches!(ra, Reaction::KeyExchange { outcome: KeyOutcome::Accepted { had_key: false, new_peer: true }, .. }));
    let ka = a.node.session_key(&"bob".to_string()).unwrap();
    let kb = b.node.session_key(&"alice".to_string()).unwrap();
    assert_eq!(ka, kb);
    // the peer is registered at the preferred chat port
    let peers = b.node.peer_list();
    assert_eq!(peers[0].port, PREFERRED_CHAT_PORT);
    assert_eq!(peers[0].ip, "10.0.0.1");
    // a repeated handshake needs no reply
    let again = b.node.on_chat_packet(&b.keypair, &from_a, 1, &"10.0.0.1".to_string(), 5);
    assert!(matches!(again, Reaction::KeyExchange { outcome: KeyOutcome::Accepted { had_key: true, new_peer: false }, .. }));
    assert!(again.replies(&"D".to_string(), &"K".to_string()).is_empty());
}

#[test]
fn a_changed_identity_key_is_refused() {
    let mut b = side("bob", 1);
    let a1 = side("alice", 1);
    let a2 = side("alice", 1);
    let r1 = b.node.on_chat_packet(&b.keypair, &handshake(&a1), 1, &"1".to_string(), 0);
    assert!(matches!(r1, Reaction::KeyExchange { outcome: KeyOutcome::Accepted { .. }, .. }));
    let key_before = b.node.session_key(&"alice".to_string());
    let r2 = b.node.on_chat_packet(&b.keypair, &handshake(&a2), 1, &"1".to_string(), 0);
    assert!(matches!(r2, Reaction::KeyExchange { outcome: KeyOutcome::IdentityMismatch, .. }));
    assert_eq!(b.node.session_key(&"alice".to_string()), key_before);
}

#[test]
fn a_forged_handshake_pins_nothing() {
    let mut b = side("bob", 1);
    let real = side("alice", 1);
    let mallory = side("mallory", 1);
    // mallory claims alice's name with her own identity key, badly signed
    let x = mallory.keypair.public_key_hex();
    let ed = mallory.identity.public_key_hex();
    let sig = mallory.identity.sign_payload(b"not the key");
    let forged = format!("HOPCHAT_KEY|alice|{}|{}|{}", x, ed, sig);
    let r = b.node.on_chat_packet(&b.keypair, &forged, 1, &"1".to_string(), 0);
    assert!(matches!(r, Reaction::KeyExchange { outcome: KeyOutcome::BadSignature, .. }));
    assert!(b.node.peer_list().is_empty());
    // the real alice is still accepted afterwards
    let r = b.node.on_chat_packet(&b.keypair, &handshake(&real), 2, &"2".to_string(), 0);
    assert!(matches!(r, Reaction::KeyExchange { outcome: KeyOutcome::Accepted { .. }, .. }));
}

#[test]
fn forged_or_broken_handshakes_are_refused() {
    let mut b = side("bob", 1);
    let a = side("alice", 1);
    let x = a.keypair.public_key_hex();
    let ed = a.identity.public_key_hex();
    let other_sig = a.identity.sign_payload(b"something else");
    let forged = format!("HOPCHAT_KEY|alice|{}|{}|{}", x, ed, other_sig);
    let r = b.node.on_chat_packet(&b.keypair, &forged, 1, &"1".to_string(), 0);
    assert!(matches!(r, Reaction::KeyExchange { outcome: KeyOutcome::BadSignature, .. }));
    assert!(b.node.session_key(&"alice".to_string()).is_none());
    let bad_key = "abcd".to_string();
    let sig = a.identity.sign_payload(bad_key.as_bytes());
    let broken = format!("HOPCHAT_KEY|alice|{}|{}|{}", bad_key, ed, sig);
    let r = b.node.on_chat_packet(&b.keypair, &broken, 1, &"1".to_string(), 0);
    assert!(matches!(r, Reaction::KeyExchange { outcome: KeyOutcome::BadKey, .. }));
    let own = handshake(&b);
    let r = b.node.on_chat_packet(&b.keypair, &own, 1, &"1".to_string(), 0);
    assert!(matches!(r, Reaction::KeyExchange { outcome: KeyOutcome::OwnName, .. }));
}

#[test]
fn messages_are_read_acknowledged_and_delivered_once() {
    let mut a = side("alice", 100);
    let mut b = side("bob", 200);
    b.node.on_chat_packet(&b.keypair, &handshake(&a), 7, &"10.0.0.1".to_string(), 0);
    a.node.on_chat_packet(&a.keypair, &handshake(&b), 8, &"10.0.0.2".to_string(), 0);
    let key = a.node.session_key(&"bob".to_string()).unwrap();
    let json = r#"{"id":100,"sender":"alice","receiver":"bob","content":"hi","timestamp":5}"#;
    let packet = seal_packet(&key, json).unwrap();
    let r = b.node.on_chat_packet(&b.keypair, &packet, 7, &"10.0.0.1".to_string(), 10);
    let openers = match r {
        Reaction::Message { openers } => openers,
        _ => panic!("expected a message"),
    };
    assert_eq!(openers[0], ("alice".to_string(), json.to_string()));
    let msg = ChatMessage::new("alice", "bob", "hi", 100, 5);
    let (ack, fresh) = b.node.deliver(&"alice".to_string(), 7, msg.duplicate(), 20);
    assert_eq!(ack, "HOPCHAT_ACK|100");
    assert!(fresh);
    let (ack2, fresh2) = b.node.deliver(&"alice".to_string(), 7, msg, 30);
    assert_eq!(ack2, "HOPCHAT_ACK|100");
    assert!(!fresh2);
    let conv = b.node.conversation(&"alice".to_string());
    assert_eq!(conv.len(), 1);
    assert_eq!(conv[0].content, "hi");
}

#[test]
fn unknown_senders_give_no_reading() {
    let mut b = side("bob", 1);
    let packet = seal_packet(&[9u8; 32], "{}").unwrap();
    let r = b.node.on_chat_packet(&b.keypair, &packet, 3, &"3".to_string(), 0);
    match r {
        Reaction::Message { openers } => assert!(openers.is_empty()),
        _ => panic!("expected a message"),
    }
    let r = b.node.on_chat_packet(&b.keypair, "HOPCHAT_MSG|abc", 3, &"3".to_string(), 0);
    assert!(matches!(r, Reaction::Malformed));
    let r = b.node.on_chat_packet(&b.keypair, "HOPCHAT_ACK|12", 3, &"3".to_string(), 0);
    assert!(matches!(r, Reaction::Ack { id: 12 }));
    let r = b.node.on_chat_packet(&b.keypair, "noise", 3, &"3".to_string(), 0);
    assert!(matches!(r, Reaction::Ignored));
}

#[test]
fn composing_without_a_key_starts_the_handshake() {
    let mut a = side("alice", 10);
    let out = a.node.compose(&"bob".to_string(), "hello", 77, &a.identity);
    assert!(matches!(out, Outgoing::Handshake));
    let conv = a.node.conversation(&"bob".to_string());
    assert_eq!(conv.len(), 1);
    assert_eq!(conv[0].sender, "SYSTEM");
    assert_eq!(conv[0].id, 10);
    assert_eq!(
        conv[0].content,
        format!(
            "Key exchange initiated. Your TOFU Security Code is [{}]. Please wait a moment and press Enter again to resend.",
            a.identity.tofu_fingerprint()
        )
    );
}

#[test]
fn composing_with_a_key_records_the_message_and_a_note() {
    let mut a = side("alice", 10);
    let b = side("bob", 20);
    a.node.on_chat_packet(&a.keypair, &handshake(&b), 8, &"10.0.0.2".to_string(), 0);
    let out = a.node.compose(&"bob".to_string(), "hello", 77, &a.identity);
    match out {
        Outgoing::Encrypted { message, key } => {
            assert_eq!(message.id, 10);
            assert_eq!(message.sender, "alice");
            assert_eq!(message.receiver, "bob");
            assert_eq!(message.content, "hello");
            assert_eq!(message.timestamp, 77);
            assert_eq!(Some(key), a.node.session_key(&"bob".to_string()));
        }
        Outgoing::Handshake => panic!("a key was agreed"),
    }
    let conv = a.node.conversation(&"bob".to_string());
    assert_eq!(conv.len(), 2);
    assert_eq!(conv[1].sender, "SYSTEM");
    assert_eq!(conv[1].content, "Sent (Encrypted ✓)");
    assert_eq!(conv[1].id, 11);
}

#[test]
fn commands_post_their_answer() {
    let mut a = side("alice", 1);
    let r = handle_command(&mut a.node, &parse_command("/peers"), 0, false, 5);
    assert_eq!(r, CommandResult::Handled);
    let g = a.node.conversation(&"GLOBAL".to_string());
    assert_eq!(g[0].content, "No peers discovered yet.");
    a.node.on_discovery(&"bob".to_string(), &"10.0.0.2".to_string(), 9878, 0);
    handle_command(&mut a.node, &parse_command("/peers"), 0, false, 6);
    let c = a.node.conversation(&"bob".to_string());
    assert_eq!(c[0].content, "Discovered Peers:\n- bob (10.0.0.2 : 9878)");
    assert_eq!(handle_command(&mut a.node, &parse_command("/scan"), 0, false, 7), CommandResult::TriggerScan);
    assert_eq!(handle_command(&mut a.node, &parse_command("hello"), 0, false, 7), CommandResult::Ignored);
    assert_eq!(a.node.conversation(&"bob".to_string()).len(), 1);
    handle_command(&mut a.node, &parse_command("/connect 10.0.0.9"), 0, true, 8);
    let c = a.node.conversation(&"bob".to_string());
    assert_eq!(c[1].content, "Handshake sent to 10.0.0.9. Peer will appear in FRIENDS once they respond.");
}

#[test]
fn stale_peers_leave_and_hostnames_stick() {
    let mut a = side("alice", 1);
    a.node.on_discovery(&"bob".to_string(), &"10.0.0.2".to_string(), 9878, 0);
    a.node.set_hostname(&"bob".to_string(), "bobpc".to_string());
    assert_eq!(a.node.peer_list()[0].hostname, Some("bobpc".to_string()));
    a.node.remove_stale(59_999);
    assert_eq!(a.node.peer_list().len(), 1);
    a.node.remove_stale(60_000);
    assert!(a.node.peer_list().is_empty());
}

#[test]
fn delivered_ids_are_forgotten_when_the_cache_fills() {
    let mut b = side("bob", 1);
    let alice = "alice".to_string();
    for id in 0..500u64 {
        let (_, fresh) = b.node.deliver(&alice, 7, ChatMessage::new("alice", "bob", "m", id, id), 0);
        assert!(fresh);
    }
    let (_, again) = b.node.deliver(&alice, 7, ChatMessage::new("alice", "bob", "m", 3, 3), 0);
    assert!(!again);
    // the 501st id empties the cache first, so an old id counts as new again
    let (_, fresh) = b.node.deliver(&alice, 7, ChatMessage::new("alice", "bob", "m", 500, 500), 0);
    assert!(fresh);
    let (_, old_again) = b.node.deliver(&alice, 7, ChatMessage::new("alice", "bob", "m", 3, 3), 0);
    assert!(old_again);
    assert_eq!(b.node.conversation(&alice).len(), 502);
}
