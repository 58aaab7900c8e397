use hopchat::protocol::{
    ack_payload, classify_packet, datagram_text, discovery_payload, key_exchange_payload, message_frame,
    parse_discovery_packet, unframe_message, Packet,
};

#[test]
fn discovery_payload_format() {
    assert_eq!(discovery_payload("alice", "192.168.1.5", 9878), "HOPCHAT|alice|192.168.1.5|9878");
}

#[test]
fn discovery_packet_is_read_back() {
    let p = discovery_payload("alice", "192.168.1.5", 9878);
    let d = parse_discovery_packet(&p).unwrap();
    assert_eq!(d.username, "alice");
    assert_eq!(d.port, 9878);
    match classify_packet(&p) {
        Packet::Discovery { username, port } => {
            assert_eq!(username, "alice");
            assert_eq!(port, 9878);
        }
        _ => panic!("not a discovery packet"),
    }
}

#[test]
fn discovery_packet_is_trimmed_and_sanitized() {
    let d = parse_discovery_packet("  HOPCHAT|b*o*b|10.0.0.1|+80\n").unwrap();
    assert_eq!(d.username, "bob");
    assert_eq!(d.port, 80);
}

#[test]
fn discovery_packet_rejects_bad_shapes() {
    assert!(parse_discovery_packet("HOPCHAT|alice|1.2.3.4").is_none());
    assert!(parse_discovery_packet("HOPCHAT|alice|1.2.3.4|70000").is_none());
    assert!(parse_discovery_packet("HOPCHAT|!!!|1.2.3.4|80").is_none());
    assert!(parse_discovery_packet("HOPCHAX|alice|1.2.3.4|80").is_none());
    assert!(parse_discovery_packet("HOPCHAT|a|b|1.2.3.4|80").is_none());
}

#[test]
fn ack_packets() {
    assert_eq!(ack_payload(42), "HOPCHAT_ACK|42");
    match classify_packet(&ack_payload(u64::MAX)) {
        Packet::Ack { id } => assert_eq!(id, u64::MAX),
        _ => panic!("not an ack"),
    }
    assert!(matches!(classify_packet("HOPCHAT_ACK|x"), Packet::Ignored));
    assert!(matches!(classify_packet("HOPCHAT_ACK|1|2"), Packet::Ignored));
}

#[test]
fn key_exchange_packets() {
    let p = key_exchange_payload("carol", "aa", "bb", "cc");
    assert_eq!(p, "HOPCHAT_KEY|carol|aa|bb|cc");
    match classify_packet(&p) {
        Packet::KeyExchange { username, x25519_hex, ed25519_hex, signature_hex } => {
            assert_eq!(username, "carol");
            assert_eq!(x25519_hex, "aa");
            assert_eq!(ed25519_hex, "bb");
            assert_eq!(signature_hex, "cc");
        }
        _ => panic!("not a key exchange"),
    }
    assert!(matches!(classify_packet("HOPCHAT_KEY|carol|aa|bb"), Packet::Ignored));
    assert!(matches!(classify_packet("HOPCHAT_KEY|@@|aa|bb|cc"), Packet::Ignored));
}

#[test]
fn message_packets_and_length_bounds() {
    let c = "ab".repeat(16);
    let p = message_frame(&c);
    assert_eq!(p, format!("HOPCHAT_MSG|{}", c));
    assert_eq!(unframe_message(&p), Some(c.clone()));
    assert_eq!(unframe_message("HOPCHAT_ACK|1"), None);
    match classify_packet(&p) {
        Packet::Message { ciphertext_hex } => assert_eq!(ciphertext_hex, c),
        _ => panic!("not a message"),
    }
    // odd length, too short, too long
    assert!(matches!(classify_packet(&message_frame(&"a".repeat(33))), Packet::MalformedMessage));
    assert!(matches!(classify_packet(&message_frame(&"a".repeat(30))), Packet::MalformedMessage));
    assert!(matches!(classify_packet(&message_frame(&"a".repeat(8194))), Packet::MalformedMessage));
    assert!(matches!(classify_packet(&message_frame(&"a".repeat(8192))), Packet::Message { .. }));
}

#[test]
fn other_text_is_ignored() {
    assert!(matches!(classify_packet("hello"), Packet::Ignored));
    assert!(matches!(classify_packet(""), Packet::Ignored));
}

#[test]
fn datagrams_must_be_utf8_text() {
    assert_eq!(datagram_text(b"HOPCHAT_ACK|1"), Some("HOPCHAT_ACK|1".to_string()));
    assert_eq!(datagram_text("zoë".as_bytes()), Some("zoë".to_string()));
    assert_eq!(datagram_text(&[0x66, 0xff, 0x66]), None);
}
