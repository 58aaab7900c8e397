use hopchat::caches::{push_capped, DedupCache, FifoMap, RateLimiter};
use hopchat::history::ChatHistory;
use hopchat::messages::{open_packet, seal_packet, ChatMessage, MessageIdCounter};
use hopchat::names::{NameMap, PinCheck, TofuRegistry};
use hopchat::peers::{DiscoveryUpdate, PeerTable, MAX_PEERS, PEER_TIMEOUT_MS};
use hopchat::rate_limit::TokenBucket;

#[test]
fn token_bucket_allows_a_burst_then_refills() {
    let mut b = TokenBucket::new(200, 100, 0);
    for _ in 0..200 {
        assert!(b.try_consume(0));
    }
    assert!(!b.try_consume(0));
    // 100 tokens per second: one token every 10 ms
    assert!(b.try_consume(10_000));
    assert!(!b.try_consume(10_000));
}

#[test]
fn token_bucket_drops_fractions_of_a_token_at_each_check() {
    let mut b = TokenBucket::new(1, 100, 0);
    assert!(b.try_consume(0));
    // 9.999 ms give 999 millitokens; the clock moves on, the fraction stays
    assert!(!b.try_consume(9_999));
    assert!(!b.try_consume(10_000));
    // ten more microseconds bring the one missing millitoken
    assert!(b.try_consume(10_010));
}

#[test]
fn token_bucket_never_exceeds_its_capacity() {
    let mut b = TokenBucket::new(2, 1, 0);
    assert!(b.try_consume(0));
    assert!(b.try_consume(0));
    // a long pause refills at most to the capacity
    assert!(b.try_consume(1_000_000_000));
    assert!(b.try_consume(1_000_000_000));
    assert!(!b.try_consume(1_000_000_000));
}

#[test]
fn token_bucket_with_a_clock_going_back() {
    let mut b = TokenBucket::new(1, 1, 5_000_000);
    assert!(b.try_consume(1_000));
    assert!(!b.try_consume(2_000));
}

#[test]
fn rate_limiter_is_per_address() {
    let mut r = RateLimiter::new();
    for _ in 0..200 {
        assert!(r.allow(1, 0));
    }
    assert!(!r.allow(1, 0));
    assert!(r.allow(2, 0));
}

#[test]
fn fifo_map_evicts_the_oldest_address() {
    let mut m: FifoMap<u32> = FifoMap::new(2);
    m.insert(10, 1);
    m.insert(20, 2);
    m.insert(10, 3);
    assert_eq!(m.len(), 2);
    assert_eq!(m.get(10), Some(&3));
    m.insert(30, 4);
    assert!(!m.contains(10));
    assert_eq!(m.get(20), Some(&2));
    assert_eq!(m.get(30), Some(&4));
    m.update(20, 5);
    assert_eq!(m.get(20), Some(&5));
}

#[test]
fn dedup_cache_clears_when_full() {
    let mut d = DedupCache::new();
    assert!(d.check_and_insert(7));
    assert!(!d.check_and_insert(7));
    for id in 1000..1499u64 {
        assert!(d.check_and_insert(id));
    }
    // 500 ids held: the next new id empties the set first
    assert!(d.check_and_insert(5000));
    assert!(d.check_and_insert(7));
    assert!(!d.check_and_insert(5000));
}

#[test]
fn push_capped_keeps_the_latest() {
    let mut v = vec![1, 2, 3];
    push_capped(&mut v, 4, 3);
    assert_eq!(v, vec![2, 3, 4]);
    push_capped(&mut v, 5, 10);
    assert_eq!(v, vec![2, 3, 4, 5]);
}

#[test]
fn name_map_insert_get_and_swap() {
    let mut m: NameMap<u8> = NameMap::new();
    assert!(!m.insert("a".to_string(), 1));
    assert!(!m.insert("b".to_string(), 2));
    assert!(m.insert("a".to_string(), 3));
    assert_eq!(m.len(), 2);
    assert_eq!(m.get(&"a".to_string()), Some(&3));
    assert_eq!(m.get(&"c".to_string()), None);
    assert_eq!(m.position(&"b".to_string()), Some(1));
    assert_eq!(m.swap_value(1, 9), 2);
    assert_eq!(m.entry(1), (&"b".to_string(), &9));
}

#[test]
fn tofu_pins_the_first_key_only() {
    let mut t = TofuRegistry::new();
    let alice = "alice".to_string();
    assert_eq!(t.check_and_pin(&alice, &"k1".to_string()), PinCheck::Pinned);
    assert_eq!(t.check_and_pin(&alice, &"k1".to_string()), PinCheck::Matched);
    assert_eq!(t.check_and_pin(&alice, &"k2".to_string()), PinCheck::Mismatch);
    assert_eq!(t.check_and_pin(&alice, &"k1".to_string()), PinCheck::Matched);
}

#[test]
fn peer_table_discovery_and_handshake() {
    let mut t = PeerTable::new();
    let bob = "bob".to_string();
    assert_eq!(t.record_discovery(&bob, &"10.0.0.2".to_string(), 9878, 100), DiscoveryUpdate::Added);
    assert_eq!(t.record_discovery(&bob, &"10.0.0.3".to_string(), 9000, 200), DiscoveryUpdate::Refreshed);
    assert_eq!(t.len(), 1);
    let p = t.get(0);
    assert_eq!(p.ip, "10.0.0.3");
    assert_eq!(p.port, 9000);
    assert_eq!(p.last_seen_ms, 200);
    t.set_hostname(&bob, "bobs-laptop".to_string());
    assert_eq!(t.get(0).hostname, Some("bobs-laptop".to_string()));
    // a handshake re-registers the peer without hostname
    assert!(!t.record_handshake(&bob, &"10.0.0.4".to_string(), 9878, 300));
    assert_eq!(t.get(0).hostname, None);
    assert!(t.record_handshake(&"carol".to_string(), &"10.0.0.9".to_string(), 9878, 300));
    assert_eq!(t.len(), 2);
    assert_eq!(t.position(&"carol".to_string()), Some(1));
    t.touch(&bob, 400);
    assert_eq!(t.get(0).last_seen_ms, 400);
}

#[test]
fn peer_table_is_capped_for_discovery() {
    let mut t = PeerTable::new();
    for i in 0..MAX_PEERS {
        assert_eq!(
            t.record_discovery(&format!("p{}", i), &"1.1.1.1".to_string(), 1, 0),
            DiscoveryUpdate::Added
        );
    }
    assert_eq!(t.record_discovery(&"late".to_string(), &"1.1.1.1".to_string(), 1, 0), DiscoveryUpdate::Full);
    assert_eq!(t.record_discovery(&"p3".to_string(), &"2.2.2.2".to_string(), 1, 5), DiscoveryUpdate::Refreshed);
    assert_eq!(t.len(), MAX_PEERS);
}

#[test]
fn stale_peers_are_dropped_in_order() {
    let mut t = PeerTable::new();
    t.record_discovery(&"a".to_string(), &"1".to_string(), 1, 0);
    t.record_discovery(&"b".to_string(), &"2".to_string(), 1, 50_000);
    t.record_discovery(&"c".to_string(), &"3".to_string(), 1, 10_000);
    t.remove_stale(60_000, PEER_TIMEOUT_MS);
    let names: Vec<String> = t.snapshot().into_iter().map(|p| p.username).collect();
    assert_eq!(names, vec!["b", "c"]);
    t.remove_stale(70_000, PEER_TIMEOUT_MS);
    let names: Vec<String> = t.snapshot().into_iter().map(|p| p.username).collect();
    assert_eq!(names, vec!["b"]);
}

#[test]
fn message_ids_count_up_and_wrap() {
    let mut c = MessageIdCounter::new(u64::MAX - 1);
    assert_eq!(c.next_id(), u64::MAX - 1);
    assert_eq!(c.next_id(), u64::MAX);
    assert_eq!(c.next_id(), 0);
}

#[test]
fn chat_message_fields() {
    let m = ChatMessage::new("alice", "bob", "hi", 5, 1_700_000_000);
    assert_eq!(m.sender, "alice");
    assert_eq!(m.receiver, "bob");
    assert_eq!(m.content, "hi");
    assert_eq!(m.id, 5);
    assert_eq!(m.timestamp, 1_700_000_000);
    let d = m.duplicate();
    assert_eq!(d.content, "hi");
}

#[test]
fn sealed_packets_open_with_the_same_key_only() {
    let key = [11u8; 32];
    let json = r#"{"id":1,"sender":"a","receiver":"b","content":"x","timestamp":2}"#;
    let packet = seal_packet(&key, json).unwrap();
    assert!(packet.starts_with("HOPCHAT_MSG|"));
    assert_ne!(&packet["HOPCHAT_MSG|".len()..], json);
    assert_eq!(open_packet(&packet, &key), Some(json.to_string()));
    assert_eq!(open_packet(&packet, &[12u8; 32]), None);
    assert_eq!(open_packet("HOPCHAT_ACK|1", &key), None);
}

#[test]
fn history_keeps_the_latest_thousand() {
    let mut h = ChatHistory::new();
    let bob = "bob".to_string();
    assert!(h.conversation(&bob).is_empty());
    for i in 0..1005u64 {
        h.record(&bob, ChatMessage::new("bob", "me", "m", i, i));
    }
    let c = h.conversation(&bob);
    assert_eq!(c.len(), 1000);
    assert_eq!(c[0].id, 5);
    assert_eq!(c[999].id, 1004);
    h.record(&"carol".to_string(), ChatMessage::new("carol", "me", "hey", 1, 1));
    assert_eq!(h.conversation(&"carol".to_string()).len(), 1);
    assert_eq!(h.conversation(&bob).len(), 1000);
}

#[test]
fn token_bucket_long_run_rate() {
    // 5 tokens, 2 per second; attempts every millisecond for 3 seconds
    let mut b = TokenBucket::new(5, 2, 0);
    let mut accepted: u64 = 0;
    let mut t: u64 = 0;
    while t <= 3_000_000 {
        if b.try_consume(t) {
            accepted += 1;
        }
        t += 1_000;
    }
    // at most the burst plus what three seconds refill
    assert!(accepted * 1_000_000 <= 5 * 1_000_000 + 2 * 3_000_000);
    assert_eq!(accepted, 11);
}

#[test]
fn message_ids_do_not_repeat_across_the_wrap() {
    let mut c = MessageIdCounter::new(u64::MAX - 2);
    let ids: Vec<u64> = (0..6).map(|_| c.next_id()).collect();
    assert_eq!(ids, vec![u64::MAX - 2, u64::MAX - 1, u64::MAX, 0, 1, 2]);
    let mut sorted = ids.clone();
    sorted.sort();
    sorted.dedup();
    assert_eq!(sorted.len(), 6);
}
