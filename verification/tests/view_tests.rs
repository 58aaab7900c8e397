use hopchat::addressing::{socket_target, subnet_hosts, subnet_prefix};
use hopchat::layout::compute_layout;
use hopchat::messages::ChatMessage;
use hopchat::peers::Peer;
use hopchat::retry::{next_step, AttemptResult, DeliveryError, NextStep, RETRY_LIMIT};
use hopchat::ui::Rect;
use hopchat::view::{
    chat_order, chat_title, cursor_position, friend_label, input_line, map_peer_line, map_you_label,
    mobile_status_text, popup_rect, scanner_footer, scanner_item, sender_label, status_text, window_start,
};

fn peer(name: &str) -> Peer {
    Peer { username: name.to_string(), ip: "10.0.0.2".to_string(), port: 9878, hostname: None, last_seen_ms: 0 }
}

#[test]
fn conversation_is_ordered_by_time_then_id_stably() {
    let msgs = vec![
        ChatMessage::new("a", "b", "third", 9, 20),
        ChatMessage::new("a", "b", "first", 5, 10),
        ChatMessage::new("a", "b", "second-x", 7, 10),
        ChatMessage::new("a", "b", "second-y", 7, 10),
        ChatMessage::new("a", "b", "zero", u64::MAX, 1),
    ];
    let sorted: Vec<String> = chat_order(&msgs).into_iter().map(|m| m.content).collect();
    assert_eq!(sorted, vec!["zero", "first", "second-x", "second-y", "third"]);
    assert!(chat_order(&[]).is_empty());
}

#[test]
fn only_the_last_lines_that_fit_are_shown() {
    assert_eq!(window_start(10, 6), 6);
    assert_eq!(window_start(3, 6), 0);
    assert_eq!(window_start(5, 1), 5);
    assert_eq!(window_start(0, 0), 0);
}

#[test]
fn panel_texts() {
    assert_eq!(sender_label("alice", "alice"), "YOU");
    assert_eq!(sender_label("bob", "alice"), "bob");
    assert_eq!(chat_title(&[], 0), " CHAT ");
    assert_eq!(chat_title(&[peer("bob"), peer("carol")], 1), " CHAT : PRIVATE(carol) ");
    assert_eq!(chat_title(&[peer("bob"), peer("carol")], 9), " CHAT : PRIVATE(carol) ");
    assert_eq!(friend_label("bob", true), ">> bob");
    assert_eq!(friend_label("bob", false), "   bob");
    assert_eq!(map_you_label("alice"), "  YOU (alice)");
    assert_eq!(map_peer_line("bob"), "   ├── bob");
    assert_eq!(status_text(0), " Online: SCANNING  |  Peers: 0  |  BLE: --  |  Range: LAN");
    assert_eq!(status_text(3), " Online: CONNECTED  |  Peers: 3  |  BLE: --  |  Range: LAN");
    assert_eq!(mobile_status_text("alice", 2), " user: alice  |  peers: 2");
    assert_eq!(input_line("hi"), "> hi");
    assert_eq!(cursor_position(Rect { x: 0, y: 37, width: 120, height: 3 }, 4), (7, 38));
}

#[test]
fn scanner_popup_geometry_and_texts() {
    assert_eq!(popup_rect(Rect { x: 0, y: 0, width: 120, height: 40 }), Rect { x: 30, y: 12, width: 60, height: 15 });
    assert_eq!(popup_rect(Rect { x: 0, y: 0, width: 50, height: 10 }), Rect { x: 2, y: 2, width: 46, height: 6 });
    assert_eq!(popup_rect(Rect { x: 0, y: 0, width: 3, height: 2 }), Rect { x: 1, y: 1, width: 0, height: 0 });
    assert_eq!(scanner_footer(2, 15, 0), " 2 peer(s) found ");
    assert_eq!(scanner_footer(20, 15, 4), " [5/20] Up/Down to scroll ");
    let mut p = peer("bob");
    assert_eq!(scanner_item(&p), " bob - 10.0.0.2");
    p.hostname = Some("bobpc".to_string());
    assert_eq!(scanner_item(&p), " bob - 10.0.0.2 (bobpc)");
}

#[test]
fn desktop_layout_from_the_solver() {
    let l = compute_layout(Rect { x: 0, y: 0, width: 120, height: 40 });
    assert_eq!(l.header, Rect { x: 0, y: 0, width: 120, height: 3 });
    assert_eq!(l.input.height, 3);
    assert_eq!(l.input.y + l.input.height, 40);
    assert_eq!(l.network_status.height, 3);
    assert_eq!(l.friends.y, 3);
    assert_eq!(l.friends.x, 0);
    assert_eq!(l.friends.width + l.network_map.width, 120);
    assert_eq!(l.network_map.x, l.friends.width);
    assert!(l.friends.width >= 41 && l.friends.width <= 43);
    assert!(l.mobile_status.is_none());
    assert!(l.quit_button.is_none());
    assert_eq!(l.header.height + l.friends.height + l.network_status.height + l.chat.height + l.input.height, 40);
}

#[test]
fn mobile_layout_from_the_solver() {
    let l = compute_layout(Rect { x: 0, y: 0, width: 80, height: 40 });
    assert_eq!(l.header, Rect { x: 0, y: 0, width: 80, height: 3 });
    assert_eq!(l.network_map, Rect { x: 0, y: 0, width: 0, height: 0 });
    assert_eq!(l.network_status, Rect { x: 0, y: 0, width: 0, height: 0 });
    let q = l.quit_button.unwrap();
    let s = l.mobile_status.unwrap();
    assert_eq!(q.y, 3);
    assert_eq!(q.height, 3);
    assert_eq!(s.width + q.width, 80);
    assert_eq!(q.x + q.width, 80);
    assert_eq!(l.input.y + l.input.height, 40);
    assert_eq!(l.friends.y, 6);
    assert_eq!(l.friends.height + l.chat.height, 31);
}

#[test]
fn socket_targets_and_subnet() {
    assert_eq!(socket_target("10.0.0.2", 9878), "10.0.0.2:9878");
    assert_eq!(subnet_prefix("192.168.1.42"), Some("192.168.1".to_string()));
    assert_eq!(subnet_prefix("fe80::1"), None);
    assert_eq!(subnet_prefix("1.2.3"), None);
    let hosts = subnet_hosts("192.168.1");
    assert_eq!(hosts.len(), 254);
    assert_eq!(hosts[0], "192.168.1.1");
    assert_eq!(hosts[253], "192.168.1.254");
    assert_eq!(peer("bob").socket_target(), "10.0.0.2:9878");
}

#[test]
fn delivery_is_tried_three_times() {
    assert_eq!(RETRY_LIMIT, 3);
    assert_eq!(next_step(1, AttemptResult::Acked), NextStep::Delivered);
    assert_eq!(next_step(1, AttemptResult::NoAck), NextStep::Retry);
    assert_eq!(next_step(2, AttemptResult::SendFailed), NextStep::Retry);
    assert_eq!(next_step(3, AttemptResult::NoAck), NextStep::GiveUp(DeliveryError::NoAck));
    assert_eq!(next_step(3, AttemptResult::SendFailed), NextStep::GiveUp(DeliveryError::SendFailed));
    assert_eq!(next_step(3, AttemptResult::Acked), NextStep::Delivered);
    assert_eq!(
        DeliveryError::NoAck.message(),
        "Failed to deliver message: No ACK received after 3 attempts."
    );
    assert_eq!(
        DeliveryError::SendFailed.message(),
        "Failed to deliver message: send_raw_packet failed after 3 attempts."
    );
}

#[test]
fn friends_panel_items() {
    assert_eq!(hopchat::view::friend_items(&[], 0), vec!["  (no peers found)".to_string()]);
    assert_eq!(
        hopchat::view::friend_items(&[peer("bob"), peer("carol")], 1),
        vec!["   bob".to_string(), ">> carol".to_string()]
    );
}

#[test]
fn the_wait_for_an_ack_is_jittered() {
    assert_eq!(hopchat::retry::jittered_wait(7), 507);
    for _ in 0..200 {
        let w = hopchat::retry::ack_wait_ms();
        assert!(w >= 500 && w < 600);
    }
}
