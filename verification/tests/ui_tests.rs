use hopchat::commands::{command_reply, command_result, parse_command, system_target, Command, CommandResult};
use hopchat::node::Outgoing;
use hopchat::peers::Peer;
use hopchat::ui::{action_for_key, InputAction, Key, Rect, UiEffect, UiState};

fn peer(name: &str, ip: &str, port: u16) -> Peer {
    Peer { username: name.to_string(), ip: ip.to_string(), port, hostname: None, last_seen_ms: 0 }
}

#[test]
fn keys_map_to_actions() {
    assert_eq!(action_for_key(Key::Char('c'), true, true), InputAction::Quit);
    assert_eq!(action_for_key(Key::Char('c'), false, true), InputAction::Character('c'));
    assert_eq!(action_for_key(Key::Char('é'), true, true), InputAction::Character('é'));
    assert_eq!(action_for_key(Key::Esc, false, true), InputAction::Quit);
    assert_eq!(action_for_key(Key::Enter, false, true), InputAction::Send);
    assert_eq!(action_for_key(Key::Backspace, false, true), InputAction::Backspace);
    assert_eq!(action_for_key(Key::Up, false, true), InputAction::SelectUp);
    assert_eq!(action_for_key(Key::Down, false, true), InputAction::SelectDown);
    assert_eq!(action_for_key(Key::Tab, false, true), InputAction::ToggleScanner);
    assert_eq!(action_for_key(Key::Other, false, true), InputAction::NoAction);
    assert_eq!(action_for_key(Key::Enter, false, false), InputAction::NoAction);
}

#[test]
fn typing_inserts_at_the_cursor_and_backspace_erases() {
    let mut ui = UiState::new("10.0.0.1".to_string());
    for c in "hé!".chars() {
        assert_eq!(ui.apply(InputAction::Character(c), 0, None), UiEffect::Continue);
    }
    assert_eq!(ui.input_text(), "hé!");
    assert_eq!(ui.cursor(), 3);
    ui.apply(InputAction::Backspace, 0, None);
    assert_eq!(ui.input_text(), "hé");
    ui.apply(InputAction::Character('x'), 0, None);
    ui.apply(InputAction::Backspace, 0, None);
    assert_eq!(ui.input_text(), "hé");
    assert_eq!(ui.cursor(), 2);
    ui.apply(InputAction::Backspace, 0, None);
    ui.apply(InputAction::Backspace, 0, None);
    ui.apply(InputAction::Backspace, 0, None);
    assert!(ui.input_is_empty());
    assert_eq!(ui.cursor(), 0);
}

#[test]
fn selection_stays_in_the_list() {
    let mut ui = UiState::new(String::new());
    ui.apply(InputAction::SelectUp, 3, None);
    assert_eq!(ui.selected_peer, 0);
    ui.apply(InputAction::SelectDown, 3, None);
    ui.apply(InputAction::SelectDown, 3, None);
    ui.apply(InputAction::SelectDown, 3, None);
    assert_eq!(ui.selected_peer, 2);
    ui.clamp_selection(1);
    assert_eq!(ui.selected_peer, 0);
}

#[test]
fn scanner_toggles_and_connects() {
    let mut ui = UiState::new(String::new());
    assert_eq!(ui.apply(InputAction::ToggleScanner, 2, None), UiEffect::StartScan);
    assert!(ui.scanner.is_visible);
    // typing is ignored while the scanner is open
    ui.apply(InputAction::Character('a'), 2, None);
    assert!(ui.input_is_empty());
    ui.apply(InputAction::SelectDown, 2, None);
    assert_eq!(ui.scanner.selected_index, 1);
    assert_eq!(ui.apply(InputAction::Send, 2, None), UiEffect::ConnectToScanned(1));
    assert!(!ui.scanner.is_visible);
    assert_eq!(ui.apply(InputAction::ToggleScanner, 2, None), UiEffect::StartScan);
    assert_eq!(ui.apply(InputAction::ToggleScanner, 2, None), UiEffect::Continue);
    assert!(!ui.scanner.is_visible);
}

#[test]
fn escape_closes_the_scanner_before_quitting() {
    let mut ui = UiState::new(String::new());
    ui.apply(InputAction::ToggleScanner, 0, None);
    assert_eq!(ui.apply(InputAction::Quit, 0, None), UiEffect::Continue);
    assert!(!ui.scanner.is_visible);
    assert_eq!(ui.apply(InputAction::Quit, 0, None), UiEffect::Quit);
}

#[test]
fn enter_submits_a_non_empty_line() {
    let mut ui = UiState::new(String::new());
    assert_eq!(ui.apply(InputAction::Send, 0, None), UiEffect::Continue);
    ui.apply(InputAction::Character('/'), 0, None);
    assert_eq!(ui.apply(InputAction::Send, 0, None), UiEffect::Submit);
    assert_eq!(ui.after_command(CommandResult::Handled), UiEffect::Continue);
    assert!(ui.input_is_empty());
    ui.apply(InputAction::Character('a'), 0, None);
    assert_eq!(ui.after_command(CommandResult::Ignored), UiEffect::Submit);
    assert_eq!(ui.input_text(), "a");
    assert_eq!(ui.after_command(CommandResult::TriggerScan), UiEffect::StartScan);
    assert!(ui.scanner.is_visible);
    assert!(ui.input_is_empty());
    ui.clear_input();
    assert_eq!(ui.cursor(), 0);
}

#[test]
fn input_is_kept_while_the_key_exchange_runs() {
    let mut ui = UiState::new(String::new());
    for c in "hi".chars() {
        ui.apply(InputAction::Character(c), 0, None);
    }
    ui.after_send(&Outgoing::Handshake);
    assert_eq!(ui.input_text(), "hi");
    assert_eq!(ui.cursor(), 2);
    let message = hopchat::messages::ChatMessage::new("a", "b", "hi", 1, 1);
    ui.after_send(&Outgoing::Encrypted { message, key: [0u8; 32] });
    assert!(ui.input_is_empty());
    assert_eq!(ui.cursor(), 0);
}

#[test]
fn quit_button_click() {
    let mut ui = UiState::new(String::new());
    let b = Rect { x: 56, y: 3, width: 24, height: 3 };
    assert_eq!(ui.apply(InputAction::Click(60, 4), 0, Some(b)), UiEffect::Quit);
    assert_eq!(ui.apply(InputAction::Click(55, 4), 0, Some(b)), UiEffect::Continue);
    assert_eq!(ui.apply(InputAction::Click(60, 6), 0, Some(b)), UiEffect::Continue);
    assert_eq!(ui.apply(InputAction::Click(60, 4), 0, None), UiEffect::Continue);
    assert_eq!(ui.apply(InputAction::Quit, 0, None), UiEffect::Quit);
}

#[test]
fn commands_are_parsed() {
    assert!(matches!(parse_command("hello"), Command::NotCommand));
    assert!(matches!(parse_command("  /help "), Command::Help));
    assert!(matches!(parse_command("/scan"), Command::Scan));
    assert!(matches!(parse_command("/peers"), Command::Peers));
    assert!(matches!(parse_command("/quit"), Command::Quit));
    assert!(matches!(parse_command("/connect"), Command::ConnectUsage));
    match parse_command("/connect   10.0.0.7 extra") {
        Command::Connect { target } => assert_eq!(target, "10.0.0.7"),
        _ => panic!("expected connect"),
    }
    match parse_command("/frobnicate now") {
        Command::Unknown { name } => assert_eq!(name, "/frobnicate"),
        _ => panic!("expected unknown"),
    }
    assert_eq!(command_result(&parse_command("/scan")), CommandResult::TriggerScan);
    assert_eq!(command_result(&parse_command("/help")), CommandResult::Handled);
    assert_eq!(command_result(&parse_command("hi")), CommandResult::Ignored);
    assert!(parse_command("/quit").requests_quit());
    assert!(!parse_command("/help").requests_quit());
}

#[test]
fn command_replies() {
    let peers = vec![peer("bob", "10.0.0.2", 9878), peer("carol", "10.0.0.3", 1234)];
    assert_eq!(
        command_reply(&parse_command("/peers"), &peers, false),
        Some("Discovered Peers:\n- bob (10.0.0.2 : 9878)\n- carol (10.0.0.3 : 1234)".to_string())
    );
    assert_eq!(command_reply(&parse_command("/peers"), &[], false), Some("No peers discovered yet.".to_string()));
    assert_eq!(
        command_reply(&parse_command("/help"), &[], false),
        Some("Commands:\n/help         - Show this menu\n/scan         - Open the Interactive Subnet Scanner\n/connect <ip> - Manually connect to an IP (Bypasses discovery)\n/peers        - List all discovered peers and their IPs\n/quit         - Exit HopChat".to_string())
    );
    assert_eq!(command_reply(&parse_command("/quit"), &[], false), Some("Type Ctrl-C or ESC to quit.".to_string()));
    assert_eq!(command_reply(&parse_command("/connect"), &[], false), Some("Usage: /connect <ip>".to_string()));
    assert_eq!(
        command_reply(&parse_command("/connect nowhere"), &[], false),
        Some("Invalid IP address: nowhere".to_string())
    );
    assert_eq!(command_reply(&parse_command("/xyz"), &[], false), Some("Unknown command: /xyz".to_string()));
    assert_eq!(command_reply(&parse_command("/scan"), &[], false), None);
    assert_eq!(command_reply(&parse_command("plain"), &[], false), None);
}

#[test]
fn system_messages_go_to_the_selected_peer() {
    let peers = vec![peer("bob", "1", 1), peer("carol", "2", 2)];
    assert_eq!(system_target(&peers, 1), "carol");
    assert_eq!(system_target(&peers, 2), "GLOBAL");
    assert_eq!(system_target(&[], 0), "GLOBAL");
}
