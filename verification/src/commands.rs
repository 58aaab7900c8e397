//! Slash commands typed in the chat input: `/help`, `/scan`, `/peers`,
//! `/quit` and `/connect <ip>`. This module reads a command and writes the
//! system message that answers it; the application sends the packets.

use vstd::prelude::*;
use crate::peers::{Peer, PeerView};
use crate::text::{
    chars_eq, chars_of, decimal_chars, decimal_string, is_white_space, push_all, push_str,
    string_of, trim, trim_chars, trim_end, trim_start, words, words_of,
};

verus! {

/// Represents the result of parsing a CLI command
#[derive(Debug, PartialEq, Eq, Structural, Clone, Copy)]
pub enum CommandResult {
    /// Input was not a command or should be ignored
    Ignored,
    /// Command was handled successfully
    Handled,
    /// Command triggered the network scanner
    TriggerScan,
}

/// A command as read from the input line.
pub enum SpecCommand {
    NotCommand,
    Help,
    Scan,
    Peers,
    Quit,
    ConnectUsage,
    Connect { target: Seq<char> },
    Unknown { name: Seq<char> },
}

/// A command as read from the input line.
pub enum Command {
    /// The line does not start with `/`.
    NotCommand,
    /// `/help`
    Help,
    /// `/scan`
    Scan,
    /// `/peers`
    Peers,
    /// `/quit`
    Quit,
    /// `/connect` without an address.
    ConnectUsage,
    /// `/connect <target>`
    Connect { target: String },
    /// Any other word starting with `/`.
    Unknown { name: String },
}

impl View for Command {
    type V = SpecCommand;

    open spec fn view(&self) -> SpecCommand {
        match self {
            Command::NotCommand => SpecCommand::NotCommand,
            Command::Help => SpecCommand::Help,
            Command::Scan => SpecCommand::Scan,
            Command::Peers => SpecCommand::Peers,
            Command::Quit => SpecCommand::Quit,
            Command::ConnectUsage => SpecCommand::ConnectUsage,
            Command::Connect { target } => SpecCommand::Connect { target: target@ },
            Command::Unknown { name } => SpecCommand::Unknown { name: name@ },
        }
    }
}

impl Command {
    /// Whether the command asks to leave the application: the
    /// event loop checks a quit flag that `/quit` raises.
    pub fn requests_quit(&self) -> (r: bool)
        ensures
            r == (self@ == SpecCommand::Quit),
    {
        match self {
            Command::Quit => true,
            _ => false,
        }
    }
}

/// How an input line is read: trimmed; a command when it starts with `/`;
/// the command is its first word, `/connect` takes the second word.
pub open spec fn spec_parse_command(input: Seq<char>) -> SpecCommand {
    let cmd = trim(input);
    if cmd.len() == 0 || cmd[0] != '/' {
        SpecCommand::NotCommand
    } else {
        let w = words(cmd);
        let name = w[0];
        if name == "/help"@ {
            SpecCommand::Help
        } else if name == "/scan"@ {
            SpecCommand::Scan
        } else if name == "/peers"@ {
            SpecCommand::Peers
        } else if name == "/quit"@ {
            SpecCommand::Quit
        } else if name == "/connect"@ {
            if w.len() < 2 {
                SpecCommand::ConnectUsage
            } else {
                SpecCommand::Connect { target: w[1] }
            }
        } else {
            SpecCommand::Unknown { name }
        }
    }
}

/// How the event loop goes on after a line: not a command, handled, or
/// open the scanner.
pub open spec fn spec_command_result(cmd: SpecCommand) -> CommandResult {
    match cmd {
        SpecCommand::NotCommand => CommandResult::Ignored,
        SpecCommand::Scan => CommandResult::TriggerScan,
        _ => CommandResult::Handled,
    }
}

pub open spec fn help_text() -> Seq<char> {
    "Commands:\n/help         - Show this menu\n/scan         - Open the Interactive Subnet Scanner\n/connect <ip> - Manually connect to an IP (Bypasses discovery)\n/peers        - List all discovered peers and their IPs\n/quit         - Exit HopChat"@
}

/// `- username (ip : port)` and a line break.
pub open spec fn peer_line(p: PeerView) -> Seq<char> {
    "- "@ + p.username + " ("@ + p.ip + " : "@ + decimal_string(p.port as nat) + ")\n"@
}

pub open spec fn peer_lines(s: Seq<PeerView>) -> Seq<char>
    decreases s.len(),
{
    if s.len() == 0 {
        Seq::<char>::empty()
    } else {
        peer_lines(s.drop_last()) + peer_line(s.last())
    }
}

/// The system message answering a command, if any. `ip_valid` tells
/// whether the `/connect` target parses as an IP address.
pub open spec fn spec_command_reply(cmd: SpecCommand, peers: Seq<PeerView>, ip_valid: bool) -> Option<
    Seq<char>,
> {
    match cmd {
        SpecCommand::NotCommand => None,
        SpecCommand::Scan => None,
        SpecCommand::Help => Some(help_text()),
        SpecCommand::Peers => Some(
            if peers.len() == 0 {
                "No peers discovered yet."@
            } else {
                trim_end("Discovered Peers:\n"@ + peer_lines(peers))
            },
        ),
        SpecCommand::Quit => Some("Type Ctrl-C or ESC to quit."@),
        SpecCommand::ConnectUsage => Some("Usage: /connect <ip>"@),
        SpecCommand::Connect { target } => Some(
            if ip_valid {
                "Handshake sent to "@ + target + ". Peer will appear in FRIENDS once they respond."@
            } else {
                "Invalid IP address: "@ + target
            },
        ),
        SpecCommand::Unknown { name } => Some("Unknown command: "@ + name),
    }
}

/// Whom system messages go to: the selected peer's conversation, or
/// `GLOBAL` when no peer is selected.
pub open spec fn spec_system_target(peers: Seq<PeerView>, selected: int) -> Seq<char> {
    if peers.len() > 0 && 0 <= selected < peers.len() {
        peers[selected].username
    } else {
        "GLOBAL"@
    }
}

pub proof fn lemma_words_grow(s: Seq<char>)
    requires
        s.len() > 0,
    ensures
        words(s).len() >= words(s.drop_last()).len(),
{
}

/// A text whose first character is not white space has a first word.
pub proof fn lemma_words_nonempty(s: Seq<char>)
    requires
        s.len() > 0,
        !is_white_space(s[0]),
    ensures
        words(s).len() >= 1,
    decreases s.len(),
{
    if s.len() == 1 {
        assert(s.drop_last() =~= Seq::<char>::empty());
        assert(s.last() == s[0]);
    } else {
        let t = s.drop_last();
        assert(t[0] == s[0]);
        lemma_words_nonempty(t);
        lemma_words_grow(s);
    }
}

/// Reads an input line.
pub fn parse_command(input: &str) -> (r: Command)
    ensures
        r@ == spec_parse_command(input@),
{
    let raw = chars_of(input);
    let cmd = trim_chars(raw.as_slice());
    if cmd.len() == 0 || cmd[0] != '/' {
        return Command::NotCommand;
    }
    proof {
        reveal_strlit("/");
        lemma_words_nonempty(cmd@);
    }
    let w = words_of(cmd.as_slice());
    assert(w@[0]@ == words(cmd@)[0]);
    let name = &w[0];
    if chars_eq(name.as_slice(), chars_of("/help").as_slice()) {
        Command::Help
    } else if chars_eq(name.as_slice(), chars_of("/scan").as_slice()) {
        Command::Scan
    } else if chars_eq(name.as_slice(), chars_of("/peers").as_slice()) {
        Command::Peers
    } else if chars_eq(name.as_slice(), chars_of("/quit").as_slice()) {
        Command::Quit
    } else if chars_eq(name.as_slice(), chars_of("/connect").as_slice()) {
        if w.len() < 2 {
            Command::ConnectUsage
        } else {
            assert(w@[1]@ == words(cmd@)[1]);
            Command::Connect { target: string_of(w[1].as_slice()) }
        }
    } else {
        Command::Unknown { name: string_of(name.as_slice()) }
    }
}

/// How the event loop goes on after a command.
pub fn command_result(cmd: &Command) -> (r: CommandResult)
    ensures
        r == spec_command_result(cmd@),
{
    match cmd {
        Command::NotCommand => CommandResult::Ignored,
        Command::Scan => CommandResult::TriggerScan,
        _ => CommandResult::Handled,
    }
}

fn peer_line_string(p: &Peer) -> (r: String)
    ensures
        r@ == peer_line(p@),
{
    let mut s = "- ".to_owned();
    push_str(&mut s, p.username.as_str());
    push_str(&mut s, " (");
    push_str(&mut s, p.ip.as_str());
    push_str(&mut s, " : ");
    let d = decimal_chars(p.port as u64);
    push_all(&mut s, d.as_slice());
    push_str(&mut s, ")\n");
    s
}

fn peers_listing(peers: &[Peer]) -> (r: String)
    requires
        peers@.len() > 0,
    ensures
        r@ == trim_end(
            "Discovered Peers:\n"@ + peer_lines(Seq::new(peers@.len(), |i: int| peers@[i]@)),
        ),
{
    let ghost views = Seq::new(peers@.len(), |i: int| peers@[i]@);
    let mut s = "Discovered Peers:\n".to_owned();
    let ghost header = s@;
    let mut i: usize = 0;
    assert(views.take(0) =~= Seq::<PeerView>::empty());
    assert(header + peer_lines(views.take(0)) =~= header);
    while i < peers.len()
        invariant
            i <= peers@.len(),
            views == Seq::new(peers@.len(), |i: int| peers@[i]@),
            s@ == header + peer_lines(views.take(i as int)),
        decreases peers@.len() - i,
    {
        let line = peer_line_string(&peers[i]);
        push_str(&mut s, line.as_str());
        proof {
            let t = views.take(i + 1);
            assert(t.drop_last() =~= views.take(i as int));
            assert(t.last() == peers@[i as int]@);
        }
        i = i + 1;
    }
    assert(views.take(peers@.len() as int) =~= views);
    let v = chars_of(s.as_str());
    let t = trim_chars(v.as_slice());
    proof {
        reveal_strlit("Discovered Peers:\n");
        assert(s@[0] == 'D');
        assert(trim_start(s@) == s@);
    }
    string_of(t.as_slice())
}

/// The system message answering a command, if any; `ip_valid` tells
/// whether the `/connect` target is an IP address.
pub fn command_reply(cmd: &Command, peers: &[Peer], ip_valid: bool) -> (r: Option<String>)
    ensures
        r matches Some(m) ==> spec_command_reply(
            cmd@,
            Seq::new(peers@.len(), |i: int| peers@[i]@),
            ip_valid,
        ) == Some(m@),
        r is None ==> spec_command_reply(
            cmd@,
            Seq::new(peers@.len(), |i: int| peers@[i]@),
            ip_valid,
        ) is None,
{
    match cmd {
        Command::NotCommand => None,
        Command::Scan => None,
        Command::Help => Some(
            "Commands:\n/help         - Show this menu\n/scan         - Open the Interactive Subnet Scanner\n/connect <ip> - Manually connect to an IP (Bypasses discovery)\n/peers        - List all discovered peers and their IPs\n/quit         - Exit HopChat".to_owned(),
        ),
        Command::Peers => {
            if peers.len() == 0 {
                Some("No peers discovered yet.".to_owned())
            } else {
                Some(peers_listing(peers))
            }
        },
        Command::Quit => Some("Type Ctrl-C or ESC to quit.".to_owned()),
        Command::ConnectUsage => Some("Usage: /connect <ip>".to_owned()),
        Command::Connect { target } => {
            if ip_valid {
                let mut s = "Handshake sent to ".to_owned();
                push_str(&mut s, target.as_str());
                push_str(&mut s, ". Peer will appear in FRIENDS once they respond.");
                Some(s)
            } else {
                let mut s = "Invalid IP address: ".to_owned();
                push_str(&mut s, target.as_str());
                Some(s)
            }
        },
        Command::Unknown { name } => {
            let mut s = "Unknown command: ".to_owned();
            push_str(&mut s, name.as_str());
            Some(s)
        },
    }
}

/// Whom system messages go to: the selected peer, or `GLOBAL`.
pub fn system_target(peers: &[Peer], selected: usize) -> (r: String)
    ensures
        r@ == spec_system_target(Seq::new(peers@.len(), |i: int| peers@[i]@), selected as int),
{
    if peers.len() > 0 && selected < peers.len() {
        peers[selected].username.clone()
    } else {
        "GLOBAL".to_owned()
    }
}

} // verus!
