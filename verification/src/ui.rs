//! The decisions of the terminal event loop: editing the input line,
//! moving the selection in the friends list and in the subnet scanner, and
//! what to do on Enter. The application draws the screen, reads the keys,
//! runs commands and sends packets; this module only updates the state and
//! says which of those to do.

use vstd::prelude::*;
use crate::commands::CommandResult;
use crate::node::Outgoing;
use crate::text::string_of;

verus! {

/// Actions that can result from keyboard input.
#[derive(Debug, PartialEq, Eq, Structural, Clone, Copy)]
pub enum InputAction {
    /// A character was typed into the input buffer
    Character(char),
    /// Backspace was pressed
    Backspace,
    /// Enter was pressed (send the message)
    Send,
    /// Move selection up in the friends list
    SelectUp,
    /// Move selection down in the friends list
    SelectDown,
    /// Quit the application (or close the scanner while it is open)
    Quit,
    /// Open or close the subnet scanner
    ToggleScanner,
    /// A mouse click or touch at a column and row
    Click(u16, u16),
    /// No action (timeout or irrelevant event)
    NoAction,
}

/// A key as the terminal reports it.
#[derive(Debug, PartialEq, Eq, Structural, Clone, Copy)]
pub enum Key {
    Char(char),
    Esc,
    Enter,
    Backspace,
    Up,
    Down,
    Tab,
    /// Any other key.
    Other,
}

/// The action of a key event; only presses count (terminals may report
/// releases too). Ctrl-C and Esc quit, Tab opens or closes the subnet
/// scanner.
pub open spec fn spec_action_for_key(key: Key, ctrl: bool, press: bool) -> InputAction {
    if !press {
        InputAction::NoAction
    } else {
        match key {
            Key::Char(c) => if c == 'c' && ctrl {
                InputAction::Quit
            } else {
                InputAction::Character(c)
            },
            Key::Esc => InputAction::Quit,
            Key::Enter => InputAction::Send,
            Key::Backspace => InputAction::Backspace,
            Key::Up => InputAction::SelectUp,
            Key::Down => InputAction::SelectDown,
            Key::Tab => InputAction::ToggleScanner,
            Key::Other => InputAction::NoAction,
        }
    }
}

/// Reads a key event as an action (see `spec_action_for_key`).
pub fn action_for_key(key: Key, ctrl: bool, press: bool) -> (r: InputAction)
    ensures
        r == spec_action_for_key(key, ctrl, press),
{
    if !press {
        return InputAction::NoAction;
    }
    match key {
        Key::Char(c) => if c == 'c' && ctrl {
            InputAction::Quit
        } else {
            InputAction::Character(c)
        },
        Key::Esc => InputAction::Quit,
        Key::Enter => InputAction::Send,
        Key::Backspace => InputAction::Backspace,
        Key::Up => InputAction::SelectUp,
        Key::Down => InputAction::SelectDown,
        Key::Tab => InputAction::ToggleScanner,
        Key::Other => InputAction::NoAction,
    }
}

/// A rectangle of terminal cells.
#[derive(Debug, PartialEq, Eq, Structural, Clone, Copy)]
pub struct Rect {
    pub x: u16,
    pub y: u16,
    pub width: u16,
    pub height: u16,
}

/// Whether the cell at column `x`, row `y` lies in `r`.
pub open spec fn spec_contains(r: Rect, x: u16, y: u16) -> bool {
    r.x <= x < r.x + r.width && r.y <= y < r.y + r.height
}

/// State of the subnet scanner popup overlay.
pub struct ScannerState {
    pub is_visible: bool,
    pub selected_index: usize,
    pub local_ip: String,
}

/// The editable state of the event loop.
pub struct UiView {
    pub input: Seq<char>,
    pub cursor: nat,
    pub selected_peer: nat,
    pub scanner_visible: bool,
    pub scanner_index: nat,
}

/// What the application does after an action.
#[derive(Debug, PartialEq, Eq, Structural, Clone, Copy)]
pub enum UiEffect {
    /// Nothing more: draw again.
    Continue,
    /// Leave the event loop.
    Quit,
    /// Sweep the subnet for peers (the scanner just opened).
    StartScan,
    /// Connect to the peer at this position of the scanner's list.
    ConnectToScanned(usize),
    /// Run the input line as a command or send it as a message.
    Submit,
}

/// How one action changes the state, given how many peers are listed and
/// where the quit button is (mobile layout).
pub open spec fn spec_apply(s: UiView, action: InputAction, n_peers: nat, quit_button: Option<Rect>) -> (
    UiView,
    UiEffect,
) {
    match action {
        InputAction::Quit => if s.scanner_visible {
            (UiView { scanner_visible: false, ..s }, UiEffect::Continue)
        } else {
            (s, UiEffect::Quit)
        },
        InputAction::Click(x, y) => match quit_button {
            Some(r) => if spec_contains(r, x, y) {
                (s, UiEffect::Quit)
            } else {
                (s, UiEffect::Continue)
            },
            None => (s, UiEffect::Continue),
        },
        InputAction::ToggleScanner => if s.scanner_visible {
            (UiView { scanner_visible: false, ..s }, UiEffect::Continue)
        } else {
            (UiView { scanner_visible: true, scanner_index: 0, ..s }, UiEffect::StartScan)
        },
        InputAction::Character(c) => if s.scanner_visible {
            (s, UiEffect::Continue)
        } else {
            (
                UiView {
                    input: s.input.insert(s.cursor as int, c),
                    cursor: s.cursor + 1,
                    ..s
                },
                UiEffect::Continue,
            )
        },
        InputAction::Backspace => if !s.scanner_visible && s.cursor > 0 {
            (
                UiView {
                    input: s.input.remove(s.cursor - 1),
                    cursor: (s.cursor - 1) as nat,
                    ..s
                },
                UiEffect::Continue,
            )
        } else {
            (s, UiEffect::Continue)
        },
        InputAction::SelectUp => if s.scanner_visible {
            if s.scanner_index > 0 {
                (UiView { scanner_index: (s.scanner_index - 1) as nat, ..s }, UiEffect::Continue)
            } else {
                (s, UiEffect::Continue)
            }
        } else {
            if s.selected_peer > 0 {
                (UiView { selected_peer: (s.selected_peer - 1) as nat, ..s }, UiEffect::Continue)
            } else {
                (s, UiEffect::Continue)
            }
        },
        InputAction::SelectDown => if s.scanner_visible {
            if s.scanner_index + 1 < n_peers {
                (UiView { scanner_index: s.scanner_index + 1, ..s }, UiEffect::Continue)
            } else {
                (s, UiEffect::Continue)
            }
        } else {
            if n_peers > 0 && s.selected_peer + 1 < n_peers {
                (UiView { selected_peer: s.selected_peer + 1, ..s }, UiEffect::Continue)
            } else {
                (s, UiEffect::Continue)
            }
        },
        InputAction::Send => if s.scanner_visible {
            (
                UiView { scanner_visible: false, ..s },
                if n_peers > 0 && s.scanner_index < n_peers {
                    UiEffect::ConnectToScanned(s.scanner_index as usize)
                } else {
                    UiEffect::Continue
                },
            )
        } else if s.input.len() > 0 {
            (s, UiEffect::Submit)
        } else {
            (s, UiEffect::Continue)
        },
        InputAction::NoAction => (s, UiEffect::Continue),
    }
}

/// The state of the terminal event loop.
pub struct UiState {
    /// The input line, as characters
    pub input: Vec<char>,
    /// The cursor position within the input line (a character index)
    pub cursor: usize,
    /// Index of the currently selected peer in the friends list
    pub selected_peer: usize,
    /// The subnet scanner popup
    pub scanner: ScannerState,
}

impl View for UiState {
    type V = UiView;

    open spec fn view(&self) -> UiView {
        UiView {
            input: self.input@,
            cursor: self.cursor as nat,
            selected_peer: self.selected_peer as nat,
            scanner_visible: self.scanner.is_visible,
            scanner_index: self.scanner.selected_index as nat,
        }
    }
}

/// The cursor stays within the input line.
pub open spec fn ui_wf(s: UiView) -> bool {
    s.cursor <= s.input.len()
}

impl UiState {
    pub fn new(local_ip: String) -> (r: Self)
        ensures
            r@ == (UiView {
                input: Seq::<char>::empty(),
                cursor: 0,
                selected_peer: 0,
                scanner_visible: false,
                scanner_index: 0,
            }),
            r.scanner.local_ip@ == local_ip@,
    {
        UiState {
            input: Vec::new(),
            cursor: 0,
            selected_peer: 0,
            scanner: ScannerState { is_visible: false, selected_index: 0, local_ip },
        }
    }

    pub open spec fn wf(&self) -> bool {
        ui_wf(self@)
    }

    /// The input line.
    pub fn input_text(&self) -> (r: String)
        ensures
            r@ == self@.input,
    {
        string_of(self.input.as_slice())
    }

    /// The cursor position, as a character index.
    pub fn cursor(&self) -> (r: usize)
        ensures
            r == self@.cursor,
    {
        self.cursor
    }

    /// Whether the input line is empty.
    pub fn input_is_empty(&self) -> (r: bool)
        ensures
            r == (self@.input.len() == 0),
    {
        self.input.len() == 0
    }

    /// Keeps the selection on an existing peer when the list shrank.
    pub fn clamp_selection(&mut self, n_peers: usize)
        requires
            old(self).wf(),
        ensures
            final(self).wf(),
            final(self)@ == (if n_peers > 0 && old(self)@.selected_peer >= n_peers {
                UiView { selected_peer: (n_peers - 1) as nat, ..old(self)@ }
            } else {
                old(self)@
            }),
    {
        if n_peers > 0 && self.selected_peer >= n_peers {
            self.selected_peer = n_peers - 1;
        }
    }

    /// Applies one input action.
    pub fn apply(&mut self, action: InputAction, n_peers: usize, quit_button: Option<Rect>) -> (r:
        UiEffect)
        requires
            old(self).wf(),
        ensures
            final(self).wf(),
            (final(self)@, r) == spec_apply(old(self)@, action, n_peers as nat, quit_button),
            final(self).scanner.local_ip == old(self).scanner.local_ip,
    {
        match action {
            InputAction::Quit => {
                if self.scanner.is_visible {
                    self.scanner.is_visible = false;
                    UiEffect::Continue
                } else {
                    UiEffect::Quit
                }
            },
            InputAction::Click(x, y) => match quit_button {
                Some(r) => {
                    let inside = (x as u32) >= (r.x as u32) && (x as u32) < (r.x as u32) + (
                    r.width as u32) && (y as u32) >= (r.y as u32) && (y as u32) < (r.y as u32) + (
                    r.height as u32);
                    if inside {
                        UiEffect::Quit
                    } else {
                        UiEffect::Continue
                    }
                },
                None => UiEffect::Continue,
            },
            InputAction::ToggleScanner => {
                if self.scanner.is_visible {
                    self.scanner.is_visible = false;
                    UiEffect::Continue
                } else {
                    self.scanner.is_visible = true;
                    self.scanner.selected_index = 0;
                    UiEffect::StartScan
                }
            },
            InputAction::Character(c) => {
                if self.scanner.is_visible {
                    UiEffect::Continue
                } else {
                    self.input.insert(self.cursor, c);
                    let len = self.input.len();
                    assert(self.cursor < len);
                    self.cursor = self.cursor + 1;
                    UiEffect::Continue
                }
            },
            InputAction::Backspace => {
                if !self.scanner.is_visible && self.cursor > 0 {
                    self.cursor = self.cursor - 1;
                    self.input.remove(self.cursor);
                }
                UiEffect::Continue
            },
            InputAction::SelectUp => {
                if self.scanner.is_visible {
                    if self.scanner.selected_index > 0 {
                        self.scanner.selected_index = self.scanner.selected_index - 1;
                    }
                } else {
                    if self.selected_peer > 0 {
                        self.selected_peer = self.selected_peer - 1;
                    }
                }
                UiEffect::Continue
            },
            InputAction::SelectDown => {
                if self.scanner.is_visible {
                    let last = if n_peers > 0 {
                        n_peers - 1
                    } else {
                        0
                    };
                    if self.scanner.selected_index < last {
                        self.scanner.selected_index = self.scanner.selected_index + 1;
                    }
                } else {
                    if n_peers > 0 && self.selected_peer < n_peers - 1 {
                        self.selected_peer = self.selected_peer + 1;
                    }
                }
                UiEffect::Continue
            },
            InputAction::Send => {
                if self.scanner.is_visible {
                    let effect = if n_peers > 0 && self.scanner.selected_index < n_peers {
                        UiEffect::ConnectToScanned(self.scanner.selected_index)
                    } else {
                        UiEffect::Continue
                    };
                    self.scanner.is_visible = false;
                    effect
                } else if self.input.len() > 0 {
                    UiEffect::Submit
                } else {
                    UiEffect::Continue
                }
            },
            InputAction::NoAction => UiEffect::Continue,
        }
    }

    /// After the submitted line was run as a command: a handled command
    /// clears the line; `/scan` clears it and opens the scanner (the effect
    /// says to sweep the subnet); a line that is no command is left for the
    /// chat flow (`Submit`).
    pub fn after_command(&mut self, result: CommandResult) -> (r: UiEffect)
        requires
            old(self).wf(),
        ensures
            final(self).wf(),
            final(self).scanner.local_ip == old(self).scanner.local_ip,
            match result {
                CommandResult::Handled => r == UiEffect::Continue && final(self)@ == UiView {
                    input: Seq::<char>::empty(),
                    cursor: 0,
                    ..old(self)@
                },
                CommandResult::TriggerScan => r == UiEffect::StartScan && final(self)@ == UiView {
                    input: Seq::<char>::empty(),
                    cursor: 0,
                    scanner_visible: true,
                    scanner_index: 0,
                    ..old(self)@
                },
                CommandResult::Ignored => r == UiEffect::Submit && final(self)@ == old(self)@,
            },
    {
        match result {
            CommandResult::Handled => {
                self.clear_input();
                UiEffect::Continue
            },
            CommandResult::TriggerScan => {
                self.clear_input();
                self.scanner.is_visible = true;
                self.scanner.selected_index = 0;
                UiEffect::StartScan
            },
            CommandResult::Ignored => UiEffect::Submit,
        }
    }

    /// After a typed line was handed to the chat flow: a message on its way
    /// (encrypted) empties the input line; a key exchange that was only
    /// started keeps the line as typed, so that it can be sent again with
    /// Enter once the key is agreed.
    pub fn after_send(&mut self, out: &Outgoing)
        requires
            old(self).wf(),
        ensures
            final(self).wf(),
            final(self).scanner.local_ip == old(self).scanner.local_ip,
            match out {
                Outgoing::Encrypted { .. } => final(self)@ == (UiView {
                    input: Seq::<char>::empty(),
                    cursor: 0,
                    ..old(self)@
                }),
                Outgoing::Handshake => final(self)@ == old(self)@,
            },
    {
        match out {
            Outgoing::Encrypted { .. } => self.clear_input(),
            Outgoing::Handshake => {},
        }
    }

    /// Empties the input line (the message was sent).
    pub fn clear_input(&mut self)
        ensures
            final(self)@ == (UiView { input: Seq::<char>::empty(), cursor: 0, ..old(self)@ }),
            final(self).wf(),
            final(self).scanner.local_ip == old(self).scanner.local_ip,
    {
        self.input = Vec::new();
        self.cursor = 0;
    }
}

/// Typing a character and erasing it with Backspace gives the line and
/// cursor back.
pub proof fn lemma_type_then_erase(s: UiView, c: char, n_peers: nat, quit_button: Option<Rect>)
    requires
        ui_wf(s),
        !s.scanner_visible,
    ensures
        ({
            let (s1, e1) = spec_apply(s, InputAction::Character(c), n_peers, quit_button);
            let (s2, e2) = spec_apply(s1, InputAction::Backspace, n_peers, quit_button);
            s2 == s && e1 == UiEffect::Continue && e2 == UiEffect::Continue
        }),
{
    let s1 = spec_apply(s, InputAction::Character(c), n_peers, quit_button).0;
    assert(s1.input.remove(s.cursor as int) =~= s.input);
}

/// Every action keeps the cursor within the line, and keeps the selected
/// peer and scanner entry on a listed peer.
pub proof fn lemma_selection_in_range(
    s: UiView,
    action: InputAction,
    n_peers: nat,
    quit_button: Option<Rect>,
)
    requires
        ui_wf(s),
        n_peers > 0,
        s.selected_peer < n_peers,
        s.scanner_index < n_peers,
    ensures
        ({
            let (s1, e) = spec_apply(s, action, n_peers, quit_button);
            &&& ui_wf(s1)
            &&& s1.selected_peer < n_peers
            &&& s1.scanner_index < n_peers
        }),
{
}

/// The arrows move the selection by one: in the friends list when the
/// scanner is closed, in the scanner's list when it is open. Up moves up
/// one entry unless at the top; Down moves down one unless at the last
/// listed peer; nothing else of the state changes, and the loop goes on.
pub proof fn lemma_arrows_move_by_one(s: UiView, n_peers: nat, quit_button: Option<Rect>)
    ensures
        ({
            let (up, e_up) = spec_apply(s, InputAction::SelectUp, n_peers, quit_button);
            let (down, e_down) = spec_apply(s, InputAction::SelectDown, n_peers, quit_button);
            &&& e_up == UiEffect::Continue && e_down == UiEffect::Continue
            &&& up.input == s.input && up.cursor == s.cursor && up.scanner_visible == s.scanner_visible
            &&& down.input == s.input && down.cursor == s.cursor && down.scanner_visible
                == s.scanner_visible
            &&& !s.scanner_visible ==> {
                &&& up.scanner_index == s.scanner_index && down.scanner_index == s.scanner_index
                &&& s.selected_peer > 0 ==> up.selected_peer + 1 == s.selected_peer
                &&& s.selected_peer == 0 ==> up.selected_peer == 0
                &&& s.selected_peer + 1 < n_peers ==> down.selected_peer == s.selected_peer + 1
                &&& s.selected_peer + 1 >= n_peers ==> down.selected_peer == s.selected_peer
            }
            &&& s.scanner_visible ==> {
                &&& up.selected_peer == s.selected_peer && down.selected_peer == s.selected_peer
                &&& s.scanner_index > 0 ==> up.scanner_index + 1 == s.scanner_index
                &&& s.scanner_index == 0 ==> up.scanner_index == 0
                &&& s.scanner_index + 1 < n_peers ==> down.scanner_index == s.scanner_index + 1
                &&& s.scanner_index + 1 >= n_peers ==> down.scanner_index == s.scanner_index
            }
        }),
{
}

/// Down then Up, from an entry that is not the last, comes back to the
/// same state; so does Up then Down from an entry that is not the first
/// (with the selection on a listed peer).
pub proof fn lemma_down_then_up(s: UiView, n_peers: nat, quit_button: Option<Rect>)
    ensures
        !s.scanner_visible && s.selected_peer + 1 < n_peers ==> ({
            let (d, _) = spec_apply(s, InputAction::SelectDown, n_peers, quit_button);
            spec_apply(d, InputAction::SelectUp, n_peers, quit_button).0 == s
        }),
        !s.scanner_visible && 0 < s.selected_peer < n_peers ==> ({
            let (u, _) = spec_apply(s, InputAction::SelectUp, n_peers, quit_button);
            spec_apply(u, InputAction::SelectDown, n_peers, quit_button).0 == s
        }),
        s.scanner_visible && s.scanner_index + 1 < n_peers ==> ({
            let (d, _) = spec_apply(s, InputAction::SelectDown, n_peers, quit_button);
            spec_apply(d, InputAction::SelectUp, n_peers, quit_button).0 == s
        }),
        s.scanner_visible && 0 < s.scanner_index < n_peers ==> ({
            let (u, _) = spec_apply(s, InputAction::SelectUp, n_peers, quit_button);
            spec_apply(u, InputAction::SelectDown, n_peers, quit_button).0 == s
        }),
{
}

/// With the scanner closed, a typed character goes in at the cursor (the
/// characters before it stay, those after it move one place right) and the
/// cursor moves past it; Backspace removes the character just before the
/// cursor and moves the cursor back, and does nothing at the start of the
/// line. The selection is untouched.
pub proof fn lemma_typing_edits_at_cursor(s: UiView, c: char, n_peers: nat, quit_button: Option<Rect>)
    requires
        ui_wf(s),
        !s.scanner_visible,
    ensures
        ({
            let (t, _) = spec_apply(s, InputAction::Character(c), n_peers, quit_button);
            &&& t.input.len() == s.input.len() + 1
            &&& t.cursor == s.cursor + 1
            &&& t.input[s.cursor as int] == c
            &&& forall|i: int| 0 <= i < s.cursor ==> #[trigger] t.input[i] == s.input[i]
            &&& forall|i: int| s.cursor <= i < s.input.len() ==> #[trigger] t.input[i + 1] == s.input[i]
            &&& t.selected_peer == s.selected_peer && t.scanner_index == s.scanner_index
        }),
        ({
            let (b, _) = spec_apply(s, InputAction::Backspace, n_peers, quit_button);
            &&& s.cursor == 0 ==> b == s
            &&& s.cursor > 0 ==> {
                &&& b.input.len() + 1 == s.input.len()
                &&& b.cursor + 1 == s.cursor
                &&& forall|i: int| 0 <= i < b.cursor ==> #[trigger] b.input[i] == s.input[i]
                &&& forall|i: int| b.cursor <= i < b.input.len() ==> #[trigger] b.input[i] == s.input[i
                    + 1]
            }
            &&& b.selected_peer == s.selected_peer && b.scanner_index == s.scanner_index
        }),
{
}

} // verus!
