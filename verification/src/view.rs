//! What the terminal interface shows: the order of a conversation, the
//! part of it that fits, and the text and place of each panel's content.
//! Drawing itself is left to the application.

use vstd::prelude::*;
use crate::history::message_views;
use crate::messages::{ChatMessage, MessageView};
use crate::peers::{opt_view, Peer, PeerView};
use crate::text::{chars_of, decimal_chars, decimal_string, push_all, push_str, string_of};
use crate::ui::Rect;

verus! {

// ---------------------------------------------------------------------------
// The order of a conversation
// ---------------------------------------------------------------------------

/// Whether `a` is shown no later than `b`: by timestamp, then by
/// id.
pub open spec fn shown_before(a: MessageView, b: MessageView) -> bool {
    a.timestamp < b.timestamp || (a.timestamp == b.timestamp && a.id <= b.id)
}

/// `s` with `m` placed after the last message shown no later than `m`.
pub open spec fn spec_insert_ordered(s: Seq<MessageView>, m: MessageView) -> Seq<MessageView>
    decreases s.len(),
{
    if s.len() == 0 {
        seq![m]
    } else if shown_before(s.last(), m) {
        s.push(m)
    } else {
        spec_insert_ordered(s.drop_last(), m).push(s.last())
    }
}

/// The messages of a conversation in the order they are shown: a stable
/// sort by timestamp, then id (messages equal in both keep their order).
pub open spec fn spec_chat_order(s: Seq<MessageView>) -> Seq<MessageView>
    decreases s.len(),
{
    if s.len() == 0 {
        s
    } else {
        spec_insert_ordered(spec_chat_order(s.drop_last()), s.last())
    }
}

/// Whether a sequence is in the order messages are shown.
pub open spec fn in_chat_order(s: Seq<MessageView>) -> bool {
    forall|i: int, j: int| 0 <= i < j < s.len() ==> shown_before(#[trigger] s[i], #[trigger] s[j])
}

proof fn lemma_insert_at(s: Seq<MessageView>, m: MessageView, j: int)
    requires
        0 <= j <= s.len(),
        forall|k: int| j <= k < s.len() ==> !shown_before(#[trigger] s[k], m),
        j == 0 || shown_before(s[j - 1], m),
    ensures
        spec_insert_ordered(s, m) == s.take(j).push(m) + s.skip(j),
    decreases s.len(),
{
    if s.len() == 0 {
        assert(s.take(j).push(m) + s.skip(j) =~= seq![m]);
    } else if j == s.len() {
        assert(s.take(j) =~= s);
        assert(s.take(j).push(m) + s.skip(j) =~= s.push(m));
    } else {
        let t = s.drop_last();
        assert(!shown_before(s[s.len() - 1], m));
        assert forall|k: int| j <= k < t.len() implies !shown_before(#[trigger] t[k], m) by {
            assert(t[k] == s[k]);
        }
        if j > 0 {
            assert(t[j - 1] == s[j - 1]);
        }
        lemma_insert_at(t, m, j);
        assert(t.take(j).push(m) + t.skip(j) + seq![s.last()] =~= s.take(j).push(m) + s.skip(j));
    }
}

proof fn lemma_insert_keeps_order(s: Seq<MessageView>, m: MessageView)
    requires
        in_chat_order(s),
    ensures
        in_chat_order(spec_insert_ordered(s, m)),
        spec_insert_ordered(s, m).to_multiset() == s.to_multiset().insert(m),
    decreases s.len(),
{
    broadcast use vstd::seq_lib::group_to_multiset_ensures;

    if s.len() == 0 {
        assert(seq![m] =~= Seq::<MessageView>::empty().push(m));
    } else if shown_before(s.last(), m) {
        let r = s.push(m);
        assert forall|i: int, j: int| 0 <= i < j < r.len() implies shown_before(
            #[trigger] r[i],
            #[trigger] r[j],
        ) by {
            if j == s.len() {
                if i < s.len() - 1 {
                    assert(shown_before(s[i], s[s.len() - 1]));
                }
            }
        }
    } else {
        let t = s.drop_last();
        assert(in_chat_order(t)) by {
            assert forall|i: int, j: int| 0 <= i < j < t.len() implies shown_before(
                #[trigger] t[i],
                #[trigger] t[j],
            ) by {
                assert(t[i] == s[i] && t[j] == s[j]);
            }
        }
        lemma_insert_keeps_order(t, m);
        let u = spec_insert_ordered(t, m);
        let r = u.push(s.last());
        assert forall|i: int, j: int| 0 <= i < j < r.len() implies shown_before(
            #[trigger] r[i],
            #[trigger] r[j],
        ) by {
            if j == u.len() {
                // every element of u is m or an element of t, all shown before s.last()
                assert(u.to_multiset().count(u[i]) > 0);
                assert(t.to_multiset().insert(m).count(u[i]) > 0);
                if u[i] != m {
                    assert(t.to_multiset().count(u[i]) > 0);
                    assert(t.contains(u[i]));
                    let k = choose|k: int| 0 <= k < t.len() && t[k] == u[i];
                    assert(s[k] == t[k]);
                    assert(shown_before(s[k], s[s.len() - 1]));
                }
            }
        }
        assert(s =~= t.push(s.last()));
        assert(r.to_multiset() =~= s.to_multiset().insert(m));
    }
}

/// The conversation in the order it is shown is sorted by
/// timestamp, then id, and holds exactly the conversation's messages.
pub proof fn lemma_chat_order_sorted(s: Seq<MessageView>)
    ensures
        in_chat_order(spec_chat_order(s)),
        spec_chat_order(s).to_multiset() == s.to_multiset(),
    decreases s.len(),
{
    broadcast use vstd::seq_lib::group_to_multiset_ensures;

    if s.len() > 0 {
        lemma_chat_order_sorted(s.drop_last());
        lemma_insert_keeps_order(spec_chat_order(s.drop_last()), s.last());
        assert(s =~= s.drop_last().push(s.last()));
    }
}

fn shown_before_exec(a: &ChatMessage, b: &ChatMessage) -> (r: bool)
    ensures
        r == shown_before(a@, b@),
{
    a.timestamp < b.timestamp || (a.timestamp == b.timestamp && a.id <= b.id)
}

/// The messages in the order they are shown (see `spec_chat_order`).
pub fn chat_order(messages: &[ChatMessage]) -> (r: Vec<ChatMessage>)
    ensures
        message_views(r@) == spec_chat_order(message_views(messages@)),
{
    let mut out: Vec<ChatMessage> = Vec::new();
    let mut i: usize = 0;
    while i < messages.len()
        invariant
            i <= messages@.len(),
            message_views(out@) == spec_chat_order(message_views(messages@.take(i as int))),
        decreases messages@.len() - i,
    {
        let m = messages[i].duplicate();
        let mut j: usize = out.len();
        while j > 0 && !shown_before_exec(&out[j - 1], &m)
            invariant
                j <= out@.len(),
                forall|k: int| j <= k < out@.len() ==> !shown_before(#[trigger] out@[k]@, m@),
            decreases j,
        {
            j = j - 1;
        }
        let ghost before = message_views(out@);
        proof {
            assert forall|k: int| j <= k < before.len() implies !shown_before(#[trigger] before[k], m@) by {
                assert(before[k] == out@[k]@);
            }
            if j > 0 {
                assert(before[j - 1] == out@[j - 1]@);
            }
            lemma_insert_at(before, m@, j as int);
            assert(message_views(messages@.take(i + 1)).drop_last() =~= message_views(messages@.take(i as int)));
            assert(message_views(messages@.take(i + 1)).last() == messages@[i as int]@);
        }
        out.insert(j, m);
        proof {
            assert(message_views(out@) =~= before.take(j as int).push(m@) + before.skip(j as int));
        }
        i = i + 1;
    }
    assert(messages@.take(messages@.len() as int) =~= messages@);
    out
}

/// Where the shown part of a conversation of `n_lines` lines starts in a
/// chat panel `height` rows high: the last lines that fit inside the
/// border.
pub open spec fn spec_window_start(n_lines: nat, height: u16) -> nat {
    let visible: nat = if height >= 2 {
        (height - 2) as nat
    } else {
        0
    };
    if n_lines > visible {
        (n_lines - visible) as nat
    } else {
        0
    }
}

/// The first line shown (see `spec_window_start`).
pub fn window_start(n_lines: usize, height: u16) -> (r: usize)
    ensures
        r == spec_window_start(n_lines as nat, height),
{
    let visible: usize = if height >= 2 {
        (height - 2) as usize
    } else {
        0
    };
    if n_lines > visible {
        n_lines - visible
    } else {
        0
    }
}

// ---------------------------------------------------------------------------
// Panel texts
// ---------------------------------------------------------------------------

/// How a sender is labelled: `YOU` for our own messages.
pub open spec fn spec_sender_label(sender: Seq<char>, username: Seq<char>) -> Seq<char> {
    if sender == username {
        "YOU"@
    } else {
        sender
    }
}

pub fn sender_label(sender: &str, username: &str) -> (r: String)
    ensures
        r@ == spec_sender_label(sender@, username@),
{
    let a = chars_of(sender);
    let b = chars_of(username);
    if crate::text::chars_eq(a.as_slice(), b.as_slice()) {
        string_of(chars_of("YOU").as_slice())
    } else {
        string_of(a.as_slice())
    }
}

/// The title of the chat panel: the conversation shown is that of the
/// selected peer (the last one when the selection is past the end).
pub open spec fn spec_chat_title(peers: Seq<PeerView>, selected: nat) -> Seq<char> {
    if peers.len() == 0 {
        " CHAT "@
    } else {
        let i = if selected < peers.len() {
            selected as int
        } else {
            peers.len() - 1
        };
        " CHAT : PRIVATE("@ + peers[i].username + ") "@
    }
}

pub fn chat_title(peers: &[Peer], selected: usize) -> (r: String)
    ensures
        r@ == spec_chat_title(peers@.map_values(|p: Peer| p@), selected as nat),
{
    let ghost pv = peers@.map_values(|p: Peer| p@);
    if peers.len() == 0 {
        return string_of(chars_of(" CHAT ").as_slice());
    }
    let i = if selected < peers.len() {
        selected
    } else {
        peers.len() - 1
    };
    assert(pv[i as int] == peers@[i as int]@);
    let mut s = string_of(chars_of(" CHAT : PRIVATE(").as_slice());
    push_str(&mut s, peers[i].username.as_str());
    push_str(&mut s, ") ");
    s
}

/// A line of the friends panel: the selected peer is marked `>>`.
pub open spec fn spec_friend_label(username: Seq<char>, selected: bool) -> Seq<char> {
    if selected {
        ">> "@ + username
    } else {
        "   "@ + username
    }
}

pub fn friend_label(username: &str, selected: bool) -> (r: String)
    ensures
        r@ == spec_friend_label(username@, selected),
{
    let mut s = if selected {
        string_of(chars_of(">> ").as_slice())
    } else {
        string_of(chars_of("   ").as_slice())
    };
    push_str(&mut s, username);
    s
}

/// The lines of the friends panel: each peer's label, the selected one
/// marked, or a single note when no peer is known.
pub open spec fn spec_friend_items(peers: Seq<PeerView>, selected: nat) -> Seq<Seq<char>> {
    if peers.len() == 0 {
        seq!["  (no peers found)"@]
    } else {
        Seq::new(peers.len(), |i: int| spec_friend_label(peers[i].username, i == selected))
    }
}

/// The views of a list of strings.
pub open spec fn string_views(s: Seq<String>) -> Seq<Seq<char>> {
    s.map_values(|x: String| x@)
}

pub fn friend_items(peers: &[Peer], selected: usize) -> (r: Vec<String>)
    ensures
        string_views(r@) == spec_friend_items(peers@.map_values(|p: Peer| p@), selected as nat),
{
    let ghost pv = peers@.map_values(|p: Peer| p@);
    let mut out: Vec<String> = Vec::new();
    if peers.len() == 0 {
        out.push(string_of(chars_of("  (no peers found)").as_slice()));
        assert(string_views(out@) =~= spec_friend_items(pv, selected as nat));
        return out;
    }
    let mut i: usize = 0;
    while i < peers.len()
        invariant
            i <= peers@.len(),
            pv == peers@.map_values(|p: Peer| p@),
            out@.len() == i,
            forall|k: int| 0 <= k < i ==> #[trigger] out@[k]@ == spec_friend_label(
                pv[k].username,
                k == selected,
            ),
        decreases peers@.len() - i,
    {
        let label = friend_label(peers[i].username.as_str(), i == selected);
        assert(pv[i as int] == peers@[i as int]@);
        out.push(label);
        i = i + 1;
    }
    assert(string_views(out@) =~= spec_friend_items(pv, selected as nat));
    out
}

/// The network map's line for us.
pub open spec fn spec_map_you_label(username: Seq<char>) -> Seq<char> {
    "  YOU ("@ + username + ")"@
}

pub fn map_you_label(username: &str) -> (r: String)
    ensures
        r@ == spec_map_you_label(username@),
{
    let mut s = string_of(chars_of("  YOU (").as_slice());
    push_str(&mut s, username);
    push_str(&mut s, ")");
    s
}

/// The network map's line for a peer.
pub open spec fn spec_map_peer_line(username: Seq<char>) -> Seq<char> {
    "   ├── "@ + username
}

pub fn map_peer_line(username: &str) -> (r: String)
    ensures
        r@ == spec_map_peer_line(username@),
{
    let mut s = string_of(chars_of("   ├── ").as_slice());
    push_str(&mut s, username);
    s
}

/// The network status line: connected once a peer is known,
/// with the number of peers.
pub open spec fn spec_status_text(peer_count: nat) -> Seq<char> {
    " Online: "@ + (if peer_count > 0 {
        "CONNECTED"@
    } else {
        "SCANNING"@
    }) + "  |  Peers: "@ + decimal_string(peer_count) + "  |  BLE: --  |  Range: LAN"@
}

pub fn status_text(peer_count: usize) -> (r: String)
    ensures
        r@ == spec_status_text(peer_count as nat),
{
    let mut s = string_of(chars_of(" Online: ").as_slice());
    if peer_count > 0 {
        push_str(&mut s, "CONNECTED");
    } else {
        push_str(&mut s, "SCANNING");
    }
    push_str(&mut s, "  |  Peers: ");
    let d = decimal_chars(peer_count as u64);
    push_all(&mut s, d.as_slice());
    push_str(&mut s, "  |  BLE: --  |  Range: LAN");
    s
}

/// The compact status line of the narrow layout.
pub open spec fn spec_mobile_status_text(username: Seq<char>, peer_count: nat) -> Seq<char> {
    " user: "@ + username + "  |  peers: "@ + decimal_string(peer_count)
}

pub fn mobile_status_text(username: &str, peer_count: usize) -> (r: String)
    ensures
        r@ == spec_mobile_status_text(username@, peer_count as nat),
{
    let mut s = string_of(chars_of(" user: ").as_slice());
    push_str(&mut s, username);
    push_str(&mut s, "  |  peers: ");
    let d = decimal_chars(peer_count as u64);
    push_all(&mut s, d.as_slice());
    s
}

/// The input line: a `> ` prompt before the typed text.
pub open spec fn spec_input_line(input: Seq<char>) -> Seq<char> {
    "> "@ + input
}

pub fn input_line(input: &str) -> (r: String)
    ensures
        r@ == spec_input_line(input@),
{
    let mut s = string_of(chars_of("> ").as_slice());
    push_str(&mut s, input);
    s
}

/// Where the terminal cursor goes in the input panel `area`:
/// after the border and the prompt, `cursor` characters in (the cursor
/// index taken as a 16-bit column offset).
pub open spec fn spec_cursor_position(area: Rect, cursor: usize) -> (u16, u16) {
    ((area.x + 3 + (cursor as u16)) as u16, (area.y + 1) as u16)
}

pub fn cursor_position(area: Rect, cursor: usize) -> (r: (u16, u16))
    requires
        area.x + 3 + (cursor as u16) <= u16::MAX,
        area.y + 1 <= u16::MAX,
    ensures
        r == spec_cursor_position(area, cursor),
{
    (area.x + 3 + (cursor as u16), area.y + 1)
}

// ---------------------------------------------------------------------------
// The subnet scanner popup
// ---------------------------------------------------------------------------

/// The popup's place on a screen of size `area`:
/// two cells of padding on each side, at most 60 wide and 15 high,
/// centred.
pub open spec fn spec_popup_rect(area: Rect) -> Rect {
    let w: int = if area.width >= 4 {
        if area.width - 4 <= 60 {
            area.width - 4
        } else {
            60
        }
    } else {
        0
    };
    let h: int = if area.height >= 4 {
        if area.height - 4 <= 15 {
            area.height - 4
        } else {
            15
        }
    } else {
        0
    };
    Rect {
        x: ((area.width - w) / 2) as u16,
        y: ((area.height - h) / 2) as u16,
        width: w as u16,
        height: h as u16,
    }
}

pub fn popup_rect(area: Rect) -> (r: Rect)
    ensures
        r == spec_popup_rect(area),
{
    let w: u16 = if area.width >= 4 {
        if area.width - 4 <= 60 {
            area.width - 4
        } else {
            60
        }
    } else {
        0
    };
    let h: u16 = if area.height >= 4 {
        if area.height - 4 <= 15 {
            area.height - 4
        } else {
            15
        }
    } else {
        0
    };
    Rect { x: (area.width - w) / 2, y: (area.height - h) / 2, width: w, height: h }
}

/// The popup's last line: a scroll position when the peers do not all fit
/// (the popup shows its height less four of them), else the peer count.
pub open spec fn spec_scanner_footer(peer_count: nat, popup_height: u16, selected: nat) -> Seq<char> {
    let visible: nat = if popup_height >= 4 {
        (popup_height - 4) as nat
    } else {
        0
    };
    if peer_count > visible {
        " ["@ + decimal_string(selected + 1) + "/"@ + decimal_string(peer_count)
            + "] Up/Down to scroll "@
    } else {
        " "@ + decimal_string(peer_count) + " peer(s) found "@
    }
}

pub fn scanner_footer(peer_count: usize, popup_height: u16, selected: usize) -> (r: String)
    requires
        selected < u64::MAX,
    ensures
        r@ == spec_scanner_footer(peer_count as nat, popup_height, selected as nat),
{
    let visible: usize = if popup_height >= 4 {
        (popup_height - 4) as usize
    } else {
        0
    };
    if peer_count > visible {
        let mut s = string_of(chars_of(" [").as_slice());
        let a = decimal_chars(selected as u64 + 1);
        push_all(&mut s, a.as_slice());
        push_str(&mut s, "/");
        let b = decimal_chars(peer_count as u64);
        push_all(&mut s, b.as_slice());
        push_str(&mut s, "] Up/Down to scroll ");
        s
    } else {
        let mut s = string_of(chars_of(" ").as_slice());
        let b = decimal_chars(peer_count as u64);
        push_all(&mut s, b.as_slice());
        push_str(&mut s, " peer(s) found ");
        s
    }
}

/// A peer's line in the popup: name, address, and hostname when known.
pub open spec fn spec_scanner_item(p: PeerView) -> Seq<char> {
    " "@ + p.username + " - "@ + p.ip + match p.hostname {
        Some(h) => " ("@ + h + ")"@,
        None => Seq::empty(),
    }
}

pub fn scanner_item(peer: &Peer) -> (r: String)
    ensures
        r@ == spec_scanner_item(peer@),
{
    let mut s = string_of(chars_of(" ").as_slice());
    push_str(&mut s, peer.username.as_str());
    push_str(&mut s, " - ");
    push_str(&mut s, peer.ip.as_str());
    match &peer.hostname {
        Some(h) => {
            push_str(&mut s, " (");
            push_str(&mut s, h.as_str());
            push_str(&mut s, ")");
        },
        None => {},
    }
    assert(opt_view(peer.hostname) == peer@.hostname);
    s
}

} // verus!
