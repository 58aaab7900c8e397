//! The registry of discovered peers, kept in the order they were first seen.
//! Times are milliseconds of a monotonic clock.

use vstd::prelude::*;

verus! {

/// A discovered peer.
pub struct PeerView {
    pub username: Seq<char>,
    pub ip: Seq<char>,
    pub port: u16,
    pub hostname: Option<Seq<char>>,
    pub last_seen_ms: u64,
}

/// Represents a discovered peer on the network.
pub struct Peer {
    /// The peer's username
    pub username: String,
    /// The peer's IP address
    pub ip: String,
    /// The peer's UDP port for messaging
    pub port: u16,
    /// The device hostname if resolved
    pub hostname: Option<String>,
    /// When a packet from this peer was last received (milliseconds)
    pub last_seen_ms: u64,
}

pub open spec fn opt_view(o: Option<String>) -> Option<Seq<char>> {
    match o {
        Some(s) => Some(s@),
        None => None,
    }
}

impl View for Peer {
    type V = PeerView;

    open spec fn view(&self) -> PeerView {
        PeerView {
            username: self.username@,
            ip: self.ip@,
            port: self.port,
            hostname: opt_view(self.hostname),
            last_seen_ms: self.last_seen_ms,
        }
    }
}

impl Peer {
    /// The peer's chat socket address as text, `ip:port`.
    pub fn socket_target(&self) -> (r: String)
        ensures
            r@ == crate::addressing::spec_socket_target(self.ip@, self.port),
    {
        crate::addressing::socket_target(self.ip.as_str(), self.port)
    }

    /// A copy of this peer.
    pub fn duplicate(&self) -> (r: Peer)
        ensures
            r@ == self@,
    {
        let hostname = match &self.hostname {
            Some(h) => Some(h.clone()),
            None => None,
        };
        Peer {
            username: self.username.clone(),
            ip: self.ip.clone(),
            port: self.port,
            hostname,
            last_seen_ms: self.last_seen_ms,
        }
    }
}

/// The most peers discovery adds; past it, new names are ignored.
pub const MAX_PEERS: usize = 1000;

/// After 60 seconds without a packet a peer is dropped.
pub const PEER_TIMEOUT_MS: u64 = 60_000;

/// What recording a discovery packet did.
#[derive(Debug, PartialEq, Eq, Structural, Clone, Copy)]
pub enum DiscoveryUpdate {
    /// The name is new but the registry is full: nothing changed.
    Full,
    /// A known peer's address and time were refreshed.
    Refreshed,
    /// A new peer was added; its hostname may now be looked up.
    Added,
}

/// The usernames of a list of peers.
pub open spec fn usernames(s: Seq<PeerView>) -> Seq<Seq<char>> {
    Seq::new(s.len(), |i: int| s[i].username)
}

/// The position of the peer named `name`, if any.
pub open spec fn find(s: Seq<PeerView>, name: Seq<char>) -> Option<int> {
    if usernames(s).contains(name) {
        Some(choose|i: int| 0 <= i < s.len() && s[i].username == name)
    } else {
        None
    }
}

/// Whether a peer last seen at `last_seen_ms` counts as gone at `now_ms`
/// (a clock reading earlier counts as no time elapsed).
pub open spec fn is_stale(last_seen_ms: u64, now_ms: u64, timeout_ms: u64) -> bool {
    let elapsed: int = if now_ms >= last_seen_ms {
        now_ms - last_seen_ms
    } else {
        0
    };
    elapsed >= timeout_ms
}

/// The peers that are not stale, in order.
pub open spec fn keep_fresh(s: Seq<PeerView>, now_ms: u64, timeout_ms: u64) -> Seq<PeerView>
    decreases s.len(),
{
    if s.len() == 0 {
        s
    } else if is_stale(s.last().last_seen_ms, now_ms, timeout_ms) {
        keep_fresh(s.drop_last(), now_ms, timeout_ms)
    } else {
        keep_fresh(s.drop_last(), now_ms, timeout_ms).push(s.last())
    }
}

/// The registry after a discovery packet from `username` at `ip`:`port`,
/// and what changed: a known peer gets its address and time refreshed; a
/// new one is added with no hostname unless 1000 peers are already known.
pub open spec fn spec_record_discovery(
    s: Seq<PeerView>,
    username: Seq<char>,
    ip: Seq<char>,
    port: u16,
    now_ms: u64,
) -> (Seq<PeerView>, DiscoveryUpdate) {
    match find(s, username) {
        Some(i) => (
            s.update(i, PeerView { ip, port, last_seen_ms: now_ms, ..s[i] }),
            DiscoveryUpdate::Refreshed,
        ),
        None => if s.len() >= MAX_PEERS {
            (s, DiscoveryUpdate::Full)
        } else {
            (
                s.push(PeerView { username, ip, port, hostname: None, last_seen_ms: now_ms }),
                DiscoveryUpdate::Added,
            )
        },
    }
}

/// The registry after a completed key exchange with `username`, and
/// whether the peer is new: it is (re)registered at `ip`:`port` with no
/// hostname, in place when known, at the end otherwise.
pub open spec fn spec_record_handshake(
    s: Seq<PeerView>,
    username: Seq<char>,
    ip: Seq<char>,
    port: u16,
    now_ms: u64,
) -> (Seq<PeerView>, bool) {
    let p = PeerView { username, ip, port, hostname: None, last_seen_ms: now_ms };
    match find(s, username) {
        Some(i) => (s.update(i, p), false),
        None => (s.push(p), true),
    }
}

/// The registry after a packet from the known peer `username` at `now_ms`
/// (unchanged for an unknown name).
pub open spec fn spec_touch(s: Seq<PeerView>, username: Seq<char>, now_ms: u64) -> Seq<PeerView> {
    match find(s, username) {
        Some(i) => s.update(i, PeerView { last_seen_ms: now_ms, ..s[i] }),
        None => s,
    }
}

/// The registry of discovered peers.
pub struct PeerTable {
    peers: Vec<Peer>,
}

impl View for PeerTable {
    type V = Seq<PeerView>;

    closed spec fn view(&self) -> Seq<PeerView> {
        Seq::new(self.peers@.len(), |i: int| self.peers@[i]@)
    }
}

impl PeerTable {
    /// No two peers share a username.
    pub open spec fn wf(&self) -> bool {
        usernames(self@).no_duplicates()
    }

    pub fn new() -> (r: Self)
        ensures
            r@ == Seq::<PeerView>::empty(),
            r.wf(),
    {
        let r = PeerTable { peers: Vec::new() };
        assert(r@ =~= Seq::<PeerView>::empty());
        assert(usernames(r@) =~= Seq::<Seq<char>>::empty());
        r
    }

    pub fn len(&self) -> (r: usize)
        ensures
            r == self@.len(),
    {
        self.peers.len()
    }

    /// The peer at position `i`.
    pub fn get(&self, i: usize) -> (r: &Peer)
        requires
            i < self@.len(),
        ensures
            r@ == self@[i as int],
    {
        &self.peers[i]
    }

    /// The position of the peer named `username`.
    pub fn position(&self, username: &String) -> (r: Option<usize>)
        requires
            self.wf(),
        ensures
            r matches Some(i) ==> find(self@, username@) == Some(i as int),
            r is None ==> find(self@, username@) is None,
    {
        let mut i: usize = 0;
        while i < self.peers.len()
            invariant
                i <= self.peers@.len(),
                self.wf(),
                forall|j: int| 0 <= j < i ==> self@[j].username != username@,
            decreases self.peers@.len() - i,
        {
            if self.peers[i].username == *username {
                proof {
                    assert(usernames(self@)[i as int] == username@);
                    assert(usernames(self@).contains(username@));
                    let j = choose|j: int| 0 <= j < self@.len() && self@[j].username == username@;
                    assert(usernames(self@)[j] == username@);
                    if j != i {
                        assert(usernames(self@)[j] != usernames(self@)[i as int]);
                    }
                }
                return Some(i);
            }
            i = i + 1;
        }
        proof {
            if usernames(self@).contains(username@) {
                let j = choose|j: int| 0 <= j < usernames(self@).len() && usernames(self@)[j] == username@;
                assert(self@[j].username == username@);
            }
        }
        None
    }

    /// Copies of all peers, in order.
    pub fn snapshot(&self) -> (r: Vec<Peer>)
        ensures
            r@.len() == self@.len(),
            forall|i: int| 0 <= i < r@.len() ==> #[trigger] r@[i]@ == self@[i],
    {
        let mut out: Vec<Peer> = Vec::new();
        let mut i: usize = 0;
        while i < self.peers.len()
            invariant
                i <= self.peers@.len(),
                out@.len() == i,
                forall|j: int| 0 <= j < i ==> #[trigger] out@[j]@ == self@[j],
            decreases self.peers@.len() - i,
        {
            out.push(self.peers[i].duplicate());
            i = i + 1;
        }
        out
    }

    /// Records a discovery packet from `username` at `ip`:`port`. A known
    /// peer gets its address and time refreshed; a new one is added with no
    /// hostname unless 1000 peers are already known.
    pub fn record_discovery(&mut self, username: &String, ip: &String, port: u16, now_ms: u64) -> (r:
        DiscoveryUpdate)
        requires
            old(self).wf(),
        ensures
            final(self).wf(),
            (final(self)@, r) == spec_record_discovery(old(self)@, username@, ip@, port, now_ms),
    {
        let ghost before = self@;
        match self.position(username) {
            Some(i) => {
                let old_peer = self.peers[i].duplicate();
                let updated = Peer {
                    username: old_peer.username,
                    ip: ip.clone(),
                    port,
                    hostname: old_peer.hostname,
                    last_seen_ms: now_ms,
                };
                self.peers.set(i, updated);
                proof {
                    assert(self@ =~= before.update(
                        i as int,
                        PeerView { ip: ip@, port, last_seen_ms: now_ms, ..before[i as int] },
                    ));
                    assert(usernames(self@) =~= usernames(before));
                }
                DiscoveryUpdate::Refreshed
            },
            None => {
                if self.peers.len() >= MAX_PEERS {
                    return DiscoveryUpdate::Full;
                }
                let peer = Peer {
                    username: username.clone(),
                    ip: ip.clone(),
                    port,
                    hostname: None,
                    last_seen_ms: now_ms,
                };
                self.push_new(peer);
                DiscoveryUpdate::Added
            },
        }
    }

    /// Appends a peer whose name is not known yet.
    fn push_new(&mut self, peer: Peer)
        requires
            old(self).wf(),
            !usernames(old(self)@).contains(peer.username@),
        ensures
            final(self).wf(),
            final(self)@ == old(self)@.push(peer@),
    {
        let ghost before = self@;
        let ghost p = peer@;
        self.peers.push(peer);
        proof {
            assert(self@ =~= before.push(p));
            assert(usernames(self@) =~= usernames(before).push(p.username));
            assert(usernames(self@).no_duplicates()) by {
                assert forall|a: int, b: int|
                    0 <= a < b < usernames(self@).len() implies usernames(self@)[a] != usernames(
                    self@,
                )[b] by {
                    if b == before.len() {
                        assert(usernames(before)[a] == usernames(self@)[a]);
                        assert(usernames(before).contains(usernames(self@)[a]));
                    }
                }
            }
        }
    }

    /// Records a completed key exchange with `username`: the peer is
    /// (re)registered at `ip`:`port` with no hostname, whether or not it was
    /// known. Returns whether it is new (its hostname may now be looked up).
    pub fn record_handshake(&mut self, username: &String, ip: &String, port: u16, now_ms: u64) -> (r:
        bool)
        requires
            old(self).wf(),
        ensures
            final(self).wf(),
            (final(self)@, r) == spec_record_handshake(old(self)@, username@, ip@, port, now_ms),
    {
        let ghost before = self@;
        let peer = Peer {
            username: username.clone(),
            ip: ip.clone(),
            port,
            hostname: None,
            last_seen_ms: now_ms,
        };
        match self.position(username) {
            Some(i) => {
                let ghost p = peer@;
                self.peers.set(i, peer);
                proof {
                    assert(self@ =~= before.update(i as int, p));
                    assert(usernames(self@) =~= usernames(before));
                }
                false
            },
            None => {
                self.push_new(peer);
                true
            },
        }
    }

    /// Refreshes the time a known peer was last seen.
    pub fn touch(&mut self, username: &String, now_ms: u64)
        requires
            old(self).wf(),
        ensures
            final(self).wf(),
            final(self)@ == spec_touch(old(self)@, username@, now_ms),
    {
        let ghost before = self@;
        match self.position(username) {
            Some(i) => {
                let mut p = self.peers[i].duplicate();
                p.last_seen_ms = now_ms;
                self.peers.set(i, p);
                proof {
                    assert(self@ =~= before.update(
                        i as int,
                        PeerView { last_seen_ms: now_ms, ..before[i as int] },
                    ));
                    assert(usernames(self@) =~= usernames(before));
                }
            },
            None => {},
        }
    }

    /// Stores the resolved hostname of a known peer.
    pub fn set_hostname(&mut self, username: &String, hostname: String)
        requires
            old(self).wf(),
        ensures
            final(self).wf(),
            match find(old(self)@, username@) {
                Some(i) => final(self)@ == old(self)@.update(
                    i,
                    PeerView { hostname: Some(hostname@), ..old(self)@[i] },
                ),
                None => final(self)@ == old(self)@,
            },
    {
        let ghost before = self@;
        match self.position(username) {
            Some(i) => {
                let mut p = self.peers[i].duplicate();
                let ghost h = hostname@;
                p.hostname = Some(hostname);
                self.peers.set(i, p);
                proof {
                    assert(self@ =~= before.update(
                        i as int,
                        PeerView { hostname: Some(h), ..before[i as int] },
                    ));
                    assert(usernames(self@) =~= usernames(before));
                }
            },
            None => {},
        }
    }

    /// Drops every peer not seen for `timeout_ms` (a later clock reading
    /// than the last sighting by at least the timeout), keeping the order of
    /// the others.
    pub fn remove_stale(&mut self, now_ms: u64, timeout_ms: u64)
        requires
            old(self).wf(),
        ensures
            final(self).wf(),
            final(self)@ == keep_fresh(old(self)@, now_ms, timeout_ms),
    {
        let ghost before = self@;
        let mut kept: Vec<Peer> = Vec::new();
        let mut i: usize = 0;
        assert(before.take(0) =~= Seq::<PeerView>::empty());
        while i < self.peers.len()
            invariant
                i <= self.peers@.len(),
                self@ == before,
                Seq::new(kept@.len(), |j: int| kept@[j]@) == keep_fresh(
                    before.take(i as int),
                    now_ms,
                    timeout_ms,
                ),
            decreases self.peers@.len() - i,
        {
            let p = &self.peers[i];
            let ghost s = before.take(i + 1);
            assert(s.drop_last() =~= before.take(i as int));
            assert(s.last() == p@);
            let elapsed: u64 = if now_ms >= p.last_seen_ms {
                now_ms - p.last_seen_ms
            } else {
                0
            };
            if elapsed < timeout_ms {
                let ghost prev = Seq::new(kept@.len(), |j: int| kept@[j]@);
                kept.push(p.duplicate());
                assert(Seq::new(kept@.len(), |j: int| kept@[j]@) =~= prev.push(p@));
            }
            i = i + 1;
        }
        assert(before.take(before.len() as int) =~= before);
        self.peers = kept;
        proof {
            lemma_keep_fresh_subseq(before, now_ms, timeout_ms);
        }
    }
}

/// The fresh peers are a subsequence of all peers, so their usernames stay
/// distinct.
proof fn lemma_keep_fresh_subseq(s: Seq<PeerView>, now_ms: u64, timeout_ms: u64)
    requires
        usernames(s).no_duplicates(),
    ensures
        usernames(keep_fresh(s, now_ms, timeout_ms)).no_duplicates(),
        forall|x: Seq<char>|
            usernames(keep_fresh(s, now_ms, timeout_ms)).contains(x) ==> usernames(s).contains(x),
    decreases s.len(),
{
    if s.len() > 0 {
        let t = s.drop_last();
        assert(usernames(t) =~= usernames(s).drop_last());
        assert(usernames(t).no_duplicates()) by {
            assert forall|a: int, b: int|
                0 <= a < b < usernames(t).len() implies usernames(t)[a] != usernames(t)[b] by {
                assert(usernames(s)[a] == usernames(t)[a]);
                assert(usernames(s)[b] == usernames(t)[b]);
            }
        }
        lemma_keep_fresh_subseq(t, now_ms, timeout_ms);
        let k = keep_fresh(t, now_ms, timeout_ms);
        assert forall|x: Seq<char>| usernames(k).contains(x) implies usernames(s).contains(x) by {
            assert(usernames(t).contains(x));
            let j = choose|j: int| 0 <= j < usernames(t).len() && usernames(t)[j] == x;
            assert(usernames(s)[j] == x);
        }
        if !is_stale(s.last().last_seen_ms, now_ms, timeout_ms) {
            let k2 = k.push(s.last());
            assert(usernames(k2) =~= usernames(k).push(s.last().username));
            assert(!usernames(t).contains(s.last().username)) by {
                if usernames(t).contains(s.last().username) {
                    let j = choose|j: int|
                        0 <= j < usernames(t).len() && usernames(t)[j] == s.last().username;
                    assert(usernames(s)[j] == usernames(s)[s.len() - 1]);
                }
            }
            assert(usernames(k2).no_duplicates()) by {
                assert forall|a: int, b: int|
                    0 <= a < b < usernames(k2).len() implies usernames(k2)[a] != usernames(
                    k2,
                )[b] by {
                    if b == k.len() {
                        assert(usernames(k)[a] == usernames(k2)[a]);
                        assert(usernames(k).contains(usernames(k2)[a]));
                    } else {
                        assert(usernames(k)[a] == usernames(k2)[a]);
                        assert(usernames(k)[b] == usernames(k2)[b]);
                    }
                }
            }
            assert forall|x: Seq<char>| usernames(k2).contains(x) implies usernames(s).contains(x) by {
                let j = choose|j: int| 0 <= j < usernames(k2).len() && usernames(k2)[j] == x;
                if j < k.len() {
                    assert(usernames(k)[j] == x);
                } else {
                    assert(usernames(s)[s.len() - 1] == x);
                }
            }
        }
    }
}

/// Discovery never grows the registry past 1000 peers.
pub proof fn lemma_discovery_bounded(
    before: Seq<PeerView>,
    after: Seq<PeerView>,
    username: Seq<char>,
    ip: Seq<char>,
    port: u16,
    now_ms: u64,
)
    requires
        before.len() <= MAX_PEERS,
        match find(before, username) {
            Some(i) => after == before.update(
                i,
                PeerView { ip, port, last_seen_ms: now_ms, ..before[i] },
            ),
            None => if before.len() >= MAX_PEERS {
                after == before
            } else {
                after == before.push(
                    PeerView { username, ip, port, hostname: None, last_seen_ms: now_ms },
                )
            },
        },
    ensures
        after.len() <= MAX_PEERS,
{
}

/// After dropping stale peers, every peer left was seen within the timeout
/// and every peer seen within the timeout is still there.
pub proof fn lemma_remove_stale_exact(s: Seq<PeerView>, now_ms: u64, timeout_ms: u64)
    ensures
        forall|i: int|
            0 <= i < keep_fresh(s, now_ms, timeout_ms).len() ==> !is_stale(
                #[trigger] keep_fresh(s, now_ms, timeout_ms)[i].last_seen_ms,
                now_ms,
                timeout_ms,
            ),
        forall|i: int|
            0 <= i < s.len() && !is_stale(s[i].last_seen_ms, now_ms, timeout_ms) ==> keep_fresh(
                s,
                now_ms,
                timeout_ms,
            ).contains(#[trigger] s[i]),
    decreases s.len(),
{
    if s.len() > 0 {
        let t = s.drop_last();
        lemma_remove_stale_exact(t, now_ms, timeout_ms);
        let k = keep_fresh(t, now_ms, timeout_ms);
        if !is_stale(s.last().last_seen_ms, now_ms, timeout_ms) {
            let k2 = k.push(s.last());
            assert forall|i: int| 0 <= i < k2.len() implies !is_stale(
                #[trigger] k2[i].last_seen_ms,
                now_ms,
                timeout_ms,
            ) by {
                if i < k.len() {
                    assert(k2[i] == k[i]);
                }
            }
            assert forall|i: int|
                0 <= i < s.len() && !is_stale(s[i].last_seen_ms, now_ms, timeout_ms) implies k2.contains(
                #[trigger] s[i],
            ) by {
                if i < t.len() {
                    assert(t[i] == s[i]);
                    assert(k.contains(s[i]));
                    let j = choose|j: int| 0 <= j < k.len() && k[j] == s[i];
                    assert(k2[j] == s[i]);
                } else {
                    assert(k2[k.len() as int] == s[i]);
                }
            }
        } else {
            assert forall|i: int|
                0 <= i < s.len() && !is_stale(s[i].last_seen_ms, now_ms, timeout_ms) implies k.contains(
                #[trigger] s[i],
            ) by {
                if i < t.len() {
                    assert(t[i] == s[i]);
                }
            }
        }
    }
}

proof fn lemma_keep_fresh_from(s: Seq<PeerView>, now_ms: u64, timeout_ms: u64)
    ensures
        forall|j: int|
            0 <= j < keep_fresh(s, now_ms, timeout_ms).len() ==> s.contains(
                #[trigger] keep_fresh(s, now_ms, timeout_ms)[j],
            ),
        keep_fresh(s, now_ms, timeout_ms).len() <= s.len(),
    decreases s.len(),
{
    if s.len() > 0 {
        let t = s.drop_last();
        lemma_keep_fresh_from(t, now_ms, timeout_ms);
        let k = keep_fresh(t, now_ms, timeout_ms);
        assert forall|j: int| 0 <= j < keep_fresh(s, now_ms, timeout_ms).len() implies s.contains(
            #[trigger] keep_fresh(s, now_ms, timeout_ms)[j],
        ) by {
            let x = keep_fresh(s, now_ms, timeout_ms)[j];
            if j < k.len() {
                assert(x == k[j]);
                let a = choose|a: int| 0 <= a < t.len() && t[a] == x;
                assert(s[a] == x);
            } else {
                assert(x == s.last());
                assert(s[s.len() - 1] == x);
            }
        }
    }
}

/// Removing stale peers at `now_ms` keeps exactly the peers heard from
/// less than `timeout_ms` before (a clock reading earlier than the last
/// sighting counts as no time elapsed), and adds none.
pub proof fn lemma_remove_stale_by_age(s: Seq<PeerView>, now_ms: u64, timeout_ms: u64)
    ensures
        forall|i: int|
            0 <= i < s.len() ==> (keep_fresh(s, now_ms, timeout_ms).contains(#[trigger] s[i]) <==> (
            if now_ms >= s[i].last_seen_ms {
                now_ms - s[i].last_seen_ms
            } else {
                0
            }) < timeout_ms),
        forall|j: int|
            0 <= j < keep_fresh(s, now_ms, timeout_ms).len() ==> s.contains(
                #[trigger] keep_fresh(s, now_ms, timeout_ms)[j],
            ),
        keep_fresh(s, now_ms, timeout_ms).len() <= s.len(),
{
    lemma_remove_stale_exact(s, now_ms, timeout_ms);
    lemma_keep_fresh_from(s, now_ms, timeout_ms);
    let k = keep_fresh(s, now_ms, timeout_ms);
    assert forall|i: int| 0 <= i < s.len() implies (k.contains(#[trigger] s[i]) <==> (if now_ms
        >= s[i].last_seen_ms {
        now_ms - s[i].last_seen_ms
    } else {
        0
    }) < timeout_ms) by {
        if k.contains(s[i]) {
            let j = choose|j: int| 0 <= j < k.len() && k[j] == s[i];
            assert(!is_stale(k[j].last_seen_ms, now_ms, timeout_ms));
        } else {
            if !is_stale(s[i].last_seen_ms, now_ms, timeout_ms) {
                assert(k.contains(s[i]));
            }
            assert(is_stale(s[i].last_seen_ms, now_ms, timeout_ms));
        }
    }
}

} // verus!
