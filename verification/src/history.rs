//! The conversations: the messages exchanged with each peer, by username,
//! each keeping only its latest 1000 messages.

use vstd::prelude::*;
use crate::caches::{push_capped, spec_push_capped, HISTORY_CAP};
use crate::messages::{ChatMessage, MessageView};
use crate::names::NameMap;

verus! {

/// The views of a list of messages.
pub open spec fn message_views(l: Seq<ChatMessage>) -> Seq<MessageView> {
    l.map_values(|m: ChatMessage| m@)
}

/// The messages of the conversation with `name`; none when there is no
/// such conversation yet.
pub open spec fn conversation(h: Map<Seq<char>, Seq<MessageView>>, name: Seq<char>) -> Seq<
    MessageView,
> {
    if h.contains_key(name) {
        h[name]
    } else {
        Seq::empty()
    }
}

/// The conversations after `m` is appended to the one with `name`.
pub open spec fn spec_record(
    h: Map<Seq<char>, Seq<MessageView>>,
    name: Seq<char>,
    m: MessageView,
) -> Map<Seq<char>, Seq<MessageView>> {
    h.insert(name, spec_push_capped(conversation(h, name), m, HISTORY_CAP as nat))
}

/// The chat history, by peer username.
pub struct ChatHistory {
    lists: NameMap<Vec<ChatMessage>>,
}

impl View for ChatHistory {
    type V = Map<Seq<char>, Seq<MessageView>>;

    closed spec fn view(&self) -> Map<Seq<char>, Seq<MessageView>> {
        self.lists.as_map().map_values(|l: Vec<ChatMessage>| message_views(l@))
    }
}

/// Each conversation keeps its latest 1000 messages: recording a message
/// makes it the conversation's last one and lets no conversation grow past
/// 1000.
pub proof fn lemma_record_bounded(
    h: Map<Seq<char>, Seq<MessageView>>,
    name: Seq<char>,
    m: MessageView,
)
    requires
        forall|n: Seq<char>| #[trigger] h.contains_key(n) ==> h[n].len() <= HISTORY_CAP,
    ensures
        forall|n: Seq<char>| #[trigger]
            spec_record(h, name, m).contains_key(n) ==> spec_record(h, name, m)[n].len()
                <= HISTORY_CAP,
        spec_record(h, name, m)[name].last() == m,
{
}

/// Recording `m` for `name` makes `m` the last message of that
/// conversation, right after the message that was last before (if any); the
/// conversation grows by one until it holds 1000 messages, then keeps its
/// length; no other conversation changes.
pub proof fn lemma_record_appends(h: Map<Seq<char>, Seq<MessageView>>, name: Seq<char>, m: MessageView)
    ensures
        ({
            let before = conversation(h, name);
            let after = conversation(spec_record(h, name, m), name);
            &&& after.len() >= 1
            &&& after.last() == m
            &&& before.len() >= 1 ==> after.len() >= 2 && after[after.len() - 2] == before.last()
            &&& after.len() == (if before.len() >= HISTORY_CAP {
                before.len()
            } else {
                before.len() + 1
            })
            &&& forall|n: Seq<char>|
                n != name ==> #[trigger] conversation(spec_record(h, name, m), n) == conversation(h, n)
        }),
{
}

proof fn lemma_views_push_capped(l: Seq<ChatMessage>, m: ChatMessage, cap: nat)
    ensures
        message_views(spec_push_capped(l, m, cap)) == spec_push_capped(message_views(l), m@, cap),
{
    assert(message_views(l.push(m)) =~= message_views(l).push(m@));
    if l.len() + 1 > cap {
        assert(message_views(l.push(m).drop_first()) =~= message_views(l).push(m@).drop_first());
    }
}

impl ChatHistory {
    /// Names occur once, and no conversation holds more than 1000
    /// messages.
    pub closed spec fn wf(&self) -> bool {
        &&& self.lists.wf()
        &&& forall|n: Seq<char>| #[trigger] self@.contains_key(n) ==> self@[n].len() <= HISTORY_CAP
    }

    /// No conversation holds more than 1000 messages.
    pub proof fn lemma_bounded(&self)
        requires
            self.wf(),
        ensures
            forall|n: Seq<char>| #[trigger] self@.contains_key(n) ==> self@[n].len() <= HISTORY_CAP,
    {
    }

    pub fn new() -> (r: Self)
        ensures
            r.wf(),
            r@ == Map::<Seq<char>, Seq<MessageView>>::empty(),
    {
        let r = ChatHistory { lists: NameMap::new() };
        assert(r@ =~= Map::<Seq<char>, Seq<MessageView>>::empty());
        r
    }

    /// Appends a message to the conversation with `name`, which is started
    /// when there is none; the oldest message leaves past 1000.
    pub fn record(&mut self, name: &String, msg: ChatMessage)
        requires
            old(self).wf(),
        ensures
            final(self).wf(),
            final(self)@ == spec_record(old(self)@, name@, msg@),
    {
        let ghost before = self@;
        let ghost m = msg;
        proof {
            lemma_record_bounded(before, name@, m@);
        }
        match self.lists.position(name) {
            Some(i) => {
                let mut l = self.lists.swap_value(i, Vec::new());
                let ghost taken = l@;
                push_capped(&mut l, msg, HISTORY_CAP);
                let ghost pushed = l@;
                self.lists.swap_value(i, l);
                proof {
                    lemma_views_push_capped(taken, m, HISTORY_CAP as nat);
                    assert(conversation(before, name@) == message_views(taken));
                    assert(self@ =~= spec_record(before, name@, m@));
                }
            },
            None => {
                let mut l = Vec::new();
                l.push(msg);
                let ghost one = l@;
                self.lists.insert(name.clone(), l);
                proof {
                    assert(message_views(one) =~= seq![m@]);
                    assert(spec_push_capped(Seq::<MessageView>::empty(), m@, HISTORY_CAP as nat)
                        =~= seq![m@]);
                    assert(self@ =~= spec_record(before, name@, m@));
                }
            },
        }
    }

    /// A copy of the conversation with `name`.
    pub fn conversation(&self, name: &String) -> (r: Vec<ChatMessage>)
        requires
            self.wf(),
        ensures
            message_views(r@) == conversation(self@, name@),
    {
        match self.lists.get(name) {
            Some(l) => {
                let mut out: Vec<ChatMessage> = Vec::new();
                let mut i: usize = 0;
                while i < l.len()
                    invariant
                        i <= l@.len(),
                        message_views(out@) == message_views(l@.take(i as int)),
                    decreases l@.len() - i,
                {
                    let m = l[i].duplicate();
                    out.push(m);
                    proof {
                        assert(message_views(l@.take(i + 1)) =~= message_views(l@.take(i as int)).push(
                            l@[i as int]@,
                        ));
                        assert(message_views(out@) =~= message_views(l@.take(i as int)).push(
                            l@[i as int]@,
                        ));
                    }
                    i = i + 1;
                }
                assert(l@.take(l@.len() as int) =~= l@);
                out
            },
            None => Vec::new(),
        }
    }
}

} // verus!
