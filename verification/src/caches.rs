//! The bounded caches of the message listener: per-address maps that evict
//! their oldest address when full, the set of recently delivered message
//! ids, and per-peer message lists that keep only the latest messages.
//!
//! Source addresses are keyed by a 128-bit integer: IPv4 addresses by their
//! IPv4-mapped IPv6 form.

use vstd::prelude::*;
use std::collections::{HashMap, HashSet, VecDeque};
use crate::rate_limit::{bucket_wf, spec_new_bucket, spec_try_consume, TokenBucket};

verus! {

broadcast use vstd::std_specs::hash::group_hash_axioms;

/// Capacity of the per-address rate limiter.
pub const RATE_LIMIT_CAP: usize = 4096;

/// Capacity of the address-to-username routing cache.
pub const IP_CACHE_CAP: usize = 1024;

/// Capacity of the delivered-message-id cache.
pub const DEDUP_CAP: usize = 500;

/// Number of messages kept per conversation.
pub const HISTORY_CAP: usize = 1000;

/// The entries and insertion order after inserting `k -> v` into a map that
/// keeps at most `cap` keys: a known key only changes its value; a new key
/// goes to the back of the order, and when the map is full the oldest key
/// leaves first.
pub open spec fn spec_fifo_insert<V>(
    entries: Map<u128, V>,
    order: Seq<u128>,
    cap: nat,
    k: u128,
    v: V,
) -> (Map<u128, V>, Seq<u128>) {
    if entries.contains_key(k) {
        (entries.insert(k, v), order)
    } else if order.len() >= cap {
        (entries.remove(order[0]).insert(k, v), order.drop_first().push(k))
    } else {
        (entries.insert(k, v), order.push(k))
    }
}

/// The insertion order after inserting `k` (see `spec_fifo_insert`).
pub open spec fn spec_fifo_order(order: Seq<u128>, cap: nat, k: u128) -> Seq<u128> {
    if order.contains(k) {
        order
    } else if order.len() >= cap {
        order.drop_first().push(k)
    } else {
        order.push(k)
    }
}

proof fn lemma_push_to_set(s: Seq<u128>, k: u128)
    ensures
        s.push(k).to_set() == s.to_set().insert(k),
{
    assert forall|x: u128| #[trigger] s.push(k).contains(x) <==> s.contains(x) || x == k by {
        if s.push(k).contains(x) && x != k {
            let i = choose|i: int| 0 <= i < s.push(k).len() && s.push(k)[i] == x;
            assert(s[i] == x);
        }
        if s.contains(x) {
            let i = choose|i: int| 0 <= i < s.len() && s[i] == x;
            assert(s.push(k)[i] == x);
        }
        if x == k {
            assert(s.push(k)[s.len() as int] == x);
        }
    }
    assert(s.push(k).to_set() =~= s.to_set().insert(k));
}

/// A map from addresses that keeps at most `cap` of them, evicting the one
/// inserted longest ago.
pub struct FifoMap<V> {
    map: HashMap<u128, V>,
    order: VecDeque<u128>,
    cap: usize,
}

impl<V> FifoMap<V> {
    /// The addresses are the keys, each once, and there are no more of them
    /// than the capacity.
    pub closed spec fn wf(&self) -> bool {
        &&& self.map@.dom() == self.order@.to_set()
        &&& self.order@.no_duplicates()
        &&& self.order@.len() <= self.cap
        &&& self.cap > 0
    }

    /// The address-to-value entries.
    pub closed spec fn entries(&self) -> Map<u128, V> {
        self.map@
    }

    /// The addresses, oldest first.
    pub closed spec fn order(&self) -> Seq<u128> {
        self.order@
    }

    /// The most addresses kept.
    pub closed spec fn capacity(&self) -> nat {
        self.cap as nat
    }


    /// An empty map keeping at most `cap` addresses.
    pub fn new(cap: usize) -> (r: Self)
        requires
            cap > 0,
        ensures
            r.entries() == Map::<u128, V>::empty(),
            r.order() == Seq::<u128>::empty(),
            r.capacity() == cap,
            r.wf(),
    {
        let r = FifoMap { map: HashMap::new(), order: VecDeque::new(), cap };
        assert(r.order@.to_set() =~= Set::<u128>::empty());
        assert(r.map@.dom() =~= Set::<u128>::empty());
        r
    }

    pub fn contains(&self, k: u128) -> (r: bool)
        ensures
            r == self.entries().contains_key(k),
    {
        self.map.contains_key(&k)
    }

    pub fn get(&self, k: u128) -> (r: Option<&V>)
        ensures
            r matches Some(v) ==> self.entries().contains_key(k) && *v == self.entries()[k],
            r is None ==> !self.entries().contains_key(k),
    {
        self.map.get(&k)
    }

    pub fn len(&self) -> (r: usize)
        ensures
            r == self.order().len(),
    {
        self.order.len()
    }

    /// The addresses are the keys, each once, and there are no more of them
    /// than the capacity.
    pub proof fn lemma_bounded(&self)
        requires
            self.wf(),
        ensures
            self.entries().dom() == self.order().to_set(),
            self.order().no_duplicates(),
            self.order().len() <= self.capacity(),
    {
    }

    /// Inserts `k -> v`; when `k` is new and the map is full, the oldest
    /// address is evicted first.
    pub fn insert(&mut self, k: u128, v: V)
        requires
            old(self).wf(),
        ensures
            final(self).wf(),
            (final(self).entries(), final(self).order()) == spec_fifo_insert(
                old(self).entries(),
                old(self).order(),
                old(self).capacity(),
                k,
                v,
            ),
            final(self).capacity() == old(self).capacity(),
            final(self).order() == spec_fifo_order(old(self).order(), old(self).capacity(), k),
            final(self).order().len() <= final(self).capacity(),
            final(self).entries().dom() == final(self).order().to_set(),
    {
        let ghost old_order = self.order@;
        let ghost old_map = self.map@;
        if !self.map.contains_key(&k) {
            assert(!old_order.contains(k));
            if self.order.len() >= self.cap {
                let evicted = self.order.pop_front();
                match evicted {
                    Some(e) => {
                        self.map.remove(&e);
                    },
                    None => {},
                }
            }
            self.order.push_back(k);
        }
        self.map.insert(k, v);
        proof {
            if !old_map.contains_key(k) {
                if old_order.len() >= self.cap {
                    let rest = old_order.drop_first();
                    assert(old_order.to_set().remove(old_order[0]) =~= rest.to_set()) by {
                        assert forall|x: u128| #[trigger] rest.contains(x) implies old_order.contains(
                            x,
                        ) && x != old_order[0] by {
                            let i = choose|i: int| 0 <= i < rest.len() && rest[i] == x;
                            assert(old_order[i + 1] == x);
                        }
                        assert forall|x: u128|
                            old_order.contains(x) && x != old_order[0] implies #[trigger] rest.contains(
                            x,
                        ) by {
                            let i = choose|i: int| 0 <= i < old_order.len() && old_order[i] == x;
                            assert(i != 0);
                            assert(rest[i - 1] == x);
                        }
                    }
                    assert(self.order@ =~= rest.push(k));
                    assert(self.map@.dom() =~= self.order@.to_set()) by {
                        lemma_push_to_set(rest, k);
                    }
                    assert(self.order@.no_duplicates()) by {
                        assert forall|i: int, j: int|
                            0 <= i < j < self.order@.len() implies self.order@[i] != self.order@[j] by {
                            if j == self.order@.len() - 1 {
                                assert(old_order.contains(self.order@[i])) by {
                                    assert(old_order[i + 1] == self.order@[i]);
                                }
                            } else {
                                assert(old_order[i + 1] == self.order@[i]);
                                assert(old_order[j + 1] == self.order@[j]);
                            }
                        }
                    }
                } else {
                    assert(self.order@ =~= old_order.push(k));
                    assert(self.map@.dom() =~= self.order@.to_set()) by {
                        lemma_push_to_set(old_order, k);
                    }
                    assert(self.order@.no_duplicates()) by {
                        assert forall|i: int, j: int|
                            0 <= i < j < self.order@.len() implies self.order@[i] != self.order@[j] by {
                            if j == self.order@.len() - 1 {
                                assert(old_order.contains(self.order@[i])) by {
                                    assert(old_order[i] == self.order@[i]);
                                }
                            }
                        }
                    }
                }
            } else {
                assert(self.map@.dom() =~= old_map.dom());
            }
        }
    }

    /// Replaces the value of a known address, keeping the order.
    pub fn update(&mut self, k: u128, v: V)
        requires
            old(self).wf(),
            old(self).entries().contains_key(k),
        ensures
            final(self).wf(),
            final(self).entries() == old(self).entries().insert(k, v),
            final(self).order() == old(self).order(),
            final(self).capacity() == old(self).capacity(),
    {
        self.map.insert(k, v);
        assert(self.map@.dom() =~= self.order@.to_set());
    }
}

proof fn lemma_fifo_insert_buckets(
    entries: Map<u128, TokenBucket>,
    order: Seq<u128>,
    cap: nat,
    k: u128,
    v: TokenBucket,
)
    ensures
        spec_fifo_insert(entries.map_values(|b: TokenBucket| b@), order, cap, k, v@).0
            == spec_fifo_insert(entries, order, cap, k, v).0.map_values(|b: TokenBucket| b@),
{
    let views = entries.map_values(|b: TokenBucket| b@);
    if entries.contains_key(k) {
        assert(views.insert(k, v@) =~= entries.insert(k, v).map_values(|b: TokenBucket| b@));
    } else if order.len() >= cap {
        assert(views.remove(order[0]).insert(k, v@) =~= entries.remove(order[0]).insert(
            k,
            v,
        ).map_values(|b: TokenBucket| b@));
    } else {
        assert(views.insert(k, v@) =~= entries.insert(k, v).map_values(|b: TokenBucket| b@));
    }
}

/// The per-address rate limiter of the message listener: each source
/// address gets a token bucket of 200 tokens refilling 100 tokens per
/// second; at most 4096 addresses are tracked, the oldest forgotten first.
pub struct RateLimiter {
    buckets: FifoMap<TokenBucket>,
}

/// Tokens in a new address's bucket.
pub const RATE_LIMIT_BURST: u64 = 200;

/// Tokens added per second to an address's bucket.
pub const RATE_LIMIT_REFILL: u64 = 100;

impl RateLimiter {
    /// The address map is well formed and every bucket is.
    pub closed spec fn wf(&self) -> bool {
        &&& self.buckets.wf()
        &&& self.buckets.capacity() == RATE_LIMIT_CAP
        &&& forall|k: u128| #[trigger]
            self.buckets.entries().contains_key(k) ==> bucket_wf(self.buckets.entries()[k]@)
    }

    /// The tracked addresses, oldest first.
    pub closed spec fn order(&self) -> Seq<u128> {
        self.buckets.order()
    }

    /// The bucket state of each tracked address.
    pub closed spec fn buckets(&self) -> Map<u128, crate::rate_limit::BucketState> {
        self.buckets.entries().map_values(|b: TokenBucket| b@)
    }

    /// The bucket an address is judged by at `now_us`: its own, or a fresh
    /// full one for an address not tracked.
    pub open spec fn bucket_at(&self, ip: u128, now_us: u64) -> crate::rate_limit::BucketState {
        if self.buckets().contains_key(ip) {
            self.buckets()[ip]
        } else {
            spec_new_bucket(RATE_LIMIT_BURST, RATE_LIMIT_REFILL, now_us)
        }
    }

    pub fn new() -> (r: Self)
        ensures
            r.order() == Seq::<u128>::empty(),
            r.buckets() == Map::<u128, crate::rate_limit::BucketState>::empty(),
            r.wf(),
    {
        let r = RateLimiter { buckets: FifoMap::new(RATE_LIMIT_CAP) };
        assert(r.buckets.entries().map_values(|b: TokenBucket| b@) =~= Map::<
            u128,
            crate::rate_limit::BucketState,
        >::empty());
        r
    }

    /// Whether a packet from `ip` arriving at `now_us` may pass: the
    /// address's bucket (a fresh one for a new address, which may evict the
    /// oldest tracked address) gives up a token.
    pub fn allow(&mut self, ip: u128, now_us: u64) -> (r: bool)
        requires
            old(self).wf(),
        ensures
            final(self).wf(),
            (final(self).buckets()[ip], r) == spec_try_consume(
                old(self).bucket_at(ip, now_us),
                now_us as nat,
            ),
            final(self).buckets() == spec_fifo_insert(
                old(self).buckets(),
                old(self).order(),
                RATE_LIMIT_CAP as nat,
                ip,
                old(self).bucket_at(ip, now_us),
            ).0.insert(ip, spec_try_consume(old(self).bucket_at(ip, now_us), now_us as nat).0),
            final(self).buckets().contains_key(ip),
            final(self).order() == spec_fifo_order(old(self).order(), RATE_LIMIT_CAP as nat, ip),
            final(self).order().len() <= RATE_LIMIT_CAP,
    {
        let ghost entries0 = self.buckets.entries();
        let ghost order0 = self.buckets.order();
        if !self.buckets.contains(ip) {
            let fresh = TokenBucket::new(RATE_LIMIT_BURST, RATE_LIMIT_REFILL, now_us);
            self.buckets.insert(ip, fresh);
            proof {
                lemma_fifo_insert_buckets(entries0, order0, RATE_LIMIT_CAP as nat, ip, fresh);
            }
        } else {
            assert(entries0.map_values(|b: TokenBucket| b@).insert(ip, entries0[ip]@) =~= entries0.map_values(
                |b: TokenBucket| b@,
            ));
        }
        let ghost entries1 = self.buckets.entries();
        let mut bucket = *self.buckets.get(ip).unwrap();
        let ok = bucket.try_consume(now_us);
        self.buckets.update(ip, bucket);
        proof {
            assert(self.buckets.entries().map_values(|b: TokenBucket| b@) =~= entries1.map_values(
                |b: TokenBucket| b@,
            ).insert(ip, bucket@));
        }
        ok
    }
}

/// Rate limiting is per address: a packet from `ip` leaves the bucket of
/// every other address that is still tracked afterwards as it was.
pub proof fn lemma_limiter_isolated(
    buckets: Map<u128, crate::rate_limit::BucketState>,
    order: Seq<u128>,
    ip: u128,
    fresh: crate::rate_limit::BucketState,
    consumed: crate::rate_limit::BucketState,
    other: u128,
)
    requires
        other != ip,
        buckets.contains_key(other),
    ensures
        ({
            let after = spec_fifo_insert(buckets, order, RATE_LIMIT_CAP as nat, ip, fresh).0.insert(
                ip,
                consumed,
            );
            after.contains_key(other) ==> after[other] == buckets[other]
        }),
{
}

/// The ids of recently delivered messages, so that a retransmitted message
/// is shown once. When 500 ids are held, the set is emptied before the next
/// one is added.
pub struct DedupCache {
    ids: HashSet<u64>,
}

impl DedupCache {
    /// At most 500 ids are held.
    pub closed spec fn wf(&self) -> bool {
        self.ids@.finite() && self.ids@.len() <= DEDUP_CAP
    }

    pub closed spec fn ids(&self) -> Set<u64> {
        self.ids@
    }

    /// At most 500 ids are held.
    pub proof fn lemma_bounded(&self)
        requires
            self.wf(),
        ensures
            self.ids().finite(),
            self.ids().len() <= DEDUP_CAP,
    {
    }

    pub fn new() -> (r: Self)
        ensures
            r.ids() == Set::<u64>::empty(),
            r.wf(),
    {
        DedupCache { ids: HashSet::new() }
    }

    /// Records a delivered message id: `true` when it was not known (the
    /// message is new and must be shown), `false` for a duplicate.
    pub fn check_and_insert(&mut self, id: u64) -> (r: bool)
        requires
            old(self).wf(),
        ensures
            final(self).wf(),
            r == !old(self).ids().contains(id),
            r ==> final(self).ids() == (if old(self).ids().len() >= DEDUP_CAP {
                Set::<u64>::empty().insert(id)
            } else {
                old(self).ids().insert(id)
            }),
            !r ==> final(self).ids() == old(self).ids(),
            final(self).ids().contains(id),
            final(self).ids().len() <= DEDUP_CAP,
    {
        if self.ids.contains(&id) {
            return false;
        }
        if self.ids.len() >= DEDUP_CAP {
            self.ids.clear();
        }
        self.ids.insert(id);
        proof {
            assert(Set::<u64>::empty().insert(id).len() == 1) by {
                assert(Set::<u64>::empty().insert(id) =~= set![id]);
            }
        }
        true
    }
}

/// The list after appending `item` and dropping the oldest entry when the
/// list would exceed `cap`.
pub open spec fn spec_push_capped<T>(list: Seq<T>, item: T, cap: nat) -> Seq<T> {
    if list.len() + 1 > cap {
        list.push(item).drop_first()
    } else {
        list.push(item)
    }
}

/// Appends `item`, removing the oldest entry when the list grows beyond
/// `cap` (each conversation keeps its latest 1000 messages).
pub fn push_capped<T>(list: &mut Vec<T>, item: T, cap: usize)
    ensures
        final(list)@ == spec_push_capped(old(list)@, item, cap as nat),
{
    list.push(item);
    if list.len() > cap {
        let ghost pushed = list@;
        list.remove(0);
        assert(list@ =~= pushed.drop_first());
    }
}

} // verus!
