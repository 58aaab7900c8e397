//! Integer token bucket used to rate-limit incoming packets per source
//! address. Tokens are counted in millitokens (×1000) so that a fraction of a
//! token can accumulate without floating point; time is counted in
//! microseconds of a monotonic clock.

use vstd::prelude::*;

verus! {

/// The state of a token bucket.
pub struct BucketState {
    /// Current tokens × 1000.
    pub tokens_milli: nat,
    /// Maximum tokens × 1000.
    pub capacity_milli: nat,
    /// Millitokens added per second.
    pub refill_milli_per_sec: nat,
    /// Time of the last update, in microseconds.
    pub last_update_us: nat,
}

pub open spec fn saturate(x: int) -> nat {
    if x > u64::MAX {
        u64::MAX as nat
    } else if x < 0 {
        0
    } else {
        x as nat
    }
}

/// A full bucket of `max_tokens` tokens that refills `refill_per_second`
/// tokens per second (at least one millitoken per second).
pub open spec fn spec_new_bucket(max_tokens: u64, refill_per_second: u64, now_us: u64) -> BucketState {
    BucketState {
        tokens_milli: (max_tokens * 1000) as nat,
        capacity_milli: (max_tokens * 1000) as nat,
        refill_milli_per_sec: if refill_per_second * 1000 >= 1 {
            (refill_per_second * 1000) as nat
        } else {
            1
        },
        last_update_us: now_us as nat,
    }
}

/// The time since the last update; none when the clock reads earlier.
pub open spec fn elapsed_us(b: BucketState, now_us: nat) -> nat {
    if now_us >= b.last_update_us {
        (now_us - b.last_update_us) as nat
    } else {
        0
    }
}

/// The tokens after refilling up to `now_us`: the elapsed time times the
/// refill rate (saturating at `u64::MAX`), in whole millitokens, added to the
/// current tokens (saturating) and capped at the capacity.
pub open spec fn spec_refilled(b: BucketState, now_us: nat) -> nat {
    let added = saturate((elapsed_us(b, now_us) * b.refill_milli_per_sec) as int) / 1_000_000;
    let t = saturate((b.tokens_milli + added) as int);
    if t <= b.capacity_milli {
        t
    } else {
        b.capacity_milli
    }
}

/// Refills the bucket up to `now_us`, then takes one token if there is one.
pub open spec fn spec_try_consume(b: BucketState, now_us: nat) -> (BucketState, bool) {
    let t = spec_refilled(b, now_us);
    if t >= 1000 {
        (BucketState { tokens_milli: (t - 1000) as nat, last_update_us: now_us, ..b }, true)
    } else {
        (BucketState { tokens_milli: t, last_update_us: now_us, ..b }, false)
    }
}

/// A bucket never holds more than its capacity and fits its counters in
/// 64 bits.
pub open spec fn bucket_wf(b: BucketState) -> bool {
    &&& b.tokens_milli <= b.capacity_milli
    &&& b.capacity_milli <= u64::MAX
    &&& 1 <= b.refill_milli_per_sec <= u64::MAX
    &&& b.last_update_us <= u64::MAX
}

/// Integer-based token bucket for rate limiting.
#[derive(Clone, Copy)]
pub struct TokenBucket {
    tokens_milli: u64,
    capacity_milli: u64,
    refill_per_us: u64,
    last_update: u64,
}

impl View for TokenBucket {
    type V = BucketState;

    closed spec fn view(&self) -> BucketState {
        BucketState {
            tokens_milli: self.tokens_milli as nat,
            capacity_milli: self.capacity_milli as nat,
            refill_milli_per_sec: self.refill_per_us as nat,
            last_update_us: self.last_update as nat,
        }
    }
}

impl TokenBucket {
    /// A full bucket of `max_tokens` tokens refilling `refill_per_second`
    /// tokens per second, created at `now_us`.
    pub fn new(max_tokens: u64, refill_per_second: u64, now_us: u64) -> (r: Self)
        requires
            max_tokens * 1000 <= u64::MAX,
            refill_per_second * 1000 <= u64::MAX,
        ensures
            r@ == spec_new_bucket(max_tokens, refill_per_second, now_us),
            bucket_wf(r@),
    {
        let per_sec = refill_per_second * 1000;
        TokenBucket {
            tokens_milli: max_tokens * 1000,
            capacity_milli: max_tokens * 1000,
            refill_per_us: if per_sec >= 1 {
                per_sec
            } else {
                1
            },
            last_update: now_us,
        }
    }

    /// Refills the bucket up to `now_us` and takes one token if there is
    /// one; `true` when a token was taken (the packet may pass).
    pub fn try_consume(&mut self, now_us: u64) -> (r: bool)
        requires
            bucket_wf(old(self)@),
        ensures
            (final(self)@, r) == spec_try_consume(old(self)@, now_us as nat),
            bucket_wf(final(self)@),
    {
        let elapsed_us: u64 = if now_us >= self.last_update {
            now_us - self.last_update
        } else {
            0
        };
        self.last_update = now_us;
        let product: u64 = match elapsed_us.checked_mul(self.refill_per_us) {
            Some(p) => p,
            None => u64::MAX,
        };
        let added = product / 1_000_000;
        let sum = self.tokens_milli.saturating_add(added);
        self.tokens_milli = if sum <= self.capacity_milli {
            sum
        } else {
            self.capacity_milli
        };
        if self.tokens_milli >= 1000 {
            self.tokens_milli = self.tokens_milli - 1000;
            true
        } else {
            false
        }
    }
}

/// `n` attempts to take a token at the same time `now_us`: the final state
/// and how many succeeded.
pub open spec fn consume_times(b: BucketState, now_us: nat, n: nat) -> (BucketState, nat)
    decreases n,
{
    if n == 0 {
        (b, 0)
    } else {
        let (b1, ok) = spec_try_consume(b, now_us);
        let (b2, k) = consume_times(b1, now_us, (n - 1) as nat);
        (b2, if ok {
            k + 1
        } else {
            k
        })
    }
}

/// A fresh bucket lets exactly `max_tokens` packets through at once: any
/// `n <= max_tokens` attempts at the moment of creation all succeed, and
/// the attempt after `max_tokens` of them fails.
pub proof fn lemma_fresh_bucket_burst(max_tokens: u64, refill_per_second: u64, now_us: u64, n: nat)
    requires
        max_tokens * 1000 <= u64::MAX,
        refill_per_second * 1000 <= u64::MAX,
        n <= max_tokens,
    ensures
        consume_times(spec_new_bucket(max_tokens, refill_per_second, now_us), now_us as nat, n).1
            == n,
        consume_times(
            spec_new_bucket(max_tokens, refill_per_second, now_us),
            now_us as nat,
            n,
        ).0.tokens_milli == (max_tokens - n) * 1000,
        n == max_tokens ==> !spec_try_consume(
            consume_times(
                spec_new_bucket(max_tokens, refill_per_second, now_us),
                now_us as nat,
                n,
            ).0,
            now_us as nat,
        ).1,
{
    let b = spec_new_bucket(max_tokens, refill_per_second, now_us);
    lemma_burst_from(b, now_us as nat, max_tokens as nat, n);
}

proof fn lemma_burst_from(b: BucketState, now: nat, m: nat, n: nat)
    requires
        b.tokens_milli == m * 1000,
        b.capacity_milli >= b.tokens_milli,
        b.capacity_milli <= u64::MAX,
        b.last_update_us == now,
        n <= m,
    ensures
        consume_times(b, now, n).1 == n,
        consume_times(b, now, n).0.tokens_milli == (m - n) * 1000,
        consume_times(b, now, n).0.last_update_us == now,
        consume_times(b, now, n).0.capacity_milli == b.capacity_milli,
        n == m ==> !spec_try_consume(consume_times(b, now, n).0, now).1,
    decreases n,
{
    assert(elapsed_us(b, now) == 0);
    assert(elapsed_us(b, now) * b.refill_milli_per_sec == 0);
    assert(saturate(0) == 0);
    if n == 0 {
        if m == 0 {
            assert(spec_refilled(b, now) == 0);
        }
    } else {
        let (b1, ok) = spec_try_consume(b, now);
        assert(spec_refilled(b, now) == m * 1000);
        assert(ok);
        assert(b1.tokens_milli == (m - 1) * 1000);
        lemma_burst_from(b1, now, (m - 1) as nat, (n - 1) as nat);
    }
}

/// Successive attempts to take a token at the times `times`: the final
/// state and how many succeeded.
pub open spec fn consume_run(b: BucketState, times: Seq<nat>) -> (BucketState, nat)
    decreases times.len(),
{
    if times.len() == 0 {
        (b, 0)
    } else {
        let (b1, ok) = spec_try_consume(b, times[0]);
        let (b2, k) = consume_run(b1, times.drop_first());
        (b2, if ok {
            k + 1
        } else {
            k
        })
    }
}

/// Whether `times` never goes back and starts no earlier than `t0`.
pub open spec fn in_order_from(t0: nat, times: Seq<nat>) -> bool {
    &&& forall|i: int| 0 <= i < times.len() ==> t0 <= #[trigger] times[i]
    &&& forall|i: int, j: int| 0 <= i <= j < times.len() ==> #[trigger] times[i] <= #[trigger] times[j]
}

/// The last time of `times`, or `t0` when there is none.
pub open spec fn last_time(t0: nat, times: Seq<nat>) -> nat {
    if times.len() == 0 {
        t0
    } else {
        times.last()
    }
}

proof fn lemma_one_step(b: BucketState, now: nat)
    requires
        now >= b.last_update_us,
    ensures
        1_000_000 * (spec_try_consume(b, now).0.tokens_milli + (if spec_try_consume(b, now).1 {
            1000int
        } else {
            0
        })) <= 1_000_000 * b.tokens_milli + b.refill_milli_per_sec * (now - b.last_update_us),
{
    let e = elapsed_us(b, now);
    let prod: int = (e * b.refill_milli_per_sec) as int;
    let sp = saturate(prod);
    let added = sp / 1_000_000;
    assert(prod >= 0) by (nonlinear_arith)
        requires
            prod == e * b.refill_milli_per_sec,
            e >= 0,
            b.refill_milli_per_sec >= 0,
    ;
    assert(sp <= prod);
    assert(added * 1_000_000 <= sp) by (nonlinear_arith)
        requires
            added == sp / 1_000_000,
            sp >= 0,
    ;
    assert(e == now - b.last_update_us);
    let refilled = spec_refilled(b, now);
    assert(refilled <= b.tokens_milli + added);
    let (b1, ok) = spec_try_consume(b, now);
    let used: int = if ok {
        1000
    } else {
        0
    };
    assert(b1.tokens_milli + used <= refilled);
    let lhs: int = b1.tokens_milli + used;
    let tm: int = b.tokens_milli as int;
    let ad: int = added as int;
    assert(1_000_000 * lhs <= 1_000_000 * tm + prod) by (nonlinear_arith)
        requires
            lhs <= tm + ad,
            ad * 1_000_000 <= sp,
            sp <= prod,
    ;
    assert(prod == b.refill_milli_per_sec * (now - b.last_update_us)) by (nonlinear_arith)
        requires
            prod == e * b.refill_milli_per_sec,
            e == now - b.last_update_us,
    ;
}

proof fn lemma_run_bound(b: BucketState, times: Seq<nat>)
    requires
        in_order_from(b.last_update_us, times),
    ensures
        1_000_000 * (consume_run(b, times).0.tokens_milli + 1000 * consume_run(b, times).1)
            <= 1_000_000 * b.tokens_milli + b.refill_milli_per_sec * (last_time(
            b.last_update_us,
            times,
        ) - b.last_update_us),
    decreases times.len(),
{
    if times.len() > 0 {
        let (b1, ok) = spec_try_consume(b, times[0]);
        let rest = times.drop_first();
        lemma_one_step(b, times[0]);
        assert(in_order_from(b1.last_update_us, rest)) by {
            assert forall|i: int| 0 <= i < rest.len() implies b1.last_update_us <= #[trigger] rest[i] by {
                assert(rest[i] == times[i + 1]);
            }
            assert forall|i: int, j: int| 0 <= i <= j < rest.len() implies #[trigger] rest[i]
                <= #[trigger] rest[j] by {
                assert(rest[i] == times[i + 1] && rest[j] == times[j + 1]);
            }
        }
        lemma_run_bound(b1, rest);
        let last = last_time(b.last_update_us, times);
        assert(last_time(b1.last_update_us, rest) == last) by {
            if rest.len() > 0 {
                assert(rest.last() == times.last());
            }
        }
        assert(times[0] <= last) by {
            if times.len() > 1 {
                assert(times[0] <= times[times.len() - 1]);
            }
        }
        let r = b.refill_milli_per_sec;
        let t = b.last_update_us;
        let t1 = times[0];
        assert(r * (t1 - t) + r * (last - t1) == r * (last - t)) by (nonlinear_arith);
    }
}

/// Over any run of attempts, a bucket created at `t0` with `max_tokens`
/// tokens refilling `refill_per_second` per second lets through at most
/// its burst plus what the elapsed time refills: with the attempts at
/// times (microseconds) in order from `t0`, the number that succeed times
/// one million is at most `max_tokens` times one million plus
/// `refill_per_second` times the microseconds up to the last attempt.
pub proof fn lemma_long_run_bound(
    max_tokens: u64,
    refill_per_second: u64,
    t0: u64,
    times: Seq<nat>,
)
    requires
        max_tokens * 1000 <= u64::MAX,
        1 <= refill_per_second,
        refill_per_second * 1000 <= u64::MAX,
        in_order_from(t0 as nat, times),
    ensures
        consume_run(spec_new_bucket(max_tokens, refill_per_second, t0), times).1 * 1_000_000
            <= max_tokens * 1_000_000 + refill_per_second * (last_time(t0 as nat, times) - t0),
{
    let b = spec_new_bucket(max_tokens, refill_per_second, t0);
    lemma_run_bound(b, times);
    let (bf, k) = consume_run(b, times);
    let d: int = last_time(t0 as nat, times) - t0;
    assert(d >= 0) by {
        if times.len() > 0 {
            assert(t0 <= times[times.len() - 1]);
        }
    }
    let m: int = max_tokens as int;
    let rr: int = refill_per_second as int;
    assert(k * 1_000_000 <= m * 1_000_000 + rr * d) by (nonlinear_arith)
        requires
            1_000_000 * (bf.tokens_milli + 1000 * k) <= 1_000_000 * (m * 1000) + (rr * 1000) * d,
            bf.tokens_milli >= 0,
            d >= 0,
    ;
}

} // verus!
