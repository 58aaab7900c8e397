//! Reliable delivery of a chat message: it is sent up to three times, each
//! time waiting half a second plus a random jitter for its
//! acknowledgement, so that peers that lost packets together do not all
//! resend in step.

use vstd::prelude::*;
use crate::text::{chars_of, string_of};

verus! {

/// How many times a message is sent before giving up.
pub const RETRY_LIMIT: u32 = 3;

/// How long each attempt waits for the acknowledgement, before jitter.
pub const ACK_WAIT_MS: u64 = 500;

/// The jitter added to each wait is below this many milliseconds.
pub const ACK_JITTER_MS: u64 = 100;

/// `rand::thread_rng().gen_range(0..bound)`: a number drawn below `bound`
/// (the range is not empty, so the call does not panic). Nothing more is
/// claimed of its value.
#[verifier::external_body]
fn random_below(bound: u64) -> (r: u64)
    requires
        bound > 0,
    ensures
        r < bound,
{
    rand::Rng::gen_range(&mut rand::thread_rng(), 0..bound)
}

/// The wait for an acknowledgement with the drawn jitter `jitter`: 500 ms
/// plus the jitter.
pub fn jittered_wait(jitter: u64) -> (r: u64)
    requires
        jitter < ACK_JITTER_MS,
    ensures
        r == ACK_WAIT_MS + jitter,
{
    ACK_WAIT_MS + jitter
}

/// The wait for the acknowledgement of one attempt: 500 ms plus a jitter
/// drawn at random below 100 ms.
pub fn ack_wait_ms() -> (r: u64)
    ensures
        ACK_WAIT_MS <= r < ACK_WAIT_MS + ACK_JITTER_MS,
{
    let jitter = random_below(ACK_JITTER_MS);
    jittered_wait(jitter)
}

/// How one attempt went.
#[derive(Debug, PartialEq, Eq, Structural, Clone, Copy)]
pub enum AttemptResult {
    /// The packet could not be sent.
    SendFailed,
    /// The packet was sent but no acknowledgement came in time.
    NoAck,
    /// The peer acknowledged the message.
    Acked,
}

/// Why a message could not be delivered.
#[derive(Debug, PartialEq, Eq, Structural, Clone, Copy)]
pub enum DeliveryError {
    /// The last attempt could not even send the packet.
    SendFailed,
    /// The last attempt got no acknowledgement.
    NoAck,
}

/// What to do after an attempt.
#[derive(Debug, PartialEq, Eq, Structural, Clone, Copy)]
pub enum NextStep {
    /// The message arrived.
    Delivered,
    /// Send it again.
    Retry,
    /// Stop trying.
    GiveUp(DeliveryError),
}

/// What follows attempt number `attempt` (counted from 1).
pub open spec fn spec_next_step(attempt: nat, result: AttemptResult) -> NextStep {
    match result {
        AttemptResult::Acked => NextStep::Delivered,
        AttemptResult::SendFailed => if attempt >= RETRY_LIMIT {
            NextStep::GiveUp(DeliveryError::SendFailed)
        } else {
            NextStep::Retry
        },
        AttemptResult::NoAck => if attempt >= RETRY_LIMIT {
            NextStep::GiveUp(DeliveryError::NoAck)
        } else {
            NextStep::Retry
        },
    }
}

/// What follows attempt number `attempt` (counted from 1) that went as
/// `result`.
pub fn next_step(attempt: u32, result: AttemptResult) -> (r: NextStep)
    ensures
        r == spec_next_step(attempt as nat, result),
{
    match result {
        AttemptResult::Acked => NextStep::Delivered,
        AttemptResult::SendFailed => if attempt >= RETRY_LIMIT {
            NextStep::GiveUp(DeliveryError::SendFailed)
        } else {
            NextStep::Retry
        },
        AttemptResult::NoAck => if attempt >= RETRY_LIMIT {
            NextStep::GiveUp(DeliveryError::NoAck)
        } else {
            NextStep::Retry
        },
    }
}

/// The text of a delivery error.
pub open spec fn spec_error_text(e: DeliveryError) -> Seq<char> {
    match e {
        DeliveryError::SendFailed => "Failed to deliver message: send_raw_packet failed after 3 attempts."@,
        DeliveryError::NoAck => "Failed to deliver message: No ACK received after 3 attempts."@,
    }
}

impl DeliveryError {
    /// The error's text.
    pub fn message(&self) -> (r: String)
        ensures
            r@ == spec_error_text(*self),
    {
        match self {
            DeliveryError::SendFailed => string_of(
                chars_of("Failed to deliver message: send_raw_packet failed after 3 attempts.").as_slice(),
            ),
            DeliveryError::NoAck => string_of(
                chars_of("Failed to deliver message: No ACK received after 3 attempts.").as_slice(),
            ),
        }
    }
}

/// How many attempts a sequence of results leads to, starting at attempt
/// number `attempt`, and how the sending ends (`Retry` when the results
/// run out first).
pub open spec fn spec_run(results: Seq<AttemptResult>, attempt: nat) -> (nat, NextStep)
    decreases results.len(),
{
    if results.len() == 0 {
        (0, NextStep::Retry)
    } else {
        match spec_next_step(attempt, results[0]) {
            NextStep::Retry => {
                let (n, step) = spec_run(results.drop_first(), attempt + 1);
                (n + 1, step)
            },
            step => (1, step),
        }
    }
}

/// A message is sent at most three times, and it is reported delivered
/// exactly when one of those attempts was acknowledged; otherwise the
/// error is that of the third attempt.
pub proof fn lemma_at_most_three_attempts(results: Seq<AttemptResult>)
    requires
        results.len() >= 3,
    ensures
        ({
            let (n, step) = spec_run(results, 1);
            &&& 1 <= n <= 3
            &&& step != NextStep::Retry
            &&& (step == NextStep::Delivered) <==> (exists|i: int|
                0 <= i < n && results[i] == AttemptResult::Acked)
            &&& step == NextStep::GiveUp(DeliveryError::NoAck) ==> n == 3 && results[2]
                == AttemptResult::NoAck
            &&& step == NextStep::GiveUp(DeliveryError::SendFailed) ==> n == 3 && results[2]
                == AttemptResult::SendFailed
        }),
{
    let r1 = results.drop_first();
    let r2 = r1.drop_first();
    reveal_with_fuel(spec_run, 4);
    assert(r1[0] == results[1]);
    assert(r2[0] == results[2]);
}

} // verus!
