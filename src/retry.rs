use vstd::prelude::*;

verus! {

/// Fixed pause, in milliseconds, before a busy request is sent again.
pub const RETRY_DELAY_MS: u64 = 1000;

/// What the client does with a response envelope.
#[derive(Clone, Copy, Debug, PartialEq, Eq, Structural)]
pub enum EnvelopeStep {
    /// Code 0: the payload is read.
    Accept,
    /// A nonzero code: the same request is sent again after this many
    /// milliseconds, with no limit on the number of tries.
    RetryAfter(u64),
    /// The envelope carries no code: the query yields nothing.
    Abandon,
}

pub open spec fn step_for(code: Option<u64>) -> EnvelopeStep {
    match code {
        None => EnvelopeStep::Abandon,
        Some(0) => EnvelopeStep::Accept,
        Some(_) => EnvelopeStep::RetryAfter(RETRY_DELAY_MS),
    }
}

/// Decides what to do with a response envelope from its status code.
pub fn envelope_step(code: Option<u64>) -> (r: EnvelopeStep)
    ensures
        r == step_for(code),
{
    match code {
        None => EnvelopeStep::Abandon,
        Some(c) => {
            if c == 0 {
                EnvelopeStep::Accept
            } else {
                EnvelopeStep::RetryAfter(RETRY_DELAY_MS)
            }
        },
    }
}

/// Number of requests sent again when the server answers with `codes` in
/// turn: the client stops at the first answer it accepts.
pub open spec fn retries_before_accept(codes: Seq<u64>) -> nat
    decreases codes.len(),
{
    if codes.len() == 0 {
        0
    } else if step_for(Some(codes[0])) == EnvelopeStep::Accept {
        0
    } else {
        1 + retries_before_accept(codes.drop_first())
    }
}

/// When a server answers with nonzero codes and then with code 0 at
/// position `k`, the client retries exactly `k` times, each time after the
/// fixed delay, and then accepts that answer.
pub proof fn lemma_retries_until_success(codes: Seq<u64>, k: int)
    requires
        0 <= k < codes.len(),
        codes[k] == 0,
        forall|j: int| 0 <= j < k ==> codes[j] != 0,
    ensures
        retries_before_accept(codes) == k,
        forall|j: int|
            0 <= j < k ==> step_for(Some(#[trigger] codes[j])) == EnvelopeStep::RetryAfter(
                RETRY_DELAY_MS,
            ),
        step_for(Some(codes[k])) == EnvelopeStep::Accept,
    decreases k,
{
    if k > 0 {
        let rest = codes.drop_first();
        assert forall|j: int| 0 <= j < k - 1 implies rest[j] != 0 by {
            assert(rest[j] == codes[j + 1]);
        }
        lemma_retries_until_success(rest, k - 1);
    }
}

} // verus!
