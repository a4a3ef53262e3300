//! When a test action that checks a query's rows tries again, and how long
//! it waits first: the wait doubles from 100 ms after each failed attempt.

use vstd::prelude::*;

verus! {

/// The most retries that any action is given.
pub const RETRY_LIMIT: u32 = 32;

/// What the driver of an action does after an attempt.
#[derive(Clone, Copy, Debug, PartialEq, Eq, Structural)]
pub enum RetryStep {
    /// The attempt succeeded: stop.
    Done,
    /// The attempt failed and no retry is left: report its error.
    GiveUp,
    /// The attempt failed: wait this many milliseconds and try again.
    Sleep(u64),
}

/// Two to the power `n`.
pub open spec fn pow2(n: nat) -> nat
    decreases n,
{
    if n == 0 {
        1
    } else {
        2 * pow2((n - 1) as nat)
    }
}

proof fn lemma_pow2_grows(a: nat, b: nat)
    requires
        a <= b,
    ensures
        pow2(a) <= pow2(b),
    decreases b,
{
    if a < b {
        lemma_pow2_grows(a, (b - 1) as nat);
    }
}

proof fn lemma_pow2_32()
    ensures
        pow2(32) == 4294967296,
{
    reveal_with_fuel(pow2, 33);
}

/// The wait before the retry that follows failed attempt number `attempt`
/// (counted from zero): 100 ms doubled `attempt` times.
pub fn backoff_ms(attempt: u32) -> (r: u64)
    requires
        attempt <= RETRY_LIMIT,
    ensures
        r == 100 * pow2(attempt as nat),
{
    let mut wait: u64 = 100;
    let mut i: u32 = 0;
    while i < attempt
        invariant
            i <= attempt <= RETRY_LIMIT,
            wait == 100 * pow2(i as nat),
        decreases attempt - i,
    {
        proof {
            lemma_pow2_grows((i + 1) as nat, 32);
            lemma_pow2_32();
        }
        wait = wait * 2;
        i = i + 1;
    }
    wait
}

/// The number of retries that an action is given: a query that reads rows
/// may see a dataflow that has not caught up yet, and is retried five
/// times; any other statement is tried once.
pub fn max_retries(reads_rows: bool) -> (r: u32)
    ensures
        r == (if reads_rows {
            5u32
        } else {
            0u32
        }),
{
    if reads_rows {
        5
    } else {
        0
    }
}

/// What follows attempt number `attempt` (counted from zero) of an action
/// that is given `max` retries.
pub fn next_step(attempt: u32, max: u32, succeeded: bool) -> (r: RetryStep)
    requires
        max <= RETRY_LIMIT,
    ensures
        succeeded ==> r == RetryStep::Done,
        !succeeded && attempt >= max ==> r == RetryStep::GiveUp,
        !succeeded && attempt < max ==> r == RetryStep::Sleep((100 * pow2(attempt as nat)) as u64),
{
    if succeeded {
        RetryStep::Done
    } else if attempt >= max {
        RetryStep::GiveUp
    } else {
        RetryStep::Sleep(backoff_ms(attempt))
    }
}

} // verus!
