//! Bounded reconnect scheduling. Times are in milliseconds.
use vstd::arithmetic::power2::pow2;
use vstd::prelude::*;

verus! {

pub const MAX_DELAY: u64 = 60_000;

/// How long a connection must have lasted for its failures to be forgotten.
pub const RESET_AFTER: u64 = 60_000;

/// The longest delay before an attempt: a second, doubled with every attempt, up to a minute.
pub open spec fn delay_cap(attempt: u32) -> nat {
    if attempt >= 6 {
        60_000
    } else {
        pow2(attempt as nat) * 1_000
    }
}

/// Returns a full-jitter delay in `[0, min(60s, 2^attempt seconds)]`. The caller supplies the
/// randomness.
pub fn full_jitter(attempt: u32, entropy: u64) -> (r: u64)
    ensures
        r == entropy as nat % (delay_cap(attempt) + 1),
        r <= delay_cap(attempt),
        r <= MAX_DELAY,
{
    let cap_seconds: u64 = if attempt == 0 {
        1
    } else if attempt == 1 {
        2
    } else if attempt == 2 {
        4
    } else if attempt == 3 {
        8
    } else if attempt == 4 {
        16
    } else if attempt == 5 {
        32
    } else {
        60
    };
    proof {
        vstd::arithmetic::power2::lemma2_to64();
    }
    let cap_millis: u64 = cap_seconds * 1_000;
    entropy % (cap_millis + 1)
}

/// The cap is the smaller of a minute and two to the power of the attempt in seconds.
pub proof fn cap_is_the_documented_one(attempt: u32)
    ensures
        delay_cap(attempt) == (if pow2(attempt as nat) * 1_000 <= 60_000 {
            pow2(attempt as nat) * 1_000
        } else {
            60_000
        }),
{
    vstd::arithmetic::power2::lemma2_to64();
    if attempt >= 6 {
        if attempt > 6 {
            vstd::arithmetic::power2::lemma_pow2_strictly_increases(6, attempt as nat);
        }
    }
}

/// Delays double from a second to 32, and from then on they are a minute. A connection that lasted
/// a minute starts anew.
pub proof fn delays_double_up_to_a_minute(attempt: u32)
    ensures
        delay_cap(0) == 1_000,
        attempt < 5 ==> delay_cap((attempt + 1) as u32) == 2 * delay_cap(attempt),
        attempt >= 6 ==> delay_cap(attempt) == 60_000,
        delay_cap(attempt) <= MAX_DELAY,
        MAX_DELAY == 60_000,
        RESET_AFTER == 60_000,
{
    vstd::arithmetic::power2::lemma2_to64();
}

} // verus!
