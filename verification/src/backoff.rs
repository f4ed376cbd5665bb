//! How long a client waits before it connects again.

use vstd::prelude::*;

verus! {

/// The first wait, in seconds.
pub const INITIAL_BACKOFF_SECS: u64 = 1;

/// The longest wait, in seconds.
pub const MAX_BACKOFF_SECS: u64 = 60;

/// The wait after one of `secs` seconds: twice as long, up to the longest.
pub fn next_backoff(secs: u64) -> (next: u64)
    ensures
        next == doubled(secs),
        secs <= 30 ==> next == secs + secs,
        secs > 30 ==> next == 60,
{
    if secs > MAX_BACKOFF_SECS / 2 {
        MAX_BACKOFF_SECS
    } else {
        secs * 2
    }
}

/// Twice `secs`, up to the longest wait.
pub open spec fn doubled(secs: u64) -> u64 {
    if 2 * secs < MAX_BACKOFF_SECS {
        (2 * secs) as u64
    } else {
        MAX_BACKOFF_SECS
    }
}

/// Each wait is twice the one before, but a minute at most.
pub proof fn law_wait_doubles_up_to_a_minute(secs: u64)
    ensures
        doubled(secs) <= 60,
        doubled(secs) == secs + secs || doubled(secs) == 60 < secs + secs,
{
}

/// The wait before the attempt that follows `n` earlier waits.
pub open spec fn nth_backoff(n: nat) -> u64
    decreases n,
{
    if n == 0 {
        INITIAL_BACKOFF_SECS
    } else {
        doubled(nth_backoff((n - 1) as nat))
    }
}

/// The waits are the powers of two of a second, cut off at the longest wait.
pub proof fn law_backoff_is_exponential(n: nat)
    ensures
        nth_backoff(n) == if vstd::arithmetic::power2::pow2(n) < MAX_BACKOFF_SECS {
            vstd::arithmetic::power2::pow2(n) as int
        } else {
            MAX_BACKOFF_SECS as int
        },
    decreases n,
{
    if n == 0 {
        vstd::arithmetic::power2::lemma2_to64();
    } else {
        law_backoff_is_exponential((n - 1) as nat);
        vstd::arithmetic::power2::lemma_pow2_unfold(n);
    }
}

} // verus!
