//! Click timing: the rate scheduler and the agent's dispatch decision.
//!
//! Time is carried as a `u64` count of nanoseconds. For a target frequency
//! of `f` clicks per second, successive time points are spaced
//! `1s / f` apart, starting from "now". A missed deadline is absorbed by
//! rescheduling from the new "now" plus the same interval, so drift never
//! accumulates beyond one interval per tick.

use vstd::arithmetic::div_mod::lemma_fundamental_div_mod;
use vstd::arithmetic::mul::lemma_mul_inequality;
use vstd::arithmetic::mul::lemma_mul_is_distributive_add_other_way;
use vstd::arithmetic::mul::lemma_mul_strict_inequality;
use vstd::prelude::*;

verus! {

/// One second, in the nanosecond unit all scheduling arithmetic uses.
pub const NANOS_PER_SEC: u64 = 1_000_000_000;

/// The spacing of click time points for a target frequency, in
/// nanoseconds: one second divided by the frequency.
pub fn interval_nanos(freq: u64) -> (r: u64)
    requires
        freq > 0,
    ensures
        r == NANOS_PER_SEC as int / freq as int,
{
    NANOS_PER_SEC / freq
}

/// The time point of the next click: "now" plus one interval. A late
/// agent calls this from the new "now", so a missed deadline never
/// produces a catch-up burst.
pub fn next_tick(now: u64, freq: u64) -> (r: u64)
    requires
        freq > 0,
        now + NANOS_PER_SEC as int / freq as int <= u64::MAX,
    ensures
        r == now + NANOS_PER_SEC as int / freq as int,
{
    now + NANOS_PER_SEC / freq
}

/// Whether the agent fires one more click: only while "now" has not
/// reached the stop deadline.
pub fn should_dispatch(now: u64, stop_at: u64) -> (r: bool)
    ensures
        r == (now < stop_at),
{
    now < stop_at
}

/// The first `count` scheduled time points after `t0` for the given
/// frequency: `t0 + k * interval` for `k = 1 ..= count`.
pub fn schedule_ticks(t0: u64, freq: u64, count: usize) -> (r: Vec<u64>)
    requires
        freq > 0,
        t0 + count as int * (NANOS_PER_SEC as int / freq as int) <= u64::MAX,
    ensures
        r@.len() == count,
        forall|k: int|
            0 <= k < count ==> r@[k] == t0 + (k + 1) * (NANOS_PER_SEC as int / freq as int),
{
    let iv: u64 = interval_nanos(freq);
    let mut r: Vec<u64> = Vec::new();
    let mut cur: u64 = t0;
    let mut i: usize = 0;
    while i < count
        invariant
            freq > 0,
            iv == NANOS_PER_SEC as int / freq as int,
            t0 + count as int * (iv as int) <= u64::MAX,
            i <= count,
            cur == t0 + i as int * (iv as int),
            r@.len() == i,
            forall|k: int| 0 <= k < i ==> r@[k] == t0 + (k + 1) * (iv as int),
        decreases count - i,
    {
        proof {
            lemma_mul_is_distributive_add_other_way(iv as int, i as int, 1);
            lemma_mul_inequality(i as int + 1, count as int, iv as int);
        }
        cur = cur + iv;
        r.push(cur);
        i += 1;
    }
    r
}

/// The scheduled time points fill the window exactly: when the frequency
/// divides one second evenly, the `freq` points scheduled after `t0` all
/// lie in the window `(t0, t0 + 1s]`, strictly increasing and spaced one
/// interval apart, and the last one lands exactly on `t0 + 1s`. So a
/// one-second window starting at `t0` holds exactly `freq` scheduled
/// instants.
pub proof fn lemma_schedule_fills_window(t0: int, freq: int)
    requires
        0 < freq <= 1_000_000_000int,
        1_000_000_000int % freq == 0,
    ensures
        freq * (1_000_000_000int / freq) == 1_000_000_000int,
        forall|k: int|
            1 <= k <= freq ==> t0 < t0 + #[trigger] (k * (1_000_000_000int / freq)) <= t0
                + 1_000_000_000int,
        forall|k: int|
            1 <= k < freq ==> t0 + #[trigger] (k * (1_000_000_000int / freq)) < t0 + (k + 1) * (
            1_000_000_000int / freq),
        t0 + freq * (1_000_000_000int / freq) == t0 + 1_000_000_000int,
{
    let iv = 1_000_000_000int / freq;
    lemma_fundamental_div_mod(1_000_000_000int, freq);
    assert(freq * iv == 1_000_000_000int);
    assert(iv >= 1) by {
        if iv <= 0 {
            lemma_mul_inequality(iv, 0, freq);
        }
    }
    assert forall|k: int| 1 <= k <= freq implies t0 < t0 + #[trigger] (k * iv) <= t0 + 1_000_000_000int by {
        lemma_mul_strict_inequality(0, k, iv);
        lemma_mul_inequality(k, freq, iv);
        vstd::arithmetic::mul::lemma_mul_is_commutative(k, iv);
        vstd::arithmetic::mul::lemma_mul_is_commutative(freq, iv);
    }
    assert forall|k: int| 1 <= k < freq implies t0 + #[trigger] (k * iv) < t0 + (k + 1) * iv by {
        lemma_mul_strict_inequality(k, k + 1, iv);
        vstd::arithmetic::mul::lemma_mul_is_commutative(k, iv);
        vstd::arithmetic::mul::lemma_mul_is_commutative(k + 1, iv);
    }
}

} // verus!
