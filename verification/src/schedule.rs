//! Wall-clock arithmetic of the snapshot cadence.

use vstd::prelude::*;

verus! {

/// Seconds added to every sleep so that a wake-up lands just past the interval
/// boundary instead of just before it.
pub const SKEW_BUFFER: u64 = 5;

/// The largest multiple of `multiple` that does not exceed `number`.
pub open spec fn round_down(number: nat, multiple: nat) -> nat
    recommends
        multiple > 0,
{
    (number - number % multiple) as nat
}

/// How long to sleep at time `now` so as to wake up `SKEW_BUFFER` seconds after
/// the next multiple of `snapshot_interval`.
pub open spec fn sleep_for(now: nat, snapshot_interval: nat) -> nat
    recommends
        snapshot_interval > 0,
{
    (snapshot_interval - now % snapshot_interval) as nat + SKEW_BUFFER as nat
}

/// Rounds `number` down to the nearest multiple of `multiple`.
///
/// The result never exceeds `number`, is a multiple of `multiple`, and lies
/// less than `multiple` below `number`.
pub fn round_down_to_nearest_multiple(number: u64, multiple: u64) -> (rounded: u64)
    requires
        multiple > 0,
    ensures
        rounded == round_down(number as nat, multiple as nat),
        rounded <= number,
        rounded % multiple == 0,
        number - rounded < multiple,
{
    let round_multiple_delta: u64 = number % multiple;
    proof {
        lemma_round_down(number as nat, multiple as nat);
    }
    number - round_multiple_delta
}

/// Seconds to sleep at time `now` until the next generation is due.
///
/// The sum has to fit the machine word, which every interval up to
/// `u64::MAX - SKEW_BUFFER` guarantees.
pub fn sleep_duration(now: u64, snapshot_interval: u64) -> (seconds: u64)
    requires
        snapshot_interval > 0,
        snapshot_interval + SKEW_BUFFER <= u64::MAX,
    ensures
        seconds == sleep_for(now as nat, snapshot_interval as nat),
        SKEW_BUFFER < seconds <= snapshot_interval + SKEW_BUFFER,
        (now + seconds - SKEW_BUFFER) % (snapshot_interval as int) == 0,
{
    let remainder: u64 = now % snapshot_interval;
    let time_until_next_generation: u64 = snapshot_interval - remainder;
    proof {
        lemma_next_boundary(now as nat, snapshot_interval as nat);
    }
    time_until_next_generation + SKEW_BUFFER
}

/// Rounding down stays within one `multiple` below `number` and lands on a
/// multiple.
pub proof fn lemma_round_down(number: nat, multiple: nat)
    requires
        multiple > 0,
    ensures
        number % multiple <= number,
        round_down(number, multiple) <= number,
        round_down(number, multiple) % multiple == 0,
        number - round_down(number, multiple) < multiple,
        round_down(number, multiple) == multiple * (number / multiple),
{
    let q = number / multiple;
    let r = number % multiple;
    assert(number == multiple * q + r && 0 <= r < multiple && q >= 0) by (nonlinear_arith)
        requires
            multiple > 0,
            q == number / multiple,
            r == number % multiple,
    ;
    assert(multiple * q >= 0) by (nonlinear_arith)
        requires
            multiple > 0,
            q >= 0,
    ;
    assert((multiple * q) % multiple == 0) by (nonlinear_arith)
        requires
            multiple > 0,
    ;
}

/// The instant `snapshot_interval - now % snapshot_interval` after `now` is a
/// multiple of the interval, and it is the next one.
pub proof fn lemma_next_boundary(now: nat, snapshot_interval: nat)
    requires
        snapshot_interval > 0,
    ensures
        0 < snapshot_interval - now % snapshot_interval <= snapshot_interval,
        (now + (snapshot_interval - now % snapshot_interval)) % (snapshot_interval as int) == 0,
{
    let q = now / snapshot_interval;
    let r = now % snapshot_interval;
    assert(now == snapshot_interval * q + r && 0 <= r < snapshot_interval) by (nonlinear_arith)
        requires
            snapshot_interval > 0,
            q == now / snapshot_interval,
            r == now % snapshot_interval,
    ;
    assert((snapshot_interval * q + snapshot_interval) % snapshot_interval == 0)
        by (nonlinear_arith)
        requires
            snapshot_interval > 0,
    ;
}

} // verus!
