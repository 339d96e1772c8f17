//! The decaying-window arithmetic behind both rate limiters: the amount
//! recorded at the last accepted operation decays linearly to zero over the
//! window, and a new amount is accepted while the decayed value plus the new
//! amount stays within a limit.
use vstd::prelude::*;
use crate::le::{bits_of_i64, bits_from_i64};

verus! {

/// `a - b` saturated to the `i64` range (what `i64::saturating_sub` gives).
pub open spec fn sat_sub_i64(a: int, b: int) -> int {
    if a - b > i64::MAX {
        i64::MAX as int
    } else if a - b < i64::MIN {
        i64::MIN as int
    } else {
        a - b
    }
}

/// What remains of `last_value` when `elapsed` seconds (a signed count,
/// compared after reinterpretation as unsigned) of a `window`-second window
/// have passed: nothing once the window is over, else the linear share of
/// the time left.
pub open spec fn decayed_value(last_value: u64, window: u64, elapsed: int) -> int {
    let e = bits_of_i64(elapsed);
    if e >= window {
        0
    } else {
        (last_value * (window - e)) / (window as int)
    }
}

/// The aggregate after adding `amount` to a decayed value, saturated at
/// `u64::MAX`.
pub open spec fn aggregate(decayed: int, amount: u64) -> int {
    if decayed + amount > u64::MAX {
        u64::MAX as int
    } else {
        decayed + amount
    }
}

/// The aggregate that an operation of `amount` at time `now` brings the
/// window to, given the last recorded value and time.
pub open spec fn window_aggregate(
    last_value: u64,
    window: u64,
    last_ts: i64,
    now: i64,
    amount: u64,
) -> int {
    aggregate(decayed_value(last_value, window, sat_sub_i64(now as int, last_ts as int)), amount)
}

/// `a * b` saturated at `u128::MAX`.
pub fn saturating_mul_u128(a: u128, b: u128) -> (r: u128)
    ensures
        r == if a * b > u128::MAX { u128::MAX as int } else { a * b },
{
    match a.checked_mul(b) {
        Some(p) => p,
        None => u128::MAX,
    }
}

/// `a * b` saturated at `u64::MAX`.
pub fn saturating_mul_u64(a: u64, b: u64) -> (r: u64)
    ensures
        r == if a * b > u64::MAX { u64::MAX as int } else { a * b },
{
    match a.checked_mul(b) {
        Some(p) => p,
        None => u64::MAX,
    }
}

/// `a - b` saturated to the `i64` range.
pub fn saturating_sub_i64(a: i64, b: i64) -> (r: i64)
    ensures
        r == sat_sub_i64(a as int, b as int),
{
    match a.checked_sub(b) {
        Some(d) => d,
        None => if b < 0 {
            i64::MAX
        } else {
            i64::MIN
        },
    }
}

/// The low 64 bits of `x` (what `x as u64` gives).
pub fn low_u64(x: u128) -> (r: u64)
    ensures
        r == x % 0x1_0000_0000_0000_0000,
{
    (x % 0x1_0000_0000_0000_0000) as u64
}

proof fn lemma_share_bounded(lv: u64, window: u64, e: int)
    requires
        0 <= e < window,
    ensures
        0 <= lv * (window - e) <= u64::MAX * u64::MAX,
        0 <= (lv * (window - e)) / (window as int) <= lv,
{
    assert(0 <= lv * (window - e) <= lv * (window as int)) by (nonlinear_arith)
        requires
            0 <= e < window,
            0 <= lv,
    ;
    assert(lv * (window as int) <= u64::MAX * u64::MAX) by (nonlinear_arith)
        requires
            0 <= lv <= u64::MAX,
            0 <= window <= u64::MAX,
    ;
    let p = lv * (window - e);
    assert(p / (window as int) <= lv) by (nonlinear_arith)
        requires
            0 <= p <= lv * (window as int),
            window > 0,
    ;
    assert(0 <= p / (window as int)) by (nonlinear_arith)
        requires
            0 <= p,
            window > 0,
    ;
}

/// The decayed value of the window (see `decayed_value`).
pub fn decay(last_value: u64, window: u64, last_ts: i64, now: i64) -> (r: u64)
    ensures
        r == decayed_value(last_value, window, sat_sub_i64(now as int, last_ts as int)),
{
    let elapsed = saturating_sub_i64(now, last_ts);
    let e = bits_from_i64(elapsed);
    if e >= window {
        0
    } else {
        proof {
            lemma_share_bounded(last_value, window, e as int);
        }
        let p = saturating_mul_u128(last_value as u128, (window - e) as u128);
        (p / (window as u128)) as u64
    }
}

/// A decayed value never exceeds the value it decays from.
pub proof fn lemma_decay_bounded(last_value: u64, window: u64, elapsed: int)
    requires
        i64::MIN <= elapsed <= i64::MAX,
    ensures
        0 <= decayed_value(last_value, window, elapsed) <= last_value,
{
    let e = bits_of_i64(elapsed);
    if e < window {
        lemma_share_bounded(last_value, window, e);
    }
}

/// Once a whole window has passed since the last record, nothing of it
/// remains.
pub proof fn lemma_decay_window_over(last_value: u64, window: u64, elapsed: int)
    requires
        elapsed >= 0,
        elapsed >= window,
    ensures
        decayed_value(last_value, window, elapsed) == 0,
{
}

/// The longer the time since the last record (within the non-negative
/// range), the less of it remains.
pub proof fn lemma_decay_monotone(last_value: u64, window: u64, e1: int, e2: int)
    requires
        0 <= e1 <= e2 <= i64::MAX,
    ensures
        decayed_value(last_value, window, e2) <= decayed_value(last_value, window, e1),
{
    if e2 < window {
        let p1 = last_value * (window - e1);
        let p2 = last_value * (window - e2);
        assert(p2 <= p1) by (nonlinear_arith)
            requires
                0 <= e1 <= e2 < window,
                0 <= last_value,
                p1 == last_value * (window - e1),
                p2 == last_value * (window - e2),
        ;
        assert(p2 / (window as int) <= p1 / (window as int)) by (nonlinear_arith)
            requires
                0 <= p2 <= p1,
                window > 0,
        ;
    } else {
        lemma_decay_bounded(last_value, window, e1);
    }
}

} // verus!
