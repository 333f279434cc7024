//! Derived metrics: ratios of raw counts, in fixed-point units, with a
//! defined answer where the denominator is zero.

use vstd::arithmetic::div_mod::{lemma_fundamental_div_mod, lemma_fundamental_div_mod_converse};
use vstd::prelude::*;

verus! {

/// Thousandths of an event per second, for a time base in nanoseconds.
pub const PER_SECOND: u64 = 1_000_000_000_000;

/// Thousandths of a unit.
pub const THOUSANDTHS: u64 = 1_000;

/// Thousandths of a percent.
pub const PERCENT: u64 = 100_000;

/// Nanoseconds in a hundredth of a millisecond.
pub const NANOS_PER_CENTI_MSEC: u64 = 10_000;

/// `n / d` rounded to the nearest whole number; an exact half rounds up.
pub open spec fn nearest(n: int, d: int) -> int {
    (2 * n + d) / (2 * d)
}

/// `count / per` in units of `1 / scale`, rounded to the nearest unit;
/// undefined where `per` is zero.
pub open spec fn ratio(count: int, scale: int, per: int) -> Option<int> {
    if per == 0 {
        None
    } else {
        Some(nearest(count * scale, per))
    }
}

/// What an executable ratio stands for.
pub open spec fn ratio_value(r: Option<u128>) -> Option<int> {
    match r {
        Some(v) => Some(v as int),
        None => None,
    }
}

/// `nearest(n, d)` is the whole number closest to `n / d`: it is off by at
/// most half a unit, and by exactly half a unit only upwards.
pub proof fn lemma_nearest_is_closest(n: int, d: int)
    requires
        d > 0,
    ensures
        -d < 2 * (nearest(n, d) * d - n) <= d,
{
    let q = nearest(n, d);
    lemma_fundamental_div_mod(2 * n + d, 2 * d);
    let r = (2 * n + d) % (2 * d);
    assert(0 <= r < 2 * d);
    assert(2 * n + d == (2 * d) * q + r);
    assert((2 * d) * q == 2 * (q * d)) by (nonlinear_arith);
}

/// `count / per` in units of `1 / scale`. A zero denominator gives `None`
/// and never divides.
pub fn scaled_ratio(count: u64, scale: u64, per: u64) -> (r: Option<u128>)
    ensures
        ratio_value(r) == ratio(count as int, scale as int, per as int),
{
    if per == 0 {
        return None;
    }
    assert(count * scale <= 0xffff_ffff_ffff_ffff * 0xffff_ffff_ffff_ffff) by (nonlinear_arith)
        requires
            0 <= count <= 0xffff_ffff_ffff_ffff,
            0 <= scale <= 0xffff_ffff_ffff_ffff,
    ;
    let n: u128 = (count as u128) * (scale as u128);
    let d: u128 = per as u128;
    let q: u128 = n / d;
    let rem: u128 = n % d;
    let up: u128 = if 2 * rem >= d {
        1
    } else {
        0
    };
    proof {
        lemma_fundamental_div_mod(n as int, d as int);
        assert(q * d <= n) by (nonlinear_arith)
            requires
                n == d * q + rem,
                rem >= 0,
        ;
        assert(q <= n) by (nonlinear_arith)
            requires
                q * d <= n,
                d >= 1,
                q >= 0,
        ;
        let r2 = 2 * rem + d - up * (2 * d);
        assert(2 * n + d == (q + up) * (2 * d) + r2) by (nonlinear_arith)
            requires
                n == d * q + rem,
                r2 == 2 * rem + d - up * (2 * d),
        ;
        lemma_fundamental_div_mod_converse(2 * n + d, 2 * d, q + up, r2);
    }
    Some(q + up)
}

/// The task clock in hundredths of a millisecond.
pub fn task_clock_msec(task_clock_ns: u64) -> (hundredths: u128)
    ensures
        hundredths == nearest(task_clock_ns as int, NANOS_PER_CENTI_MSEC as int),
{
    match scaled_ratio(task_clock_ns, 1, NANOS_PER_CENTI_MSEC) {
        Some(v) => v,
        None => 0,
    }
}

/// Events per second of task clock, in thousandths; undefined where the task
/// clock is zero.
pub fn rate_per_sec(count: u64, task_clock_ns: u64) -> (r: Option<u128>)
    ensures
        ratio_value(r) == ratio(count as int, PER_SECOND as int, task_clock_ns as int),
{
    scaled_ratio(count, PER_SECOND, task_clock_ns)
}

/// Cycles per nanosecond of task clock, which is the frequency in GHz, in
/// thousandths; undefined where the task clock is zero.
pub fn frequency_ghz(cycles: u64, task_clock_ns: u64) -> (r: Option<u128>)
    ensures
        ratio_value(r) == ratio(cycles as int, THOUSANDTHS as int, task_clock_ns as int),
{
    scaled_ratio(cycles, THOUSANDTHS, task_clock_ns)
}

/// Retired instructions per cycle, in thousandths; undefined where no cycle
/// was counted.
pub fn instructions_per_cycle(instructions: u64, cycles: u64) -> (r: Option<u128>)
    ensures
        ratio_value(r) == ratio(instructions as int, THOUSANDTHS as int, cycles as int),
{
    scaled_ratio(instructions, THOUSANDTHS, cycles)
}

/// `part` as a percentage of `whole`, in thousandths of a percent; undefined
/// where `whole` is zero.
pub fn percentage(part: u64, whole: u64) -> (r: Option<u128>)
    ensures
        ratio_value(r) == ratio(part as int, PERCENT as int, whole as int),
{
    scaled_ratio(part, PERCENT, whole)
}

} // verus!
