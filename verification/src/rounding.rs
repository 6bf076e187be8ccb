//! Fixed-point units and the one rounding rule that every tax amount goes
//! through.

use vstd::prelude::*;

verus! {

/// How many units of a rate make a rate of one (a rate counts millionths).
pub const RATE_SCALE: i32 = 1_000_000;

/// The nearest whole number of cents to `micro_cents` millionths of a cent,
/// a tie going away from zero.
pub open spec fn round_to_hundredths_spec(micro_cents: int) -> int {
    if micro_cents >= 0 {
        (micro_cents + 500_000) / 1_000_000
    } else {
        -((500_000 - micro_cents) / 1_000_000)
    }
}

/// Rounds an amount given in millionths of a cent to whole cents, half away
/// from zero.
pub fn round_to_hundredths(micro_cents: i128) -> (cents: i128)
    ensures
        cents == round_to_hundredths_spec(micro_cents as int),
{
    if micro_cents >= 0 {
        let whole: i128 = micro_cents / 1_000_000;
        let rest: i128 = micro_cents % 1_000_000;
        if rest >= 500_000 {
            whole + 1
        } else {
            whole
        }
    } else {
        let below: i128 = -(micro_cents + 1);
        let whole: i128 = below / 1_000_000;
        let rest: i128 = below % 1_000_000;
        if rest >= 499_999 {
            -(whole + 1)
        } else {
            -whole
        }
    }
}

} // verus!
