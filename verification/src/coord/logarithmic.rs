//! The integer plan of the key points of a logarithmic axis: how many
//! decades lie between two key points, and how many extra points divide each
//! step. The positions themselves are powers of ten, computed in floating
//! point by the axis.

use super::datetime::{decimal_floor, decimal_magnitude};
use super::numeric::pow10;
use vstd::prelude::*;

verus! {

/// The number of extra key points between two decade key points, where the
/// axis spans `tier_1` decades and may show `max_points` points: none where
/// the decades alone exceed the points; else one less than the largest power
/// of ten not above `1 + (max_points - tier_1) / tier_1`.
pub open spec fn spec_log_tick_density(tier_1: int, max_points: int) -> int {
    if max_points < tier_1 {
        0
    } else {
        pow10(decimal_magnitude(1 + (max_points - tier_1) / tier_1)) - 1
    }
}

/// Whether the density can be computed within `usize`: the search for the
/// power of ten never multiplies past `usize`.
pub open spec fn log_tick_density_ok(tier_1: int, max_points: int) -> bool {
    max_points >= tier_1 ==> pow10(decimal_magnitude(1 + (max_points - tier_1) / tier_1)) * 10
        <= usize::MAX
}

/// The number of decades between two decade key points: the least `c >= 1`
/// such that `tier_1 / c` does not exceed `max_points`.
pub open spec fn spec_log_decade_step(tier_1: int, max_points: int) -> int {
    tier_1 / (max_points + 1) + 1
}

/// The number of extra key points between two decade key points of an axis
/// spanning `tier_1` decades (at least 1) with at most `max_points` points.
pub fn log_tick_density(tier_1: usize, max_points: usize) -> (r: usize)
    requires
        tier_1 >= 1,
        log_tick_density_ok(tier_1 as int, max_points as int),
    ensures
        r == spec_log_tick_density(tier_1 as int, max_points as int),
{
    if max_points < tier_1 {
        return 0;
    }
    let density = 1 + (max_points - tier_1) / tier_1;
    let exp = decimal_floor(density as u64);
    (exp - 1) as usize
}

/// The number of decades between two decade key points of an axis spanning
/// `tier_1` decades with at most `max_points` points: the least `c >= 1` at
/// which `tier_1 / c` points fit.
pub fn log_decade_step(tier_1: usize, max_points: usize) -> (r: usize)
    requires
        tier_1 < usize::MAX || max_points >= 1,
    ensures
        r == spec_log_decade_step(tier_1 as int, max_points as int),
        r >= 1,
        (tier_1 as int) / (r as int) <= max_points,
        r > 1 ==> (tier_1 as int) / (r - 1) > max_points,
{
    let q = (tier_1 as u128) / (max_points as u128 + 1);
    proof {
        let t = tier_1 as int;
        let m1 = max_points + 1;
        let qi = q as int;
        let c = qi + 1;
        assert(qi * m1 <= t < (qi + 1) * m1) by (nonlinear_arith)
            requires
                qi == t / m1,
                m1 >= 1,
        ;
        assert(t / c <= max_points) by (nonlinear_arith)
            requires
                t < c * m1,
                c >= 1,
                m1 == max_points + 1,
        ;
        if qi >= 1 {
            assert(t / qi >= m1) by (nonlinear_arith)
                requires
                    qi * m1 <= t,
                    qi >= 1,
            ;
        }
        assert(qi < usize::MAX) by (nonlinear_arith)
            requires
                qi == t / m1,
                t < usize::MAX || m1 >= 2,
                t <= usize::MAX,
                m1 >= 1,
        ;
    }
    (q + 1) as usize
}

} // verus!
