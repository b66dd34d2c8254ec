//! The arithmetic of the time axes: the period between the key points of a
//! time span, and the key points of date, month and year axes, on plain
//! integers (nanoseconds, days, years and months).

use super::numeric::{align_up, pow10, trunc_rem};
use vstd::arithmetic::div_mod::{
    lemma_div_denominator, lemma_fundamental_div_mod, lemma_mod_multiples_basic, lemma_mod_self_0,
    lemma_small_mod,
};
use vstd::prelude::*;

verus! {

/// The scale and unit index that come after unit `idx` of a table of `len`
/// units at `scale`: the next unit, or, once the table is used up, the first
/// unit at `scale * base`.
pub open spec fn next_unit(scale: int, idx: int, len: int, base: int) -> (int, int) {
    if idx + 1 == len {
        (scale * base, 0)
    } else {
        (scale, idx + 1)
    }
}

/// Whether the period `units[idx] * scale` is still too short: more than
/// `max_points` such periods fit in `total` (counted as `total / scale`
/// against `max_points * units[idx]`).
pub open spec fn period_too_short(total: int, max: int, units: Seq<u64>, scale: int, idx: int) -> bool {
    total / scale > max * units[idx]
}

/// The period found by trying the units of `units` in turn, from unit `idx`
/// at `scale`, within `fuel` steps: the first one that is not too short.
pub open spec fn period_search(
    total: int,
    max: int,
    units: Seq<u64>,
    base: int,
    scale: int,
    idx: int,
    fuel: nat,
) -> int
    decreases fuel,
{
    if fuel == 0 || !period_too_short(total, max, units, scale, idx) {
        units[idx] * scale
    } else {
        let next = next_unit(scale, idx, units.len() as int, base);
        period_search(total, max, units, base, next.0, next.1, (fuel - 1) as nat)
    }
}

/// Whether every product that the search computes fits `u64`: the scale,
/// `max * units[idx]` at each step, the scale times `base` when the table is
/// used up, and the period found.
pub open spec fn period_search_fits(
    total: int,
    max: int,
    units: Seq<u64>,
    base: int,
    scale: int,
    idx: int,
    fuel: nat,
) -> bool
    decreases fuel,
{
    &&& scale <= u64::MAX
    &&& max * units[idx] <= u64::MAX
    &&& if fuel == 0 || !period_too_short(total, max, units, scale, idx) {
        units[idx] * scale <= u64::MAX
    } else {
        let next = next_unit(scale, idx, units.len() as int, base);
        &&& next.0 <= u64::MAX
        &&& period_search_fits(total, max, units, base, next.0, next.1, (fuel - 1) as nat)
    }
}

/// Whether `units` is a table of units: at least one, the first at least 1,
/// strictly increasing, and the last below the first times `base`.
pub open spec fn unit_table(units: Seq<u64>, base: int) -> bool {
    &&& units.len() >= 1
    &&& units[0] >= 1
    &&& forall|i: int, j: int| 0 <= i < j < units.len() ==> units[i] < units[j]
    &&& base * units[0] > units[units.len() - 1]
}

/// Find the period for `total` nanoseconds and at most `max_points` points
/// from the table `units`, starting at `start` and multiplying by `base` each
/// time the table is used up.
fn determine_period(total: u64, start: u64, units: &[u64], base: u64, max_points: usize) -> (r: u64)
    requires
        unit_table(units@, base as int),
        start >= 1,
        base >= 1,
        max_points >= 1 || total == 0,
        period_search_fits(
            total as int,
            max_points as int,
            units@,
            base as int,
            start as int,
            0,
            (total + 1) as nat,
        ),
    ensures
        r == period_search(
            total as int,
            max_points as int,
            units@,
            base as int,
            start as int,
            0,
            (total + 1) as nat,
        ),
        r >= 1,
        total / r <= max_points,
{
    let ghost fuel0 = (total + 1) as nat;
    let ghost mut n: int = 0;
    let mut actual = start;
    let mut idx: usize = 0;
    let max = max_points as u64;
    proof {
        assert(actual * units@[0] >= 1) by (nonlinear_arith)
            requires
                actual >= 1,
                units@[0] >= 1,
        ;
    }
    while total / actual > max * units[idx]
        invariant
            unit_table(units@, base as int),
            base >= 1,
            max == max_points,
            max_points >= 1 || total == 0,
            0 <= idx < units@.len(),
            actual >= 1,
            0 <= n <= total,
            actual * units@[idx as int] >= n + 1,
            period_search(total as int, max as int, units@, base as int, start as int, 0, fuel0)
                == period_search(
                total as int,
                max as int,
                units@,
                base as int,
                actual as int,
                idx as int,
                (fuel0 - n) as nat,
            ),
            period_search_fits(
                total as int,
                max as int,
                units@,
                base as int,
                actual as int,
                idx as int,
                (fuel0 - n) as nat,
            ),
            fuel0 == total + 1,
        decreases total - n,
    {
        let ghost old_actual = actual as int;
        let ghost old_unit = units@[idx as int] as int;
        proof {
            if max == 0 {
                assert(total == 0);
                assert(total / actual == 0);
            }
            assert(max * old_unit >= old_unit) by (nonlinear_arith)
                requires
                    max >= 1,
                    old_unit >= 0,
            ;
            assert(total / actual >= old_unit + 1);
            assert(total >= actual * (old_unit + 1)) by (nonlinear_arith)
                requires
                    total / actual >= old_unit + 1,
                    actual >= 1,
            ;
            assert(actual * (old_unit + 1) == actual * old_unit + actual) by (nonlinear_arith);
        }
        idx = idx + 1;
        if idx == units.len() {
            idx = 0;
            actual = actual * base;
            proof {
                assert(actual >= 1) by (nonlinear_arith)
                    requires
                        actual == old_actual * base,
                        old_actual >= 1,
                        base >= 1,
                ;
                assert(old_actual * (base * units@[0]) >= old_actual * (old_unit + 1))
                    by (nonlinear_arith)
                    requires
                        base * units@[0] >= old_unit + 1,
                        old_actual >= 1,
                ;
                assert(actual * units@[0] == old_actual * (base * units@[0])) by (nonlinear_arith)
                    requires
                        actual == old_actual * base,
                ;
            }
        } else {
            proof {
                assert(units@[idx as int] >= old_unit + 1);
                assert(actual * units@[idx as int] >= actual * (old_unit + 1)) by (nonlinear_arith)
                    requires
                        units@[idx as int] >= old_unit + 1,
                        actual >= 1,
                ;
            }
        }
        proof {
            n = n + 1;
        }
    }
    proof {
        let u = units@[idx as int] as int;
        assert(u >= 1) by {
            assert(units@[0] <= units@[idx as int] || idx == 0);
        }
        lemma_div_denominator(total as int, actual as int, u);
        assert((total as int) / (actual as int) <= max * u);
        assert(((total as int) / (actual as int)) / u <= max) by (nonlinear_arith)
            requires
                (total as int) / (actual as int) <= max * u,
                u >= 1,
                max >= 0,
        ;
        assert(u * actual == actual * u) by (nonlinear_arith);
        assert(u * actual >= 1) by (nonlinear_arith)
            requires
                u >= 1,
                actual >= 1,
        ;
    }
    units[idx] * actual
}

/// The number of decimal digits of `q` after the first: the largest `k` with
/// `10^k <= q`, or 0 where `q < 10`.
pub open spec fn decimal_magnitude(q: int) -> nat
    decreases q,
{
    if q < 10 {
        0
    } else {
        1 + decimal_magnitude(q / 10)
    }
}

/// The first guess for the period of `total` nanoseconds and at most
/// `max_points` points: the largest power of ten not above
/// `total / max_points`, and at least 1.
pub open spec fn initial_period(total: int, max: int) -> int {
    if max == 0 {
        1
    } else {
        pow10(decimal_magnitude(total / max))
    }
}

/// One second, in nanoseconds.
pub open spec fn second_ns() -> int {
    1_000_000_000
}

/// One hour, in nanoseconds.
pub open spec fn hour_ns() -> int {
    3_600_000_000_000
}

/// One day, in nanoseconds.
pub open spec fn day_ns() -> int {
    86_400_000_000_000
}

/// The unit table and the base of the search for a first guess `a`: decimal
/// steps below a second, then seconds and minutes, then hours, then days,
/// then tens of days.
pub open spec fn period_plan(a: int) -> (Seq<u64>, int, int) {
    if a < second_ns() {
        (seq![1u64, 2, 5], 10, a)
    } else if a < hour_ns() {
        (seq![1u64, 2, 5, 10, 15, 20, 30], 60, second_ns())
    } else if a < day_ns() {
        (seq![1u64, 2, 4, 8, 12], 24, hour_ns())
    } else if a < day_ns() * 10 {
        (seq![1u64, 2, 5, 7], 10, day_ns())
    } else {
        (seq![1u64, 2, 5], 10, day_ns() * 10)
    }
}

/// The period between the key points of a span of `total` nanoseconds with at
/// most `max_points` points, where one can be found: spans that call for a
/// period of a day or more have none when only sub-daily periods are wanted.
pub open spec fn period_per_point(total: int, max: int, sub_daily: bool) -> Option<int> {
    let a = initial_period(total, max);
    let plan = period_plan(a);
    if sub_daily && a >= day_ns() {
        None
    } else {
        Some(period_search(total, max, plan.0, plan.1, plan.2, 0, (total + 1) as nat))
    }
}

/// The inputs on which the period can be computed: a span with points to put
/// in it (or an empty span), and all the products of the search within `u64`.
pub open spec fn period_per_point_ok(total: int, max: int, sub_daily: bool) -> bool {
    let a = initial_period(total, max);
    let plan = period_plan(a);
    &&& max >= 1 || total == 0
    &&& (sub_daily && a >= day_ns()) || period_search_fits(
        total,
        max,
        plan.0,
        plan.1,
        plan.2,
        0,
        (total + 1) as nat,
    )
}

/// The largest power of ten not above `q`, and at least 1.
pub(crate) fn decimal_floor(q: u64) -> (r: u64)
    ensures
        r == pow10(decimal_magnitude(q as int)),
        1 <= r,
        q >= 1 ==> r <= q,
{
    let mut rest = q;
    let mut scale: u64 = 1;
    while rest >= 10
        invariant
            scale >= 1,
            scale * pow10(decimal_magnitude(rest as int)) == pow10(decimal_magnitude(q as int)),
            scale * rest <= q,
            q >= 1 ==> rest >= 1,
        decreases rest,
    {
        proof {
            let k = decimal_magnitude((rest / 10) as int);
            assert(decimal_magnitude(rest as int) == 1 + k);
            assert(pow10(k + 1) == 10 * pow10(k));
            assert(scale * (10 * pow10(k)) == (scale * 10) * pow10(k)) by (nonlinear_arith);
            assert((scale * 10) * (rest / 10) <= scale * rest) by (nonlinear_arith)
                requires
                    scale >= 1,
                    rest >= 10,
            ;
            assert(scale * 10 <= scale * rest) by (nonlinear_arith)
                requires
                    scale >= 1,
                    rest >= 10,
            ;
        }
        scale = scale * 10;
        rest = rest / 10;
    }
    proof {
        assert(decimal_magnitude(rest as int) == 0);
        assert(pow10(0) == 1);
        if q >= 1 {
            assert(scale <= scale * rest) by (nonlinear_arith)
                requires
                    scale >= 1,
                    rest >= 1,
            ;
        }
    }
    scale
}

/// Whether the search for the period of `total` nanoseconds and at most
/// `max_points` points, through the table `units` from `start`, keeps every
/// product within `u64`: the check of `period_search_fits`.
fn search_fits(total: u64, start: u64, units: &[u64], base: u64, max_points: usize) -> (r: bool)
    requires
        unit_table(units@, base as int),
        start >= 1,
        base >= 1,
        max_points >= 1 || total == 0,
    ensures
        r == period_search_fits(
            total as int,
            max_points as int,
            units@,
            base as int,
            start as int,
            0,
            (total + 1) as nat,
        ),
{
    let ghost fuel0 = (total + 1) as nat;
    let ghost fits0 = period_search_fits(
        total as int,
        max_points as int,
        units@,
        base as int,
        start as int,
        0,
        fuel0,
    );
    let ghost mut n: int = 0;
    let mut actual = start;
    let mut idx: usize = 0;
    let max = max_points as u64;
    proof {
        assert(actual * units@[0] >= 1) by (nonlinear_arith)
            requires
                actual >= 1,
                units@[0] >= 1,
        ;
    }
    loop
        invariant
            unit_table(units@, base as int),
            base >= 1,
            max == max_points,
            max_points >= 1 || total == 0,
            0 <= idx < units@.len(),
            actual >= 1,
            0 <= n <= total,
            actual * units@[idx as int] >= n + 1,
            fits0 == period_search_fits(
                total as int,
                max as int,
                units@,
                base as int,
                actual as int,
                idx as int,
                (fuel0 - n) as nat,
            ),
            fits0 == period_search_fits(
                total as int,
                max_points as int,
                units@,
                base as int,
                start as int,
                0,
                fuel0,
            ),
            fuel0 == total + 1,
        decreases total - n,
    {
        let ghost fuel = (fuel0 - n) as nat;
        proof {
            assert(fuel >= 1);
            assert(units@[idx as int] * actual == actual * units@[idx as int]) by (nonlinear_arith);
            assert(fits0 == (max * units@[idx as int] <= u64::MAX && if !period_too_short(
                total as int,
                max as int,
                units@,
                actual as int,
                idx as int,
            ) {
                units@[idx as int] * actual <= u64::MAX
            } else {
                let next = next_unit(actual as int, idx as int, units@.len() as int, base as int);
                &&& next.0 <= u64::MAX
                &&& period_search_fits(
                    total as int,
                    max as int,
                    units@,
                    base as int,
                    next.0,
                    next.1,
                    (fuel - 1) as nat,
                )
            }));
        }
        let limit = match max.checked_mul(units[idx]) {
            Some(m) => m,
            None => {
                return false;
            },
        };
        if total / actual <= limit {
            return actual.checked_mul(units[idx]).is_some();
        }
        let ghost old_actual = actual as int;
        let ghost old_unit = units@[idx as int] as int;
        proof {
            if max == 0 {
                assert(total == 0);
                assert(total / actual == 0);
            }
            assert(max * old_unit >= old_unit) by (nonlinear_arith)
                requires
                    max >= 1,
                    old_unit >= 0,
            ;
            assert(total / actual >= old_unit + 1);
            assert(total >= actual * (old_unit + 1)) by (nonlinear_arith)
                requires
                    total / actual >= old_unit + 1,
                    actual >= 1,
            ;
            assert(actual * (old_unit + 1) == actual * old_unit + actual) by (nonlinear_arith);
            assert(units[idx as int] * actual == actual * units[idx as int]) by (nonlinear_arith);
        }
        idx = idx + 1;
        if idx == units.len() {
            idx = 0;
            actual = match actual.checked_mul(base) {
                Some(a) => a,
                None => {
                    return false;
                },
            };
            proof {
                assert(actual >= 1) by (nonlinear_arith)
                    requires
                        actual == old_actual * base,
                        old_actual >= 1,
                        base >= 1,
                ;
                assert(old_actual * (base * units@[0]) >= old_actual * (old_unit + 1))
                    by (nonlinear_arith)
                    requires
                        base * units@[0] >= old_unit + 1,
                        old_actual >= 1,
                ;
                assert(actual * units@[0] == old_actual * (base * units@[0])) by (nonlinear_arith)
                    requires
                        actual == old_actual * base,
                ;
            }
        } else {
            proof {
                assert(units@[idx as int] >= old_unit + 1);
                assert(actual * units@[idx as int] >= actual * (old_unit + 1)) by (nonlinear_arith)
                    requires
                        units@[idx as int] >= old_unit + 1,
                        actual >= 1,
                ;
            }
        }
        proof {
            n = n + 1;
        }
    }
}

/// Whether the period of a span of `total_ns` nanoseconds with at most
/// `max_points` points can be computed: the check of `period_per_point_ok`.
pub fn period_per_point_fits(total_ns: u64, max_points: usize, sub_daily: bool) -> (r: bool)
    ensures
        r == period_per_point_ok(total_ns as int, max_points as int, sub_daily),
{
    if max_points == 0 && total_ns != 0 {
        return false;
    }
    let actual_ns_per_point: u64 = if max_points == 0 {
        1
    } else {
        decimal_floor(total_ns / (max_points as u64))
    };
    let ghost plan = period_plan(actual_ns_per_point as int);
    if actual_ns_per_point < 1_000_000_000 {
        let units: [u64; 3] = [1, 2, 5];
        proof {
            assert(units@ =~= plan.0);
        }
        search_fits(total_ns, actual_ns_per_point, &units, 10, max_points)
    } else if actual_ns_per_point < 3_600_000_000_000 {
        let units: [u64; 7] = [1, 2, 5, 10, 15, 20, 30];
        proof {
            assert(units@ =~= plan.0);
        }
        search_fits(total_ns, 1_000_000_000, &units, 60, max_points)
    } else if actual_ns_per_point < 86_400_000_000_000 {
        let units: [u64; 5] = [1, 2, 4, 8, 12];
        proof {
            assert(units@ =~= plan.0);
        }
        search_fits(total_ns, 3_600_000_000_000, &units, 24, max_points)
    } else if sub_daily {
        true
    } else if actual_ns_per_point < 864_000_000_000_000 {
        let units: [u64; 4] = [1, 2, 5, 7];
        proof {
            assert(units@ =~= plan.0);
        }
        search_fits(total_ns, 86_400_000_000_000, &units, 10, max_points)
    } else {
        let units: [u64; 3] = [1, 2, 5];
        proof {
            assert(units@ =~= plan.0);
        }
        search_fits(total_ns, 864_000_000_000_000, &units, 10, max_points)
    }
}

/// The period between the key points of a span of `total_ns` nanoseconds
/// with at most `max_points` points: a round number of nanoseconds, seconds,
/// minutes, hours or days, or `None` where only sub-daily periods are wanted
/// and the span calls for a longer one.
pub fn compute_period_per_point(total_ns: u64, max_points: usize, sub_daily: bool) -> (r: Option<
    u64,
>)
    requires
        period_per_point_ok(total_ns as int, max_points as int, sub_daily),
    ensures
        r matches Some(p) ==> period_per_point(total_ns as int, max_points as int, sub_daily)
            == Some(p as int),
        r is None ==> period_per_point(total_ns as int, max_points as int, sub_daily) is None,
        r matches Some(p) ==> p >= 1 && total_ns / p <= max_points,
        r is None <==> (sub_daily && initial_period(total_ns as int, max_points as int) >= day_ns()),
{
    let actual_ns_per_point: u64 = if max_points == 0 {
        1
    } else {
        decimal_floor(total_ns / (max_points as u64))
    };
    let ghost plan = period_plan(actual_ns_per_point as int);
    if actual_ns_per_point < 1_000_000_000 {
        let units: [u64; 3] = [1, 2, 5];
        proof {
            assert(units@ =~= plan.0);
        }
        Some(determine_period(total_ns, actual_ns_per_point, &units, 10, max_points))
    } else if actual_ns_per_point < 3_600_000_000_000 {
        let units: [u64; 7] = [1, 2, 5, 10, 15, 20, 30];
        proof {
            assert(units@ =~= plan.0);
        }
        Some(determine_period(total_ns, 1_000_000_000, &units, 60, max_points))
    } else if actual_ns_per_point < 86_400_000_000_000 {
        let units: [u64; 5] = [1, 2, 4, 8, 12];
        proof {
            assert(units@ =~= plan.0);
        }
        Some(determine_period(total_ns, 3_600_000_000_000, &units, 24, max_points))
    } else if !sub_daily {
        if actual_ns_per_point < 864_000_000_000_000 {
            let units: [u64; 4] = [1, 2, 5, 7];
            proof {
                assert(units@ =~= plan.0);
            }
            Some(determine_period(total_ns, 86_400_000_000_000, &units, 10, max_points))
        } else {
            let units: [u64; 3] = [1, 2, 5];
            proof {
                assert(units@ =~= plan.0);
            }
            Some(determine_period(total_ns, 864_000_000_000_000, &units, 10, max_points))
        }
    } else {
        None
    }
}

/// A sequence of (year, month) pairs, as mathematical integers.
pub open spec fn ym_view(s: Seq<(i32, u32)>) -> Seq<(int, int)> {
    s.map_values(|p: (i32, u32)| (p.0 as int, p.1 as int))
}

/// The index of a month counted from January of year 0.
pub open spec fn month_index(year: int, month: int) -> int {
    year * 12 + month - 1
}

/// The year and the month (1 to 12) of a month index.
pub open spec fn month_of_index(m: int) -> (int, int) {
    (m / 12, m % 12 + 1)
}

/// The months from index `start` to index `end`, `step` months apart.
pub open spec fn months_between(start: int, end: int, step: int) -> Seq<(int, int)> {
    if end < start {
        Seq::empty()
    } else {
        Seq::new(((end - start) / step + 1) as nat, |k: int| month_of_index(start + k * step))
    }
}

/// The month after `(year, month)`.
pub open spec fn spec_next_month(year: int, month: int) -> (int, int) {
    if month == 12 {
        (year + 1, 1)
    } else {
        (year, month + 1)
    }
}

/// The month before `(year, month)`.
pub open spec fn spec_previous_month(year: int, month: int) -> (int, int) {
    if month == 1 {
        (year - 1, 12)
    } else {
        (year, month - 1)
    }
}

/// The month after `(year, month)`: the step of a monthly axis.
pub fn next_month(year: i32, month: u32) -> (r: (i32, u32))
    requires
        1 <= month <= 12,
        month == 12 ==> year < i32::MAX,
    ensures
        (r.0 as int, r.1 as int) == spec_next_month(year as int, month as int),
{
    if month == 12 {
        (year + 1, 1)
    } else {
        (year, month + 1)
    }
}

/// The month before `(year, month)`: the step back of a monthly axis.
pub fn previous_month(year: i32, month: u32) -> (r: (i32, u32))
    requires
        1 <= month <= 12,
        month == 1 ==> year > i32::MIN,
    ensures
        (r.0 as int, r.1 as int) == spec_previous_month(year as int, month as int),
{
    if month == 1 {
        (year - 1, 12)
    } else {
        (year, month - 1)
    }
}

/// The first month that a month axis starting at the date
/// `(year, month, day)` shows: that month where the date is its first day,
/// else the next month.
pub open spec fn first_shown_month(year: int, month: int, day: int) -> (int, int) {
    if day != 1 {
        spec_next_month(year, month)
    } else {
        (year, month)
    }
}

/// The months `step` apart from `(start_year, start_month)` up to
/// `(end_year, end_month)`.
fn generate_month_key_points(
    start_year: i32,
    start_month: u32,
    end_year: i32,
    end_month: u32,
    step: u32,
) -> (r: Vec<(i32, u32)>)
    requires
        1 <= start_month <= 12,
        1 <= end_month <= 12,
        1 <= step <= 6,
        end_year < i32::MAX,
    ensures
        ym_view(r@) == months_between(
            month_index(start_year as int, start_month as int),
            month_index(end_year as int, end_month as int),
            step as int,
        ),
{
    let ghost start = month_index(start_year as int, start_month as int);
    let ghost end = month_index(end_year as int, end_month as int);
    let ghost all = months_between(start, end, step as int);
    let mut year = start_year;
    let mut month = start_month;
    let mut ret: Vec<(i32, u32)> = Vec::new();
    let ghost mut k: int = 0;
    proof {
        lemma_month_walk(start, end, step as int, 0);
    }
    while end_year > year || (end_year == year && end_month >= month)
        invariant
            1 <= month <= 12,
            1 <= end_month <= 12,
            1 <= step <= 6,
            end_year < i32::MAX,
            k >= 0,
            month_index(year as int, month as int) == start + k * step,
            month_of_index(start + k * step) == (year as int, month as int),
            start + k * step <= end <==> k < all.len(),
            start + k * step > end ==> k == all.len(),
            start == month_index(start_year as int, start_month as int),
            end == month_index(end_year as int, end_month as int),
            all == months_between(start, end, step as int),
            ym_view(ret@) == all.take(k),
        decreases end + step - (start + k * step),
    {
        let ghost before = ret@;
        ret.push((year, month));
        proof {
            assert(all[k] == month_of_index(start + k * step));
            assert(ret@ == before.push((year, month)));
            assert(ym_view(ret@) =~= before.map_values(
                |p: (i32, u32)| (p.0 as int, p.1 as int),
            ).push((year as int, month as int)));
            assert(all.take(k + 1) =~= all.take(k).push(all[k]));
            assert(ym_view(ret@) =~= all.take(k + 1));
            assert(start + (k + 1) * step == start + k * step + step) by (nonlinear_arith);
            lemma_month_walk(start, end, step as int, k + 1);
        }
        month = month + step;
        if month >= 13 {
            year = year + (month / 12) as i32;
            month = month % 12;
        }
        proof {
            k = k + 1;
        }
    }
    proof {
        assert(all.take(k) =~= all);
    }
    ret
}

/// Walking from the month index `start` by `step` months, the walk is at or
/// before `end` after `k` steps exactly when `k` is below the number of
/// months between them.
proof fn lemma_month_walk(start: int, end: int, step: int, k: int)
    requires
        step >= 1,
        k >= 0,
    ensures
        start + k * step <= end <==> k < months_between(start, end, step).len(),
{
    if end >= start {
        let c = (end - start) / step + 1;
        assert((c - 1) * step <= end - start < c * step) by (nonlinear_arith)
            requires
                c == (end - start) / step + 1,
                step >= 1,
                end - start >= 0,
        ;
        if k < c {
            assert(k * step <= (c - 1) * step) by (nonlinear_arith)
                requires
                    k <= c - 1,
                    step >= 1,
            ;
        } else {
            assert(k * step >= c * step) by (nonlinear_arith)
                requires
                    k >= c,
                    step >= 1,
            ;
        }
    } else {
        assert(k * step >= 0) by (nonlinear_arith)
            requires
                k >= 0,
                step >= 1,
        ;
    }
}

/// The most key points that `max` asks for: `max`, and at least one.
pub open spec fn point_cap(max: int) -> int {
    if max <= 0 {
        1
    } else {
        max
    }
}

/// Whether `n` years with a key point every `f` years give more than `cap`
/// points: the points number `(n - 1) / f + 1`.
pub open spec fn too_many_years(n: int, f: int, cap: int) -> bool {
    n >= 1 && (n - 1) / f >= cap
}

/// The scale of the year key points for `n` years and at most `cap` points,
/// searched from `e` up within `fuel` steps: the first power of ten `e` at
/// which a point every `10 e` years gives at most `cap` points.
pub open spec fn yearly_scale(n: int, cap: int, e: int, fuel: nat) -> int
    decreases fuel,
{
    if fuel == 0 || !too_many_years(n, e * 10, cap) {
        e
    } else {
        yearly_scale(n, cap, e * 10, (fuel - 1) as nat)
    }
}

/// Whether the search for the scale of the year key points keeps `10 e`
/// within `usize` at each step and ends before its fuel runs out.
pub open spec fn yearly_scale_fits(n: int, cap: int, e: int, fuel: nat) -> bool
    decreases fuel,
{
    &&& e * 10 <= usize::MAX
    &&& (too_many_years(n, e * 10, cap) ==> fuel > 0 && yearly_scale_fits(
        n,
        cap,
        e * 10,
        (fuel - 1) as nat,
    ))
}

/// The number of years between two year key points: the first of 1, 2, 5 and
/// 10 times the scale `e` at which `n` years give at most `cap` points.
pub open spec fn yearly_freq(n: int, cap: int, e: int) -> int {
    if !too_many_years(n, e, cap) {
        e
    } else if !too_many_years(n, 2 * e, cap) {
        2 * e
    } else if !too_many_years(n, 5 * e, cap) {
        5 * e
    } else {
        10 * e
    }
}

/// The last year that the year key points from `(start_year, start_month)`
/// to `(end_year, end_month)` may reach: the end year, or the year before
/// where the end month comes before the start month.
pub open spec fn last_key_year(start_month: int, end_year: int, end_month: int) -> int {
    if start_month > end_month {
        end_year - 1
    } else {
        end_year
    }
}

/// The number of years, as the `usize` that the years axis counts with.
pub open spec fn year_count(start_year: int, last_year: int) -> int {
    (last_year - start_year + 1) as usize as int
}

/// The distance between the year key points.
pub open spec fn year_key_step(max: int, start_year: int, last_year: int) -> int {
    let n = year_count(start_year, last_year);
    let cap = point_cap(max);
    yearly_freq(n, cap, yearly_scale(n, cap, 1, 20))
}

/// The years of the year key points: from `start_year`, one every
/// `year_key_step` years, up to `last_year`.
pub open spec fn key_years(max: int, start_year: int, last_year: int) -> Seq<int> {
    let f = year_key_step(max, start_year, last_year);
    if last_year < start_year {
        Seq::empty()
    } else {
        Seq::new(((last_year - start_year) / f + 1) as nat, |k: int| start_year + k * f)
    }
}

/// The inputs for which the year key points can be computed within the
/// integer types: the number of years fits `i32`, the search for the scale
/// stays within `usize`, and where there are years, the step and the year
/// after the last one fit `i32`.
pub open spec fn key_years_ok(max: int, start_year: int, last_year: int) -> bool {
    let n = year_count(start_year, last_year);
    let f = year_key_step(max, start_year, last_year);
    &&& i32::MIN <= last_year
    &&& i32::MIN <= last_year - start_year
    &&& last_year - start_year + 1 <= i32::MAX
    &&& yearly_scale_fits(n, point_cap(max), 1, 20)
    &&& start_year <= last_year ==> 1 <= f <= i32::MAX && start_year + ((last_year - start_year)
        / f + 1) * f <= i32::MAX
}

/// `10^k` grows with `k`, and `10^20` is beyond `u64`.
proof fn lemma_pow10_facts(k: nat)
    ensures
        pow10(k) >= 1,
        k >= 20 ==> pow10(k) > u64::MAX,
    decreases k,
{
    if k > 0 {
        lemma_pow10_facts((k - 1) as nat);
        if k == 20 {
            reveal_with_fuel(pow10, 21);
        }
    }
}

/// The years of the key points of a yearly axis from
/// `(start_year, start_month)` to `(end_year, end_month)` with at most
/// `max_points` points: the key points are the first days of `start_month`
/// in these years.
pub fn generate_yearly_keypoints(
    max_points: usize,
    start_year: i32,
    start_month: u32,
    end_year: i32,
    end_month: u32,
) -> (r: Vec<i32>)
    requires
        key_years_ok(
            max_points as int,
            start_year as int,
            last_key_year(start_month as int, end_year as int, end_month as int),
        ),
    ensures
        r@.map_values(|y: i32| y as int) == key_years(
            max_points as int,
            start_year as int,
            last_key_year(start_month as int, end_year as int, end_month as int),
        ),
        r@.len() <= point_cap(max_points as int),
{
    let ghost last = last_key_year(start_month as int, end_year as int, end_month as int);
    let mut end_year = end_year;
    if start_month > end_month {
        end_year = end_year - 1;
    }
    let span = end_year - start_year + 1;
    let n = (#[verifier::truncate] (span as usize));
    let cap: usize = if max_points == 0 {
        1
    } else {
        max_points
    };
    let ghost ni = year_count(start_year as int, last);
    let mut exp10: usize = 1;
    let ghost mut j: nat = 0;
    proof {
        reveal_with_fuel(pow10, 1);
    }
    while n >= 1 && (n - 1) / (exp10 * 10) >= cap
        invariant
            n == ni,
            cap == point_cap(max_points as int),
            exp10 == pow10(j),
            exp10 >= 1,
            j <= 19,
            yearly_scale(ni, cap as int, 1, 20) == yearly_scale(
                ni,
                cap as int,
                exp10 as int,
                (20 - j) as nat,
            ),
            yearly_scale_fits(ni, cap as int, exp10 as int, (20 - j) as nat),
        decreases 19 - j,
    {
        proof {
            lemma_pow10_facts(j + 1);
            assert(pow10(j + 1) == 10 * pow10(j));
        }
        exp10 = exp10 * 10;
        proof {
            lemma_pow10_facts(j + 1);
        }
        proof {
            j = j + 1;
            lemma_pow10_facts(j + 1);
            if j + 1 >= 20 {
                assert(pow10(j + 1) > u64::MAX);
                assert(pow10(j + 1) == 10 * pow10(j));
            }
        }
    }
    assert(!too_many_years(n as int, exp10 * 10, cap as int));
    let tries: [usize; 4] = [1, 2, 5, 10];
    let mut freq: usize = exp10;
    let mut t: usize = 0;
    while t < 4
        invariant_except_break
            0 <= t <= 4,
            forall|i: int|
                0 <= i < t ==> too_many_years(n as int, exp10 * tries@[i], cap as int),
            t > 0 ==> freq == tries@[t - 1] * exp10,
        invariant
            tries@ == seq![1usize, 2, 5, 10],
            exp10 * 10 <= usize::MAX,
            exp10 >= 1,
            !too_many_years(n as int, exp10 * 10, cap as int),
        ensures
            freq == yearly_freq(n as int, cap as int, exp10 as int),
            !too_many_years(n as int, freq as int, cap as int),
        decreases 4 - t,
    {
        assert(tries@[t as int] * exp10 <= 10 * exp10) by (nonlinear_arith)
            requires
                tries@[t as int] <= 10,
                exp10 >= 1,
        ;
        freq = tries[t] * exp10;
        if n == 0 || (n - 1) / (exp10 * tries[t]) < cap {
            proof {
                assert(exp10 * 1 == exp10 && exp10 * 2 == 2 * exp10 && exp10 * 5 == 5 * exp10
                    && exp10 * 10 == 10 * exp10) by (nonlinear_arith);
                assert(exp10 * tries@[t as int] == tries@[t as int] * exp10) by (nonlinear_arith);
            }
            break;
        }
        proof {
            if t == 3 {
                assert(exp10 * 1 == exp10 && exp10 * 2 == 2 * exp10 && exp10 * 5 == 5 * exp10
                    && exp10 * 10 == 10 * exp10) by (nonlinear_arith);
            }
        }
        t = t + 1;
    }
    let ghost f = freq as int;
    let ghost years = key_years(max_points as int, start_year as int, last);
    let mut year = start_year;
    let mut ret: Vec<i32> = Vec::new();
    let ghost mut k: int = 0;
    if year <= end_year {
        proof {
            lemma_month_walk(start_year as int, last, f, 0);
        }
        let step = freq as i32;
        while year <= end_year
            invariant
                f == freq,
                1 <= f <= i32::MAX,
                step == f,
                end_year == last,
                start_year <= last,
                years == key_years(max_points as int, start_year as int, last),
                years.len() == (last - start_year) / f + 1,
                start_year as int + years.len() * f <= i32::MAX,
                forall|i: int| 0 <= i < years.len() ==> #[trigger] years[i] == start_year + i * f,
                0 <= k <= years.len(),
                year == start_year + k * f,
                year <= last <==> k < years.len(),
                ret@.map_values(|y: i32| y as int) == years.take(k),
            decreases last + f - year,
        {
            let ghost before = ret@;
            ret.push(year);
            proof {
                assert(ret@.map_values(|y: i32| y as int) =~= before.map_values(|y: i32| y as int).push(
                    year as int,
                ));
                assert(years.take(k + 1) =~= years.take(k).push(years[k]));
                lemma_month_walk(start_year as int, last, f, k + 1);
                assert(start_year + (k + 1) * f == start_year + k * f + f) by (nonlinear_arith);
                assert(k + 1 <= years.len());
                assert((k + 1) * f <= years.len() * f) by (nonlinear_arith)
                    requires
                        k + 1 <= years.len(),
                        f >= 1,
                ;
            }
            year = year + step;
            proof {
                k = k + 1;
            }
        }
        proof {
            assert(years.take(k) =~= years);
            assert(ret@.len() == years.len());
            assert(n as int == last - start_year + 1);
            assert(!too_many_years(n as int, f, cap as int));
        }
    } else {
        proof {
            assert(years =~= Seq::empty());
            assert(ret@.map_values(|y: i32| y as int) =~= years);
        }
    }
    ret
}

/// The scale of the year key points for `n` years and at most `cap`
/// points, where the search for it stays within `usize`.
fn year_scale_search(n: usize, cap: usize) -> (r: Option<usize>)
    requires
        cap >= 1,
    ensures
        r is Some <==> yearly_scale_fits(n as int, cap as int, 1, 20),
        r matches Some(e) ==> e == yearly_scale(n as int, cap as int, 1, 20) && e >= 1 && e * 10
            <= usize::MAX,
{
    let mut e: usize = 1;
    let mut fuel: usize = 20;
    while true
        invariant
            e >= 1,
            fuel <= 20,
            yearly_scale_fits(n as int, cap as int, 1, 20) == yearly_scale_fits(
                n as int,
                cap as int,
                e as int,
                fuel as nat,
            ),
            yearly_scale(n as int, cap as int, 1, 20) == yearly_scale(
                n as int,
                cap as int,
                e as int,
                fuel as nat,
            ),
        decreases fuel,
    {
        let next = match e.checked_mul(10) {
            Some(x) => x,
            None => {
                return None;
            },
        };
        if n >= 1 && (n - 1) / next >= cap {
            if fuel == 0 {
                return None;
            }
            e = next;
            fuel = fuel - 1;
        } else {
            return Some(e);
        }
    }
    None
}

/// Whether the year key points of a span from `(start_year, start_month)`
/// to `(end_year, end_month)` with at most `max_points` points can be
/// computed within the integer types: the check of `key_years_ok`.
pub fn key_years_fit(
    max_points: usize,
    start_year: i32,
    start_month: u32,
    end_year: i32,
    end_month: u32,
) -> (r: bool)
    ensures
        r == key_years_ok(
            max_points as int,
            start_year as int,
            last_key_year(start_month as int, end_year as int, end_month as int),
        ),
{
    let last: i64 = if start_month > end_month {
        end_year as i64 - 1
    } else {
        end_year as i64
    };
    let start = start_year as i64;
    if last < i32::MIN as i64 || last - start < i32::MIN as i64 || last - start + 1 > i32::MAX as i64 {
        return false;
    }
    let span = (last - start + 1) as i32;
    let n = (#[verifier::truncate] (span as usize));
    let cap: usize = if max_points == 0 {
        1
    } else {
        max_points
    };
    let e = match year_scale_search(n, cap) {
        Some(e) => e,
        None => {
            return false;
        },
    };
    let f: usize = if n == 0 || (n - 1) / e < cap {
        e
    } else if (n - 1) / (2 * e) < cap {
        2 * e
    } else if (n - 1) / (5 * e) < cap {
        5 * e
    } else {
        10 * e
    };
    assert(f == yearly_freq(n as int, cap as int, e as int));
    if start > last {
        return true;
    }
    if f > i32::MAX as usize {
        return false;
    }
    let fi = f as i64;
    let count = (last - start) / fi + 1;
    assert(1 <= count <= 0x1_0000_0000);
    assert(count * fi <= 0x1_0000_0000 * 0x8000_0000) by (nonlinear_arith)
        requires
            1 <= count <= 0x1_0000_0000,
            1 <= fi <= 0x8000_0000,
    ;
    assert(count * fi >= 1) by (nonlinear_arith)
        requires
            1 <= count,
            1 <= fi,
    ;
    start as i128 + count as i128 * fi as i128 <= i32::MAX as i128
}

/// Whether the key points of a yearly axis from the day `start` to the month
/// `end` with at most `max_points` points can be computed within the integer
/// types: the check of what `yearly_key_points` requires.
pub fn yearly_key_points_fit(start: (i32, u32, u32), end: (i32, u32), max_points: usize) -> (r:
    bool)
    ensures
        r == (date_ok((start.0 as int, start.1 as int, start.2 as int)) && key_years_ok(
            max_points as int,
            first_shown_month(start.0 as int, start.1 as int, start.2 as int).0,
            last_key_year(
                first_shown_month(start.0 as int, start.1 as int, start.2 as int).1,
                end.0 as int,
                end.1 as int,
            ),
        )),
{
    if !(1 <= start.1 && start.1 <= 12 && start.2 >= 1 && (start.1 != 12 || start.0 < i32::MAX)) {
        return false;
    }
    let (first_year, first_month) = first_month(start);
    key_years_fit(max_points, first_year, first_month, end.0, end.1)
}

/// The number of months from `(start_year, start_month)` to
/// `(end_year, end_month)`.
pub open spec fn month_span(start_year: int, start_month: int, end_year: int, end_month: int) -> int {
    (end_year - start_year) * 12 + end_month - start_month
}

/// The year key points of a span whose first shown month is `first` and
/// whose end is `end`: the first days of the month of `first` in the key years.
pub open spec fn key_year_months(max: int, first: (int, int), end: (int, int)) -> Seq<(int, int)> {
    key_years(max, first.0, last_key_year(first.1, end.0, end.1)).map_values(
        |y: int| (y, first.1),
    )
}

/// The key points of a monthly axis from the date `start` (year, month, day)
/// to the month `end` (year, month) with at most `max` points, as (year,
/// month) of their first days: every month, every quarter or every half year
/// from the first shown month, whichever gives at most `max` points, else
/// the year key points. The number of months is counted as a `usize`, so a
/// reversed span counts as a very long one.
pub open spec fn monthly_key_months(start: (int, int, int), end: (int, int), max: int) -> Seq<
    (int, int),
> {
    let first = first_shown_month(start.0, start.1, start.2);
    let t = month_span(first.0, first.1, end.0, end.1) as usize as int;
    let from = month_index(first.0, first.1);
    let to = month_index(end.0, end.1);
    if t < max {
        months_between(from, to, 1)
    } else if t / 3 < max {
        months_between(from, to, 3)
    } else if t / 6 < max {
        months_between(from, to, 6)
    } else {
        key_year_months(max, first, end)
    }
}

/// Whether `date` is a (year, month, day) with a month from 1 to 12 and a
/// day from 1, whose month after fits the year type.
pub open spec fn date_ok(date: (int, int, int)) -> bool {
    &&& 1 <= date.1 <= 12
    &&& date.2 >= 1
    &&& date.1 == 12 ==> date.0 < i32::MAX
}

/// The inputs for which the key points of a monthly axis can be computed
/// within the integer types.
pub open spec fn monthly_key_months_ok(start: (int, int, int), end: (int, int), max: int) -> bool {
    let first = first_shown_month(start.0, start.1, start.2);
    let t = month_span(first.0, first.1, end.0, end.1) as usize as int;
    &&& date_ok(start)
    &&& 1 <= end.1 <= 12
    &&& end.0 < i32::MAX
    &&& i32::MIN <= end.0 - first.0 <= i32::MAX
    &&& i32::MIN <= (end.0 - first.0) * 12 <= i32::MAX
    &&& i32::MIN <= (end.0 - first.0) * 12 + end.1 <= i32::MAX
    &&& i32::MIN <= month_span(first.0, first.1, end.0, end.1) <= i32::MAX
    &&& t / 6 >= max ==> key_years_ok(max, first.0, last_key_year(first.1, end.0, end.1))
}

/// The first month that an axis starting on the day `start` shows.
fn first_month(start: (i32, u32, u32)) -> (r: (i32, u32))
    requires
        date_ok((start.0 as int, start.1 as int, start.2 as int)),
    ensures
        (r.0 as int, r.1 as int) == first_shown_month(start.0 as int, start.1 as int, start.2 as int),
        1 <= r.1 <= 12,
{
    if start.2 != 1 {
        next_month(start.0, start.1)
    } else {
        (start.0, start.1)
    }
}

/// The years `years` paired with `month`.
fn pair_with_month(years: Vec<i32>, month: u32) -> (r: Vec<(i32, u32)>)
    ensures
        ym_view(r@) == years@.map_values(
            |y: i32| (y as int, month as int),
        ),
{
    let ghost ys = years@;
    let mut ret: Vec<(i32, u32)> = Vec::new();
    for y in it: years
        invariant
            it.seq() == ys,
            ret@.len() == it.index(),
            ym_view(ret@) == ys.take(
                it.index() as int,
            ).map_values(|y: i32| (y as int, month as int)),
    {
        let ghost k = it.index();
        let ghost before = ret@;
        ret.push((y, month));
        proof {
            assert forall|i: int| 0 <= i < k + 1 implies #[trigger] ym_view(ret@)[i] == ys.take(
                k + 1,
            ).map_values(|y: i32| (y as int, month as int))[i] by {
                if i < k {
                    assert(ym_view(before)[i] == ys.take(k).map_values(
                        |y: i32| (y as int, month as int),
                    )[i]);
                }
            }
            assert(ym_view(ret@) =~= ys.take(
                k + 1,
            ).map_values(|y: i32| (y as int, month as int)));
        }
    }
    proof {
        assert(ys.take(ys.len() as int) =~= ys);
    }
    ret
}

/// Whether the key points of a monthly axis from the day `start` to the
/// month `end` with at most `max_points` points can be computed within the
/// integer types: the check of `monthly_key_months_ok`.
pub fn monthly_key_points_fit(start: (i32, u32, u32), end: (i32, u32), max_points: usize) -> (r:
    bool)
    ensures
        r == monthly_key_months_ok(
            (start.0 as int, start.1 as int, start.2 as int),
            (end.0 as int, end.1 as int),
            max_points as int,
        ),
{
    if !(1 <= start.1 && start.1 <= 12 && start.2 >= 1 && (start.1 != 12 || start.0 < i32::MAX)) {
        return false;
    }
    if !(1 <= end.1 && end.1 <= 12 && end.0 < i32::MAX) {
        return false;
    }
    let (first_year, first_month) = first_month(start);
    let years = end.0 as i64 - first_year as i64;
    if years < i32::MIN as i64 || years > i32::MAX as i64 {
        return false;
    }
    let months = years * 12;
    if months < i32::MIN as i64 || months > i32::MAX as i64 {
        return false;
    }
    let to_end = months + end.1 as i64;
    if to_end > i32::MAX as i64 {
        return false;
    }
    let span = to_end - first_month as i64;
    if span < i32::MIN as i64 {
        return false;
    }
    let t = (#[verifier::truncate] ((span as i32) as usize));
    if t / 6 >= max_points {
        key_years_fit(max_points, first_year, first_month, end.0, end.1)
    } else {
        true
    }
}

/// The key points of a monthly axis from the day `start` (year, month, day)
/// to the month `end` (year, month), with at most `max_points` points (one
/// where no point is asked for), as the (year, month) of their first days.
pub fn monthly_key_points(start: (i32, u32, u32), end: (i32, u32), max_points: usize) -> (r: Vec<
    (i32, u32),
>)
    requires
        monthly_key_months_ok(
            (start.0 as int, start.1 as int, start.2 as int),
            (end.0 as int, end.1 as int),
            max_points as int,
        ),
    ensures
        ym_view(r@) == monthly_key_months(
            (start.0 as int, start.1 as int, start.2 as int),
            (end.0 as int, end.1 as int),
            max_points as int,
        ),        r@.len() <= point_cap(max_points as int),
{
    let (start_year, start_month) = first_month(start);
    let (end_year, end_month) = end;
    let total_month = (end_year - start_year) * 12 + end_month as i32 - start_month as i32;
    let t = (#[verifier::truncate] (total_month as usize));
    let ghost from = month_index(start_year as int, start_month as int);
    let ghost to = month_index(end_year as int, end_month as int);
    proof {
        assert(to - from == total_month);
        if to >= from {
            assert(t as int == to - from);
        }
    }
    if t < max_points || t / 3 < max_points || t / 6 < max_points {
        let step: u32 = if t < max_points {
            1
        } else if t / 3 < max_points {
            3
        } else {
            6
        };
        let r = generate_month_key_points(start_year, start_month, end_year, end_month, step);
        proof {
            assert(ym_view(r@).len() == r@.len());
            if to >= from {
                assert((to - from) / (step as int) < max_points);
            }
        }
        r
    } else {
        let years = generate_yearly_keypoints(
            max_points,
            start_year,
            start_month,
            end_year,
            end_month,
        );
        let ghost ys = years@;
        let r = pair_with_month(years, start_month);
        proof {
            assert(ys.map_values(|y: i32| (y as int, start_month as int)) =~= ys.map_values(
                |y: i32| y as int,
            ).map_values(|y: int| (y, start_month as int)));
            assert(ym_view(r@).len() == r@.len());
        }
        r
    }
}

/// The months of `kp` lie, in strictly increasing order, from the month
/// index `from` to the month index `to`, and each is a month from 1 to 12.
pub open spec fn months_ordered_within(kp: Seq<(int, int)>, from: int, to: int) -> bool {
    &&& forall|i: int|
        0 <= i < kp.len() ==> from <= month_index(#[trigger] kp[i].0, kp[i].1) <= to && 1
            <= kp[i].1 <= 12
    &&& forall|i: int, j: int|
        0 <= i < j < kp.len() ==> month_index(#[trigger] kp[i].0, kp[i].1) < month_index(
            #[trigger] kp[j].0,
            kp[j].1,
        )
}

/// `k` steps of `s` from a start stay within `d` of it while `k` is at most
/// `d / s`.
proof fn lemma_steps_within(d: int, s: int, k: int)
    requires
        d >= 0,
        s >= 1,
        0 <= k <= d / s,
    ensures
        0 <= k * s <= d,
{
    lemma_fundamental_div_mod(d, s);
    assert(0 <= k * s <= (d / s) * s) by (nonlinear_arith)
        requires
            0 <= k <= d / s,
            s >= 1,
    ;
    assert((d / s) * s == s * (d / s)) by (nonlinear_arith);
    assert(d % s >= 0) by {
        vstd::arithmetic::div_mod::lemma_mod_bound(d, s);
    }
}

/// Steps of `s >= 1` keep their order.
proof fn lemma_steps_ordered(s: int, i: int, j: int)
    requires
        s >= 1,
        i < j,
    ensures
        i * s < j * s,
{
    assert(i * s < j * s) by (nonlinear_arith)
        requires
            s >= 1,
            i < j,
    ;
}

/// The key points of a monthly axis lie within the axis: they are the first
/// days of months from the first month whose first day is not before the
/// start (the start's month where the start is a first day, else the month
/// after) to the end month, in strictly increasing order, and there are at
/// most as many as asked for (one where none is asked for).
pub proof fn lemma_monthly_key_points_ordered(start: (int, int, int), end: (int, int), max: int)
    requires
        monthly_key_months_ok(start, end, max),
        max >= 0,
    ensures
        ({
            let first = first_shown_month(start.0, start.1, start.2);
            months_ordered_within(
                monthly_key_months(start, end, max),
                month_index(first.0, first.1),
                month_index(end.0, end.1),
            )
        }),
        month_index(
            first_shown_month(start.0, start.1, start.2).0,
            first_shown_month(start.0, start.1, start.2).1,
        ) == if start.2 == 1 {
            month_index(start.0, start.1)
        } else {
            month_index(start.0, start.1) + 1
        },
        monthly_key_months(start, end, max).len() <= point_cap(max),
{
    let first = first_shown_month(start.0, start.1, start.2);
    let t = month_span(first.0, first.1, end.0, end.1) as usize as int;
    let from = month_index(first.0, first.1);
    let to = month_index(end.0, end.1);
    let kp = monthly_key_months(start, end, max);
    assert(to - from == month_span(first.0, first.1, end.0, end.1));
    if t < max || t / 3 < max || t / 6 < max {
        let s: int = if t < max {
            1
        } else if t / 3 < max {
            3
        } else {
            6
        };
        assert(kp == months_between(from, to, s));
        if to >= from {
            let d = to - from;
            assert(t == d);
            assert forall|i: int| 0 <= i < kp.len() implies from <= month_index(
                #[trigger] kp[i].0,
                kp[i].1,
            ) <= to && 1 <= kp[i].1 <= 12 by {
                lemma_steps_within(d, s, i);
                let m = from + i * s;
                assert(kp[i] == month_of_index(m));
                lemma_fundamental_div_mod(m, 12);
            }
            assert forall|i: int, j: int| 0 <= i < j < kp.len() implies month_index(
                #[trigger] kp[i].0,
                kp[i].1,
            ) < month_index(#[trigger] kp[j].0, kp[j].1) by {
                lemma_steps_ordered(s, i, j);
                lemma_fundamental_div_mod(from + i * s, 12);
                lemma_fundamental_div_mod(from + j * s, 12);
            }
            assert((d / s) < max) by {
                if s == 1 {
                    assert(d / 1 == d);
                }
            }
        } else {
            assert(kp.len() == 0);
        }
    } else {
        let last = last_key_year(first.1, end.0, end.1);
        let ys = key_years(max, first.0, last);
        assert(kp == ys.map_values(|y: int| (y, first.1)));
        if first.0 <= last {
            let f = year_key_step(max, first.0, last);
            assert(1 <= f);
            assert forall|i: int| 0 <= i < kp.len() implies from <= month_index(
                #[trigger] kp[i].0,
                kp[i].1,
            ) <= to && 1 <= kp[i].1 <= 12 by {
                lemma_steps_within(last - first.0, f, i);
                assert(kp[i] == (first.0 + i * f, first.1));
            }
            assert forall|i: int, j: int| 0 <= i < j < kp.len() implies month_index(
                #[trigger] kp[i].0,
                kp[i].1,
            ) < month_index(#[trigger] kp[j].0, kp[j].1) by {
                lemma_steps_ordered(f, i, j);
                assert(kp[i] == (first.0 + i * f, first.1));
                assert(kp[j] == (first.0 + j * f, first.1));
            }
            lemma_key_years_count(max, first.0, last);
        } else {
            assert(kp.len() == 0);
        }
    }
}

/// The number of year key points is at most the number of points asked for
/// (one where none is asked for).
proof fn lemma_key_years_count(max: int, start_year: int, last_year: int)
    requires
        key_years_ok(max, start_year, last_year),
        start_year <= last_year,
    ensures
        key_years(max, start_year, last_year).len() <= point_cap(max),
{
    let n = year_count(start_year, last_year);
    let cap = point_cap(max);
    let f = year_key_step(max, start_year, last_year);
    lemma_scale_bound(n, cap, 1, 20);
    assert(n == last_year - start_year + 1);
    let e = yearly_scale(n, cap, 1, 20);
    assert(!too_many_years(n, f, cap));
}

/// Where the search for the scale of the year key points ends within its
/// fuel, a key point every ten times the scale gives at most `cap` points.
proof fn lemma_scale_bound(n: int, cap: int, e: int, fuel: nat)
    requires
        yearly_scale_fits(n, cap, e, fuel),
    ensures
        !too_many_years(n, yearly_scale(n, cap, e, fuel) * 10, cap),
    decreases fuel,
{
    if fuel > 0 && too_many_years(n, e * 10, cap) {
        lemma_scale_bound(n, cap, e * 10, (fuel - 1) as nat);
    }
}

/// The key points of a yearly axis from the day `start` (year, month, day)
/// to the month `end` (year, month), with at most `max_points` points (one
/// where no point is asked for), as the (year, month) of their first days.
pub fn yearly_key_points(start: (i32, u32, u32), end: (i32, u32), max_points: usize) -> (r: Vec<
    (i32, u32),
>)
    requires
        date_ok((start.0 as int, start.1 as int, start.2 as int)),
        key_years_ok(
            max_points as int,
            first_shown_month(start.0 as int, start.1 as int, start.2 as int).0,
            last_key_year(
                first_shown_month(start.0 as int, start.1 as int, start.2 as int).1,
                end.0 as int,
                end.1 as int,
            ),
        ),
    ensures
        ym_view(r@) == key_year_months(
            max_points as int,
            first_shown_month(start.0 as int, start.1 as int, start.2 as int),
            (end.0 as int, end.1 as int),
        ),        r@.len() <= point_cap(max_points as int),
{
    let (start_year, start_month) = first_month(start);
    let years = generate_yearly_keypoints(max_points, start_year, start_month, end.0, end.1);
    let ghost ys = years@;
    let r = pair_with_month(years, start_month);
    proof {
        assert(ys.map_values(|y: i32| (y as int, start_month as int)) =~= ys.map_values(
            |y: i32| y as int,
        ).map_values(|y: int| (y, start_month as int)));
        assert(ym_view(r@).len() == r@.len());
    }
    r
}

/// `d / s` rounded up, for `d >= 0` and `s > 0`.
pub open spec fn div_ceil(d: int, s: int) -> int {
    (d + s - 1) / s
}

/// The number of weeks between two date key points, where there are more
/// weeks than points: the weeks divided by the points, rounded up, or the
/// largest `usize` where no point is asked for (and saturated to it).
pub open spec fn weeks_per_point(total_weeks: int, max: int) -> int {
    if max == 0 || div_ceil(total_weeks, max) > usize::MAX {
        usize::MAX as int
    } else {
        div_ceil(total_weeks, max)
    }
}

/// The key points of a date axis spanning `total_days` days (`total_weeks`
/// whole weeks), as day offsets from its start: every day where there are
/// at most `max` days, else every week where there are at most `max` weeks,
/// else every `weeks_per_point` weeks. The counts are compared as `usize`.
pub open spec fn date_key_offsets(total_days: int, total_weeks: int, max: int) -> Seq<int> {
    if total_days > 0 && total_days as usize <= max {
        Seq::new((total_days + 1) as nat, |i: int| i)
    } else if total_weeks > 0 && total_weeks as usize <= max {
        Seq::new((total_weeks + 1) as nat, |i: int| 7 * i)
    } else {
        let s = weeks_per_point(total_weeks, max);
        Seq::new(((total_weeks as usize) as int / s + 1) as nat, |i: int| 7 * (i * s))
    }
}

/// The inputs for which the date key points can be computed: the week
/// offsets fit `i64`, and where neither every day nor every week is shown,
/// the span holds at least a week (else there is no step between points).
pub open spec fn date_key_offsets_ok(total_days: int, total_weeks: int, max: int) -> bool {
    &&& 7 * total_weeks <= i64::MAX
    &&& !(total_days > 0 && total_days as usize <= max) && !(total_weeks > 0 && total_weeks as usize
        <= max) ==> total_weeks >= 1
}

/// The key points of a date axis spanning `total_days` days, of which
/// `total_weeks` whole weeks, with at most `max_points` points, as day
/// offsets from the start of the axis.
pub fn date_key_point_offsets(total_days: i64, total_weeks: i64, max_points: usize) -> (r: Vec<
    i64,
>)
    requires
        date_key_offsets_ok(total_days as int, total_weeks as int, max_points as int),
    ensures
        r@.map_values(|d: i64| d as int) == date_key_offsets(
            total_days as int,
            total_weeks as int,
            max_points as int,
        ),
{
    let ghost all = date_key_offsets(total_days as int, total_weeks as int, max_points as int);
    let mut ret: Vec<i64> = Vec::new();
    if total_days > 0 && (#[verifier::truncate] (total_days as usize)) <= max_points {
        proof {
            assert(all =~= Seq::new((total_days + 1) as nat, |i: int| i));
        }
        let mut day: i128 = 0;
        while day <= total_days as i128
            invariant
                0 <= day <= total_days + 1,
                total_days > 0,
                all == Seq::new((total_days + 1) as nat, |i: int| i),
                ret@.map_values(|d: i64| d as int) == all.take(day as int),
            decreases total_days + 1 - day,
        {
            let ghost before = ret@;
            ret.push(day as i64);
            proof {
                assert(ret@.map_values(|d: i64| d as int) =~= before.map_values(
                    |d: i64| d as int,
                ).push(day as int));
                assert(all.take(day + 1) =~= all.take(day as int).push(all[day as int]));
            }
            day = day + 1;
        }
        proof {
            assert(all.take(day as int) =~= all);
        }
        return ret;
    }
    if total_weeks > 0 && (#[verifier::truncate] (total_weeks as usize)) <= max_points {
        proof {
            assert(all =~= Seq::new((total_weeks + 1) as nat, |i: int| 7 * i));
        }
        let mut week: i128 = 0;
        while week <= total_weeks as i128
            invariant
                0 <= week <= total_weeks + 1,
                total_weeks > 0,
                7 * total_weeks <= i64::MAX,
                all == Seq::new((total_weeks + 1) as nat, |i: int| 7 * i),
                ret@.map_values(|d: i64| d as int) == all.take(week as int),
            decreases total_weeks + 1 - week,
        {
            let ghost before = ret@;
            ret.push((7 * week) as i64);
            proof {
                assert(ret@.map_values(|d: i64| d as int) =~= before.map_values(
                    |d: i64| d as int,
                ).push(7 * week));
                assert(all.take(week + 1) =~= all.take(week as int).push(all[week as int]));
            }
            week = week + 1;
        }
        proof {
            assert(all.take(week as int) =~= all);
        }
        return ret;
    }
    let step: usize = if max_points == 0 {
        usize::MAX
    } else {
        let wide = (total_weeks as u128 + max_points as u128 - 1) / max_points as u128;
        assert(wide >= 1) by (nonlinear_arith)
            requires
                wide == (total_weeks + max_points - 1) / (max_points as int),
                total_weeks >= 1,
                max_points >= 1,
        ;
        if wide > usize::MAX as u128 {
            usize::MAX
        } else {
            wide as usize
        }
    };
    let weeks = #[verifier::truncate] (total_weeks as usize);
    let count = weeks / step;
    proof {
        assert(step == weeks_per_point(total_weeks as int, max_points as int));
        assert(step >= 1);
        assert(count * step <= weeks) by (nonlinear_arith)
            requires
                count == weeks / step,
                step >= 1,
        ;
        assert(all =~= Seq::new((count + 1) as nat, |i: int| 7 * (i * step)));
    }
    let mut idx: u128 = 0;
    while idx <= count as u128
        invariant
            0 <= idx <= count + 1,
            step >= 1,
            count * step <= weeks,
            weeks <= total_weeks,
            7 * total_weeks <= i64::MAX,
            all == Seq::new((count + 1) as nat, |i: int| 7 * (i * step)),
            ret@.map_values(|d: i64| d as int) == all.take(idx as int),
        decreases count + 1 - idx,
    {
        assert(idx * step <= count * step) by (nonlinear_arith)
            requires
                idx <= count,
                step >= 1,
        ;
        let offset = idx as usize * step;
        let ghost before = ret@;
        ret.push(7 * (offset as i64));
        proof {
            assert(ret@.map_values(|d: i64| d as int) =~= before.map_values(|d: i64| d as int).push(
                7 * (idx * step),
            ));
            assert(all.take(idx + 1) =~= all.take(idx as int).push(all[idx as int]));
        }
        idx = idx + 1;
    }
    proof {
        assert(all.take(idx as int) =~= all);
    }
    ret
}

/// The first time of day, in nanoseconds since midnight, at which a key
/// point of period `period` may stand from `start` on: `start` rounded up to
/// a multiple of `period`.
pub fn first_key_time_ns(start: u64, period: u64) -> (r: u64)
    requires
        period >= 1,
        align_up(start as int, period as int) <= u64::MAX,
    ensures
        r == align_up(start as int, period as int),
        r % period == 0,
        start <= r < start + period,
{
    let rem = start % period;
    proof {
        let q = start / period;
        lemma_fundamental_div_mod(start as int, period as int);
        if rem > 0 {
            assert((period - rem) % (period as int) == period - rem) by {
                lemma_small_mod((period - rem) as nat, period as nat);
            }
            assert(start + (period - rem) == period * (q + 1)) by (nonlinear_arith)
                requires
                    start == period * q + rem,
            ;
            lemma_mod_multiples_basic(q + 1, period as int);
            assert(period * (q + 1) == (q + 1) * period) by (nonlinear_arith);
        } else {
            assert((period as int) % (period as int) == 0) by {
                lemma_mod_self_0(period as int);
            }
        }
    }
    if rem > 0 {
        start + (period - rem)
    } else {
        start
    }
}

/// `x` as the 64-bit value of the other signedness with the same bits.
pub open spec fn wrap_u64(x: int) -> int {
    if x < 0 {
        x + 0x1_0000_0000_0000_0000
    } else {
        x
    }
}

/// `x` as the signed 64-bit value with the same bits.
pub open spec fn wrap_i64(x: int) -> int {
    if x > i64::MAX {
        x - 0x1_0000_0000_0000_0000
    } else {
        x
    }
}

/// The remainder of `x` by `d` with the sign of `x`, as Rust's `%` gives it.
pub open spec fn rust_rem(x: int, d: int) -> int {
    let m = if d < 0 {
        -d
    } else {
        d
    };
    trunc_rem(x, m)
}

/// The first nanosecond at which a key point of period `period` may stand
/// on a duration axis starting at `start` nanoseconds: where the start, taken
/// as an unsigned value, is not a multiple of the period, a positive start is
/// rounded up to the next multiple of the period (taken as a signed value),
/// and a start at or below zero is rounded toward zero.
pub open spec fn duration_start_key(start: int, period: int) -> int {
    let p = wrap_i64(period);
    if wrap_u64(start) % period > 0 {
        if start > 0 {
            start + (p - rust_rem(start, p))
        } else {
            start - rust_rem(start, p)
        }
    } else {
        start
    }
}

/// The inputs for which the first key point of a duration axis can be
/// computed within `i64`.
pub open spec fn duration_start_key_ok(start: int, period: int) -> bool {
    let p = wrap_i64(period);
    &&& period >= 1
    &&& wrap_u64(start) % period > 0 ==> if start > 0 {
        i64::MIN <= p - rust_rem(start, p) <= i64::MAX && i64::MIN <= start + (p - rust_rem(
            start,
            p,
        )) <= i64::MAX
    } else {
        !(start == i64::MIN && p == -1) && i64::MIN <= start - rust_rem(start, p) <= i64::MAX
    }
}

/// `x % d` for a divisor other than 0, as Rust computes it on `i64`.
fn rem_i64(x: i64, d: i64) -> (r: i64)
    requires
        d != 0,
        !(x == i64::MIN && d == -1),
    ensures
        r == rust_rem(x as int, d as int),
{
    let m: i128 = if d < 0 {
        -(d as i128)
    } else {
        d as i128
    };
    let xx = x as i128;
    let r = if xx >= 0 {
        xx % m
    } else {
        -((-xx) % m)
    };
    r as i64
}

/// The first nanosecond at which a key point of period `period` may stand on
/// a duration axis starting at `start_ns` nanoseconds.
pub fn duration_first_key_ns(start_ns: i64, period: u64) -> (r: i64)
    requires
        duration_start_key_ok(start_ns as int, period as int),
    ensures
        r == duration_start_key(start_ns as int, period as int),
{
    let unsigned = #[verifier::truncate] (start_ns as u64);
    let signed = #[verifier::truncate] (period as i64);
    proof {
        assert(unsigned == wrap_u64(start_ns as int)) by (bit_vector)
            requires
                unsigned == start_ns as u64,
        ;
        assert(signed == wrap_i64(period as int)) by (bit_vector)
            requires
                signed == period as i64,
        ;
    }
    if unsigned % period > 0 {
        if start_ns > 0 {
            start_ns + (signed - rem_i64(start_ns, signed))
        } else {
            start_ns - rem_i64(start_ns, signed)
        }
    } else {
        start_ns
    }
}

/// The steps tried for the days between duration key points: 1, 2 and 5
/// times a power of ten.
pub open spec fn day_step_unit(idx: int) -> int {
    if idx == 0 {
        1
    } else if idx == 1 {
        2
    } else {
        5
    }
}

/// The days between the key points of a duration axis spanning `span` days
/// with at most `max` points, searched from `tick * day_step_unit(idx)` on
/// within `fuel` steps: the first step at which `span / step` (rounded toward
/// zero) is at most
/// `max`. The number of points is taken as an `i64`, wrapped where it does
/// not fit.
pub open spec fn day_step_search(span: int, max: int, tick: int, idx: int, fuel: nat) -> int
    decreases fuel,
{
    if fuel == 0 || div_trunc(span, tick * day_step_unit(idx)) <= max {
        tick * day_step_unit(idx)
    } else if idx + 1 == 3 {
        day_step_search(span, max, tick * 10, 0, (fuel - 1) as nat)
    } else {
        day_step_search(span, max, tick, idx + 1, (fuel - 1) as nat)
    }
}

/// Whether every product that the search for the day step computes fits
/// `i32` and the search ends within `fuel` steps.
pub open spec fn day_step_search_fits(span: int, max: int, tick: int, idx: int, fuel: nat) -> bool
    decreases fuel,
{
    &&& tick * day_step_unit(idx) <= i32::MAX
    &&& div_trunc(span, tick * day_step_unit(idx)) > max ==> fuel > 0 && if idx + 1 == 3 {
        tick * 10 <= i32::MAX && day_step_search_fits(span, max, tick * 10, 0, (fuel - 1) as nat)
    } else {
        day_step_search_fits(span, max, tick, idx + 1, (fuel - 1) as nat)
    }
}

/// `p / q` rounded toward zero, for `q > 0`.
pub open spec fn div_trunc(p: int, q: int) -> int {
    if p >= 0 {
        p / q
    } else {
        -((-p) / q)
    }
}

/// The days between the key points of a duration axis spanning `span_days`
/// days with at most `max_points` points: the first of 1, 2, 5, 10, 20, 50,
/// ... days at which the span, divided by the step and rounded toward zero,
/// is at most the number of points (taken as an `i64`).
pub fn duration_days_per_tick(span_days: i64, max_points: usize) -> (r: i32)
    requires
        day_step_search_fits(span_days as int, wrap_i64(max_points as int), 1, 0, 40),
    ensures
        r == day_step_search(span_days as int, wrap_i64(max_points as int), 1, 0, 40),
        r >= 1,
{
    let max = #[verifier::truncate] (max_points as i64);
    proof {
        assert(max == wrap_i64(max_points as int)) by (bit_vector)
            requires
                max == max_points as i64,
        ;
    }
    let multiplier: [i32; 3] = [1, 2, 5];
    let mut tick: i32 = 1;
    let mut idx: usize = 0;
    let ghost mut n: nat = 0;
    loop
        invariant
            multiplier@ == seq![1i32, 2, 5],
            0 <= idx < 3,
            tick >= 1,
            n <= 40,
            max == wrap_i64(max_points as int),
            day_step_search(span_days as int, max as int, 1, 0, 40) == day_step_search(
                span_days as int,
                max as int,
                tick as int,
                idx as int,
                (40 - n) as nat,
            ),
            day_step_search_fits(
                span_days as int,
                max as int,
                tick as int,
                idx as int,
                (40 - n) as nat,
            ),
        decreases 40 - n,
    {
        let step = tick * multiplier[idx];
        let wide_span = span_days as i128;
        let quotient = if wide_span >= 0 {
            wide_span / (step as i128)
        } else {
            -((-wide_span) / (step as i128))
        };
        proof {
            assert(step == tick * day_step_unit(idx as int));
            assert(step >= 1) by (nonlinear_arith)
                requires
                    tick >= 1,
                    step == tick * day_step_unit(idx as int),
                    day_step_unit(idx as int) >= 1,
            ;
            assert(quotient == div_trunc(span_days as int, step as int));
        }
        if quotient <= max as i128 {
            return step;
        }
        idx = idx + 1;
        if idx == 3 {
            idx = 0;
            tick = tick * 10;
        }
        proof {
            n = n + 1;
        }
    }
}


/// The first whole day of a duration axis starting `days` whole days (taken
/// toward zero) after zero: that day where the start is a whole number of
/// days, else the day after.
pub open spec fn first_whole_day(days: int, whole: bool) -> int {
    if whole {
        days
    } else {
        days + 1
    }
}

/// The whole day that a duration axis ending `days` whole days (taken toward
/// zero) after zero reaches: one more where the end lies beyond that day.
pub open spec fn end_whole_day(days: int, beyond: bool) -> int {
    if beyond {
        days + 1
    } else {
        days
    }
}

/// The days between the key points of a duration axis from `begin_days` to
/// `end_days` whole days with at most `max_points` points.
pub open spec fn day_key_step(begin_days: int, end_days: int, max_points: int) -> int {
    day_step_search(end_days - begin_days, wrap_i64(max_points), 1, 0, 40)
}

/// The inputs on which the whole-day key points of a duration axis can be
/// computed within the integer types.
pub open spec fn day_key_points_ok(
    begin_days: int,
    begin_whole: bool,
    end_days: int,
    end_beyond: bool,
    max_points: int,
) -> bool {
    &&& i64::MIN <= end_days - begin_days <= i64::MAX
    &&& day_step_search_fits(end_days - begin_days, wrap_i64(max_points), 1, 0, 40)
    &&& first_whole_day(begin_days, begin_whole) <= i64::MAX
    &&& end_whole_day(end_days, end_beyond) <= i64::MAX
    &&& stepped_count(
        first_whole_day(begin_days, begin_whole),
        end_whole_day(end_days, end_beyond),
        day_key_step(begin_days, end_days, max_points),
    ) <= usize::MAX
}

/// Whether the search for the day step of a span of `span` days with at most
/// `max` points (an `i64`) keeps its products within `i32` and ends within
/// its steps: the check of `day_step_search_fits`.
fn day_step_fits(span: i64, max: i64) -> (r: bool)
    ensures
        r == day_step_search_fits(span as int, max as int, 1, 0, 40),
{
    let multiplier: [i32; 3] = [1, 2, 5];
    let mut tick: i32 = 1;
    let mut idx: usize = 0;
    let mut fuel: usize = 40;
    loop
        invariant
            multiplier@ == seq![1i32, 2, 5],
            0 <= idx < 3,
            tick >= 1,
            fuel <= 40,
            day_step_search_fits(span as int, max as int, 1, 0, 40) == day_step_search_fits(
                span as int,
                max as int,
                tick as int,
                idx as int,
                fuel as nat,
            ),
        decreases fuel,
    {
        let m = multiplier[idx];
        assert(m == day_step_unit(idx as int));
        let step = match tick.checked_mul(m) {
            Some(x) => x,
            None => {
                return false;
            },
        };
        let wide_span = span as i128;
        assert(step >= 1) by (nonlinear_arith)
            requires
                tick >= 1,
                m >= 1,
                step == tick * m,
        ;
        let quotient = if wide_span >= 0 {
            wide_span / (step as i128)
        } else {
            -((-wide_span) / (step as i128))
        };
        assert(quotient == div_trunc(span as int, step as int));
        if quotient <= max as i128 {
            return true;
        }
        if fuel == 0 {
            return false;
        }
        idx = idx + 1;
        if idx == 3 {
            idx = 0;
            tick = match tick.checked_mul(10) {
                Some(x) => x,
                None => {
                    return false;
                },
            };
        }
        fuel = fuel - 1;
    }
}

/// Whether the whole-day key points of a duration axis can be computed
/// within the integer types: the check of `day_key_points_ok`.
pub fn duration_day_key_points_fit(
    begin_days: i64,
    begin_whole: bool,
    end_days: i64,
    end_beyond: bool,
    max_points: usize,
) -> (r: bool)
    ensures
        r == day_key_points_ok(begin_days as int, begin_whole, end_days as int, end_beyond, max_points as int),
{
    let span = end_days as i128 - begin_days as i128;
    if span < i64::MIN as i128 || span > i64::MAX as i128 {
        return false;
    }
    let span = span as i64;
    let max = #[verifier::truncate] (max_points as i64);
    proof {
        assert(max == wrap_i64(max_points as int)) by (bit_vector)
            requires
                max == max_points as i64,
        ;
    }
    if !day_step_fits(span, max) {
        return false;
    }
    if (!begin_whole && begin_days == i64::MAX) || (end_beyond && end_days == i64::MAX) {
        return false;
    }
    let step = duration_days_per_tick(span, max_points);
    let first = if begin_whole {
        begin_days
    } else {
        begin_days + 1
    };
    let end = if end_beyond {
        end_days + 1
    } else {
        end_days
    };
    if first < end {
        let count = (end as i128 - first as i128 + step as i128 - 1) / step as i128;
        count <= usize::MAX as i128
    } else {
        true
    }
}

/// The key points of a duration axis whose span is too long for nanoseconds,
/// in whole days: from the first whole day not before the start, one every
/// `day_key_step` days, below the end. The start lies `begin_days` whole days
/// after zero (`begin_whole` where it is exactly that), the end `end_days`
/// whole days (`end_beyond` where it lies beyond that day).
pub fn duration_day_key_points(
    begin_days: i64,
    begin_whole: bool,
    end_days: i64,
    end_beyond: bool,
    max_points: usize,
) -> (r: Vec<i64>)
    requires
        day_key_points_ok(begin_days as int, begin_whole, end_days as int, end_beyond, max_points as int),
    ensures
        r@.map_values(|v: i64| v as int) == spec_stepped_values(
            first_whole_day(begin_days as int, begin_whole),
            end_whole_day(end_days as int, end_beyond),
            day_key_step(begin_days as int, end_days as int, max_points as int),
        ),
{
    let step = duration_days_per_tick(end_days - begin_days, max_points);
    let first_day = if begin_whole {
        begin_days
    } else {
        begin_days + 1
    };
    let end_day = if end_beyond {
        end_days + 1
    } else {
        end_days
    };
    stepped_values(first_day, end_day, step as i64)
}

/// The number of values `first + k * step` (for `k` from 0) below `end`.
pub open spec fn stepped_count(first: int, end: int, step: int) -> int {
    if first < end {
        (end - first + step - 1) / step
    } else {
        0
    }
}

/// The values from `first` on, `step` apart, that lie below `end`: the key
/// points of a duration axis, in nanoseconds or in days.
pub open spec fn spec_stepped_values(first: int, end: int, step: int) -> Seq<int> {
    Seq::new(stepped_count(first, end, step) as nat, |k: int| first + k * step)
}

/// The values from `first` on, `step` apart, that lie below `end`, in order.
pub fn stepped_values(first: i64, end: i64, step: i64) -> (r: Vec<i64>)
    requires
        step >= 1,
        stepped_count(first as int, end as int, step as int) <= usize::MAX,
    ensures
        r@.map_values(|v: i64| v as int) == spec_stepped_values(first as int, end as int, step as int),
        forall|k: int| 0 <= k < r@.len() ==> r@[k] < end,
{
    let ghost all = spec_stepped_values(first as int, end as int, step as int);
    let ghost n = stepped_count(first as int, end as int, step as int);
    let mut r: Vec<i64> = Vec::new();
    let mut current: i128 = first as i128;
    let ghost mut k: int = 0;
    proof {
        if first < end {
            let (f, e, st) = (first as int, end as int, step as int);
            assert(n >= 1) by (nonlinear_arith)
                requires
                    n == (e - f + st - 1) / st,
                    e - f >= 1,
                    st >= 1,
            ;
        }
    }
    while current < end as i128
        invariant
            step >= 1,
            0 <= k <= n,
            n == stepped_count(first as int, end as int, step as int),
            all == spec_stepped_values(first as int, end as int, step as int),
            current == first + k * step,
            r@.map_values(|v: i64| v as int) == all.take(k),
            forall|j: int| 0 <= j < r@.len() ==> r@[j] < end,
            current < end <==> k < n,
            i64::MIN <= first,
            end <= i64::MAX,
        decreases n - k,
    {
        proof {
            lemma_stepped_walk(first as int, end as int, step as int, k);
        }
        let ghost prev = r@;
        r.push(current as i64);
        proof {
            assert(r@.map_values(|v: i64| v as int) =~= prev.map_values(|v: i64| v as int).push(
                current as int,
            ));
            assert(all[k] == current);
            assert(all.take(k + 1) =~= all.take(k).push(all[k]));
            k = k + 1;
            assert(first + k * step == first + (k - 1) * step + step) by (nonlinear_arith);
            lemma_stepped_walk(first as int, end as int, step as int, k);
        }
        current = current + step as i128;
    }
    proof {
        assert(all.take(k) =~= all);
    }
    r
}

/// Walking from `first` by `step`, the walk is below `end` after `k` steps
/// exactly when `k` is below the number of values below `end`.
proof fn lemma_stepped_walk(first: int, end: int, step: int, k: int)
    requires
        step >= 1,
        k >= 0,
    ensures
        first + k * step < end <==> k < stepped_count(first, end, step),
{
    if first < end {
        let c = (end - first + step - 1) / step;
        assert((c - 1) * step < end - first <= c * step) by (nonlinear_arith)
            requires
                c == (end - first + step - 1) / step,
                step >= 1,
                end - first >= 1,
        ;
        if k < c {
            assert(k * step <= (c - 1) * step) by (nonlinear_arith)
                requires
                    k <= c - 1,
                    step >= 1,
            ;
        } else {
            assert(k * step >= c * step) by (nonlinear_arith)
                requires
                    k >= c,
                    step >= 1,
            ;
        }
    } else {
        assert(k * step >= 0) by (nonlinear_arith)
            requires
                k >= 0,
                step >= 1,
        ;
    }
}

} // verus!
