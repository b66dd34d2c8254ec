//! Numeric axes over integer values.
//!
//! The position of a value on an axis is computed with exact rational
//! arithmetic: the value `v` of the range `a..b` lands `len * (v - a) / (b - a)`
//! pixels after the start of a pixel range of length `len`, rounded down after
//! adding a tolerance of one thousandth of a pixel, and saturated into `i32`.

use std::ops::Range;

use super::fits_i32;
use super::discrete::DiscreteRanged;
use super::ranged::{
    full_pixel_range, AsRangedCoord, DescreteRanged, KeyPointHint, KeyPointWeight, Ranged,
};
use vstd::arithmetic::div_mod::{
    lemma_div_is_ordered, lemma_fundamental_div_mod, lemma_fundamental_div_mod_converse,
};
use vstd::prelude::*;
use vstd::std_specs::convert::FromSpecImpl;

verus! {

/// An integer type that can be the value type of a numeric axis.
pub trait CoordInteger: Copy + Sized {
    /// The mathematical value.
    spec fn as_int(self) -> int;

    /// The smallest value of the type.
    spec fn min_int() -> int;

    /// The largest value of the type.
    spec fn max_int() -> int;

    /// The value of the type that stands for `v`, where `v` is in range.
    spec fn from_int(v: int) -> Self;

    /// Every value lies between the smallest and the largest value.
    proof fn lemma_value_bounds(x: Self)
        ensures
            Self::min_int() <= x.as_int() <= Self::max_int(),
    ;

    /// A value is the one that stands for its mathematical value.
    proof fn lemma_int_round_trip(x: Self)
        ensures
            Self::from_int(x.as_int()) == x,
    ;

    /// The value that stands for an integer in range has that integer as its value.
    proof fn lemma_from_int(v: int)
        requires
            Self::min_int() <= v <= Self::max_int(),
        ensures
            Self::from_int(v).as_int() == v,
    ;

    /// The type lies within `-2^63 ..= 2^64 - 1` and holds 0 and 1.
    proof fn lemma_type_bounds()
        ensures
            -0x8000_0000_0000_0000 <= Self::min_int() <= 0,
            1 <= Self::max_int() <= 0xffff_ffff_ffff_ffff,
    ;

    /// Widen into `i128`.
    fn to_i128(&self) -> (r: i128)
        ensures
            r == self.as_int(),
    ;

    /// The largest value of the type, widened into `i128`.
    fn max_i128() -> (r: i128)
        ensures
            r == Self::max_int(),
    ;

    /// Narrow from `i128`.
    fn from_i128(v: i128) -> (r: Self)
        requires
            Self::min_int() <= v <= Self::max_int(),
        ensures
            r.as_int() == v,
            r == Self::from_int(v as int),
    ;
}

impl CoordInteger for i32 {
    open spec fn as_int(self) -> int {
        self as int
    }

    open spec fn min_int() -> int {
        i32::MIN as int
    }

    open spec fn max_int() -> int {
        i32::MAX as int
    }

    open spec fn from_int(v: int) -> i32 {
        v as i32
    }

    proof fn lemma_value_bounds(x: i32) {
    }

    proof fn lemma_int_round_trip(x: i32) {
    }

    proof fn lemma_from_int(v: int) {
    }

    proof fn lemma_type_bounds() {
    }

    fn to_i128(&self) -> (r: i128) {
        *self as i128
    }

    fn max_i128() -> (r: i128) {
        i32::MAX as i128
    }

    fn from_i128(v: i128) -> (r: i32) {
        v as i32
    }
}

impl CoordInteger for u32 {
    open spec fn as_int(self) -> int {
        self as int
    }

    open spec fn min_int() -> int {
        0
    }

    open spec fn max_int() -> int {
        u32::MAX as int
    }

    open spec fn from_int(v: int) -> u32 {
        v as u32
    }

    proof fn lemma_value_bounds(x: u32) {
    }

    proof fn lemma_int_round_trip(x: u32) {
    }

    proof fn lemma_from_int(v: int) {
    }

    proof fn lemma_type_bounds() {
    }

    fn to_i128(&self) -> (r: i128) {
        *self as i128
    }

    fn max_i128() -> (r: i128) {
        u32::MAX as i128
    }

    fn from_i128(v: i128) -> (r: u32) {
        v as u32
    }
}

impl CoordInteger for i64 {
    open spec fn as_int(self) -> int {
        self as int
    }

    open spec fn min_int() -> int {
        i64::MIN as int
    }

    open spec fn max_int() -> int {
        i64::MAX as int
    }

    open spec fn from_int(v: int) -> i64 {
        v as i64
    }

    proof fn lemma_value_bounds(x: i64) {
    }

    proof fn lemma_int_round_trip(x: i64) {
    }

    proof fn lemma_from_int(v: int) {
    }

    proof fn lemma_type_bounds() {
    }

    fn to_i128(&self) -> (r: i128) {
        *self as i128
    }

    fn max_i128() -> (r: i128) {
        i64::MAX as i128
    }

    fn from_i128(v: i128) -> (r: i64) {
        v as i64
    }
}

impl CoordInteger for u64 {
    open spec fn as_int(self) -> int {
        self as int
    }

    open spec fn min_int() -> int {
        0
    }

    open spec fn max_int() -> int {
        u64::MAX as int
    }

    open spec fn from_int(v: int) -> u64 {
        v as u64
    }

    proof fn lemma_value_bounds(x: u64) {
    }

    proof fn lemma_int_round_trip(x: u64) {
    }

    proof fn lemma_from_int(v: int) {
    }

    proof fn lemma_type_bounds() {
    }

    fn to_i128(&self) -> (r: i128) {
        *self as i128
    }

    fn max_i128() -> (r: i128) {
        u64::MAX as i128
    }

    fn from_i128(v: i128) -> (r: u64) {
        v as u64
    }
}

impl CoordInteger for usize {
    open spec fn as_int(self) -> int {
        self as int
    }

    open spec fn min_int() -> int {
        0
    }

    open spec fn max_int() -> int {
        usize::MAX as int
    }

    open spec fn from_int(v: int) -> usize {
        v as usize
    }

    proof fn lemma_value_bounds(x: usize) {
    }

    proof fn lemma_int_round_trip(x: usize) {
    }

    proof fn lemma_from_int(v: int) {
    }

    proof fn lemma_type_bounds() {
    }

    fn to_i128(&self) -> (r: i128) {
        *self as i128
    }

    fn max_i128() -> (r: i128) {
        usize::MAX as i128
    }

    fn from_i128(v: i128) -> (r: usize) {
        v as usize
    }
}

/// Whether `v` is a value of the integer type `T`.
pub open spec fn in_type<T: CoordInteger>(v: int) -> bool {
    T::min_int() <= v <= T::max_int()
}

/// `10^k`.
pub open spec fn pow10(k: nat) -> int
    decreases k,
{
    if k == 0 {
        1
    } else {
        10 * pow10((k - 1) as nat)
    }
}

/// The `k`-th candidate distance between key points: 1, 2, 5, 10, 20, 50, 100, ...
pub open spec fn nice_step(k: nat) -> int {
    let base = pow10(k / 3);
    if k % 3 == 0 {
        base
    } else if k % 3 == 1 {
        2 * base
    } else {
        5 * base
    }
}

/// `d / s` rounded up, for `d >= 0` and `s > 0`.
pub open spec fn ceil_div(d: int, s: int) -> int {
    (d + s - 1) / s
}

/// Whether the `k`-th candidate distance is fine for a range of length `d` that
/// should show fewer than `m` key points; a power of ten may also reach `m`.
pub open spec fn step_accepted(d: int, m: int, k: nat) -> bool {
    ceil_div(d, nice_step(k)) < m || (k % 3 == 0 && ceil_div(d, nice_step(k)) <= m)
}

/// Whether the `k`-th candidate is the first one that is fine.
pub open spec fn is_first_accepted_step(d: int, m: int, k: nat) -> bool {
    step_accepted(d, m, k) && forall|j: nat| j < k ==> !#[trigger] step_accepted(d, m, j)
}

/// The distance between key points for a range of length `d` and at most `m`
/// points: the first candidate that is fine.
pub open spec fn key_point_step(d: int, m: int) -> int {
    nice_step(choose|k: nat| is_first_accepted_step(d, m, k))
}

/// The least multiple of `s` that is not below `a`.
pub open spec fn align_up(a: int, s: int) -> int {
    a + (s - a % s) % s
}

/// The remainder of `x` by `s`, with the sign of `x`.
pub open spec fn trunc_rem(x: int, s: int) -> int {
    if x >= 0 {
        x % s
    } else {
        -((-x) % s)
    }
}

/// The key points of the integer range `a..b` for at most `m` points: the
/// multiples of the key point distance from the first one not below `a` up
/// to `b` rounded toward zero to a multiple.
pub open spec fn key_point_values(a: int, b: int, m: int) -> Seq<int> {
    let s = key_point_step(b - a, m);
    let left = align_up(a, s);
    let right = b - trunc_rem(b, s);
    if right < left {
        Seq::empty()
    } else {
        Seq::new(((right - left) / s + 1) as nat, |i: int| left + i * s)
    }
}

/// The inputs for which the key points of `a..b` can be computed: a
/// range that is not reversed, and some point allowed unless it is empty.
pub open spec fn key_points_defined(a: int, b: int, m: int) -> bool {
    a <= b && m >= 0 && (m > 0 || a == b)
}

/// `p / q` rounded down, for `q != 0`.
pub open spec fn floor_div(p: int, q: int) -> int {
    if q > 0 {
        p / q
    } else {
        (-p) / (-q)
    }
}

/// `x` saturated into `i32`.
pub open spec fn clamp_i32(x: int) -> int {
    if x < i32::MIN {
        i32::MIN as int
    } else if x > i32::MAX {
        i32::MAX as int
    } else {
        x
    }
}

/// The offset, within a pixel range of length `len != 0`, of the value `v` of
/// the range `a..b`: `len * (v - a) / (b - a) + 1/1000` rounded down and
/// saturated into `i32`. On an empty range the value `a` is at offset 0 and
/// any other value is infinitely far, on the side its sign gives.
pub open spec fn linear_offset(v: int, a: int, b: int, len: int) -> int {
    if b == a {
        if v == a {
            0
        } else if (v - a > 0) == (len > 0) {
            i32::MAX as int
        } else {
            i32::MIN as int
        }
    } else {
        clamp_i32(floor_div(1000 * len * (v - a) + (b - a), 1000 * (b - a)))
    }
}

/// The pixel of the value `v` of the range `a..b` within `limit`.
pub open spec fn linear_map(v: int, a: int, b: int, limit: (i32, i32)) -> int {
    let len = limit.1 - limit.0;
    if len == 0 {
        limit.1 as int
    } else {
        limit.0 + linear_offset(v, a, b, len)
    }
}

proof fn lemma_nice_step_next(k: nat)
    requires
        k % 3 == 0,
    ensures
        nice_step(k + 1) == 2 * nice_step(k),
        nice_step(k + 2) == 5 * nice_step(k),
        nice_step(k + 3) == 10 * nice_step(k),
        nice_step(k) >= 1,
{
    let q = k / 3;
    assert((k + 1) / 3 == q && (k + 1) % 3 == 1);
    assert((k + 2) / 3 == q && (k + 2) % 3 == 2);
    assert((k + 3) / 3 == q + 1 && (k + 3) % 3 == 0);
    assert(pow10((q + 1) as nat) == 10 * pow10(q));
    lemma_pow10_positive(q);
}

proof fn lemma_pow10_positive(k: nat)
    ensures
        pow10(k) >= 1,
    decreases k,
{
    if k > 0 {
        lemma_pow10_positive((k - 1) as nat);
    }
}

proof fn lemma_ceil_div_at_most_one(d: int, c: int)
    requires
        0 <= d <= c,
        c > 0,
    ensures
        ceil_div(d, c) <= 1,
{
    let x = d + c - 1;
    if d == 0 {
        lemma_fundamental_div_mod_converse(x, c, 0, x);
    } else {
        lemma_fundamental_div_mod_converse(x, c, 1, x - c);
    }
}

proof fn lemma_mod_at_most(x: int, s: int)
    requires
        x >= 0,
        s > 0,
    ensures
        0 <= x % s <= x,
        x % s < s,
{
    if x < s {
        lemma_fundamental_div_mod_converse(x, s, 0, x);
    } else {
        vstd::arithmetic::div_mod::lemma_mod_bound(x, s);
    }
}

proof fn lemma_first_accepted_unique(d: int, m: int, k: nat)
    requires
        is_first_accepted_step(d, m, k),
    ensures
        key_point_step(d, m) == nice_step(k),
{
    let c = choose|j: nat| is_first_accepted_step(d, m, j);
    assert(is_first_accepted_step(d, m, c));
    if c < k {
        assert(!step_accepted(d, m, c));
    } else if k < c {
        assert(!step_accepted(d, m, k));
    }
}

/// Find the distance between key points for a range of length `d`.
fn find_key_point_step(d: i128, m: i128) -> (s: i128)
    requires
        0 <= d <= 0x2_0000_0000_0000_0000,
        0 <= m <= 0xffff_ffff_ffff_ffff,
        m > 0 || d == 0,
    ensures
        s == key_point_step(d as int, m as int),
        1 <= s,
        s <= 10 * d || s == 1,
{
    let mut scale: i128 = 1;
    let ghost mut k: nat = 0;
    let mut done = (d + scale - 1) / scale <= m;
    proof {
        lemma_nice_step_next(0);
        assert(nice_step(0) == 1);
        if done {
            assert(step_accepted(d as int, m as int, 0));
        } else {
            assert(!step_accepted(d as int, m as int, 0));
        }
    }
    while !done
        invariant
            0 <= d <= 0x2_0000_0000_0000_0000,
            0 <= m <= 0xffff_ffff_ffff_ffff,
            m > 0 || d == 0,
            scale == nice_step(k),
            1 <= scale,
            scale <= 10 * d || scale == 1,
            done ==> is_first_accepted_step(d as int, m as int, k),
            !done ==> k % 3 == 0 && scale < d && forall|j: nat|
                j <= k ==> !#[trigger] step_accepted(d as int, m as int, j),
        decreases 10 * d + 1 - scale,
    {
        proof {
            lemma_nice_step_next(k);
        }
        let base = scale;
        let c2 = base * 2;
        let c5 = base * 5;
        let c10 = base * 10;
        if (d + c2 - 1) / c2 < m {
            scale = c2;
            proof {
                assert(step_accepted(d as int, m as int, k + 1));
                assert forall|j: nat| j < k + 1 implies !#[trigger] step_accepted(
                    d as int,
                    m as int,
                    j,
                ) by {}
                k = k + 1;
            }
            done = true;
        } else if (d + c5 - 1) / c5 < m {
            scale = c5;
            proof {
                assert(!step_accepted(d as int, m as int, k + 1));
                assert(step_accepted(d as int, m as int, k + 2));
                assert forall|j: nat| j < k + 2 implies !#[trigger] step_accepted(
                    d as int,
                    m as int,
                    j,
                ) by {
                    if j == k + 1 {
                    }
                }
                k = k + 2;
            }
            done = true;
        } else {
            scale = c10;
            done = (d + c10 - 1) / c10 <= m;
            proof {
                if !done && c10 >= d {
                    lemma_ceil_div_at_most_one(d as int, c10 as int);
                }
                assert(!step_accepted(d as int, m as int, k + 1));
                assert(!step_accepted(d as int, m as int, k + 2));
                assert((k + 3) % 3 == 0);
                if done {
                    assert(step_accepted(d as int, m as int, k + 3));
                } else {
                    assert(!step_accepted(d as int, m as int, k + 3));
                }
                assert forall|j: nat| j < k + 3 implies !#[trigger] step_accepted(
                    d as int,
                    m as int,
                    j,
                ) by {
                    if j == k + 1 {
                    } else if j == k + 2 {
                    }
                }
                k = k + 3;
            }
        }
    }
    proof {
        lemma_first_accepted_unique(d as int, m as int, k);
    }
    scale
}

proof fn lemma_align_up(a: int, s: int, r: int)
    requires
        s > 0,
        r == trunc_rem(a, s),
    ensures
        a + trunc_rem(s - r, s) == align_up(a, s),
{
    let q = a / s;
    let e = a % s;
    lemma_fundamental_div_mod(a, s);
    if a >= 0 {
        assert(r == e);
    } else {
        let n = -a;
        let qn = n / s;
        let en = n % s;
        lemma_fundamental_div_mod(n, s);
        assert(r == -en);
        assert((-qn) * s == -(qn * s)) by (nonlinear_arith);
        assert((-qn - 1) * s == -(qn * s) - s) by (nonlinear_arith);
        if en == 0 {
            lemma_fundamental_div_mod_converse(a, s, -qn, 0);
            assert(e == 0);
        } else {
            lemma_fundamental_div_mod_converse(a, s, -qn - 1, s - en);
            assert(e == s - en);
        }
    }
    let t = s - r;
    assert(0 < t < 2 * s);
    if t >= s {
        lemma_fundamental_div_mod_converse(t, s, 1, t - s);
    } else {
        lemma_fundamental_div_mod_converse(t, s, 0, t);
    }
    let u = s - e;
    if u >= s {
        lemma_fundamental_div_mod_converse(u, s, 1, u - s);
    } else {
        lemma_fundamental_div_mod_converse(u, s, 0, u);
    }
}

/// The key points of the integer range `a..b` for at most `max_points` points.
pub(crate) fn compute_key_points<T: CoordInteger>(a: T, b: T, max_points: usize) -> (r: Vec<T>)
    requires
        key_points_defined(a.as_int(), b.as_int(), max_points as int),
    ensures
        r@ == key_point_values(a.as_int(), b.as_int(), max_points as int).map_values(
            |x: int| T::from_int(x),
        ),
{
    proof {
        T::lemma_value_bounds(a);
        T::lemma_value_bounds(b);
        T::lemma_type_bounds();
    }
    let ai = a.to_i128();
    let bi = b.to_i128();
    let d = bi - ai;
    let m = max_points as i128;
    let s = find_key_point_step(d, m);
    let ghost kp = key_point_values(a.as_int(), b.as_int(), max_points as int);
    let ra = ai % s;
    let left = ai + (s - ra) % s;
    let right = bi - bi % s;
    proof {
        lemma_align_up(ai as int, s as int, ra as int);
        assert(left == align_up(a.as_int(), s as int));
        assert(right == b.as_int() - trunc_rem(b.as_int(), s as int));
        assert(left >= ai);
        if bi >= 0 {
            lemma_mod_at_most(bi as int, s as int);
        } else {
            lemma_mod_at_most(-bi, s as int);
        }
        assert(right <= bi || right <= 0);
    }
    let mut ret: Vec<T> = Vec::new();
    let mut cur = left;
    assert(left + ret@.len() * s == left);
    while cur <= right
        invariant
            left <= cur,
            ret@.len() > 0 ==> cur <= right + s,
            1 <= s,
            left >= ai,
            ai == a.as_int(),
            T::min_int() <= ai,
            right <= T::max_int(),
            right + s < 0x1000_0000_0000_0000_0000_0000_0000,
            cur == left + ret@.len() * s,
            ret@.len() > 0 ==> cur - s <= right,
            forall|i: int| 0 <= i < ret@.len() ==> #[trigger] ret@[i] == T::from_int(left + i * s),
        decreases right + s - cur,
    {
        let v = T::from_i128(cur);
        let ghost n = ret@.len() as int;
        ret.push(v);
        cur = cur + s;
        proof {
            assert((n + 1) * s == n * s + s) by (nonlinear_arith);
        }
    }
    proof {
        if right >= left {
            let n = ret@.len() as int;
            assert(n > 0);
            assert(n * s == (n - 1) * s + s) by (nonlinear_arith);
            lemma_fundamental_div_mod_converse(
                (right - left) as int,
                s as int,
                n - 1,
                (right - left) - (n - 1) * s,
            );
            assert(kp.len() == n);
        } else {
            let n = ret@.len() as int;
            if n > 0 {
                assert(n * s == (n - 1) * s + s) by (nonlinear_arith);
                assert((n - 1) * s >= 0) by (nonlinear_arith)
                    requires
                        n >= 1,
                        s >= 1,
                ;
            }
            assert(ret@.len() == 0);
        }
        assert(ret@ =~= kp.map_values(|x: int| T::from_int(x)));
    }
    ret
}

proof fn lemma_pow10_grows(q: nat)
    ensures
        pow10(q) >= q + 1,
    decreases q,
{
    if q > 0 {
        lemma_pow10_grows((q - 1) as nat);
    }
}

proof fn lemma_some_step_accepted(d: int, m: int) -> (k: nat)
    requires
        key_points_defined(0, d, m),
    ensures
        step_accepted(d, m, k),
{
    if d == 0 {
        lemma_pow10_positive(0);
        assert(nice_step(0) == 1);
        lemma_fundamental_div_mod_converse(0, 1, 0, 0);
        0
    } else {
        let q = d as nat;
        let k = 3 * q;
        assert(k / 3 == q && k % 3 == 0);
        lemma_pow10_grows(q);
        assert(nice_step(k) == pow10(q));
        lemma_ceil_div_at_most_one(d, pow10(q));
        k
    }
}

proof fn lemma_first_step_exists(d: int, m: int, k: nat) -> (f: nat)
    requires
        step_accepted(d, m, k),
    ensures
        is_first_accepted_step(d, m, f),
    decreases k,
{
    if exists|j: nat| j < k && #[trigger] step_accepted(d, m, j) {
        let j = choose|j: nat| j < k && #[trigger] step_accepted(d, m, j);
        lemma_first_step_exists(d, m, j)
    } else {
        k
    }
}

proof fn lemma_step_of(d: int, m: int) -> (k: nat)
    requires
        key_points_defined(0, d, m),
    ensures
        is_first_accepted_step(d, m, k),
        key_point_step(d, m) == nice_step(k),
        key_point_step(d, m) >= 1,
{
    let k0 = lemma_some_step_accepted(d, m);
    let k = lemma_first_step_exists(d, m, k0);
    lemma_first_accepted_unique(d, m, k);
    lemma_nice_step_positive(k);
    k
}

proof fn lemma_nice_step_positive(k: nat)
    ensures
        nice_step(k) >= 1,
{
    lemma_pow10_positive(k / 3);
}

/// The shape of the key points of the integer range `a..b` for at most `m`
/// points: they start at the first multiple of the key point distance not
/// below `a` and go up by that distance; there are at most `m + 1` of them,
/// and at most `m` unless the span needs exactly `m` steps of a power of ten;
/// when `b` is not negative they all lie within `a..=b`.
pub proof fn lemma_key_points_shape(a: int, b: int, m: int)
    requires
        key_points_defined(a, b, m),
    ensures
        key_point_step(b - a, m) >= 1,
        ceil_div(b - a, key_point_step(b - a, m)) <= m,
        key_point_values(a, b, m).len() <= m + 1,
        ceil_div(b - a, key_point_step(b - a, m)) < m ==> key_point_values(a, b, m).len() <= m,
        forall|i: int|
            0 <= i < key_point_values(a, b, m).len() ==> a <= #[trigger] key_point_values(
                a,
                b,
                m,
            )[i] && key_point_values(a, b, m)[i] % key_point_step(b - a, m) == 0,
        forall|i: int|
            0 <= i < key_point_values(a, b, m).len() - 1 ==> #[trigger] key_point_values(
                a,
                b,
                m,
            )[i + 1] == key_point_values(a, b, m)[i] + key_point_step(b - a, m),
        b >= 0 ==> forall|i: int|
            0 <= i < key_point_values(a, b, m).len() ==> #[trigger] key_point_values(a, b, m)[i]
                <= b,
{
    let d = b - a;
    let k = lemma_step_of(d, m);
    let s = key_point_step(d, m);
    let kp = key_point_values(a, b, m);
    let left = align_up(a, s);
    let right = b - trunc_rem(b, s);
    // the first point is a multiple of s, not below a, less than s above it
    let e = a % s;
    lemma_fundamental_div_mod(a, s);
    if e == 0 {
        lemma_fundamental_div_mod_converse(s - e, s, 1, 0);
        assert(left == a);
    } else {
        lemma_fundamental_div_mod_converse(s - e, s, 0, s - e);
        assert(left == a + s - e);
    }
    let ql = if e == 0 { a / s } else { a / s + 1 };
    assert(left == ql * s) by (nonlinear_arith)
        requires
            a == s * (a / s) + e,
            e == 0 ==> left == a && ql == a / s,
            e != 0 ==> left == a + s - e && ql == a / s + 1,
    ;
    assert(a <= left < a + s);
    // the last point is below b + s
    if b >= 0 {
        lemma_mod_at_most(b, s);
        assert(right <= b);
    } else {
        lemma_mod_at_most(-b, s);
        assert(right < b + s);
    }
    if right >= left {
        let n = (right - left) / s;
        lemma_fundamental_div_mod(right - left, s);
        assert(n * s <= right - left) by (nonlinear_arith)
            requires
                right - left == s * n + (right - left) % s,
                0 <= (right - left) % s,
        ;
        lemma_div_is_ordered(right - left, d + s - 1, s);
        assert(kp.len() == n + 1);
        assert forall|i: int| 0 <= i < kp.len() implies a <= #[trigger] kp[i] && kp[i] % s
            == 0 by {
            assert(kp[i] == left + i * s);
            assert(i * s >= 0) by (nonlinear_arith)
                requires
                    i >= 0,
                    s >= 1,
            ;
            assert(left + i * s == (ql + i) * s) by (nonlinear_arith)
                requires
                    left == ql * s,
            ;
            lemma_fundamental_div_mod_converse(kp[i], s, ql + i, 0);
        }
        assert forall|i: int| 0 <= i < kp.len() - 1 implies #[trigger] kp[i + 1] == kp[i]
            + s by {
            assert((i + 1) * s == i * s + s) by (nonlinear_arith);
        }
        if b >= 0 {
            assert forall|i: int| 0 <= i < kp.len() implies #[trigger] kp[i] <= b by {
                assert(i * s <= n * s) by (nonlinear_arith)
                    requires
                        i <= n,
                        s >= 1,
                ;
            }
        }
    }
}

/// `p / q` rounded down.
fn floor_div_i128(p: i128, q: i128) -> (r: i128)
    requires
        q != 0,
        -0x1_0000_0000_0000_0000_0000_0000_0000 <= p <= 0x1_0000_0000_0000_0000_0000_0000_0000,
        -0x1_0000_0000_0000_0000_0000_0000_0000 <= q <= 0x1_0000_0000_0000_0000_0000_0000_0000,
    ensures
        r == floor_div(p as int, q as int),
{
    let pp = if q > 0 { p } else { -p };
    let qq = if q > 0 { q } else { -q };
    if pp >= 0 {
        pp / qq
    } else {
        let n = -pp;
        let t = (n + qq - 1) / qq;
        proof {
            let pq = (pp as int) / (qq as int);
            let pr = (pp as int) % (qq as int);
            lemma_fundamental_div_mod(pp as int, qq as int);
            assert(n + qq - 1 == qq * (-pq) + (qq - 1 - pr)) by (nonlinear_arith)
                requires
                    pp == qq * pq + pr,
                    n == -pp,
            ;
            assert(qq * (-pq) == (-pq) * qq) by (nonlinear_arith);
            lemma_fundamental_div_mod_converse(
                (n + qq - 1) as int,
                qq as int,
                -pq,
                (qq - 1 - pr) as int,
            );
        }
        -t
    }
}

/// The offset of `v` within a pixel range of length `len`; see `linear_offset`.
fn linear_offset_exec(v: i128, a: i128, b: i128, len: i128) -> (r: i128)
    requires
        len != 0,
        -0x2_0000_0000_0000_0000 <= v - a <= 0x2_0000_0000_0000_0000,
        -0x2_0000_0000_0000_0000 <= b - a <= 0x2_0000_0000_0000_0000,
        -0x2_0000_0000 <= len <= 0x2_0000_0000,
    ensures
        r == linear_offset(v as int, a as int, b as int, len as int),
{
    if b == a {
        if v == a {
            0
        } else if (v - a > 0) == (len > 0) {
            i32::MAX as i128
        } else {
            i32::MIN as i128
        }
    } else {
        let dv = v - a;
        let db = b - a;
        proof {
            assert(-0x2_0000_0000 * 0x2_0000_0000_0000_0000 <= len * dv <= 0x2_0000_0000
                * 0x2_0000_0000_0000_0000) by (nonlinear_arith)
                requires
                    -0x2_0000_0000_0000_0000 <= dv <= 0x2_0000_0000_0000_0000,
                    -0x2_0000_0000 <= len <= 0x2_0000_0000,
            ;
        }
        let q = floor_div_i128(1000 * (len * dv) + db, 1000 * db);
        proof {
            assert(1000 * (len * dv) == 1000 * len * dv) by (nonlinear_arith);
        }
        if q < i32::MIN as i128 {
            i32::MIN as i128
        } else if q > i32::MAX as i128 {
            i32::MAX as i128
        } else {
            q
        }
    }
}

/// Map `v` of the range `a..b` into `limit`; see `linear_map`.
fn linear_map_exec(v: i128, a: i128, b: i128, limit: (i32, i32)) -> (r: i32)
    requires
        -0x2_0000_0000_0000_0000 <= v - a <= 0x2_0000_0000_0000_0000,
        -0x2_0000_0000_0000_0000 <= b - a <= 0x2_0000_0000_0000_0000,
        fits_i32(limit.1 - limit.0),
        fits_i32(linear_map(v as int, a as int, b as int, limit)),
    ensures
        r == linear_map(v as int, a as int, b as int, limit),
{
    let actual_length = limit.1 - limit.0;
    if actual_length == 0 {
        return limit.1;
    }
    let off = linear_offset_exec(v, a, b, actual_length as i128);
    (limit.0 as i128 + off) as i32
}

/// The numeric axis over the integer range `start..end`.
pub struct RangedCoordInt<T: CoordInteger>(pub T, pub T);

/// A numeric axis over `i32` values.
pub type RangedCoordi32 = RangedCoordInt<i32>;

/// A numeric axis over `u32` values.
pub type RangedCoordu32 = RangedCoordInt<u32>;

/// A numeric axis over `i64` values.
pub type RangedCoordi64 = RangedCoordInt<i64>;

/// A numeric axis over `u64` values.
pub type RangedCoordu64 = RangedCoordInt<u64>;

/// A numeric axis over `usize` values.
pub type RangedCoordusize = RangedCoordInt<usize>;

impl<T: CoordInteger> RangedCoordInt<T> {
    /// The start of the range.
    pub open spec fn start(&self) -> T {
        self.0
    }

    /// The end of the range.
    pub open spec fn end(&self) -> T {
        self.1
    }
}

impl<T: CoordInteger> From<Range<T>> for RangedCoordInt<T> {
    fn from(range: Range<T>) -> (r: Self)
        ensures
            r.start() == range.start && r.end() == range.end,
    {
        RangedCoordInt(range.start, range.end)
    }
}

impl<T: CoordInteger> FromSpecImpl<Range<T>> for RangedCoordInt<T> {
    open spec fn obeys_from_spec() -> bool {
        true
    }

    open spec fn from_spec(v: Range<T>) -> Self {
        RangedCoordInt(v.start, v.end)
    }
}

impl<T: CoordInteger> Ranged for RangedCoordInt<T> {
    type ValueType = T;

    open spec fn spec_map(&self, value: T, limit: (i32, i32)) -> i32 {
        linear_map(value.as_int(), self.0.as_int(), self.1.as_int(), limit) as i32
    }

    open spec fn map_ok(&self, value: T, limit: (i32, i32)) -> bool {
        &&& in_type::<T>(value.as_int() - self.0.as_int())
        &&& in_type::<T>(self.1.as_int() - self.0.as_int())
        &&& fits_i32(limit.1 - limit.0)
        &&& fits_i32(linear_map(value.as_int(), self.0.as_int(), self.1.as_int(), limit))
    }

    open spec fn spec_key_points(&self, max_points: usize, weight: KeyPointWeight) -> Seq<T> {
        key_point_values(self.0.as_int(), self.1.as_int(), max_points as int).map_values(
            |x: int| T::from_int(x),
        )
    }

    open spec fn key_points_ok(&self, max_points: usize) -> bool {
        key_points_defined(self.0.as_int(), self.1.as_int(), max_points as int)
    }

    open spec fn spec_range(&self) -> Range<T> {
        Range { start: self.0, end: self.1 }
    }

    open spec fn range_ok(&self) -> bool {
        true
    }

    open spec fn spec_axis_pixel_range(&self, limit: (i32, i32)) -> Range<i32> {
        full_pixel_range(limit)
    }

    open spec fn axis_pixel_range_ok(&self, limit: (i32, i32)) -> bool {
        true
    }

    fn map(&self, v: &T, limit: (i32, i32)) -> (r: i32) {
        proof {
            T::lemma_value_bounds(*v);
            T::lemma_value_bounds(self.0);
            T::lemma_value_bounds(self.1);
            T::lemma_type_bounds();
        }
        linear_map_exec(v.to_i128(), self.0.to_i128(), self.1.to_i128(), limit)
    }

    fn key_points<Hint: KeyPointHint>(&self, hint: Hint) -> (r: Vec<T>) {
        compute_key_points(self.0, self.1, hint.max_num_points())
    }

    fn range(&self) -> (r: Range<T>) {
        self.0..self.1
    }

    fn axis_pixel_range(&self, limit: (i32, i32)) -> (r: Range<i32>) {
        limit.0..limit.1
    }
}

impl<T: CoordInteger> DiscreteRanged for RangedCoordInt<T> {
    open spec fn spec_size(&self) -> usize {
        if self.1.as_int() < self.0.as_int() {
            0
        } else {
            (self.1.as_int() - self.0.as_int() + 1) as usize
        }
    }

    open spec fn size_ok(&self) -> bool {
        self.1.as_int() < self.0.as_int() || in_type::<T>(self.1.as_int() - self.0.as_int() + 1)
    }

    open spec fn spec_index_of(&self, value: T) -> Option<usize> {
        if value.as_int() < self.0.as_int() {
            None
        } else {
            Some((value.as_int() - self.0.as_int()) as usize)
        }
    }

    open spec fn index_of_ok(&self, value: T) -> bool {
        value.as_int() < self.0.as_int() || in_type::<T>(value.as_int() - self.0.as_int())
    }

    open spec fn spec_from_index(&self, index: usize) -> Option<T> {
        if index > T::max_int() {
            None
        } else {
            Some(T::from_int(self.0.as_int() + index))
        }
    }

    open spec fn from_index_ok(&self, index: usize) -> bool {
        index > T::max_int() || in_type::<T>(self.0.as_int() + index)
    }

    fn size(&self) -> (r: usize) {
        proof {
            T::lemma_value_bounds(self.0);
            T::lemma_value_bounds(self.1);
            T::lemma_type_bounds();
        }
        let a = self.0.to_i128();
        let b = self.1.to_i128();
        if b < a {
            return 0;
        }
        (b - a + 1) as usize
    }

    fn index_of(&self, value: &T) -> (r: Option<usize>) {
        proof {
            T::lemma_value_bounds(self.0);
            T::lemma_value_bounds(*value);
            T::lemma_type_bounds();
        }
        let a = self.0.to_i128();
        let v = value.to_i128();
        if v < a {
            return None;
        }
        Some((v - a) as usize)
    }

    fn from_index(&self, index: usize) -> (r: Option<T>) {
        proof {
            T::lemma_value_bounds(self.0);
            T::lemma_type_bounds();
        }
        let idx = index as i128;
        if idx > T::max_i128() {
            return None;
        }
        Some(T::from_i128(self.0.to_i128() + idx))
    }
}

/// On an integer axis `a..b` whose number of values fits `usize`, the index
/// of each value `a..=b` leads back to the value, and the value of each index
/// below the size leads back to the index.
pub proof fn lemma_integer_index_round_trip<T: CoordInteger>(r: RangedCoordInt<T>, v: T, i: usize)
    requires
        r.start().as_int() <= r.end().as_int(),
        r.size_ok(),
        r.end().as_int() - r.start().as_int() + 1 <= usize::MAX,
    ensures
        r.start().as_int() <= v.as_int() <= r.end().as_int() ==> r.index_of_ok(v)
            && r.spec_index_of(v) is Some,
        r.start().as_int() <= v.as_int() <= r.end().as_int() ==> r.spec_index_of(v).unwrap()
            < r.spec_size() && r.from_index_ok(r.spec_index_of(v).unwrap()) && r.spec_from_index(
            r.spec_index_of(v).unwrap(),
        ) == Some(v),
        i < r.spec_size() ==> r.from_index_ok(i) && r.spec_from_index(i) is Some,
        i < r.spec_size() ==> r.index_of_ok(r.spec_from_index(i).unwrap()) && r.spec_index_of(
            r.spec_from_index(i).unwrap(),
        ) == Some(i),
{
    T::lemma_int_round_trip(v);
    T::lemma_type_bounds();
    T::lemma_value_bounds(v);
    T::lemma_value_bounds(r.start());
    if i < r.spec_size() {
        T::lemma_value_bounds(r.end());
        T::lemma_from_int(r.start().as_int() + i);
    }
}

impl<T: CoordInteger> DescreteRanged for RangedCoordInt<T> where T: Eq {
    open spec fn spec_next_value(this: T) -> T {
        T::from_int(this.as_int() + 1)
    }

    open spec fn next_value_ok(this: T) -> bool {
        in_type::<T>(this.as_int() + 1)
    }

    open spec fn spec_previous_value(this: T) -> T {
        T::from_int(this.as_int() - 1)
    }

    open spec fn previous_value_ok(this: T) -> bool {
        in_type::<T>(this.as_int() - 1)
    }

    fn next_value(this: &T) -> (r: T) {
        proof {
            T::lemma_value_bounds(*this);
            T::lemma_type_bounds();
        }
        T::from_i128(this.to_i128() + 1)
    }

    fn previous_value(this: &T) -> (r: T) {
        proof {
            T::lemma_value_bounds(*this);
            T::lemma_type_bounds();
        }
        T::from_i128(this.to_i128() - 1)
    }
}

impl<T: CoordInteger> AsRangedCoord for Range<T> {
    type CoordDescType = RangedCoordInt<T>;
    type Value = T;

    open spec fn spec_into_coord(self) -> RangedCoordInt<T> {
        RangedCoordInt(self.start, self.end)
    }

    fn into_coord(self) -> (r: RangedCoordInt<T>) {
        RangedCoordInt(self.start, self.end)
    }
}

impl<T: CoordInteger> AsRangedCoord for RangedCoordInt<T> {
    type CoordDescType = RangedCoordInt<T>;
    type Value = T;

    open spec fn spec_into_coord(self) -> RangedCoordInt<T> {
        self
    }

    fn into_coord(self) -> (r: RangedCoordInt<T>) {
        self
    }
}

/// The key points of the `i32` range `range.0..range.1` for at most `max_points` points.
pub fn compute_i32_key_points(range: (i32, i32), max_points: usize) -> (r: Vec<i32>)
    requires
        key_points_defined(range.0 as int, range.1 as int, max_points as int),
    ensures
        r@ == key_point_values(range.0 as int, range.1 as int, max_points as int).map_values(
            |x: int| x as i32,
        ),
{
    compute_key_points(range.0, range.1, max_points)
}

/// The key points of the `u32` range `range.0..range.1` for at most `max_points` points.
pub fn compute_u32_key_points(range: (u32, u32), max_points: usize) -> (r: Vec<u32>)
    requires
        key_points_defined(range.0 as int, range.1 as int, max_points as int),
    ensures
        r@ == key_point_values(range.0 as int, range.1 as int, max_points as int).map_values(
            |x: int| x as u32,
        ),
{
    compute_key_points(range.0, range.1, max_points)
}

/// The key points of the `i64` range `range.0..range.1` for at most `max_points` points.
pub fn compute_i64_key_points(range: (i64, i64), max_points: usize) -> (r: Vec<i64>)
    requires
        key_points_defined(range.0 as int, range.1 as int, max_points as int),
    ensures
        r@ == key_point_values(range.0 as int, range.1 as int, max_points as int).map_values(
            |x: int| x as i64,
        ),
{
    compute_key_points(range.0, range.1, max_points)
}

/// The key points of the `u64` range `range.0..range.1` for at most `max_points` points.
pub fn compute_u64_key_points(range: (u64, u64), max_points: usize) -> (r: Vec<u64>)
    requires
        key_points_defined(range.0 as int, range.1 as int, max_points as int),
    ensures
        r@ == key_point_values(range.0 as int, range.1 as int, max_points as int).map_values(
            |x: int| x as u64,
        ),
{
    compute_key_points(range.0, range.1, max_points)
}



/// On an integer axis `a..b` with `a < b` mapped onto a pixel range that runs
/// forward (not longer than the largest `i32`), the start of the axis lands
/// on the start of the range, the end on its end, and the values in between
/// in their order within the range.
pub proof fn lemma_linear_map_forward<T: CoordInteger>(r: RangedCoordInt<T>, v: T, w: T, limit: (i32, i32))
    requires
        r.start().as_int() < r.end().as_int(),
        limit.0 < limit.1,
        limit.1 - limit.0 <= i32::MAX,
        r.start().as_int() <= v.as_int() <= w.as_int() <= r.end().as_int(),
    ensures
        r.spec_map(r.start(), limit) == limit.0,
        r.spec_map(r.end(), limit) == limit.1,
        limit.0 <= r.spec_map(v, limit) <= r.spec_map(w, limit) <= limit.1,
{
    let a = r.start().as_int();
    let b = r.end().as_int();
    let d = b - a;
    let len = limit.1 - limit.0;
    let q = 1000 * d;
    let nv = 1000 * len * (v.as_int() - a) + d;
    let nw = 1000 * len * (w.as_int() - a) + d;
    let nb = 1000 * len * (b - a) + d;
    assert(q > 0 && d < q && d > 0);
    assert(d / q == 0) by {
        vstd::arithmetic::div_mod::lemma_basic_div(d, q);
    }
    assert(nb == q * len + d) by (nonlinear_arith)
        requires
            nb == 1000 * len * (b - a) + d,
            q == 1000 * d,
            d == b - a,
    ;
    assert(nb / q == len) by {
        vstd::arithmetic::div_mod::lemma_fundamental_div_mod_converse(nb, q, len, d);
    }
    assert(d <= nv <= nw <= nb) by (nonlinear_arith)
        requires
            nv == 1000 * len * (v.as_int() - a) + d,
            nw == 1000 * len * (w.as_int() - a) + d,
            nb == 1000 * len * (b - a) + d,
            a <= v.as_int() <= w.as_int() <= b,
            len > 0,
    ;
    vstd::arithmetic::div_mod::lemma_div_is_ordered(d, nv, q);
    vstd::arithmetic::div_mod::lemma_div_is_ordered(nv, nw, q);
    vstd::arithmetic::div_mod::lemma_div_is_ordered(nw, nb, q);
    assert(1000 * len * (a - a) + d == d) by (nonlinear_arith);
}


/// The key points of an integer axis for at most `m` points number at most
/// `m + 1` (the plan may close with one more), are not below the start of
/// the axis nor, where the end is not negative, above its end, and are
/// evenly spaced in increasing order.
pub proof fn lemma_integer_key_points<T: CoordInteger>(r: RangedCoordInt<T>, m: usize, weight: KeyPointWeight)
    requires
        r.key_points_ok(m),
    ensures
        r.spec_key_points(m, weight).len() <= m + 1,
        forall|i: int|
            0 <= i < r.spec_key_points(m, weight).len() ==> r.start().as_int()
                <= #[trigger] r.spec_key_points(m, weight)[i].as_int(),
        r.end().as_int() >= 0 ==> forall|i: int|
            0 <= i < r.spec_key_points(m, weight).len() ==> #[trigger] r.spec_key_points(
                m,
                weight,
            )[i].as_int() <= r.end().as_int(),
        forall|i: int|
            0 <= i < r.spec_key_points(m, weight).len() - 1 ==> #[trigger] r.spec_key_points(
                m,
                weight,
            )[i + 1].as_int() - r.spec_key_points(m, weight)[i].as_int() == key_point_step(
                r.end().as_int() - r.start().as_int(),
                m as int,
            ) && key_point_step(r.end().as_int() - r.start().as_int(), m as int) >= 1,
{
    let a = r.start().as_int();
    let b = r.end().as_int();
    lemma_key_points_shape(a, b, m as int);
    let kv = key_point_values(a, b, m as int);
    let kp = r.spec_key_points(m, weight);
    T::lemma_value_bounds(r.start());
    T::lemma_value_bounds(r.end());
    let s = key_point_step(b - a, m as int);
    let left = align_up(a, s);
    let right = b - trunc_rem(b, s);
    assert(right <= if b >= 0 { b } else { 0 }) by {
        if b >= 0 {
            vstd::arithmetic::div_mod::lemma_mod_bound(b, s);
        } else {
            vstd::arithmetic::div_mod::lemma_mod_decreases((-b) as nat, s as nat);
        }
    }
    assert forall|i: int| 0 <= i < kv.len() implies #[trigger] kp[i].as_int() == kv[i] by {
        let q = (right - left) / s;
        lemma_fundamental_div_mod(right - left, s);
        vstd::arithmetic::div_mod::lemma_mod_bound(right - left, s);
        assert(kv[i] == left + i * s);
        assert(i * s <= right - left) by (nonlinear_arith)
            requires
                0 <= i <= q,
                s >= 1,
                right - left == s * q + (right - left) % s,
                0 <= (right - left) % s,
        ;
        T::lemma_type_bounds();
        T::lemma_from_int(kv[i]);
    }
    assert forall|i: int| 0 <= i < kp.len() - 1 implies #[trigger] kp[i + 1].as_int() - kp[i].as_int()
        == key_point_step(b - a, m as int) && key_point_step(b - a, m as int) >= 1 by {
        assert(kp[i + 1].as_int() == kv[i + 1]);
        assert(kp[i].as_int() == kv[i]);
    }
}

} // verus!
