//! Tick marks of an axis: their kind, position and label, and the plain
//! linear axis that enumerates them.

use std::ops::Range;

use vstd::prelude::*;

verus! {

/// The type of tick mark.
#[derive(Debug, Clone, Copy, PartialEq, Eq, Structural)]
pub enum TickKind {
    /// A major tick mark, which carries a label.
    Major,
    /// A minor tick mark between major ones.
    Minor,
}

/// A tick mark: its kind, position and label.
#[derive(Debug, Clone, PartialEq)]
pub struct Tick<T, L> {
    /// The kind of the tick mark.
    pub kind: TickKind,
    /// The position of the tick mark.
    pub pos: T,
    /// The label of the tick mark.
    pub label: L,
}

/// Trait for axes whose tick marks can be enumerated.
///   * `T` - Type of the `pos` (in the [`Tick`] returned).
///   * `L` - Type of the `label` (in the [`Tick`] returned).
pub trait AxisTickEnumerator<T, L> {
    /// All the tick marks of the axis, in order.
    fn iter(&self) -> Vec<Tick<T, L>>;
}

/// A linear axis with major tick marks a fixed distance apart and a fixed
/// number of minor tick marks between two major ones.
#[derive(Debug, PartialEq)]
pub struct SimpleLinearAxis<T> {
    major_tick_spacing: T,
    minor_ticks_per_major_tick: usize,
    range: Range<T>,
}

impl<T> SimpleLinearAxis<T> {
    /// The distance between two major tick marks.
    pub closed spec fn spec_major_tick_spacing(&self) -> T {
        self.major_tick_spacing
    }

    /// The number of minor tick marks between two major ones.
    pub closed spec fn spec_minor_ticks_per_major_tick(&self) -> usize {
        self.minor_ticks_per_major_tick
    }

    /// The range of the axis.
    pub closed spec fn spec_range(&self) -> Range<T> {
        self.range
    }

    /// The axis over `range` with major tick marks `major_tick_spacing` apart
    /// and `minor_ticks_per_major_tick` minor ones between two major ones.
    pub fn new(major_tick_spacing: T, minor_ticks_per_major_tick: usize, range: Range<T>) -> (r:
        Self)
        ensures
            r.spec_major_tick_spacing() == major_tick_spacing,
            r.spec_minor_ticks_per_major_tick() == minor_ticks_per_major_tick,
            r.spec_range() == range,
    {
        SimpleLinearAxis { major_tick_spacing, minor_ticks_per_major_tick, range }
    }

    /// The distance between two major tick marks.
    pub fn major_tick_spacing(&self) -> (r: &T)
        ensures
            *r == self.spec_major_tick_spacing(),
    {
        &self.major_tick_spacing
    }

    /// The number of minor tick marks between two major ones.
    pub fn minor_ticks_per_major_tick(&self) -> (r: usize)
        ensures
            r == self.spec_minor_ticks_per_major_tick(),
    {
        self.minor_ticks_per_major_tick
    }

    /// The range of the axis.
    pub fn range(&self) -> (r: &Range<T>)
        ensures
            *r == self.spec_range(),
    {
        &self.range
    }
}


/// The tick marks of a linear axis, each as its kind, the number `k` of the
/// major tick it counts from and the number `j` of minor steps from there
/// (its position is `k` major spacings plus `j` minor spacings): `before`
/// minor ticks before the major tick `start`, counting down; then for each
/// major number from `start` to before `end`, the major tick and the `m`
/// minor ticks after it; then the major tick `end` and `after` minor ticks
/// after it.
pub open spec fn spec_tick_layout(start: int, end: int, m: int, before: int, after: int) -> Seq<(TickKind, int, int)> {
    let pre = Seq::new(before as nat, |t: int| (TickKind::Minor, start, t - before));
    let body_len = if end > start {
        (end - start) * (m + 1)
    } else {
        0
    };
    let body = Seq::new(
        body_len as nat,
        |t: int|
            (
                if t % (m + 1) == 0 {
                    TickKind::Major
                } else {
                    TickKind::Minor
                },
                start + t / (m + 1),
                t % (m + 1),
            ),
    );
    let post = Seq::new((after + 1) as nat, |t: int| (if t == 0 { TickKind::Major } else { TickKind::Minor }, end, t));
    pre + body + post
}

/// The number of tick marks in the layout.
pub open spec fn tick_layout_len(start: int, end: int, m: int, before: int, after: int) -> int {
    before + (if end > start {
        (end - start) * (m + 1)
    } else {
        0
    }) + after + 1
}

/// Whether the layout fits in memory and its numbers fit `isize`.
pub open spec fn tick_layout_ok(start: int, end: int, m: int, before: int, after: int) -> bool {
    &&& tick_layout_len(start, end, m, before, after) <= usize::MAX
    &&& m + 1 <= isize::MAX
    &&& before <= isize::MAX
    &&& after <= isize::MAX
}

/// The view of a laid out tick mark with its numbers as integers.
pub open spec fn tick_slot_view(t: (TickKind, isize, isize)) -> (TickKind, int, int) {
    (t.0, t.1 as int, t.2 as int)
}

/// The tick marks of a linear axis whose major ticks are numbered from
/// `start` to `end`, with `minor_ticks_per_major_tick` minor ticks after each
/// major one, `before` minor ticks before the first and `after` after the
/// last, in order; each as its kind, its major number and its minor steps.
pub fn tick_layout(start: isize, end: isize, minor_ticks_per_major_tick: usize, before: usize, after: usize) -> (r: Vec<(TickKind, isize, isize)>)
    requires
        tick_layout_ok(start as int, end as int, minor_ticks_per_major_tick as int, before as int, after as int),
    ensures
        r@.map_values(|t: (TickKind, isize, isize)| tick_slot_view(t)) == spec_tick_layout(
            start as int,
            end as int,
            minor_ticks_per_major_tick as int,
            before as int,
            after as int,
        ),
{
    let ghost m = minor_ticks_per_major_tick as int;
    let ghost all = spec_tick_layout(start as int, end as int, m, before as int, after as int);
    let ghost pre = Seq::new(before as nat, |t: int| (TickKind::Minor, start as int, t - before));
    let ghost body_len: int = if end > start { (end - start) * (m + 1) } else { 0 };
    let ghost body = Seq::new(
        body_len as nat,
        |t: int|
            (
                if t % (m + 1) == 0 {
                    TickKind::Major
                } else {
                    TickKind::Minor
                },
                start + t / (m + 1),
                t % (m + 1),
            ),
    );
    let ghost post = Seq::new((after + 1) as nat, |t: int| (if t == 0 { TickKind::Major } else { TickKind::Minor }, end as int, t));
    assert(all == pre + body + post);
    assert(body_len >= 0) by (nonlinear_arith)
        requires
            body_len == (if end > start { (end - start) * (m + 1) } else { 0 }),
            m >= 0,
    ;
    let mut r: Vec<(TickKind, isize, isize)> = Vec::new();
    let mut i: usize = 0;
    while i < before
        invariant
            i <= before,
            before <= isize::MAX,
            pre == Seq::new(before as nat, |t: int| (TickKind::Minor, start as int, t - before)),
            r@.map_values(|t: (TickKind, isize, isize)| tick_slot_view(t)) == pre.take(i as int),
        decreases before - i,
    {
        let ghost prev = r@;
        let off = (i as isize) - (before as isize);
        r.push((TickKind::Minor, start, off));
        proof {
            assert(r@ == prev.push((TickKind::Minor, start, off)));
            assert(pre.take(i + 1) =~= pre.take(i as int).push(pre[i as int]));
            assert(r@.map_values(|t: (TickKind, isize, isize)| tick_slot_view(t)) =~= pre.take(
                i + 1,
            ));
        }
        i = i + 1;
    }
    proof {
        assert(pre.take(before as int) =~= pre);
    }
    let ghost after_pre = r@.map_values(|t: (TickKind, isize, isize)| tick_slot_view(t));
    if start < end {
        let mut k: isize = start;
        assert((k - start) * (m + 1) == 0);
        while k < end
            invariant
                start <= k <= end,
                start < end,
                m == minor_ticks_per_major_tick,
                m + 1 <= isize::MAX,
                body_len == (end - start) * (m + 1),
                body == Seq::new(
                    body_len as nat,
                    |t: int|
                        (
                            if t % (m + 1) == 0 {
                                TickKind::Major
                            } else {
                                TickKind::Minor
                            },
                            start + t / (m + 1),
                            t % (m + 1),
                        ),
                ),
                after_pre == pre,
                r@.map_values(|t: (TickKind, isize, isize)| tick_slot_view(t)) == pre + body.take(
                    (k - start) * (m + 1),
                ),
                (k - start) * (m + 1) <= body_len,
                pre.len() + body_len <= usize::MAX,
            decreases end - k,
        {
            let mut j: usize = 0;
            assert((k - start) * (m + 1) + m + 1 <= body_len) by (nonlinear_arith)
                requires
                    k + 1 <= end,
                    body_len == (end - start) * (m + 1),
                    m >= 0,
            ;
            while j <= minor_ticks_per_major_tick
                invariant
                    start <= k < end,
                    j <= minor_ticks_per_major_tick + 1,
                    m == minor_ticks_per_major_tick,
                    m + 1 <= isize::MAX,
                    body_len == (end - start) * (m + 1),
                    body == Seq::new(
                        body_len as nat,
                        |t: int|
                            (
                                if t % (m + 1) == 0 {
                                    TickKind::Major
                                } else {
                                    TickKind::Minor
                                },
                                start + t / (m + 1),
                                t % (m + 1),
                            ),
                    ),
                    (k - start) * (m + 1) + m + 1 <= body_len,
                    r@.map_values(|t: (TickKind, isize, isize)| tick_slot_view(t)) == pre
                        + body.take((k - start) * (m + 1) + j),
                    pre.len() + body_len <= usize::MAX,
                decreases m + 1 - j,
            {
                let ghost prev = r@;
                let ghost t: int = (k - start) * (m + 1) + j;
                let kind = if j == 0 {
                    TickKind::Major
                } else {
                    TickKind::Minor
                };
                r.push((kind, k, j as isize));
                proof {
                    assert(r@ == prev.push((kind, k, j as isize)));
                    assert(r@.map_values(|t: (TickKind, isize, isize)| tick_slot_view(t)) =~= prev.map_values(
                        |t: (TickKind, isize, isize)| tick_slot_view(t),
                    ).push((kind, k as int, j as int)));
                    vstd::arithmetic::div_mod::lemma_fundamental_div_mod_converse(
                        t,
                        m + 1,
                        k - start,
                        j as int,
                    );
                    assert(body[t] == (kind, k as int, j as int));
                    assert(body.take(t + 1) =~= body.take(t).push(body[t]));
                    assert(r@.map_values(|t: (TickKind, isize, isize)| tick_slot_view(t)) =~= pre
                        + body.take(t + 1));
                }
                j = j + 1;
            }
            proof {
                assert((k + 1 - start) * (m + 1) == (k - start) * (m + 1) + m + 1) by (nonlinear_arith);
                assert((k + 1 - start) * (m + 1) <= body_len) by (nonlinear_arith)
                    requires
                        k + 1 <= end,
                        body_len == (end - start) * (m + 1),
                        m >= 0,
                ;
            }
            k = k + 1;
        }
        proof {
            assert(body.take(body_len) =~= body);
        }
    } else {
        proof {
            assert(body =~= Seq::empty());
            assert(pre + body =~= pre);
        }
    }
    let ghost mid = r@.map_values(|t: (TickKind, isize, isize)| tick_slot_view(t));
    assert(mid == pre + body);
    let mut a: usize = 0;
    while a <= after
        invariant
            a <= after + 1,
            after <= isize::MAX,
            post == Seq::new((after + 1) as nat, |t: int| (if t == 0 { TickKind::Major } else { TickKind::Minor }, end as int, t)),
            r@.map_values(|t: (TickKind, isize, isize)| tick_slot_view(t)) == mid + post.take(a as int),
        decreases after + 1 - a,
    {
        let ghost prev = r@;
        let kind = if a == 0 {
            TickKind::Major
        } else {
            TickKind::Minor
        };
        r.push((kind, end, a as isize));
        proof {
            assert(r@ == prev.push((kind, end, a as isize)));
            assert(r@.map_values(|t: (TickKind, isize, isize)| tick_slot_view(t)) =~= prev.map_values(
                |t: (TickKind, isize, isize)| tick_slot_view(t),
            ).push((kind, end as int, a as int)));
            assert(post.take(a + 1) =~= post.take(a as int).push(post[a as int]));
            assert(r@.map_values(|t: (TickKind, isize, isize)| tick_slot_view(t)) =~= mid + post.take(
                a + 1,
            ));
        }
        a = a + 1;
    }
    proof {
        assert(post.take((after + 1) as int) =~= post);
    }
    r
}


/// Where the major numbers do not run backwards (`start <= end`), the tick
/// marks come out evenly spaced, one minor step apart in order: the tick
/// number `t` lies `t` minor steps after the first, which is `before` minor
/// steps before the major tick `start`; and a tick is major exactly where it
/// is no minor steps off its major number.
pub proof fn lemma_tick_layout_evenly_spaced(start: int, end: int, m: int, before: int, after: int)
    requires
        start <= end,
        m >= 0,
        before >= 0,
        after >= 0,
    ensures
        spec_tick_layout(start, end, m, before, after).len() == tick_layout_len(start, end, m, before, after),
        forall|t: int|
            0 <= t < spec_tick_layout(start, end, m, before, after).len() ==> {
                let tick = #[trigger] spec_tick_layout(start, end, m, before, after)[t];
                &&& tick.1 * (m + 1) + tick.2 == start * (m + 1) - before + t
                &&& (tick.0 == TickKind::Major <==> tick.2 == 0)
            },
{
    let pre = Seq::new(before as nat, |t: int| (TickKind::Minor, start, t - before));
    let body_len: int = if end > start { (end - start) * (m + 1) } else { 0 };
    assert(body_len == (end - start) * (m + 1)) by (nonlinear_arith)
        requires
            body_len == (if end > start { (end - start) * (m + 1) } else { 0 }),
            start <= end,
    ;
    assert(body_len >= 0) by (nonlinear_arith)
        requires
            body_len == (end - start) * (m + 1),
            start <= end,
            m >= 0,
    ;
    let body = Seq::new(
        body_len as nat,
        |t: int|
            (
                if t % (m + 1) == 0 {
                    TickKind::Major
                } else {
                    TickKind::Minor
                },
                start + t / (m + 1),
                t % (m + 1),
            ),
    );
    let post = Seq::new((after + 1) as nat, |t: int| (if t == 0 { TickKind::Major } else { TickKind::Minor }, end, t));
    let all = spec_tick_layout(start, end, m, before, after);
    assert(all == pre + body + post);
    assert forall|t: int| 0 <= t < all.len() implies {
        let tick = #[trigger] all[t];
        &&& tick.1 * (m + 1) + tick.2 == start * (m + 1) - before + t
        &&& (tick.0 == TickKind::Major <==> tick.2 == 0)
    } by {
        if t < before {
            assert(all[t] == pre[t]);
        } else if t < before + body_len {
            let u = t - before;
            assert(all[t] == body[u]);
            vstd::arithmetic::div_mod::lemma_fundamental_div_mod(u, m + 1);
            assert((start + u / (m + 1)) * (m + 1) == start * (m + 1) + (m + 1) * (u / (m + 1))) by (nonlinear_arith);
            vstd::arithmetic::div_mod::lemma_mod_bound(u, m + 1);
        } else {
            let u = t - before - body_len;
            assert(all[t] == post[u]);
            assert(end * (m + 1) == start * (m + 1) + (end - start) * (m + 1)) by (nonlinear_arith);
        }
    }
}

} // verus!
