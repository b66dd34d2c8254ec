//! The grouping decorator: a discrete axis whose values are taken in groups
//! of a fixed number of consecutive values.

use std::ops::Range;

use super::discrete::DiscreteRanged;
use super::numeric::{
    compute_key_points, key_point_values, key_points_defined, lemma_key_points_shape, CoordInteger,
};
use super::ranged::{AsRangedCoord, KeyPointHint, KeyPointWeight, Ranged};
use vstd::prelude::*;

verus! {

/// The ranged value spec that needs to be grouped.
/// This is useful, for example, when we have an X axis that is an integer and
/// denotes days, and we are expecting the tick marks to denote weeks: in this
/// way we can make the range spec group by 7 elements.
pub struct GroupBy<T: DiscreteRanged>(T, usize);

/// The number of groups of `g` consecutive values among `n` values.
pub open spec fn group_count(n: int, g: int) -> int {
    (n + g - 1) / g
}

impl<T: DiscreteRanged> GroupBy<T> {
    /// The grouped axis.
    pub closed spec fn inner(&self) -> T {
        self.0
    }

    /// The number of values in each group.
    pub closed spec fn group_size(&self) -> usize {
        self.1
    }
}

/// The trait that provides the method `group_by`, which creates a `GroupBy`
/// decorated ranged value.
pub trait ToGroupByRange: AsRangedCoord where Self::CoordDescType: DiscreteRanged {
    /// Make a grouping ranged value, see the documentation for `GroupBy` for details.
    ///
    /// - `value`: The number of values we want to group
    /// - **return**: The newly created grouping range specification
    fn group_by(self, value: usize) -> (r: GroupBy<Self::CoordDescType>)
        ensures
            r.inner() == self.spec_into_coord(),
            r.group_size() == value,
    {
        GroupBy(self.into_coord(), value)
    }
}

impl<T: AsRangedCoord> ToGroupByRange for T where T::CoordDescType: DiscreteRanged {

}

impl<T: DiscreteRanged> AsRangedCoord for GroupBy<T> {
    type CoordDescType = Self;
    type Value = T::ValueType;

    open spec fn spec_into_coord(self) -> Self {
        self
    }

    fn into_coord(self) -> (r: Self) {
        self
    }
}

impl<T: DiscreteRanged> DiscreteRanged for GroupBy<T> {
    open spec fn spec_size(&self) -> usize {
        group_count(self.inner().spec_size() as int, self.group_size() as int) as usize
    }

    open spec fn size_ok(&self) -> bool {
        &&& self.group_size() > 0
        &&& self.inner().size_ok()
        &&& self.inner().spec_size() + self.group_size() <= usize::MAX
    }

    open spec fn spec_index_of(&self, value: T::ValueType) -> Option<usize> {
        match self.inner().spec_index_of(value) {
            Some(idx) => Some((idx / self.group_size()) as usize),
            None => None,
        }
    }

    open spec fn index_of_ok(&self, value: T::ValueType) -> bool {
        self.group_size() > 0 && self.inner().index_of_ok(value)
    }

    open spec fn spec_from_index(&self, index: usize) -> Option<T::ValueType> {
        self.inner().spec_from_index((index * self.group_size()) as usize)
    }

    open spec fn from_index_ok(&self, index: usize) -> bool {
        index * self.group_size() <= usize::MAX && self.inner().from_index_ok((index * self.group_size()) as usize)
    }

    fn size(&self) -> (r: usize) {
        (self.0.size() + self.1 - 1) / self.1
    }

    fn index_of(&self, value: &T::ValueType) -> (r: Option<usize>) {
        match self.0.index_of(value) {
            Some(idx) => Some(idx / self.1),
            None => None,
        }
    }

    fn from_index(&self, index: usize) -> (r: Option<T::ValueType>) {
        self.0.from_index(index * self.1)
    }
}

impl<T: DiscreteRanged> GroupBy<T> {
    /// The key points: the first values of the groups whose numbers are the key
    /// points of the range of group numbers `0..count`.
    pub open spec fn group_key_points(&self, max_points: usize) -> Seq<T::ValueType> {
        let n = group_count(self.inner().spec_size() as int, self.group_size() as int);
        key_point_values(0, n, max_points as int).map_values(
            |x: int| self.inner().spec_from_index((x * self.group_size()) as usize).unwrap(),
        )
    }
}

impl<T: DiscreteRanged> Ranged for GroupBy<T> {
    type ValueType = T::ValueType;

    open spec fn spec_map(&self, value: T::ValueType, limit: (i32, i32)) -> i32 {
        self.inner().spec_map(value, limit)
    }

    open spec fn map_ok(&self, value: T::ValueType, limit: (i32, i32)) -> bool {
        self.inner().map_ok(value, limit)
    }

    open spec fn spec_key_points(&self, max_points: usize, weight: KeyPointWeight) -> Seq<
        T::ValueType,
    > {
        self.group_key_points(max_points)
    }

    open spec fn key_points_ok(&self, max_points: usize) -> bool {
        let n = group_count(self.inner().spec_size() as int, self.group_size() as int);
        &&& self.group_size() > 0
        &&& self.inner().size_ok()
        &&& self.inner().spec_size() + self.group_size() <= usize::MAX
        &&& key_points_defined(0, n, max_points as int)
        &&& forall|i: int|
            0 <= i < key_point_values(0, n, max_points as int).len() ==> {
                let x = #[trigger] key_point_values(0, n, max_points as int)[i];
                &&& x * self.group_size() <= usize::MAX
                &&& self.inner().from_index_ok((x * self.group_size()) as usize)
                &&& self.inner().spec_from_index((x * self.group_size()) as usize) is Some
            }
    }

    open spec fn spec_range(&self) -> Range<T::ValueType> {
        self.inner().spec_range()
    }

    open spec fn range_ok(&self) -> bool {
        self.inner().range_ok()
    }

    open spec fn spec_axis_pixel_range(&self, limit: (i32, i32)) -> Range<i32> {
        self.inner().spec_axis_pixel_range(limit)
    }

    open spec fn axis_pixel_range_ok(&self, limit: (i32, i32)) -> bool {
        self.inner().axis_pixel_range_ok(limit)
    }

    fn map(&self, value: &T::ValueType, limit: (i32, i32)) -> (r: i32) {
        self.0.map(value, limit)
    }

    fn key_points<Hint: KeyPointHint>(&self, hint: Hint) -> (r: Vec<T::ValueType>) {
        let max_points = hint.max_num_points();
        let n = (self.0.size() + self.1 - 1) / self.1;
        let groups = compute_key_points(0usize, n, max_points);
        let ghost kp = key_point_values(0, n as int, max_points as int);
        proof {
            lemma_key_points_shape(0, n as int, max_points as int);
        }
        let mut ret: Vec<T::ValueType> = Vec::new();
        let mut i: usize = 0;
        while i < groups.len()
            invariant
                groups@ == kp.map_values(|x: int| usize::from_int(x)),
                kp == key_point_values(0, group_count(self.0.spec_size() as int, self.1 as int), max_points as int),
                self.key_points_ok(max_points),
                forall|j: int| 0 <= j < kp.len() ==> 0 <= #[trigger] kp[j] <= n,
                n <= usize::MAX,
                0 <= i <= groups.len(),
                ret@ == kp.take(i as int).map_values(
                    |x: int| self.0.spec_from_index((x * self.1) as usize).unwrap(),
                ),
            decreases groups.len() - i,
        {
            let x = groups[i];
            proof {
                assert(kp[i as int] == key_point_values(0, group_count(self.0.spec_size() as int, self.1 as int), max_points as int)[i as int]);
                usize::lemma_from_int(kp[i as int]);
            }
            let v = self.0.from_index(x * self.1);
            match v {
                Some(value) => {
                    ret.push(value);
                },
                None => {
                    proof {
                        assert(false);
                    }
                },
            }
            proof {
                assert(ret@ =~= kp.take(i + 1).map_values(
                    |x: int| self.0.spec_from_index((x * self.1) as usize).unwrap(),
                ));
            }
            i = i + 1;
        }
        proof {
            assert(kp.take(kp.len() as int) =~= kp);
        }
        ret
    }

    fn range(&self) -> (r: Range<T::ValueType>) {
        self.0.range()
    }

    fn axis_pixel_range(&self, limit: (i32, i32)) -> (r: Range<i32>) {
        self.0.axis_pixel_range(limit)
    }
}


/// On a grouped axis, a value is in the group numbered by its index on the
/// grouped axis divided by the group size, and the value of a group number
/// is the first value of that group; so where the grouped axis gives back the
/// index of the first value of a group, the group of that value is the group
/// number itself.
pub proof fn lemma_group_index_round_trip<T: DiscreteRanged>(g: GroupBy<T>, i: usize, v: T::ValueType)
    requires
        g.group_size() > 0,
        i * g.group_size() <= usize::MAX,
        g.inner().spec_from_index((i * g.group_size()) as usize) == Some(v),
        g.inner().spec_index_of(v) == Some((i * g.group_size()) as usize),
    ensures
        g.spec_from_index(i) == Some(v),
        g.spec_index_of(v) == Some(i),
        forall|w: T::ValueType|
            #![trigger g.spec_index_of(w)]
            g.inner().spec_index_of(w) matches Some(k) ==> g.spec_index_of(w) == Some(
                (k / g.group_size()) as usize,
            ),
{
    let n = g.group_size() as int;
    assert((i * n) / n == i) by (nonlinear_arith)
        requires
            n > 0,
    ;
}


/// The key points of a grouped axis for at most `m` points number at most
/// `m + 1` (the integer plan of group numbers may close with one more), and
/// each is the first value of its group: the value of the grouped axis at an
/// index that is a multiple of the group size.
pub proof fn lemma_group_key_points<T: DiscreteRanged>(g: GroupBy<T>, m: usize, weight: KeyPointWeight)
    requires
        g.key_points_ok(m),
    ensures
        g.spec_key_points(m, weight).len() <= m + 1,
        forall|i: int|
            #![trigger g.spec_key_points(m, weight)[i]]
            0 <= i < g.spec_key_points(m, weight).len() ==> exists|j: usize|
                #[trigger] g.inner().spec_from_index(j) == Some(g.spec_key_points(m, weight)[i])
                    && j % g.group_size() == 0,
{
    let n = group_count(g.inner().spec_size() as int, g.group_size() as int);
    lemma_key_points_shape(0, n, m as int);
    let kv = key_point_values(0, n, m as int);
    assert forall|i: int|
        #![trigger g.spec_key_points(m, weight)[i]]
        0 <= i < g.spec_key_points(m, weight).len() implies exists|j: usize|
        #[trigger] g.inner().spec_from_index(j) == Some(g.spec_key_points(m, weight)[i]) && j
            % g.group_size() == 0 by {
        let x = kv[i];
        assert(0 <= x);
        assert(x * g.group_size() <= usize::MAX);
        let j = (x * g.group_size()) as usize;
        assert(g.inner().spec_from_index(j) is Some);
        vstd::arithmetic::div_mod::lemma_mod_multiples_basic(x, g.group_size() as int);
        assert(j % g.group_size() == 0);
    }
}

} // verus!
