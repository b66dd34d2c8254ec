//! The category axis: an axis whose values are the elements of a list.

use std::ops::Range;
use std::rc::Rc;

use super::fits_i32;
use super::ranged::{full_pixel_range, AsRangedCoord, KeyPointHint, KeyPointWeight, Ranged};
use vstd::arithmetic::div_mod::lemma_fundamental_div_mod;
use vstd::prelude::*;
use vstd::std_specs::cmp::PartialEqSpec;

verus! {

/// The category coordinate: a named list of elements, and a reference to one
/// of them (`-1` refers to none).
pub struct Category<T: PartialEq> {
    name: String,
    elements: Rc<Vec<T>>,
    idx: i32,
}

impl<T: PartialEq> Clone for Category<T> {
    fn clone(&self) -> (r: Self)
        ensures
            r == *self,
    {
        proof {
            use_type_invariant(self);
        }
        Category { name: self.name.clone(), elements: Rc::clone(&self.elements), idx: self.idx }
    }
}

/// `p / q` rounded toward zero, for `q > 0`.
pub open spec fn trunc_div(p: int, q: int) -> int {
    if p >= 0 {
        p / q
    } else {
        -((-p) / q)
    }
}

/// `v` saturated into `i32`.
pub open spec fn saturate_i32(v: int) -> int {
    if v < i32::MIN {
        i32::MIN as int
    } else if v > i32::MAX {
        i32::MAX as int
    } else {
        v
    }
}

/// The offset from the start of a pixel range of length `len` of the element
/// with index `idx` among `n` elements: the range is cut into `n + 1` equal
/// parts and the element sits at the end of part `idx + 1`, rounded toward
/// zero.
pub open spec fn category_offset(len: int, idx: int, n: int) -> int {
    saturate_i32(trunc_div(len * (idx + 1), n + 1))
}

/// The step between the indices of the key points of `n` elements, for at
/// most `max_points` points: `(n - 1) / max_points + 1`, or the largest
/// `usize` where no point is asked for.
pub open spec fn category_step(n: int, max_points: int) -> int {
    if max_points == 0 {
        usize::MAX as int
    } else {
        (n - 1) / max_points + 1
    }
}

/// The number of multiples of `step` below `n`.
pub open spec fn multiples_below(n: int, step: int) -> int {
    (n + step - 1) / step
}

impl<T: PartialEq> Category<T> {
    /// The index is an `i32`: the elements can be numbered by it, and it
    /// refers to an element, or is `-1` for none, or is 0 (the start of the
    /// range of an empty category).
    #[verifier::type_invariant]
    spec fn wf(&self) -> bool {
        &&& (*self.elements)@.len() <= i32::MAX
        &&& -1 <= self.idx
        &&& (self.idx < (*self.elements)@.len() || self.idx == 0)
    }

    /// The name of the category.
    pub closed spec fn spec_name(&self) -> Seq<char> {
        self.name@
    }

    /// The elements of the category.
    pub closed spec fn elements(&self) -> Seq<T> {
        (*self.elements)@
    }

    /// The index of the element that this value refers to (`-1` for none).
    pub closed spec fn spec_index(&self) -> int {
        self.idx as int
    }

    /// The same category, referring to the element with index `idx`.
    pub closed spec fn with_index(&self, idx: i32) -> Self {
        Category { name: self.name, elements: self.elements, idx }
    }

    /// The same category referring to another element keeps the name and the
    /// elements, and refers to the element with the index given.
    pub broadcast proof fn lemma_with_index(&self, idx: i32)
        ensures
            #![trigger self.with_index(idx)]
            self.with_index(idx).spec_name() == self.spec_name(),
            self.with_index(idx).elements() == self.elements(),
            self.with_index(idx).spec_index() == idx,
    {
    }

    /// Create a new category coordinate.
    ///
    /// - `name`: The name of the category
    /// - `elements`: The vector of category elements
    /// - **returns** The newly created category coordinate, which refers to
    ///   no element
    pub fn new(name: &str, elements: Vec<T>) -> (r: Self)
        requires
            elements@.len() <= i32::MAX,
        ensures
            r.spec_name() == name@,
            r.elements() == elements@,
            r.spec_index() == -1,
    {
        Category { name: name.to_owned(), elements: Rc::new(elements), idx: -1 }
    }

    /// Get an element reference (tick) by its value: the first element equal
    /// to `val`, if any.
    pub fn get(&self, val: &T) -> (r: Option<Category<T>>)
        ensures
            r is Some ==> 0 <= r.unwrap().spec_index() < self.elements().len() && r.unwrap()
                == self.with_index(r.unwrap().spec_index() as i32),
            r is Some ==> r.unwrap().spec_name() == self.spec_name() && r.unwrap().elements()
                == self.elements(),
            T::obeys_eq_spec() ==> (r is Some <==> exists|j: int|
                0 <= j < self.elements().len() && #[trigger] self.elements()[j].eq_spec(val)),
            T::obeys_eq_spec() && r is Some ==> self.elements()[r.unwrap().spec_index()].eq_spec(
                val,
            ) && forall|j: int|
                0 <= j < r.unwrap().spec_index() ==> !#[trigger] self.elements()[j].eq_spec(val),
    {
        proof {
            use_type_invariant(self);
        }
        let n = self.elements.len();
        let mut i: usize = 0;
        while i < n
            invariant
                n == self.elements().len(),
                n <= i32::MAX,
                0 <= i <= n,
                T::obeys_eq_spec() ==> forall|j: int|
                    0 <= j < i ==> !#[trigger] self.elements()[j].eq_spec(val),
            decreases n - i,
        {
            if self.elements[i] == *val {
                let found = Category {
                    name: self.name.clone(),
                    elements: Rc::clone(&self.elements),
                    idx: i as i32,
                };
                return Some(found);
            }
            i = i + 1;
        }
        None
    }

    /// Create a full range over the category elements.
    pub fn range(&self) -> (r: Self)
        ensures
            r == *self,
    {
        self.clone()
    }

    /// Get the number of elements in the category.
    pub fn len(&self) -> (r: usize)
        ensures
            r == self.elements().len(),
    {
        self.elements.len()
    }

    /// Returns `true` if the category contains no elements.
    pub fn is_empty(&self) -> (r: bool)
        ensures
            r == (self.elements().len() == 0),
    {
        self.elements.len() == 0
    }

    /// Get the category name.
    pub fn name(&self) -> (r: String)
        ensures
            r@ == self.spec_name(),
    {
        self.name.clone()
    }

    /// The index of the element that this value refers to (`-1` for none).
    pub fn index(&self) -> (r: i32)
        ensures
            r == self.spec_index(),
    {
        self.idx
    }

    /// The element that this value refers to, if it refers to one.
    pub fn element(&self) -> (r: Option<&T>)
        ensures
            0 <= self.spec_index() < self.elements().len() ==> r == Some(
                &self.elements()[self.spec_index()],
            ),
            !(0 <= self.spec_index() < self.elements().len()) ==> r is None,
    {
        if self.idx >= 0 && (self.idx as usize) < self.elements.len() {
            Some(&self.elements[self.idx as usize])
        } else {
            None
        }
    }
}

impl<T: PartialEq> Ranged for Category<T> {
    type ValueType = Category<T>;

    open spec fn spec_map(&self, value: Category<T>, limit: (i32, i32)) -> i32 {
        (category_offset(limit.1 - limit.0, value.spec_index(), self.elements().len() as int)
            + limit.0) as i32
    }

    open spec fn map_ok(&self, value: Category<T>, limit: (i32, i32)) -> bool {
        &&& fits_i32(limit.1 - limit.0)
        &&& fits_i32(
            category_offset(limit.1 - limit.0, value.spec_index(), self.elements().len() as int)
                + limit.0,
        )
    }

    open spec fn spec_key_points(&self, max_points: usize, weight: KeyPointWeight) -> Seq<
        Category<T>,
    > {
        let n = self.elements().len() as int;
        let step = category_step(n, max_points as int);
        Seq::new(
            multiples_below(n, step) as nat,
            |k: int| self.with_index((k * step) as i32),
        )
    }

    open spec fn key_points_ok(&self, max_points: usize) -> bool {
        self.elements().len() >= 1
    }

    open spec fn spec_range(&self) -> Range<Category<T>> {
        Range {
            start: self.with_index(0),
            end: self.with_index((self.elements().len() - 1) as i32),
        }
    }

    open spec fn range_ok(&self) -> bool {
        true
    }

    open spec fn spec_axis_pixel_range(&self, limit: (i32, i32)) -> Range<i32> {
        full_pixel_range(limit)
    }

    open spec fn axis_pixel_range_ok(&self, limit: (i32, i32)) -> bool {
        true
    }

    fn map(&self, value: &Category<T>, limit: (i32, i32)) -> (r: i32) {
        proof {
            use_type_invariant(self);
            use_type_invariant(value);
        }
        let len = (limit.1 - limit.0) as i128;
        let span = value.idx as i128 + 1;
        let total = self.elements.len() as i128 + 1;
        assert(-0x1_0000_0000 * 0x8000_0000 <= len * span <= 0x1_0000_0000 * 0x8000_0000)
            by (nonlinear_arith)
            requires
                -0x1_0000_0000 <= len <= 0x1_0000_0000,
                0 <= span <= 0x8000_0000,
        ;
        let p = len * span;
        let q = if p >= 0 {
            p / total
        } else {
            -((-p) / total)
        };
        let offset = if q < i32::MIN as i128 {
            i32::MIN
        } else if q > i32::MAX as i128 {
            i32::MAX
        } else {
            q as i32
        };
        offset + limit.0
    }

    fn key_points<Hint: KeyPointHint>(&self, hint: Hint) -> (r: Vec<Category<T>>)
        ensures
            hint.spec_max_num_points() >= self.elements().len() ==> r@.len()
                == self.elements().len(),
    {
        let max_points = hint.max_num_points();
        proof {
            use_type_invariant(self);
        }
        let n = self.elements.len();
        let step = if max_points == 0 {
            usize::MAX
        } else {
            (n - 1) / max_points + 1
        };
        let ghost count = multiples_below(n as int, step as int);
        let mut ret: Vec<Category<T>> = Vec::new();
        let mut idx: usize = 0;
        let mut k: usize = 0;
        while idx < n
            invariant
                n == self.elements().len(),
                1 <= n <= i32::MAX,
                step >= 1,
                step == category_step(n as int, max_points as int),
                idx <= n,
                idx < n ==> idx == k * step,
                idx == n ==> k * step >= n,
                k == 0 || (k - 1) * step < n,
                k <= n,
                count == multiples_below(n as int, step as int),
                ret@ == Seq::new(k as nat, |j: int| self.with_index((j * step) as i32)),
            decreases n - idx,
        {
            ret.push(Category { name: self.name.clone(), elements: Rc::clone(&self.elements), idx: idx as i32 });
            proof {
                lemma_multiples_below(n as int, step as int, k as int);
                assert(count <= n) by (nonlinear_arith)
                    requires count == (n + step - 1) / (step as int), step >= 1, n >= 1;
            }
            k = k + 1;
            assert(k * step == (k - 1) * step + step) by (nonlinear_arith);
            if n - idx <= step {
                idx = n;
            } else {
                idx = idx + step;
            }
        }
        proof {
            lemma_multiples_below(n as int, step as int, k as int);
            lemma_multiples_below(n as int, step as int, k - 1);
            assert(ret@ =~= Seq::new(count as nat, |j: int| self.with_index((j * step) as i32)));
            if max_points >= n {
                assert((n - 1) / (max_points as int) == 0) by (nonlinear_arith)
                    requires
                        0 <= n - 1 < max_points,
                ;
                assert(step == 1);
                assert((n as int + 1 - 1) / 1 == n as int) by (nonlinear_arith);
                assert(multiples_below(n as int, 1) == n);
                assert(count == n);
            }
        }
        ret
    }

    fn range(&self) -> (r: Range<Category<T>>) {
        proof {
            use_type_invariant(self);
        }
        let mut left = self.clone();
        let mut right = self.clone();
        left.idx = 0;
        let last = right.elements.len() as i32;
        right.idx = last - 1;
        left..right
    }

    fn axis_pixel_range(&self, limit: (i32, i32)) -> (r: Range<i32>) {
        limit.0..limit.1
    }
}

/// `k * step` is below `n` exactly when `k` is below the number of multiples
/// of `step` below `n`.
proof fn lemma_multiples_below(n: int, step: int, k: int)
    requires
        n >= 1,
        step >= 1,
        k >= 0,
    ensures
        k * step < n <==> k < multiples_below(n, step),
{
    let c = multiples_below(n, step);
    lemma_fundamental_div_mod(n + step - 1, step);
    let r = (n + step - 1) % step;
    assert(n + step - 1 == step * c + r);
    assert(0 <= r < step);
    if k < c {
        assert(k * step <= (c - 1) * step) by (nonlinear_arith)
            requires
                k <= c - 1,
                step >= 1,
        ;
        assert((c - 1) * step == step * c - step) by (nonlinear_arith);
    } else {
        assert(k * step >= c * step) by (nonlinear_arith)
            requires
                k >= c,
                step >= 1,
        ;
        assert(c * step == step * c) by (nonlinear_arith);
    }
}

impl<T: PartialEq> AsRangedCoord for Category<T> {
    type CoordDescType = Self;
    type Value = Category<T>;

    open spec fn spec_into_coord(self) -> Self {
        self
    }

    fn into_coord(self) -> (r: Self) {
        self
    }
}


/// On a pixel range that runs forward, the elements of a category lie in
/// their order, within the range: the element at index `i` is not right of
/// the one at index `j >= i`, and both lie between the ends of the range.
pub proof fn lemma_category_positions_ordered<T: PartialEq>(
    c: Category<T>,
    a: Category<T>,
    b: Category<T>,
    limit: (i32, i32),
)
    requires
        limit.0 <= limit.1,
        0 <= a.spec_index() <= b.spec_index() < c.elements().len(),
    ensures
        limit.0 <= c.spec_map(a, limit) <= c.spec_map(b, limit) <= limit.1,
{
    let len = limit.1 - limit.0;
    let n = c.elements().len() as int;
    let i = a.spec_index();
    let j = b.spec_index();
    assert(0 <= len * (i + 1) / (n + 1) <= len * (j + 1) / (n + 1) <= len) by (nonlinear_arith)
        requires
            len >= 0,
            0 <= i <= j < n,
    {
        vstd::arithmetic::div_mod::lemma_div_is_ordered(len * (i + 1), len * (j + 1), n + 1);
        vstd::arithmetic::div_mod::lemma_div_is_ordered(len * (j + 1), len * (n + 1), n + 1);
        vstd::arithmetic::div_mod::lemma_div_multiples_vanish(len, n + 1);
    }
}


/// The key points of a category for at most `m >= 1` points number at most
/// `m`; the `k`-th refers to the element with index `k * step` for one
/// `step >= 1`, within the elements, and keeps the category's name and
/// elements.
pub proof fn lemma_category_key_points<T: PartialEq>(c: Category<T>, m: usize, weight: KeyPointWeight) -> (step: int)
    requires
        c.key_points_ok(m),
        m >= 1,
        c.elements().len() <= i32::MAX,
    ensures
        c.spec_key_points(m, weight).len() <= m,
        step >= 1,
        c.spec_key_points(m, weight).len() > 0 ==> (c.spec_key_points(m, weight).len() - 1) * step
            < c.elements().len(),
        forall|k: int|
            0 <= k < c.spec_key_points(m, weight).len() ==> (#[trigger] c.spec_key_points(
                m,
                weight,
            )[k]).spec_index() == k * step
                && c.spec_key_points(m, weight)[k].spec_name() == c.spec_name()
                && c.spec_key_points(m, weight)[k].elements() == c.elements(),
{
    let n = c.elements().len() as int;
    let s = category_step(n, m as int);
    let q = (n - 1) / (m as int);
    let count = multiples_below(n, s);
    lemma_fundamental_div_mod(n - 1, m as int);
    vstd::arithmetic::div_mod::lemma_mod_bound(n - 1, m as int);
    assert(q >= 0) by {
        vstd::arithmetic::div_mod::lemma_div_pos_is_pos(n - 1, m as int);
    }
    assert(n <= m * s) by (nonlinear_arith)
        requires
            n - 1 == m * q + (n - 1) % (m as int),
            (n - 1) % (m as int) < m,
            s == q + 1,
    ;
    lemma_fundamental_div_mod(n + s - 1, s);
    vstd::arithmetic::div_mod::lemma_mod_bound(n + s - 1, s);
    assert(count <= m) by (nonlinear_arith)
        requires
            count == (n + s - 1) / s,
            n + s - 1 == s * count + (n + s - 1) % s,
            0 <= (n + s - 1) % s,
            n <= m * s,
            s >= 1,
    ;
    assert forall|k: int| 0 <= k < c.spec_key_points(m, weight).len() implies 0 <= k * s < c.elements().len()
        && (#[trigger] c.spec_key_points(m, weight)[k]).spec_index() == k * s
        && c.spec_key_points(m, weight)[k].spec_name() == c.spec_name()
        && c.spec_key_points(m, weight)[k].elements() == c.elements() by {
        assert(0 <= k * s < n) by (nonlinear_arith)
            requires
                0 <= k < count,
                n + s - 1 == s * count + (n + s - 1) % s,
                (n + s - 1) % s < s,
                s >= 1,
        ;
        c.lemma_with_index((k * s) as i32);
    }
    if count > 0 {
        let last = count - 1;
        assert(c.spec_key_points(m, weight)[last].spec_index() == last * s);
    }
    s
}

} // verus!
