//! The line series: a polyline through data points, optionally preceded by
//! a circle marker at each point.

use vstd::prelude::*;

verus! {

/// An element of a line series, drawn in the series' style `S`.
pub enum SeriesElement<S, Coord> {
    /// The marker of one data point: a circle of the given radius around it.
    Point(Coord, u32, S),
    /// The polyline through all the data points, in order.
    Path(Vec<Coord>, S),
}

/// The line series object, which takes the data points in guest coordinates
/// and creates the lines and points with the given style: first one circle
/// marker per point where the point size is not zero, then the line through
/// all the points.
pub struct LineSeries<S: Copy, Coord> {
    style: S,
    data: Vec<Coord>,
    point_idx: usize,
    point_size: u32,
}

impl<S: Copy, Coord> LineSeries<S, Coord> {
    /// The style of the elements.
    pub closed spec fn spec_style(&self) -> S {
        self.style
    }

    /// The data points not yet handed out in the line.
    pub closed spec fn spec_data(&self) -> Seq<Coord> {
        self.data@
    }

    /// The index of the next point whose marker is handed out.
    pub closed spec fn spec_point_idx(&self) -> usize {
        self.point_idx
    }

    /// The radius of the point markers; zero for none.
    pub closed spec fn spec_point_size(&self) -> u32 {
        self.point_size
    }

    /// The number of elements that the series still hands out: the markers of
    /// the points from the next index on, if there are markers, and the line,
    /// as long as there are points.
    pub open spec fn elements_left(&self) -> nat {
        let n = self.spec_data().len();
        let i = self.spec_point_idx() as int;
        if n == 0 {
            0
        } else if self.spec_point_size() > 0 && i < n {
            (n - i + 1) as nat
        } else {
            1
        }
    }

    /// Creates a new line series over the points `data` in the style `style`,
    /// without point markers.
    pub fn new(data: Vec<Coord>, style: S) -> (r: Self)
        ensures
            r.spec_data() == data@,
            r.spec_style() == style,
            r.spec_point_idx() == 0,
            r.spec_point_size() == 0,
    {
        LineSeries { style, data, point_idx: 0, point_size: 0 }
    }

    /// Sets the size of the points in the series, in pixels.
    pub fn point_size(self, size: u32) -> (r: Self)
        ensures
            r.spec_data() == self.spec_data(),
            r.spec_style() == self.spec_style(),
            r.spec_point_idx() == self.spec_point_idx(),
            r.spec_point_size() == size,
    {
        let mut this = self;
        this.point_size = size;
        this
    }

    /// The next element of the series: the marker of the next point while
    /// there are markers to hand out, then the line through all the points,
    /// then nothing.
    pub fn next(&mut self) -> (r: Option<SeriesElement<S, Coord>>) where Coord: Clone
        ensures
            final(self).spec_style() == old(self).spec_style(),
            final(self).spec_point_size() == old(self).spec_point_size(),
            r is None <==> old(self).elements_left() == 0,
            r is None ==> final(self).spec_data() == old(self).spec_data()
                && final(self).spec_point_idx() == old(self).spec_point_idx(),
            r is Some ==> final(self).elements_left() == old(self).elements_left() - 1,
            r matches Some(SeriesElement::Point(c, size, style)) ==> {
                &&& old(self).spec_point_size() > 0
                &&& old(self).spec_point_idx() < old(self).spec_data().len()
                &&& cloned(old(self).spec_data()[old(self).spec_point_idx() as int], c)
                &&& size == old(self).spec_point_size()
                &&& style == old(self).spec_style()
                &&& final(self).spec_data() == old(self).spec_data()
                &&& final(self).spec_point_idx() == old(self).spec_point_idx() + 1
            },
            r matches Some(SeriesElement::Path(points, style)) ==> {
                &&& !(old(self).spec_point_size() > 0 && old(self).spec_point_idx() < old(
                    self,
                ).spec_data().len())
                &&& points@ == old(self).spec_data()
                &&& style == old(self).spec_style()
                &&& final(self).spec_data() == Seq::<Coord>::empty()
                &&& final(self).spec_point_idx() == old(self).spec_point_idx()
            },
    {
        if self.data.len() > 0 {
            if self.point_size > 0 && self.point_idx < self.data.len() {
                let idx = self.point_idx;
                self.point_idx = self.point_idx + 1;
                let c = self.data[idx].clone();
                return Some(SeriesElement::Point(c, self.point_size, self.style));
            }
            let mut data: Vec<Coord> = Vec::new();
            std::mem::swap(&mut self.data, &mut data);
            Some(SeriesElement::Path(data, self.style))
        } else {
            None
        }
    }
}

/// A new line series over `n` points gives, once its point size is `k`, one
/// marker per point when `k` is not zero, and the line, while there are
/// points; with no points it gives nothing.
pub proof fn lemma_fresh_series_elements<S: Copy, Coord>(s: LineSeries<S, Coord>)
    requires
        s.spec_point_idx() == 0,
    ensures
        s.elements_left() == if s.spec_data().len() == 0 {
            0
        } else if s.spec_point_size() > 0 {
            s.spec_data().len() + 1
        } else {
            1
        },
{
}

} // verus!
