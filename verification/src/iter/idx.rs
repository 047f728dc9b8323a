//! The index iterator: produces 2-D logical coordinates in row-major
//! logical order for a given shape, independent of any physical layout.

use vstd::prelude::*;

use crate::model::Shape;
use crate::model::loc_shape_wf;

verus! {

/// Produces every `[row, col]` coordinate of a shape in row-major logical
/// order; every coordinate produced lies within the shape.
pub struct IndexIterator {
    shape: Shape,
    i: usize,
}

impl IndexIterator {
    /// The shape the iterator was built for.
    pub closed spec fn shape_spec(self) -> Shape {
        self.shape
    }

    /// The current logical walk position.
    pub closed spec fn pos(self) -> int {
        self.i as int
    }

    /// Valid dimensions, total size within machine limits, position in range.
    pub closed spec fn wf(self) -> bool {
        loc_shape_wf(self.shape) && self.i <= self.shape.0 * self.shape.1
    }

    /// The total number of coordinates produced over a full walk.
    pub open spec fn len_spec(self) -> int {
        self.shape_spec().0 * self.shape_spec().1
    }

    /// Builds a fresh iterator at position 0.
    pub fn from_shape(shape: Shape) -> (r: Self)
        requires
            loc_shape_wf(shape),
        ensures
            r.wf(),
            r.shape_spec() == shape,
            r.pos() == 0,
    {
        IndexIterator { shape, i: 0 }
    }

    /// The length of one logical row.
    pub fn row_size(&self) -> (r: usize)
        ensures
            r == self.shape_spec().1,
    {
        self.shape.1
    }

    /// The total number of coordinates produced over a full walk.
    pub fn len(&self) -> (r: usize)
        requires
            self.wf(),
        ensures
            r == self.len_spec(),
    {
        self.shape.0 * self.shape.1
    }

    /// Yields the coordinate of the current walk position `i`, which is
    /// `[i / cols, i % cols]`, or `None` once the walk is complete.
    pub fn next(&mut self) -> (r: Option<[usize; 2]>)
        requires
            old(self).wf(),
        ensures
            final(self).wf(),
            final(self).shape_spec() == old(self).shape_spec(),
            old(self).pos() < old(self).len_spec() ==> {
                &&& r matches Some(rc) && rc[0] == old(self).pos() / old(self).shape_spec().1 as int
                    && rc[1] == old(self).pos() % old(self).shape_spec().1 as int
                &&& final(self).pos() == old(self).pos() + 1
            },
            old(self).pos() >= old(self).len_spec() ==> {
                &&& r is None
                &&& final(self).pos() == old(self).pos()
            },
    {
        let pos = self.i;
        if pos >= self.len() {
            None
        } else {
            self.i = self.i + 1;
            let r = pos / self.shape.1;
            let c = pos % self.shape.1;
            Some([r, c])
        }
    }

    /// An exact remaining-count hint: both components give the number of
    /// coordinates a continued walk will still produce.
    pub fn size_hint(&self) -> (r: (usize, Option<usize>))
        requires
            self.wf(),
        ensures
            r.0 == self.len_spec() - self.pos(),
            r.1 == Some((self.len_spec() - self.pos()) as usize),
    {
        if self.i >= self.len() {
            (0, Some(0))
        } else {
            let rem = self.len() - self.i;
            (rem, Some(rem))
        }
    }

    /// Skips `n` positions ahead in constant time.  Succeeds when at most
    /// the remaining length is skipped; otherwise exhausts the iterator and
    /// reports exactly how many positions were unreachable.
    pub fn advance_by(&mut self, n: usize) -> (r: Result<(), usize>)
        requires
            old(self).wf(),
        ensures
            final(self).wf(),
            final(self).shape_spec() == old(self).shape_spec(),
            n <= old(self).len_spec() - old(self).pos() ==> {
                &&& r is Ok
                &&& final(self).pos() == old(self).pos() + n
            },
            n > old(self).len_spec() - old(self).pos() ==> {
                &&& r matches Err(missed) && missed == n - (old(self).len_spec() - old(
                    self,
                ).pos())
                &&& final(self).pos() == old(self).len_spec()
            },
    {
        let rem = self.len() - self.i;
        if n <= rem {
            self.i = self.i + n;
            Ok(())
        } else {
            self.i = self.len();
            Err(n - rem)
        }
    }

    /// The largest coordinate of the shape: the bottom-right corner.
    pub fn max(self) -> (r: Option<[usize; 2]>)
        requires
            self.wf(),
        ensures
            r matches Some(rc) && rc[0] == self.shape_spec().0 - 1 && rc[1] == self.shape_spec().1
                - 1,
    {
        Some([self.shape.0 - 1, self.shape.1 - 1])
    }
}

} // verus!
