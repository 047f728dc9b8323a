//! Location iterators: translate a logical row-major walk index into a
//! physical storage offset, for either physical layout.

use vstd::prelude::*;

use crate::model::Shape;
use crate::model::col_major_offset;
use crate::model::lemma_col_major_offset_in_range;
use crate::model::loc_shape_wf;

verus! {

/// Walks the physical offsets of a column-major buffer in logical row-major
/// order: walk index `i` is mapped to offset `(i % cols) * rows + i / cols`.
pub struct ColumnIterator {
    shape: Shape,
    i: usize,
}

/// Walks the physical offsets of a row-major buffer in logical row-major
/// order: walk index `i` is mapped to offset `i` itself.
pub struct RowIterator {
    shape: Shape,
    i: usize,
}

/// A location iterator for either physical layout, dispatched by variant.
pub enum LocIter {
    Row(RowIterator),
    Col(ColumnIterator),
}

impl RowIterator {
    /// The shape the iterator was built for.
    pub closed spec fn shape_spec(self) -> Shape {
        self.shape
    }

    /// The current logical walk position.
    pub closed spec fn pos(self) -> int {
        self.i as int
    }

    /// Valid dimensions, total size within machine limits, position in range.
    pub closed spec fn wf(self) -> bool {
        loc_shape_wf(self.shape) && self.i <= self.shape.0 * self.shape.1
    }

    /// The total number of offsets produced over a full walk.
    pub open spec fn len_spec(self) -> int {
        self.shape_spec().0 * self.shape_spec().1
    }

    /// Builds a fresh iterator at position 0.
    pub fn from_shape(shape: Shape) -> (r: Self)
        requires
            loc_shape_wf(shape),
        ensures
            r.wf(),
            r.shape_spec() == shape,
            r.pos() == 0,
    {
        RowIterator { shape, i: 0 }
    }

    /// The length of one logical row.
    pub fn row_size(&self) -> (r: usize)
        ensures
            r == self.shape_spec().1,
    {
        self.shape.1
    }

    /// The total number of offsets produced over a full walk.
    pub fn len(&self) -> (r: usize)
        requires
            self.wf(),
        ensures
            r == self.len_spec(),
    {
        self.shape.0 * self.shape.1
    }

    /// The current logical walk position.
    pub fn position(&self) -> (r: usize)
        ensures
            r == self.pos(),
    {
        self.i
    }

    /// Yields the next physical offset (the walk index itself), or `None`
    /// once the walk is complete.
    pub fn next(&mut self) -> (r: Option<usize>)
        requires
            old(self).wf(),
        ensures
            final(self).wf(),
            final(self).shape_spec() == old(self).shape_spec(),
            old(self).pos() < old(self).len_spec() ==> {
                &&& r == Some(old(self).pos() as usize)
                &&& final(self).pos() == old(self).pos() + 1
            },
            old(self).pos() >= old(self).len_spec() ==> {
                &&& r is None
                &&& final(self).pos() == old(self).pos()
            },
    {
        if self.i >= self.len() {
            return None;
        }
        let pos = self.i;
        self.i = self.i + 1;
        Some(pos)
    }

    /// An exact remaining-count hint: both components give the number of
    /// offsets a continued walk will still produce.
    pub fn size_hint(&self) -> (r: (usize, Option<usize>))
        requires
            self.wf(),
        ensures
            r.0 == self.len_spec() - self.pos(),
            r.1 == Some((self.len_spec() - self.pos()) as usize),
    {
        let rem = self.len() - self.i;
        (rem, Some(rem))
    }

    /// Skips `n` positions ahead in constant time.  Succeeds when at most
    /// the remaining length is skipped; otherwise exhausts the iterator and
    /// reports exactly how many positions were unreachable.
    pub fn advance_by(&mut self, n: usize) -> (r: Result<(), usize>)
        requires
            old(self).wf(),
        ensures
            final(self).wf(),
            final(self).shape_spec() == old(self).shape_spec(),
            n <= old(self).len_spec() - old(self).pos() ==> {
                &&& r is Ok
                &&& final(self).pos() == old(self).pos() + n
            },
            n > old(self).len_spec() - old(self).pos() ==> {
                &&& r matches Err(missed) && missed == n - (old(self).len_spec() - old(
                    self,
                ).pos())
                &&& final(self).pos() == old(self).len_spec()
            },
    {
        let rem = self.len() - self.i;
        if n <= rem {
            self.i = self.i + n;
            Ok(())
        } else {
            self.i = self.len();
            Err(n - rem)
        }
    }
}

impl ColumnIterator {
    /// The shape the iterator was built for.
    pub closed spec fn shape_spec(self) -> Shape {
        self.shape
    }

    /// The current logical walk position.
    pub closed spec fn pos(self) -> int {
        self.i as int
    }

    /// Valid dimensions, total size within machine limits, position in range.
    pub closed spec fn wf(self) -> bool {
        loc_shape_wf(self.shape) && self.i <= self.shape.0 * self.shape.1
    }

    /// The total number of offsets produced over a full walk.
    pub open spec fn len_spec(self) -> int {
        self.shape_spec().0 * self.shape_spec().1
    }

    /// Builds a fresh iterator at position 0.
    pub fn from_shape(shape: Shape) -> (r: Self)
        requires
            loc_shape_wf(shape),
        ensures
            r.wf(),
            r.shape_spec() == shape,
            r.pos() == 0,
    {
        ColumnIterator { shape, i: 0 }
    }

    /// The length of one logical row.
    pub fn row_size(&self) -> (r: usize)
        ensures
            r == self.shape_spec().1,
    {
        self.shape.1
    }

    /// The total number of offsets produced over a full walk.
    pub fn len(&self) -> (r: usize)
        requires
            self.wf(),
        ensures
            r == self.len_spec(),
    {
        self.shape.0 * self.shape.1
    }

    /// The current logical walk position.
    pub fn position(&self) -> (r: usize)
        ensures
            r == self.pos(),
    {
        self.i
    }

    /// An exact remaining-count hint: both components give the number of
    /// offsets a continued walk will still produce.
    pub fn size_hint(&self) -> (r: (usize, Option<usize>))
        requires
            self.wf(),
        ensures
            r.0 == self.len_spec() - self.pos(),
            r.1 == Some((self.len_spec() - self.pos()) as usize),
    {
        let rem = self.len() - self.i;
        (rem, Some(rem))
    }

    /// Skips `n` positions ahead in constant time.  Succeeds when at most
    /// the remaining length is skipped; otherwise exhausts the iterator and
    /// reports exactly how many positions were unreachable.
    pub fn advance_by(&mut self, n: usize) -> (r: Result<(), usize>)
        requires
            old(self).wf(),
        ensures
            final(self).wf(),
            final(self).shape_spec() == old(self).shape_spec(),
            n <= old(self).len_spec() - old(self).pos() ==> {
                &&& r is Ok
                &&& final(self).pos() == old(self).pos() + n
            },
            n > old(self).len_spec() - old(self).pos() ==> {
                &&& r matches Err(missed) && missed == n - (old(self).len_spec() - old(
                    self,
                ).pos())
                &&& final(self).pos() == old(self).len_spec()
            },
    {
        let rem = self.len() - self.i;
        if n <= rem {
            self.i = self.i + n;
            Ok(())
        } else {
            self.i = self.len();
            Err(n - rem)
        }
    }

    /// Yields the physical offset of walk index `i`, which reads the buffer
    /// column by column, or `None` once the walk is complete.  Every offset
    /// produced lies below `rows * cols`.
    pub fn next(&mut self) -> (r: Option<usize>)
        requires
            old(self).wf(),
        ensures
            final(self).wf(),
            final(self).shape_spec() == old(self).shape_spec(),
            old(self).pos() < old(self).len_spec() ==> {
                &&& r matches Some(off) && off == col_major_offset(
                    old(self).shape_spec().0 as int,
                    old(self).shape_spec().1 as int,
                    old(self).pos(),
                )
                &&& final(self).pos() == old(self).pos() + 1
            },
            old(self).pos() >= old(self).len_spec() ==> {
                &&& r is None
                &&& final(self).pos() == old(self).pos()
            },
    {
        if self.i >= self.len() {
            return None;
        }
        let rows = self.shape.0;
        let cols = self.shape.1;
        proof {
            lemma_col_major_offset_in_range(rows as int, cols as int, self.i as int);
        }
        let row = self.i % cols;
        let col = self.i / cols;
        self.i = self.i + 1;
        Some(row * rows + col)
    }
}

impl LocIter {
    /// The shape the iterator was built for.
    pub open spec fn shape_spec(self) -> Shape {
        match self {
            LocIter::Row(it) => it.shape_spec(),
            LocIter::Col(it) => it.shape_spec(),
        }
    }

    /// The current logical walk position.
    pub open spec fn pos(self) -> int {
        match self {
            LocIter::Row(it) => it.pos(),
            LocIter::Col(it) => it.pos(),
        }
    }

    /// Whether this iterator walks a row-major buffer.
    pub open spec fn is_row(self) -> bool {
        self is Row
    }

    /// The offset this iterator maps walk index `i` to.
    pub open spec fn offset_spec(self, i: int) -> int {
        if self.is_row() {
            i
        } else {
            col_major_offset(self.shape_spec().0 as int, self.shape_spec().1 as int, i)
        }
    }

    /// Well-formedness of the underlying iterator.
    pub open spec fn wf(self) -> bool {
        match self {
            LocIter::Row(it) => it.wf(),
            LocIter::Col(it) => it.wf(),
        }
    }

    /// The total number of offsets produced over a full walk.
    pub open spec fn len_spec(self) -> int {
        self.shape_spec().0 * self.shape_spec().1
    }

    /// Builds the location iterator matching a physical layout.
    pub fn for_layout(shape: Shape, row_major: bool) -> (r: Self)
        requires
            loc_shape_wf(shape),
        ensures
            r.wf(),
            r.shape_spec() == shape,
            r.pos() == 0,
            r.is_row() == row_major,
    {
        if row_major {
            LocIter::Row(RowIterator::from_shape(shape))
        } else {
            LocIter::Col(ColumnIterator::from_shape(shape))
        }
    }

    /// The length of one logical row.
    pub fn row_size(&self) -> (r: usize)
        ensures
            r == self.shape_spec().1,
    {
        match self {
            LocIter::Row(it) => it.row_size(),
            LocIter::Col(it) => it.row_size(),
        }
    }

    /// The total number of offsets produced over a full walk.
    pub fn len(&self) -> (r: usize)
        requires
            self.wf(),
        ensures
            r == self.len_spec(),
    {
        match self {
            LocIter::Row(it) => it.len(),
            LocIter::Col(it) => it.len(),
        }
    }

    /// The current logical walk position.
    pub fn position(&self) -> (r: usize)
        ensures
            r == self.pos(),
    {
        match self {
            LocIter::Row(it) => it.position(),
            LocIter::Col(it) => it.position(),
        }
    }

    /// An exact remaining-count hint: both components give the number of
    /// offsets a continued walk will still produce.
    pub fn size_hint(&self) -> (r: (usize, Option<usize>))
        requires
            self.wf(),
        ensures
            r.0 == self.len_spec() - self.pos(),
            r.1 == Some((self.len_spec() - self.pos()) as usize),
    {
        match self {
            LocIter::Row(it) => it.size_hint(),
            LocIter::Col(it) => it.size_hint(),
        }
    }

    /// Skips `n` positions ahead in constant time.  Succeeds when at most
    /// the remaining length is skipped; otherwise exhausts the iterator and
    /// reports exactly how many positions were unreachable.
    pub fn advance_by(&mut self, n: usize) -> (r: Result<(), usize>)
        requires
            old(self).wf(),
        ensures
            final(self).wf(),
            final(self).shape_spec() == old(self).shape_spec(),
            final(self).is_row() == old(self).is_row(),
            n <= old(self).len_spec() - old(self).pos() ==> {
                &&& r is Ok
                &&& final(self).pos() == old(self).pos() + n
            },
            n > old(self).len_spec() - old(self).pos() ==> {
                &&& r matches Err(missed) && missed == n - (old(self).len_spec() - old(
                    self,
                ).pos())
                &&& final(self).pos() == old(self).len_spec()
            },
    {
        match self {
            LocIter::Row(it) => it.advance_by(n),
            LocIter::Col(it) => it.advance_by(n),
        }
    }

    /// Yields the physical offset of the current walk index and advances,
    /// or `None` once the walk is complete.
    pub fn next(&mut self) -> (r: Option<usize>)
        requires
            old(self).wf(),
        ensures
            final(self).wf(),
            final(self).shape_spec() == old(self).shape_spec(),
            final(self).is_row() == old(self).is_row(),
            old(self).pos() < old(self).len_spec() ==> {
                &&& r matches Some(off) && off == old(self).offset_spec(old(self).pos())
                &&& final(self).pos() == old(self).pos() + 1
            },
            old(self).pos() >= old(self).len_spec() ==> {
                &&& r is None
                &&& final(self).pos() == old(self).pos()
            },
    {
        match self {
            LocIter::Row(it) => it.next(),
            LocIter::Col(it) => it.next(),
        }
    }
}

} // verus!
