//! The row iterator: walks a row-major matrix row by row, yielding a copy
//! of each row.

use vstd::prelude::*;

use crate::errors::MatError;
use crate::mat2::Mat2;
use crate::model::Element;

verus! {

/// Yields each row of a row-major matrix in order, as an owned vector.
/// Construction fails on a column-major matrix: a contiguous row only
/// exists when the physical layout matches logical row order.
pub struct Iter<'a> {
    mat: &'a Mat2,
    row: usize,
}

impl<'a> Iter<'a> {
    /// The borrowed source matrix.
    pub closed spec fn mat_spec(self) -> Mat2 {
        *self.mat
    }

    /// The next row to be yielded.
    pub closed spec fn pos(self) -> int {
        self.row as int
    }

    /// The borrowed matrix has a well-formed base and row-major layout.
    pub closed spec fn wf(self) -> bool {
        (*self.mat).base_wf() && (*self.mat).is_row_major()
    }

    /// Builds a fresh iterator at the first row.  Fails with a layout error
    /// exactly when the matrix is currently column-major.
    pub fn from_mat(mat: &'a Mat2) -> (r: Result<Self, MatError>)
        requires
            mat.base_wf(),
        ensures
            mat.is_row_major() <==> r is Ok,
            r matches Ok(it) ==> {
                &&& it.wf()
                &&& it.mat_spec() == *mat
                &&& it.pos() == 0
            },
            r is Err ==> r == Err::<Self, MatError>(MatError::LayoutError),
    {
        if mat.row_major() {
            Ok(Iter { mat, row: 0 })
        } else {
            Err(MatError::LayoutError)
        }
    }

    /// Yields a copy of the current row and advances, or `None` once every
    /// row has been yielded.
    pub fn next(&mut self) -> (r: Option<Vec<Element>>)
        requires
            old(self).wf(),
        ensures
            final(self).wf(),
            final(self).mat_spec() == old(self).mat_spec(),
            old(self).pos() < old(self).mat_spec().rows() ==> {
                &&& r matches Some(v) && v@.len() == old(self).mat_spec().cols() && (forall|c: int|
                    0 <= c < v@.len() ==> (#[trigger] v@[c]) as int == old(self).mat_spec()@[old(
                        self,
                    ).pos()][c])
                &&& final(self).pos() == old(self).pos() + 1
            },
            old(self).pos() >= old(self).mat_spec().rows() ==> {
                &&& r is None
                &&& final(self).pos() == old(self).pos()
            },
    {
        let shape = self.mat.shape();
        if self.row >= shape.0 {
            return None;
        }
        let r = match self.mat.row(self.row) {
            Ok(v) => v,
            Err(_) => {
                return None;
            },
        };
        self.row = self.row + 1;
        Some(r)
    }

    /// An exact remaining-count hint: both components give the number of
    /// rows a continued walk will still produce.
    pub fn size_hint(&self) -> (r: (usize, Option<usize>))
        requires
            self.wf(),
            self.pos() <= self.mat_spec().rows(),
        ensures
            r.0 == self.mat_spec().rows() - self.pos(),
            r.1 == Some((self.mat_spec().rows() - self.pos()) as usize),
    {
        let rows = self.mat.shape().0;
        let rem = rows - self.row;
        (rem, Some(rem))
    }

    /// Skips `n` rows ahead in constant time.  Succeeds when at most the
    /// remaining number of rows is skipped; otherwise exhausts the iterator
    /// and reports exactly how many rows were unreachable.
    pub fn advance_by(&mut self, n: usize) -> (r: Result<(), usize>)
        requires
            old(self).wf(),
            old(self).pos() <= old(self).mat_spec().rows(),
        ensures
            final(self).wf(),
            final(self).mat_spec() == old(self).mat_spec(),
            n <= old(self).mat_spec().rows() - old(self).pos() ==> {
                &&& r is Ok
                &&& final(self).pos() == old(self).pos() + n
            },
            n > old(self).mat_spec().rows() - old(self).pos() ==> {
                &&& r matches Err(missed) && missed == n - (old(self).mat_spec().rows() - old(
                    self,
                ).pos())
                &&& final(self).pos() == old(self).mat_spec().rows()
            },
    {
        let rows = self.mat.shape().0;
        let rem = rows - self.row;
        if n <= rem {
            self.row = self.row + n;
            Ok(())
        } else {
            self.row = rows;
            Err(n - rem)
        }
    }
}

} // verus!
