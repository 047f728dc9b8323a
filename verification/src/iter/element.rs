//! Element iterators: walk a matrix's elements in logical row-major order,
//! whatever its physical layout, optionally paired with their coordinates.

use vstd::prelude::*;

use crate::iter::loc::LocIter;
use crate::mat2::Mat2;
use crate::model::Element;
use crate::model::MatView;
use crate::model::Shape;
use crate::model::lemma_col_major_offset_in_range;
use crate::model::lemma_rm_index;
use crate::model::view_of;

verus! {

/// Pairs each logical coordinate with the element at the physical offset
/// the location iterator resolves it to.  The traversal mode is chosen from
/// the matrix's layout flag at construction and frozen for the iterator's
/// lifetime.
pub struct IndexedElementIterator<'a> {
    data: &'a [Element],
    iter: LocIter,
}

/// Yields elements alone, in logical row-major order, whatever the
/// physical layout of the source matrix.
pub struct ElementIterator<'a> {
    iter: IndexedElementIterator<'a>,
}

/// Walks a borrowed matrix's elements in logical row-major order directly,
/// translating offsets inline for either layout.
pub struct MatIterator2<'a> {
    mat: &'a Mat2,
    i: usize,
}

impl<'a> IndexedElementIterator<'a> {
    /// The shape the iterator was built for.
    pub closed spec fn shape_spec(self) -> Shape {
        self.iter.shape_spec()
    }

    /// The current logical walk position.
    pub closed spec fn pos(self) -> int {
        self.iter.pos()
    }

    /// The logical matrix the iterator walks.
    pub closed spec fn view_spec(self) -> MatView {
        view_of(
            self.data@,
            self.shape_spec().0 as int,
            self.shape_spec().1 as int,
            self.iter.is_row(),
        )
    }

    /// The location iterator fits the borrowed buffer.
    pub closed spec fn wf(self) -> bool {
        &&& self.iter.wf()
        &&& self.data@.len() == self.iter.len_spec()
    }

    /// The total number of pairs produced over a full walk.
    pub open spec fn len_spec(self) -> int {
        self.shape_spec().0 * self.shape_spec().1
    }

    /// Builds a fresh iterator over a matrix, frozen to its current layout.
    pub fn from_mat(mat: &'a Mat2) -> (r: Self)
        requires
            mat.base_wf(),
        ensures
            r.wf(),
            r.pos() == 0,
            r.shape_spec() == mat.shape_spec(),
            r.view_spec() == mat@,
            r.len_spec() == mat.rows() * mat.cols(),
    {
        IndexedElementIterator {
            data: mat.raw(),
            iter: LocIter::for_layout(mat.shape(), mat.row_major()),
        }
    }

    /// Yields the logical coordinate of the current walk position together
    /// with the element stored for it, or `None` once the walk is complete.
    pub fn next(&mut self) -> (r: Option<([usize; 2], Element)>)
        requires
            old(self).wf(),
        ensures
            final(self).wf(),
            final(self).shape_spec() == old(self).shape_spec(),
            final(self).view_spec() == old(self).view_spec(),
            old(self).pos() < old(self).len_spec() ==> {
                &&& r matches Some((rc, e)) && rc[0] == old(self).pos() / old(
                    self,
                ).shape_spec().1 as int && rc[1] == old(self).pos() % old(self).shape_spec().1 as int
                    && e as int == old(self).view_spec()[rc[0] as int][rc[1] as int]
                &&& final(self).pos() == old(self).pos() + 1
            },
            old(self).pos() >= old(self).len_spec() ==> {
                &&& r is None
                &&& final(self).pos() == old(self).pos()
            },
    {
        let k = self.iter.position();
        let cols = self.iter.row_size();
        let ghost rows = self.shape_spec().0 as int;
        match self.iter.next() {
            Option::None => None,
            Option::Some(off) => {
                proof {
                    lemma_col_major_offset_in_range(rows, cols as int, k as int);
                    if self.iter.is_row() {
                        lemma_rm_index(rows, cols as int, k as int / cols as int, k as int % (
                        cols as int));
                        vstd::arithmetic::div_mod::lemma_fundamental_div_mod(
                            k as int,
                            cols as int,
                        );
                    }
                }
                let r = k / cols;
                let c = k % cols;
                let e = self.data[off];
                Some(([r, c], e))
            },
        }
    }

    /// An exact remaining-count hint: both components give the number of
    /// pairs a continued walk will still produce.
    pub fn size_hint(&self) -> (r: (usize, Option<usize>))
        requires
            self.wf(),
        ensures
            r.0 == self.len_spec() - self.pos(),
            r.1 == Some((self.len_spec() - self.pos()) as usize),
    {
        self.iter.size_hint()
    }

    /// Skips `n` positions ahead in constant time.  Succeeds when at most
    /// the remaining length is skipped; otherwise exhausts the iterator and
    /// reports exactly how many positions were unreachable.
    pub fn advance_by(&mut self, n: usize) -> (r: Result<(), usize>)
        requires
            old(self).wf(),
        ensures
            final(self).wf(),
            final(self).shape_spec() == old(self).shape_spec(),
            final(self).view_spec() == old(self).view_spec(),
            n <= old(self).len_spec() - old(self).pos() ==> {
                &&& r is Ok
                &&& final(self).pos() == old(self).pos() + n
            },
            n > old(self).len_spec() - old(self).pos() ==> {
                &&& r matches Err(missed) && missed == n - (old(self).len_spec() - old(
                    self,
                ).pos())
                &&& final(self).pos() == old(self).len_spec()
            },
    {
        self.iter.advance_by(n)
    }

    /// Drops the coordinates, yielding elements alone.
    pub fn into_elements(self) -> (r: ElementIterator<'a>)
        ensures
            r.wf() == self.wf(),
            r.pos() == self.pos(),
            r.shape_spec() == self.shape_spec(),
            r.view_spec() == self.view_spec(),
            r.len_spec() == self.len_spec(),
    {
        ElementIterator { iter: self }
    }
}

impl<'a> ElementIterator<'a> {
    /// The shape the iterator was built for.
    pub closed spec fn shape_spec(self) -> Shape {
        self.iter.shape_spec()
    }

    /// The current logical walk position.
    pub closed spec fn pos(self) -> int {
        self.iter.pos()
    }

    /// The logical matrix the iterator walks.
    pub closed spec fn view_spec(self) -> MatView {
        self.iter.view_spec()
    }

    /// The underlying indexed iterator is well-formed.
    pub closed spec fn wf(self) -> bool {
        self.iter.wf()
    }

    /// The total number of elements produced over a full walk.
    pub open spec fn len_spec(self) -> int {
        self.shape_spec().0 * self.shape_spec().1
    }

    /// Builds a fresh iterator over a matrix, frozen to its current layout.
    pub fn from_mat(mat: &'a Mat2) -> (r: Self)
        requires
            mat.base_wf(),
        ensures
            r.wf(),
            r.pos() == 0,
            r.shape_spec() == mat.shape_spec(),
            r.view_spec() == mat@,
            r.len_spec() == mat.rows() * mat.cols(),
    {
        ElementIterator { iter: IndexedElementIterator::from_mat(mat) }
    }

    /// Yields the element at the current logical walk position `k`, which
    /// is the logical entry `[k / cols, k % cols]`, or `None` once the walk
    /// is complete.
    pub fn next(&mut self) -> (r: Option<Element>)
        requires
            old(self).wf(),
        ensures
            final(self).wf(),
            final(self).shape_spec() == old(self).shape_spec(),
            final(self).view_spec() == old(self).view_spec(),
            old(self).pos() < old(self).len_spec() ==> {
                &&& r matches Some(e) && e as int == old(self).view_spec()[old(self).pos() / old(
                    self,
                ).shape_spec().1 as int][old(self).pos() % old(self).shape_spec().1 as int]
                &&& final(self).pos() == old(self).pos() + 1
            },
            old(self).pos() >= old(self).len_spec() ==> {
                &&& r is None
                &&& final(self).pos() == old(self).pos()
            },
    {
        match self.iter.next() {
            Option::Some((_, e)) => Some(e),
            Option::None => None,
        }
    }

    /// An exact remaining-count hint: both components give the number of
    /// elements a continued walk will still produce.
    pub fn size_hint(&self) -> (r: (usize, Option<usize>))
        requires
            self.wf(),
        ensures
            r.0 == self.len_spec() - self.pos(),
            r.1 == Some((self.len_spec() - self.pos()) as usize),
    {
        self.iter.size_hint()
    }

    /// Skips `n` positions ahead in constant time.  Succeeds when at most
    /// the remaining length is skipped; otherwise exhausts the iterator and
    /// reports exactly how many positions were unreachable.
    pub fn advance_by(&mut self, n: usize) -> (r: Result<(), usize>)
        requires
            old(self).wf(),
        ensures
            final(self).wf(),
            final(self).shape_spec() == old(self).shape_spec(),
            final(self).view_spec() == old(self).view_spec(),
            n <= old(self).len_spec() - old(self).pos() ==> {
                &&& r is Ok
                &&& final(self).pos() == old(self).pos() + n
            },
            n > old(self).len_spec() - old(self).pos() ==> {
                &&& r matches Err(missed) && missed == n - (old(self).len_spec() - old(
                    self,
                ).pos())
                &&& final(self).pos() == old(self).len_spec()
            },
    {
        self.iter.advance_by(n)
    }
}

impl<'a> MatIterator2<'a> {
    /// The borrowed source matrix.
    pub closed spec fn mat_spec(self) -> Mat2 {
        *self.mat
    }

    /// The current logical walk position.
    pub closed spec fn pos(self) -> int {
        self.i as int
    }

    /// The borrowed matrix has a well-formed base.
    pub closed spec fn wf(self) -> bool {
        (*self.mat).base_wf()
    }

    /// Builds a fresh iterator at position 0.
    pub fn from_mat(mat: &'a Mat2) -> (r: Self)
        requires
            mat.base_wf(),
        ensures
            r.wf(),
            r.mat_spec() == *mat,
            r.pos() == 0,
    {
        MatIterator2 { mat, i: 0 }
    }

    /// Yields the element at the current logical walk position `k`, which
    /// is the logical entry `[k / cols, k % cols]` whatever the physical
    /// layout, or `None` once the walk is complete.
    pub fn next(&mut self) -> (r: Option<Element>)
        requires
            old(self).wf(),
        ensures
            final(self).wf(),
            final(self).mat_spec() == old(self).mat_spec(),
            old(self).pos() < old(self).mat_spec().rows() * old(self).mat_spec().cols() ==> {
                &&& r matches Some(e) && e as int == old(self).mat_spec()@[old(self).pos() / old(
                    self,
                ).mat_spec().cols()][old(self).pos() % old(self).mat_spec().cols()]
                &&& final(self).pos() == old(self).pos() + 1
            },
            old(self).pos() >= old(self).mat_spec().rows() * old(self).mat_spec().cols() ==> {
                &&& r is None
                &&& final(self).pos() == old(self).pos()
            },
    {
        let data = self.mat.raw();
        if self.i >= data.len() {
            return None;
        }
        let shape = self.mat.shape();
        if self.mat.row_major() {
            let pos = self.i;
            proof {
                lemma_col_major_offset_in_range(shape.0 as int, shape.1 as int, pos as int);
                lemma_rm_index(
                    shape.0 as int,
                    shape.1 as int,
                    pos as int / shape.1 as int,
                    pos as int % shape.1 as int,
                );
                vstd::arithmetic::div_mod::lemma_fundamental_div_mod(pos as int, shape.1 as int);
            }
            self.i = self.i + 1;
            Some(data[pos])
        } else {
            proof {
                lemma_col_major_offset_in_range(shape.0 as int, shape.1 as int, self.i as int);
            }
            let row = self.i / shape.1;
            let col = self.i % shape.1;
            self.i = self.i + 1;
            Some(data[col * shape.0 + row])
        }
    }
}

} // verus!
