//! The core matrix entity: a flat element buffer with a shape, a physical
//! layout flag, and an optional chain of deferred operations.

use vstd::prelude::*;

use crate::errors::MatError;
use crate::iter::ElementIterator;
use crate::iter::IndexIterator;
use crate::iter::IndexedElementIterator;
use crate::model::Element;
use crate::model::MatView;
use crate::model::Shape;
use crate::model::cols_of;
use crate::model::const_view;
use crate::model::id_view;
use crate::model::is_matrix;
use crate::model::is_matrix_of;
use crate::model::lemma_col_major_offset_in_range;
use crate::model::lemma_flip_view;
use crate::model::add_fits;
use crate::model::dot_prefix;
use crate::model::in_range;
use crate::model::lemma_add_is_matrix;
use crate::model::lemma_mul_is_matrix;
use crate::model::lemma_rm_index;
use crate::model::mat_add;
use crate::model::mat_col;
use crate::model::mat_mul;
use crate::model::mat_transpose;
use crate::model::mul_fits;
use crate::model::rows_of;
use crate::model::view_of;
use crate::ops::Op;
use vstd::slice::slice_to_vec;

verus! {

/// A dense 2-D matrix of [`Element`]s.
///
/// `data` always holds `shape.0 * shape.1` elements.  When `row_major` is
/// false the matrix is a transposed view: `data` still holds the
/// untransposed physical layout while `shape` and all indexing have been
/// logically inverted without touching the buffer.  When `ops` is present,
/// the fields describe the base operand the pending chain is anchored to;
/// [`Mat2::finalize`] collapses the chain into a concrete row-major value.
#[derive(Debug)]
pub struct Mat2 {
    shape: Shape,
    data: Vec<Element>,
    row_major: bool,
    ops: Option<Box<Op>>,
}

impl View for Mat2 {
    type V = MatView;

    /// The logical matrix currently described by the buffer, shape and
    /// layout flag, ignoring any pending chain.
    open spec fn view(&self) -> MatView {
        view_of(
            self.data_spec(),
            self.shape_spec().0 as int,
            self.shape_spec().1 as int,
            self.is_row_major(),
        )
    }
}

impl Mat2 {
    /// The logical dimensions as currently exposed to callers.
    pub closed spec fn shape_spec(self) -> Shape {
        self.shape
    }

    /// The number of logical rows.
    pub open spec fn rows(self) -> int {
        self.shape_spec().0 as int
    }

    /// The number of logical columns.
    pub open spec fn cols(self) -> int {
        self.shape_spec().1 as int
    }

    /// Whether the shape and indexing interpretation match the physical
    /// buffer directly.
    pub closed spec fn is_row_major(self) -> bool {
        self.row_major
    }

    /// The raw physical buffer.
    pub closed spec fn data_spec(self) -> Seq<Element> {
        self.data@
    }

    /// Positive dimensions and a buffer of exactly `rows * cols` elements.
    pub open spec fn base_wf(self) -> bool {
        &&& self.shape_spec().0 >= 1
        &&& self.shape_spec().1 >= 1
        &&& self.shape_spec().0 * self.shape_spec().1 <= usize::MAX
        &&& self.data_spec().len() == self.shape_spec().0 * self.shape_spec().1
    }

    /// The pending chain is absent or the trivial terminal node, so the
    /// buffer already holds the matrix's value (up to layout).
    pub open spec fn chain_trivial(self) -> bool {
        match self.ops_spec() {
            Option::None => true,
            Option::Some(op) => *op is Finalize,
        }
    }

    /// No pending chain at all: the state finalization leaves behind.
    pub open spec fn drained(self) -> bool {
        self.ops_spec() is None
    }

    /// The logical value this matrix finalizes to: the pending chain
    /// evaluated over the base value, innermost node first.
    pub open spec fn eval_full(self) -> MatView
        decreases self,
    {
        match self.ops_spec() {
            Option::None => self@,
            Option::Some(op) => (*op).eval(self@),
        }
    }

    /// Well-formed: the base is well-formed and the pending chain is
    /// dimension-consistent over it.
    pub open spec fn wf(self) -> bool
        decreases self,
    {
        &&& self.base_wf()
        &&& match self.ops_spec() {
            Option::None => true,
            Option::Some(op) => (*op).wf_for(self@),
        }
    }

    /// Finalizing this matrix with element-typed arithmetic never overflows.
    pub open spec fn fits(self) -> bool
        decreases self,
    {
        match self.ops_spec() {
            Option::None => true,
            Option::Some(op) => (*op).fits_for(self@),
        }
    }

    /// A termination measure for chain evaluation.
    pub open spec fn chain_height(self) -> nat
        decreases self,
    {
        match self.ops_spec() {
            Option::None => 0,
            Option::Some(op) => (*op).height(),
        }
    }

    /// A well-formed base describes a proper matrix.
    pub proof fn lemma_base_is_matrix(self)
        requires
            self.base_wf(),
        ensures
            is_matrix_of(self@, self.rows(), self.cols()),
    {
    }

    /// A well-formed matrix finalizes to a proper matrix.
    pub proof fn lemma_eval_full_is_matrix(self)
        requires
            self.wf(),
        ensures
            is_matrix(self.eval_full()),
        decreases self.chain_height() + 1,
    {
        self.lemma_base_is_matrix();
        match self.ops {
            Option::None => {},
            Option::Some(op) => {
                (*op).lemma_eval_is_matrix(self@);
            },
        }
    }

    /// The shape the pending chain evaluates to: the dimensions [`Self::finalize`]
    /// will leave this matrix with.
    pub fn effective_shape(&self) -> (r: Shape)
        requires
            self.wf(),
        ensures
            r.0 == rows_of(self.eval_full()),
            r.1 == cols_of(self.eval_full()),
        decreases self.chain_height() + 1,
    {
        proof {
            self.lemma_base_is_matrix();
        }
        match &self.ops {
            Option::None => self.shape,
            Option::Some(op) => (**op).result_shape(self.shape, Ghost(self@)),
        }
    }

    /// Checks that a shape has positive dimensions and matches a buffer
    /// length exactly; every constructor accepts a buffer only under this.
    pub fn validate(shape: &Shape, data: &Vec<Element>) -> (r: Result<(), MatError>)
        ensures
            r is Ok <==> (shape.0 >= 1 && shape.1 >= 1 && data@.len() == shape.0 * shape.1),
            r is Ok ==> shape.0 * shape.1 <= usize::MAX,
            r is Err ==> r == Err::<(), MatError>(MatError::DimensionError),
    {
        if shape.0 < 1 || shape.1 < 1 {
            return Err(MatError::DimensionError);
        }
        let len = data.len();
        match shape.0.checked_mul(shape.1) {
            Option::Some(n) => {
                if len == n {
                    Ok(())
                } else {
                    Err(MatError::DimensionError)
                }
            },
            Option::None => Err(MatError::DimensionError),
        }
    }

    /// Checks that both dimensions of a shape are positive.
    pub fn validate_shape(shape: &Shape) -> (r: Result<(), MatError>)
        ensures
            r is Ok <==> (shape.0 >= 1 && shape.1 >= 1),
            r is Err ==> r == Err::<(), MatError>(MatError::DimensionError),
    {
        if shape.0 >= 1 && shape.1 >= 1 {
            Ok(())
        } else {
            Err(MatError::DimensionError)
        }
    }

    /// Builds a matrix from a flat row-major buffer and a shape.  Fails with
    /// a dimension error exactly when a dimension is non-positive or the
    /// buffer length does not equal `rows * cols`.
    pub fn new(shape: Shape, data: Vec<Element>) -> (r: Result<Self, MatError>)
        ensures
            (shape.0 >= 1 && shape.1 >= 1 && data@.len() == shape.0 * shape.1) <==> r is Ok,
            r matches Ok(m) ==> {
                &&& m.wf()
                &&& m.fits()
                &&& m.chain_trivial()
                &&& m.is_row_major()
                &&& m.shape_spec() == shape
                &&& m@ == view_of(data@, shape.0 as int, shape.1 as int, true)
                &&& m.eval_full() == m@
            },
            r is Err ==> r == Err::<Self, MatError>(MatError::DimensionError),
    {
        match Self::validate(&shape, &data) {
            Ok(()) => Ok(Mat2 {
                shape,
                data,
                row_major: true,
                ops: Some(Box::new(Op::Finalize)),
            }),
            Err(e) => Err(e),
        }
    }

    /// Builds a matrix from nested row literals, flattening them into a
    /// row-major buffer.  Fails with a dimension error exactly when either
    /// dimension is zero.
    pub fn new_from_arrays<const N: usize, const M: usize>(array: [[Element; N]; M]) -> (r: Result<
        Self,
        MatError,
    >)
        requires
            M * N <= usize::MAX,
        ensures
            (M >= 1 && N >= 1) <==> r is Ok,
            r matches Ok(m) ==> {
                &&& m.wf()
                &&& m.fits()
                &&& m.chain_trivial()
                &&& m.is_row_major()
                &&& m.shape_spec() == ((M, N))
                &&& forall|x: int, y: int|
                    0 <= x < M && 0 <= y < N ==> m@[x][y] == array[x][y] as int
                &&& m.eval_full() == m@
            },
            r is Err ==> r == Err::<Self, MatError>(MatError::DimensionError),
    {
        if M < 1 || N < 1 {
            return Err(MatError::DimensionError);
        }
        let mut data: Vec<Element> = Vec::new();
        let mut x: usize = 0;
        while x < M
            invariant
                M >= 1,
                N >= 1,
                M * N <= usize::MAX,
                x <= M,
                data@.len() == x * N,
                forall|t: int|
                    0 <= t < x * N ==> (#[trigger] data@[t]) == array[t / (N as int)][t % (
                    N as int)],
            decreases M - x,
        {
            let mut y: usize = 0;
            while y < N
                invariant
                    M >= 1,
                    N >= 1,
                    M * N <= usize::MAX,
                    x < M,
                    y <= N,
                    data@.len() == x * N + y,
                    forall|t: int|
                        0 <= t < x * N + y ==> (#[trigger] data@[t]) == array[t / (N as int)][t % (
                        N as int)],
                decreases N - y,
            {
                proof {
                    lemma_rm_index(M as int, N as int, x as int, y as int);
                }
                data.push(array[x][y]);
                y = y + 1;
            }
            proof {
                assert((x + 1) * N == x * N + N) by (nonlinear_arith);
            }
            x = x + 1;
        }
        let m = Mat2 {
            shape: (M, N),
            data,
            row_major: true,
            ops: Some(Box::new(Op::Finalize)),
        };
        proof {
            assert forall|x: int, y: int| 0 <= x < M && 0 <= y < N implies m@[x][y] == array[x][y]
                as int by {
                lemma_rm_index(M as int, N as int, x, y);
            }
        }
        Ok(m)
    }

    /// The shape as currently exposed to callers.
    pub fn shape(&self) -> (r: Shape)
        ensures
            r == self.shape_spec(),
    {
        self.shape
    }

    /// Whether indexing currently matches the physical buffer directly.
    pub fn row_major(&self) -> (r: bool)
        ensures
            r == self.is_row_major(),
    {
        self.row_major
    }

    /// Read-only access to the raw physical buffer.
    pub fn raw(&self) -> (r: &[Element])
        ensures
            r@ == self.data_spec(),
    {
        self.data.as_slice()
    }

    /// The storage offset of a 2-D coordinate in a row-major buffer whose
    /// rows are `row_size` long.
    pub fn idx2loc(index: &[usize; 2], row_size: usize) -> (r: usize)
        requires
            index[0] * row_size + index[1] <= usize::MAX,
        ensures
            r == index[0] * row_size + index[1],
    {
        index[0] * row_size + index[1]
    }

    /// Builds an all-zero row-major matrix of the given shape.  Fails with a
    /// dimension error exactly when a dimension is non-positive.
    pub fn zeroes(shape: Shape) -> (r: Result<Self, MatError>)
        requires
            shape.0 * shape.1 <= usize::MAX,
        ensures
            (shape.0 >= 1 && shape.1 >= 1) <==> r is Ok,
            r matches Ok(m) ==> {
                &&& m.wf()
                &&& m.fits()
                &&& m.chain_trivial()
                &&& m.is_row_major()
                &&& m.shape_spec() == shape
                &&& m@ == const_view(shape.0 as int, shape.1 as int, 0)
                &&& m.eval_full() == m@
            },
            r is Err ==> r == Err::<Self, MatError>(MatError::DimensionError),
    {
        match Self::validate_shape(&shape) {
            Ok(()) => {
                let n = shape.0 * shape.1;
                let data = filled(n, 0);
                let m = Mat2 { shape, data, row_major: true, ops: Some(Box::new(Op::Finalize)) };
                proof {
                    assert forall|r: int, c: int|
                        0 <= r < shape.0 && 0 <= c < shape.1 implies m@[r][c] == 0 by {
                        lemma_rm_index(shape.0 as int, shape.1 as int, r, c);
                    }
                    assert(m@ =~~= const_view(shape.0 as int, shape.1 as int, 0));
                }
                Ok(m)
            },
            Err(e) => Err(e),
        }
    }

    /// Builds the identity matrix: 1 on the main diagonal, 0 elsewhere.
    /// Fails with a dimension error exactly when `size` is zero.
    #[allow(non_snake_case)]
    pub fn I(size: usize) -> (r: Result<Self, MatError>)
        requires
            size * size <= usize::MAX,
        ensures
            size >= 1 <==> r is Ok,
            r matches Ok(m) ==> {
                &&& m.wf()
                &&& m.fits()
                &&& m.chain_trivial()
                &&& m.is_row_major()
                &&& m.shape_spec() == (size, size)
                &&& m@ == id_view(size as int)
                &&& m.eval_full() == m@
            },
            r is Err ==> r == Err::<Self, MatError>(MatError::DimensionError),
    {
        let shape = (size, size);
        if let Err(e) = Self::validate_shape(&shape) {
            return Err(e);
        }
        let n = size * size;
        let mut data = filled(n, 0);
        let mut i: usize = 0;
        while i < size
            invariant
                size >= 1,
                size * size <= usize::MAX,
                i <= size,
                data@.len() == size * size,
                forall|t: int|
                    0 <= t < size * size ==> (#[trigger] data@[t]) == (if (t / (size as int) == t
                        % (size as int)) && (t / (size as int) < i as int) {
                        1i32
                    } else {
                        0i32
                    }),
            decreases size - i,
        {
            proof {
                lemma_rm_index(size as int, size as int, i as int, i as int);
            }
            let pos = i * size + i;
            data.set(pos, 1);
            proof {
                assert forall|t: int| 0 <= t < size * size && t != pos implies #[trigger] (t / (
                size as int)) != i as int || t % (size as int) != i as int by {
                    vstd::arithmetic::div_mod::lemma_fundamental_div_mod(t, size as int);
                    assert(size as int * (i as int) == i as int * (size as int))
                        by (nonlinear_arith);
                }
            }
            i = i + 1;
        }
        let m = Mat2 { shape, data, row_major: true, ops: Some(Box::new(Op::Finalize)) };
        proof {
            assert forall|r: int, c: int| 0 <= r < size && 0 <= c < size implies m@[r][c] == (
            id_view(size as int))[r][c] by {
                lemma_rm_index(size as int, size as int, r, c);
            }
            assert(m@ =~~= id_view(size as int));
        }
        Ok(m)
    }

    /// The physical offset of logical coordinate `(r, c)` under the current
    /// layout, together with the element stored there.
    fn at(&self, r: usize, c: usize) -> (e: Element)
        requires
            self.base_wf(),
            r < self.rows(),
            c < self.cols(),
        ensures
            e as int == self@[r as int][c as int],
    {
        if self.row_major {
            proof {
                lemma_rm_index(self.rows(), self.cols(), r as int, c as int);
            }
            self.data[r * self.shape.1 + c]
        } else {
            proof {
                lemma_rm_index(self.cols(), self.rows(), c as int, r as int);
            }
            self.data[c * self.shape.0 + r]
        }
    }

    /// Reads the element at a 2-D logical coordinate; legal regardless of
    /// layout.  Fails with a bounds error exactly when the coordinate lies
    /// outside the current shape.
    pub fn get(&self, index: [usize; 2]) -> (r: Result<Element, MatError>)
        requires
            self.base_wf(),
        ensures
            (index[0] < self.rows() && index[1] < self.cols()) <==> r is Ok,
            r matches Ok(e) ==> e as int == self@[index[0] as int][index[1] as int],
            r is Err ==> r == Err::<Element, MatError>(MatError::BoundsError),
    {
        if index[0] >= self.shape.0 || index[1] >= self.shape.1 {
            return Err(MatError::BoundsError);
        }
        Ok(self.at(index[0], index[1]))
    }

    /// Writes the element at a 2-D logical coordinate; legal regardless of
    /// layout.  Fails with a bounds error exactly when the coordinate lies
    /// outside the current shape, in which case nothing is mutated.
    pub fn set(&mut self, index: [usize; 2], value: Element) -> (r: Result<(), MatError>)
        requires
            old(self).base_wf(),
        ensures
            (index[0] < old(self).rows() && index[1] < old(self).cols()) <==> r is Ok,
            r is Ok ==> {
                &&& final(self)@ == old(self)@.update(
                    index[0] as int,
                    old(self)@[index[0] as int].update(index[1] as int, value as int),
                )
                &&& final(self).shape_spec() == old(self).shape_spec()
                &&& final(self).is_row_major() == old(self).is_row_major()
                &&& final(self).ops_spec() == old(self).ops_spec()
                &&& final(self).base_wf()
            },
            r is Err ==> r == Err::<(), MatError>(MatError::BoundsError) && *final(self) == *old(
                self,
            ),
    {
        if index[0] >= self.shape.0 || index[1] >= self.shape.1 {
            return Err(MatError::BoundsError);
        }
        let r = index[0];
        let c = index[1];
        let ghost old_view = self@;
        if self.row_major {
            proof {
                lemma_rm_index(self.rows(), self.cols(), r as int, c as int);
            }
            self.data.set(r * self.shape.1 + c, value);
        } else {
            proof {
                lemma_rm_index(self.cols(), self.rows(), c as int, r as int);
                assert(self.cols() * self.rows() == self.rows() * self.cols())
                    by (nonlinear_arith);
            }
            self.data.set(c * self.shape.0 + r, value);
        }
        proof {
            let rr = r as int;
            let cc = c as int;
            let new_view = old_view.update(rr, old_view[rr].update(cc, value as int));
            assert forall|x: int, y: int|
                0 <= x < self.rows() && 0 <= y < self.cols() implies self@[x][y] == new_view[x][y]
            by {
                if self.is_row_major() {
                    lemma_rm_index(self.rows(), self.cols(), x, y);
                    lemma_rm_index(self.rows(), self.cols(), rr, cc);
                } else {
                    lemma_rm_index(self.cols(), self.rows(), y, x);
                    lemma_rm_index(self.cols(), self.rows(), cc, rr);
                }
            }
            assert(self@ =~~= new_view);
        }
        Ok(())
    }

    /// Reinterprets the existing buffer under a new shape without reordering
    /// any data.  Fails with a dimension error exactly when a dimension is
    /// non-positive or `rows * cols` does not match the buffer length.
    pub fn reshape(self, shape: Shape) -> (r: Result<Self, MatError>)
        ensures
            (shape.0 >= 1 && shape.1 >= 1 && self.data_spec().len() == shape.0 * shape.1) <==> r
                is Ok,
            r matches Ok(m) ==> {
                &&& m.shape_spec() == shape
                &&& m.data_spec() == self.data_spec()
                &&& m.is_row_major() == self.is_row_major()
                &&& m.base_wf()
                &&& m@ == view_of(
                    self.data_spec(),
                    shape.0 as int,
                    shape.1 as int,
                    self.is_row_major(),
                )
                &&& m.ops_spec() == self.ops_spec()
                &&& self.chain_trivial() ==> (m.wf() && m.fits() && m.eval_full() == m@)
            },
            r is Err ==> r == Err::<Self, MatError>(MatError::DimensionError),
    {
        match Self::validate(&shape, &self.data) {
            Ok(()) => {
                let m = Mat2 { shape, ..self };
                Ok(m)
            },
            Err(e) => Err(e),
        }
    }

    /// Transposes in O(1): swaps the shape and flips the layout flag,
    /// leaving the buffer untouched.  On a matrix with a non-trivial pending
    /// chain the transposition is queued as a deferred node instead, so the
    /// finalized value is the transpose of what the chain evaluates to in
    /// either case.
    #[allow(non_snake_case)]
    pub fn T(self) -> (r: Self)
        requires
            self.base_wf(),
        ensures
            r.base_wf(),
            r.data_spec() == self.data_spec(),
            r.eval_full() == mat_transpose(self.eval_full()),
            self.wf() ==> r.wf(),
            self.wf() && self.fits() ==> r.fits(),
            self.chain_trivial() ==> {
                &&& r@ == mat_transpose(self@)
                &&& r.chain_trivial()
                &&& r.shape_spec() == ((self.shape_spec().1, self.shape_spec().0))
                &&& r.is_row_major() == !self.is_row_major()
            },
            !self.chain_trivial() ==> {
                &&& r@ == self@
                &&& r.shape_spec() == self.shape_spec()
                &&& r.is_row_major() == self.is_row_major()
                &&& !r.chain_trivial()
            },
    {
        let trivial = match &self.ops {
            Option::None => true,
            Option::Some(op) => matches!(**op, Op::Finalize),
        };
        if trivial {
            proof {
                lemma_flip_view(self.data@, self.rows(), self.cols(), self.is_row_major());
                assert(self.shape_spec().1 * self.shape_spec().0 == self.shape_spec().0
                    * self.shape_spec().1) by (nonlinear_arith);
            }
            Mat2 {
                shape: (self.shape.1, self.shape.0),
                row_major: !self.row_major,
                ..self
            }
        } else {
            let inner = match self.ops {
                Option::Some(op) => op,
                Option::None => Box::new(Op::Finalize),
            };
            Mat2 { ops: Some(Box::new(Op::Transpose(inner))), ..self }
        }
    }

    /// Materializes the buffer into genuine row-major order if it is not
    /// already, preserving the logical value, the shape and the pending
    /// chain.
    fn reorder(&mut self)
        requires
            old(self).base_wf(),
        ensures
            final(self).base_wf(),
            final(self).is_row_major(),
            final(self)@ == old(self)@,
            final(self).shape_spec() == old(self).shape_spec(),
            final(self).ops_spec() == old(self).ops_spec(),
    {
        if self.row_major {
            return ;
        }
        let rows = self.shape.0;
        let cols = self.shape.1;
        let n = rows * cols;
        let mut fresh: Vec<Element> = Vec::new();
        let mut k: usize = 0;
        while k < n
            invariant
                self.base_wf(),
                !self.is_row_major(),
                rows == self.shape_spec().0,
                cols == self.shape_spec().1,
                n == rows * cols,
                k <= n,
                fresh@.len() == k,
                forall|t: int|
                    0 <= t < k ==> (#[trigger] fresh@[t]) as int == self@[t / cols as int][t
                        % cols as int],
            decreases n - k,
        {
            proof {
                lemma_col_major_offset_in_range(rows as int, cols as int, k as int);
            }
            let r = k / cols;
            let c = k % cols;
            let e = self.data[c * rows + r];
            proof {
                assert(e as int == self@[k as int / cols as int][k as int % cols as int]);
            }
            fresh.push(e);
            k = k + 1;
        }
        let ghost old_view = self@;
        self.data = fresh;
        self.row_major = true;
        proof {
            assert forall|x: int, y: int|
                0 <= x < rows && 0 <= y < cols implies self@[x][y] == old_view[x][y] by {
                lemma_rm_index(rows as int, cols as int, x, y);
            }
            assert(self@ =~~= old_view);
        }
    }

    /// The pending chain, for stating chain preservation.
    pub closed spec fn ops_spec(self) -> Option<Box<Op>> {
        self.ops
    }

    /// Triple-nested-loop multiplication, reading both operands through
    /// layout-aware element access, producing fresh row-major data.
    fn naive_mul(&self, rhs: &Mat2) -> (out: Mat2)
        requires
            self.base_wf(),
            rhs.base_wf(),
            self.cols() == rhs.rows(),
            mul_fits(self@, rhs@),
        ensures
            out.wf(),
            out.fits(),
            out.chain_trivial(),
            out.is_row_major(),
            out.shape_spec() == ((self.shape_spec().0, rhs.shape_spec().1)),
            out@ == mat_mul(self@, rhs@),
            out.eval_full() == out@,
    {
        let n = self.shape.0;
        let m = self.shape.1;
        let p = rhs.shape.1;
        let ghost prod = mat_mul(self@, rhs@);
        proof {
            self.lemma_base_is_matrix();
            rhs.lemma_base_is_matrix();
            lemma_mul_is_matrix(self@, rhs@);
        }
        let mut data: Vec<Element> = Vec::new();
        let mut i: usize = 0;
        while i < n
            invariant
                self.base_wf(),
                rhs.base_wf(),
                self.cols() == rhs.rows(),
                mul_fits(self@, rhs@),
                n == self.shape_spec().0,
                m == self.shape_spec().1,
                p == rhs.shape_spec().1,
                prod == mat_mul(self@, rhs@),
                i <= n,
                data@.len() == i * p,
                forall|t: int|
                    0 <= t < i * p ==> (#[trigger] data@[t]) as int == prod[t / (p as int)][t % (
                    p as int)],
            decreases n - i,
        {
            let mut j: usize = 0;
            while j < p
                invariant
                    self.base_wf(),
                    rhs.base_wf(),
                    self.cols() == rhs.rows(),
                    mul_fits(self@, rhs@),
                    n == self.shape_spec().0,
                    m == self.shape_spec().1,
                    p == rhs.shape_spec().1,
                    prod == mat_mul(self@, rhs@),
                    i < n,
                    j <= p,
                    data@.len() == i * p + j,
                    forall|t: int|
                        0 <= t < i * p + j ==> (#[trigger] data@[t]) as int == prod[t / (
                        p as int)][t % (p as int)],
                decreases p - j,
            {
                let mut acc: Element = 0;
                let mut k: usize = 0;
                while k < m
                    invariant
                        self.base_wf(),
                        rhs.base_wf(),
                        self.cols() == rhs.rows(),
                        mul_fits(self@, rhs@),
                        n == self.shape_spec().0,
                        m == self.shape_spec().1,
                        p == rhs.shape_spec().1,
                        i < n,
                        j < p,
                        k <= m,
                        acc as int == dot_prefix(
                            self@[i as int],
                            mat_col(rhs@, j as int),
                            k as int,
                        ),
                    decreases m - k,
                {
                    proof {
                        self.lemma_base_is_matrix();
                        rhs.lemma_base_is_matrix();
                        assert(in_range(
                            self@[i as int][k as int] * mat_col(rhs@, j as int)[k as int],
                        ));
                        assert(mat_col(rhs@, j as int)[k as int] == rhs@[k as int][j as int]);
                    }
                    let a = self.at(i, k);
                    let b = rhs.at(k, j);
                    acc = acc + a * b;
                    k = k + 1;
                }
                proof {
                    self.lemma_base_is_matrix();
                    assert(acc as int == prod[i as int][j as int]);
                    lemma_rm_index(n as int, p as int, i as int, j as int);
                }
                data.push(acc);
                j = j + 1;
            }
            proof {
                assert((i + 1) * p == i * p + p) by (nonlinear_arith);
            }
            i = i + 1;
        }
        let out = Mat2 { shape: (n, p), data, row_major: true, ops: Some(Box::new(Op::Finalize)) };
        proof {
            assert forall|r: int, c: int|
                0 <= r < n && 0 <= c < p implies out@[r][c] == prod[r][c] by {
                lemma_rm_index(n as int, p as int, r, c);
            }
            assert(out@ =~~= prod);
        }
        out
    }

    /// Elementwise addition of two concrete equal-shape operands, pairing
    /// elements in logical order, producing fresh row-major data.
    fn add_concrete(&self, rhs: &Mat2) -> (out: Mat2)
        requires
            self.base_wf(),
            rhs.base_wf(),
            self.shape_spec() == rhs.shape_spec(),
            add_fits(self@, rhs@),
        ensures
            out.wf(),
            out.fits(),
            out.chain_trivial(),
            out.is_row_major(),
            out.shape_spec() == self.shape_spec(),
            out@ == mat_add(self@, rhs@),
            out.eval_full() == out@,
    {
        let n = self.shape.0;
        let p = self.shape.1;
        let ghost sum = mat_add(self@, rhs@);
        proof {
            self.lemma_base_is_matrix();
            rhs.lemma_base_is_matrix();
            lemma_add_is_matrix(self@, rhs@);
        }
        let mut data: Vec<Element> = Vec::new();
        let mut i: usize = 0;
        while i < n
            invariant
                self.base_wf(),
                rhs.base_wf(),
                self.shape_spec() == rhs.shape_spec(),
                add_fits(self@, rhs@),
                n == self.shape_spec().0,
                p == self.shape_spec().1,
                sum == mat_add(self@, rhs@),
                i <= n,
                data@.len() == i * p,
                forall|t: int|
                    0 <= t < i * p ==> (#[trigger] data@[t]) as int == sum[t / (p as int)][t % (
                    p as int)],
            decreases n - i,
        {
            let mut j: usize = 0;
            while j < p
                invariant
                    self.base_wf(),
                    rhs.base_wf(),
                    self.shape_spec() == rhs.shape_spec(),
                    add_fits(self@, rhs@),
                    n == self.shape_spec().0,
                    p == self.shape_spec().1,
                    sum == mat_add(self@, rhs@),
                    i < n,
                    j <= p,
                    data@.len() == i * p + j,
                    forall|t: int|
                        0 <= t < i * p + j ==> (#[trigger] data@[t]) as int == sum[t / (
                        p as int)][t % (p as int)],
                decreases p - j,
            {
                proof {
                    self.lemma_base_is_matrix();
                    rhs.lemma_base_is_matrix();
                    assert(in_range(self@[i as int][j as int] + rhs@[i as int][j as int]));
                    lemma_rm_index(n as int, p as int, i as int, j as int);
                }
                let a = self.at(i, j);
                let b = rhs.at(i, j);
                data.push(a + b);
                j = j + 1;
            }
            proof {
                assert((i + 1) * p == i * p + p) by (nonlinear_arith);
            }
            i = i + 1;
        }
        let out = Mat2 { shape: (n, p), data, row_major: true, ops: Some(Box::new(Op::Finalize)) };
        proof {
            assert forall|r: int, c: int|
                0 <= r < n && 0 <= c < p implies out@[r][c] == sum[r][c] by {
                lemma_rm_index(n as int, p as int, r, c);
            }
            assert(out@ =~~= sum);
        }
        out
    }

    /// Drains the pending chain, innermost node first, and materializes a
    /// genuinely row-major buffer: afterwards the buffer concretely holds
    /// the value the chain evaluated to, and re-finalizing is a no-op.
    pub fn finalize(&mut self)
        requires
            old(self).wf(),
            old(self).fits(),
        ensures
            final(self).wf(),
            final(self).fits(),
            final(self).drained(),
            final(self).is_row_major(),
            final(self)@ == old(self).eval_full(),
            final(self).eval_full() == final(self)@,
        decreases old(self).chain_height(),
    {
        let ob: Option<Box<Op>> = self.ops.take();
        let b = match ob {
            Option::Some(b) => b,
            Option::None => {
                self.reorder();
                return ;
            },
        };
        match *b {
            Op::Finalize => {
                self.reorder();
            },
            Op::Transpose(next) => {
                self.ops = Some(next);
                self.finalize();
                proof {
                    lemma_flip_view(self.data_spec(), self.rows(), self.cols(), true);
                    assert(self.shape_spec().1 * self.shape_spec().0 == self.shape_spec().0
                        * self.shape_spec().1) by (nonlinear_arith);
                }
                self.shape = (self.shape.1, self.shape.0);
                self.row_major = false;
                self.reorder();
            },
            Op::Multiply(mut rhs, next) => {
                self.ops = Some(next);
                self.finalize();
                rhs.finalize();
                let result = self.naive_mul(&rhs);
                self.shape = result.shape;
                self.data = result.data;
                self.row_major = true;
                self.ops = None;
            },
            Op::Add(mut rhs, next) => {
                self.ops = Some(next);
                self.finalize();
                rhs.finalize();
                let result = self.add_concrete(&rhs);
                self.shape = result.shape;
                self.data = result.data;
                self.row_major = true;
                self.ops = None;
            },
        }
    }

    /// Queues a deferred addition: the returned matrix finalizes to the sum
    /// of what the two operands finalize to, capturing `rhs` until then.
    /// Fails with a dimension error exactly when the operands' effective
    /// shapes differ, in which case nothing is queued.
    pub fn lazy_add(self, rhs: Mat2) -> (r: Result<Self, MatError>)
        requires
            self.wf(),
            rhs.wf(),
        ensures
            (rows_of(self.eval_full()) == rows_of(rhs.eval_full()) && cols_of(self.eval_full())
                == cols_of(rhs.eval_full())) <==> r is Ok,
            r matches Ok(m) ==> {
                &&& m.wf()
                &&& !m.chain_trivial()
                &&& m.eval_full() == mat_add(self.eval_full(), rhs.eval_full())
                &&& m@ == self@
                &&& (self.fits() && rhs.fits() && add_fits(self.eval_full(), rhs.eval_full())
                    ==> m.fits())
            },
            r is Err ==> r == Err::<Self, MatError>(MatError::DimensionError),
    {
        let s = self.effective_shape();
        let t = rhs.effective_shape();
        if s.0 != t.0 || s.1 != t.1 {
            return Err(MatError::DimensionError);
        }
        let inner: Box<Op> = match self.ops {
            Option::Some(op) => op,
            Option::None => Box::new(Op::Finalize),
        };
        proof {
            assert((*inner).eval(self@) == self.eval_full());
            assert((*inner).wf_for(self@));
            assert(self.fits() ==> (*inner).fits_for(self@));
        }
        let m = Mat2 {
            shape: self.shape,
            data: self.data,
            row_major: self.row_major,
            ops: Some(Box::new(Op::Add(rhs, inner))),
        };
        proof {
            assert(m@ == self@);
        }
        Ok(m)
    }

    /// Queues a deferred multiplication: the returned matrix finalizes to
    /// the product of what the two operands finalize to, capturing `rhs`
    /// until then.  Fails with a dimension error exactly when the effective
    /// inner dimensions differ, in which case nothing is queued.
    pub fn lazy_mul(self, rhs: Mat2) -> (r: Result<Self, MatError>)
        requires
            self.wf(),
            rhs.wf(),
        ensures
            (cols_of(self.eval_full()) == rows_of(rhs.eval_full())) <==> r is Ok,
            r matches Ok(m) ==> {
                &&& m.wf()
                &&& !m.chain_trivial()
                &&& m.eval_full() == mat_mul(self.eval_full(), rhs.eval_full())
                &&& m@ == self@
                &&& (self.fits() && rhs.fits() && mul_fits(self.eval_full(), rhs.eval_full())
                    ==> m.fits())
            },
            r is Err ==> r == Err::<Self, MatError>(MatError::DimensionError),
    {
        let s = self.effective_shape();
        let t = rhs.effective_shape();
        if s.1 != t.0 {
            return Err(MatError::DimensionError);
        }
        let inner: Box<Op> = match self.ops {
            Option::Some(op) => op,
            Option::None => Box::new(Op::Finalize),
        };
        proof {
            assert((*inner).eval(self@) == self.eval_full());
            assert((*inner).wf_for(self@));
            assert(self.fits() ==> (*inner).fits_for(self@));
        }
        let m = Mat2 {
            shape: self.shape,
            data: self.data,
            row_major: self.row_major,
            ops: Some(Box::new(Op::Multiply(rhs, inner))),
        };
        proof {
            assert(m@ == self@);
        }
        Ok(m)
    }

    /// Copies one logical row.  Fails with a bounds error when the index is
    /// outside the shape, and with a layout error on a column-major matrix:
    /// a contiguous row only exists when the physical layout matches
    /// logical row order, so finalize first.
    pub fn row(&self, index: usize) -> (r: Result<Vec<Element>, MatError>)
        requires
            self.base_wf(),
        ensures
            (index < self.rows() && self.is_row_major()) <==> r is Ok,
            index >= self.rows() ==> r == Err::<Vec<Element>, MatError>(MatError::BoundsError),
            index < self.rows() && !self.is_row_major() ==> r == Err::<Vec<Element>, MatError>(
                MatError::LayoutError,
            ),
            r matches Ok(v) ==> v@.len() == self.cols() && (forall|c: int|
                0 <= c < v@.len() ==> (#[trigger] v@[c]) as int == self@[index as int][c]),
    {
        if index >= self.shape.0 {
            return Err(MatError::BoundsError);
        }
        if !self.row_major {
            return Err(MatError::LayoutError);
        }
        let cols = self.shape.1;
        proof {
            lemma_rm_index(self.rows(), self.cols(), index as int, 0);
        }
        let left = index * cols;
        let mut v: Vec<Element> = Vec::new();
        let mut c: usize = 0;
        while c < cols
            invariant
                self.base_wf(),
                self.is_row_major(),
                index < self.rows(),
                cols == self.shape_spec().1,
                left == index * cols,
                c <= cols,
                v@.len() == c,
                forall|t: int| 0 <= t < c ==> (#[trigger] v@[t]) as int == self@[index as int][t],
            decreases cols - c,
        {
            proof {
                lemma_rm_index(self.rows(), self.cols(), index as int, c as int);
            }
            v.push(self.data[left + c]);
            c = c + 1;
        }
        Ok(v)
    }

    /// A fresh element iterator over this matrix, frozen to its current
    /// layout: elements come in logical row-major order.
    pub fn elements<'a>(&'a self) -> (r: ElementIterator<'a>)
        requires
            self.base_wf(),
        ensures
            r.wf(),
            r.pos() == 0,
            r.shape_spec() == self.shape_spec(),
            r.view_spec() == self@,
            r.len_spec() == self.rows() * self.cols(),
    {
        ElementIterator::from_mat(self)
    }

    /// A fresh coordinate iterator over this matrix's shape.
    pub fn indices(&self) -> (r: IndexIterator)
        requires
            self.base_wf(),
        ensures
            r.wf(),
            r.pos() == 0,
            r.shape_spec() == self.shape_spec(),
    {
        IndexIterator::from_shape(self.shape)
    }

    /// A fresh coordinate-and-element iterator over this matrix, frozen to
    /// its current layout.
    pub fn pairs<'a>(&'a self) -> (r: IndexedElementIterator<'a>)
        requires
            self.base_wf(),
        ensures
            r.wf(),
            r.pos() == 0,
            r.shape_spec() == self.shape_spec(),
            r.view_spec() == self@,
            r.len_spec() == self.rows() * self.cols(),
    {
        IndexedElementIterator::from_mat(self)
    }

    /// Eager addition.  Fails with a dimension error exactly when the shapes
    /// differ; otherwise the result is fresh row-major data holding the
    /// elementwise sum, whatever the operands' layouts.
    pub fn add(&self, rhs: &Mat2) -> (r: Result<Mat2, MatError>)
        requires
            self.base_wf(),
            rhs.base_wf(),
            self.shape_spec() == rhs.shape_spec() ==> add_fits(self@, rhs@),
        ensures
            self.shape_spec() == rhs.shape_spec() <==> r is Ok,
            r matches Ok(m) ==> {
                &&& m.wf()
                &&& m.fits()
                &&& m.chain_trivial()
                &&& m.is_row_major()
                &&& m.shape_spec() == self.shape_spec()
                &&& m@ == mat_add(self@, rhs@)
                &&& m.eval_full() == m@
            },
            r is Err ==> r == Err::<Mat2, MatError>(MatError::DimensionError),
    {
        if self.shape.0 == rhs.shape.0 && self.shape.1 == rhs.shape.1 {
            Ok(self.add_concrete(rhs))
        } else {
            Err(MatError::DimensionError)
        }
    }

    /// Eager multiplication.  Fails with a dimension error exactly when the
    /// inner dimensions differ; otherwise the result is fresh row-major data
    /// of shape `(self.rows, rhs.cols)`, whatever the operands' layouts.
    pub fn mul(&self, rhs: &Mat2) -> (r: Result<Mat2, MatError>)
        requires
            self.base_wf(),
            rhs.base_wf(),
            self.cols() == rhs.rows() ==> mul_fits(self@, rhs@),
        ensures
            self.cols() == rhs.rows() <==> r is Ok,
            r matches Ok(m) ==> {
                &&& m.wf()
                &&& m.fits()
                &&& m.chain_trivial()
                &&& m.is_row_major()
                &&& m.shape_spec() == ((self.shape_spec().0, rhs.shape_spec().1))
                &&& m@ == mat_mul(self@, rhs@)
                &&& m.eval_full() == m@
            },
            r is Err ==> r == Err::<Mat2, MatError>(MatError::DimensionError),
    {
        if self.shape.1 == rhs.shape.0 {
            Ok(self.naive_mul(rhs))
        } else {
            Err(MatError::DimensionError)
        }
    }
}

impl Clone for Mat2 {
    /// A clone holds the same shape, buffer, layout flag and a semantically
    /// identical pending chain: it has the same logical value, finalizes to
    /// the same matrix, and is well-formed exactly when the original is.
    fn clone(&self) -> (r: Self)
        ensures
            r.shape_spec() == self.shape_spec(),
            r.data_spec() == self.data_spec(),
            r.is_row_major() == self.is_row_major(),
            r@ == self@,
            r.chain_trivial() == self.chain_trivial(),
            r.drained() == self.drained(),
            r.chain_height() == self.chain_height(),
            r.eval_full() == self.eval_full(),
            r.wf() == self.wf(),
            r.fits() == self.fits(),
        decreases self.chain_height() + 1,
    {
        let data = slice_to_vec(self.data.as_slice());
        match &self.ops {
            Option::None => {
                let r = Mat2 { shape: self.shape, data, row_major: self.row_major, ops: None };
                proof {
                    assert(r@ == self@);
                }
                r
            },
            Option::Some(b) => {
                let c = (**b).clone();
                let r = Mat2 {
                    shape: self.shape,
                    data,
                    row_major: self.row_major,
                    ops: Some(Box::new(c)),
                };
                proof {
                    assert(r@ == self@);
                    assert(c.eval(self@) == (**b).eval(self@));
                    assert(c.wf_for(self@) == (**b).wf_for(self@));
                    assert(c.fits_for(self@) == (**b).fits_for(self@));
                }
                r
            },
        }
    }
}

impl PartialEq for Mat2 {
    /// Layout-independent equality: equal shapes and equal logical values,
    /// comparing element by element in logical order.  Neither operand is
    /// mutated or finalized; a pending chain is not evaluated.
    fn eq(&self, other: &Self) -> (r: bool) {
        if self.shape.0 != other.shape.0 || self.shape.1 != other.shape.1 {
            return false;
        }
        if self.shape.0 < 1 || self.shape.1 < 1 {
            return false;
        }
        let len = self.data.len();
        let olen = other.data.len();
        let n = match self.shape.0.checked_mul(self.shape.1) {
            Option::Some(n) => n,
            Option::None => {
                return false;
            },
        };
        if len != n || olen != n {
            return false;
        }
        let rows = self.shape.0;
        let cols = self.shape.1;
        let mut i: usize = 0;
        while i < rows
            invariant
                self.base_wf(),
                other.base_wf(),
                self.shape_spec() == other.shape_spec(),
                rows == self.shape_spec().0,
                cols == self.shape_spec().1,
                i <= rows,
                forall|r: int, c: int|
                    0 <= r < i && 0 <= c < cols ==> self@[r][c] == other@[r][c],
            decreases rows - i,
        {
            let mut j: usize = 0;
            while j < cols
                invariant
                    self.base_wf(),
                    other.base_wf(),
                    self.shape_spec() == other.shape_spec(),
                    rows == self.shape_spec().0,
                    cols == self.shape_spec().1,
                    i < rows,
                    j <= cols,
                    forall|r: int, c: int|
                        0 <= r < i && 0 <= c < cols ==> self@[r][c] == other@[r][c],
                    forall|c: int| 0 <= c < j ==> self@[i as int][c] == other@[i as int][c],
                decreases cols - j,
            {
                if self.at(i, j) != other.at(i, j) {
                    proof {
                        assert(self@[i as int][j as int] != other@[i as int][j as int]);
                        assert(self@ != other@);
                    }
                    return false;
                }
                j = j + 1;
            }
            i = i + 1;
        }
        proof {
            assert forall|r: int| 0 <= r < rows implies self@[r] =~= other@[r] by {}
            assert(self@ =~~= other@);
        }
        true
    }
}

impl vstd::std_specs::cmp::PartialEqSpecImpl for Mat2 {
    open spec fn obeys_eq_spec() -> bool {
        true
    }

    /// What `==` means: both operands well-formed with equal shapes and
    /// equal logical values, irrespective of physical layout.
    open spec fn eq_spec(&self, other: &Self) -> bool {
        &&& self.base_wf()
        &&& other.base_wf()
        &&& self.shape_spec() == other.shape_spec()
        &&& self@ == other@
    }
}

impl Eq for Mat2 {}

/// A vector of `n` copies of `x`.
fn filled(n: usize, x: Element) -> (r: Vec<Element>)
    ensures
        r@.len() == n,
        forall|t: int| 0 <= t < n ==> (#[trigger] r@[t]) == x,
{
    let mut v: Vec<Element> = Vec::new();
    let mut i: usize = 0;
    while i < n
        invariant
            i <= n,
            v@.len() == i,
            forall|t: int| 0 <= t < i ==> (#[trigger] v@[t]) == x,
        decreases n - i,
    {
        v.push(x);
        i = i + 1;
    }
    v
}

} // verus!
