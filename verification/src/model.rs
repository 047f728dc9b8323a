//! The mathematical model: logical matrices as sequences of rows of
//! unbounded integers, together with the spec-level matrix operations
//! that the executable code is verified against.

use vstd::prelude::*;

verus! {

/// The element type stored by every matrix.
pub type Element = i32;

/// A pair of dimensions: (rows, columns).
pub type Shape = (usize, usize);

/// The logical value of a matrix: a sequence of rows, each row a sequence
/// of entries, in mathematical (unbounded) integers.
pub type MatView = Seq<Seq<int>>;

/// The number of rows of a logical matrix.
pub open spec fn rows_of(v: MatView) -> int {
    v.len() as int
}

/// The number of columns of a logical matrix (the length of its first row).
pub open spec fn cols_of(v: MatView) -> int {
    if v.len() > 0 {
        v[0].len() as int
    } else {
        0
    }
}

/// `v` is a proper `rows` by `cols` matrix: at least one row, at least one
/// column, and every row of the same length.
pub open spec fn is_matrix_of(v: MatView, rows: int, cols: int) -> bool {
    &&& v.len() == rows
    &&& rows >= 1
    &&& cols >= 1
    &&& forall|r: int| 0 <= r < rows ==> (#[trigger] v[r]).len() == cols
}

/// `v` is a proper matrix of its own dimensions.
pub open spec fn is_matrix(v: MatView) -> bool {
    is_matrix_of(v, rows_of(v), cols_of(v))
}

/// The logical matrix described by a flat buffer under the given shape and
/// physical layout.  Row-major: logical `[r, c]` lives at offset `r*cols + c`.
/// Column-major: the buffer holds the untransposed data, so logical `[r, c]`
/// lives at offset `c*rows + r`.
pub open spec fn view_of(data: Seq<Element>, rows: int, cols: int, row_major: bool) -> MatView {
    Seq::new(
        rows as nat,
        |r: int|
            Seq::new(
                cols as nat,
                |c: int|
                    if row_major {
                        data[r * cols + c] as int
                    } else {
                        data[c * rows + r] as int
                    },
            ),
    )
}

/// The physical offset read for logical walk index `i` of a column-major
/// buffer: logical position `(i / cols, i % cols)` lives at offset
/// `(i % cols) * rows + i / cols`.
pub open spec fn col_major_offset(rows: int, cols: int, i: int) -> int {
    (i % cols) * rows + i / cols
}

/// A shape a location iterator can walk: positive dimensions whose product
/// fits in `usize`.
pub open spec fn loc_shape_wf(shape: Shape) -> bool {
    shape.0 >= 1 && shape.1 >= 1 && shape.0 * shape.1 <= usize::MAX
}

/// The transpose of a logical matrix.
pub open spec fn mat_transpose(v: MatView) -> MatView {
    Seq::new(cols_of(v) as nat, |r: int| Seq::new(rows_of(v) as nat, |c: int| v[c][r]))
}

/// Elementwise sum of two logical matrices of equal dimensions.
pub open spec fn mat_add(a: MatView, b: MatView) -> MatView {
    Seq::new(a.len(), |r: int| Seq::new(a[r].len() as nat, |c: int| a[r][c] + b[r][c]))
}

/// The `j`-th column of a logical matrix, as a sequence.
pub open spec fn mat_col(v: MatView, j: int) -> Seq<int> {
    Seq::new(v.len(), |k: int| v[k][j])
}

/// Sum of the first `k` products of corresponding entries of `x` and `y`.
pub open spec fn dot_prefix(x: Seq<int>, y: Seq<int>, k: int) -> int
    decreases k,
{
    if k <= 0 {
        0
    } else {
        dot_prefix(x, y, k - 1) + x[k - 1] * y[k - 1]
    }
}

/// The matrix product of `a` (n by m) and `b` (m by p): entry `[i, j]` is the
/// dot product of row `i` of `a` with column `j` of `b`.
pub open spec fn mat_mul(a: MatView, b: MatView) -> MatView {
    Seq::new(
        rows_of(a) as nat,
        |i: int| Seq::new(cols_of(b) as nat, |j: int| dot_prefix(a[i], mat_col(b, j), cols_of(a))),
    )
}

/// Transposing a proper matrix gives a proper matrix with swapped dimensions.
pub proof fn lemma_transpose_is_matrix(v: MatView)
    requires
        is_matrix(v),
    ensures
        is_matrix_of(mat_transpose(v), cols_of(v), rows_of(v)),
{
}

/// Adding proper matrices of equal dimensions gives a proper matrix of the
/// same dimensions.
pub proof fn lemma_add_is_matrix(a: MatView, b: MatView)
    requires
        is_matrix(a),
        is_matrix(b),
        rows_of(a) == rows_of(b),
        cols_of(a) == cols_of(b),
    ensures
        is_matrix_of(mat_add(a, b), rows_of(a), cols_of(a)),
{
}

/// Multiplying proper matrices with compatible inner dimensions gives a
/// proper matrix of the outer dimensions.
pub proof fn lemma_mul_is_matrix(a: MatView, b: MatView)
    requires
        is_matrix(a),
        is_matrix(b),
        cols_of(a) == rows_of(b),
    ensures
        is_matrix_of(mat_mul(a, b), rows_of(a), cols_of(b)),
{
}

/// An all-`x` matrix of the given dimensions.
pub open spec fn const_view(rows: int, cols: int, x: int) -> MatView {
    Seq::new(rows as nat, |r: int| Seq::new(cols as nat, |c: int| x))
}

/// The n by n identity: 1 on the main diagonal, 0 elsewhere.
pub open spec fn id_view(n: int) -> MatView {
    Seq::new(n as nat, |i: int| Seq::new(n as nat, |j: int| if i == j { 1int } else { 0int }))
}

/// `x` fits in the element type.
pub open spec fn in_range(x: int) -> bool {
    i32::MIN <= x <= i32::MAX
}

/// Every entry of the elementwise sum of `a` and `b` fits in the element type.
pub open spec fn add_fits(a: MatView, b: MatView) -> bool {
    forall|r: int, c: int|
        0 <= r < rows_of(a) && 0 <= c < cols_of(a) ==> in_range(a[r][c] + b[r][c])
}

/// Walking a column-major buffer never leaves the buffer: the offset of every
/// walk index below `rows * cols` is itself below `rows * cols`.
pub proof fn lemma_col_major_offset_in_range(rows: int, cols: int, i: int)
    requires
        rows >= 1,
        cols >= 1,
        0 <= i < rows * cols,
    ensures
        0 <= col_major_offset(rows, cols, i) < rows * cols,
        0 <= i / cols < rows,
        0 <= i % cols < cols,
{
    assert(0 <= i % cols < cols && 0 <= i / cols && (i / cols) * cols + i % cols == i)
        by (nonlinear_arith)
        requires
            cols >= 1,
            0 <= i,
    ;
    assert(i / cols < rows) by (nonlinear_arith)
        requires
            cols >= 1,
            rows >= 1,
            i < rows * cols,
            (i / cols) * cols + i % cols == i,
            0 <= i % cols,
            0 <= i / cols,
    ;
    assert((i % cols) * rows + i / cols < rows * cols) by (nonlinear_arith)
        requires
            0 <= i % cols < cols,
            0 <= i / cols < rows,
    ;
}

/// The column-major offset map is injective on a full walk: two distinct walk
/// indices are never sent to the same physical offset, so a complete walk
/// visits all `rows * cols` offsets exactly once.
pub proof fn lemma_col_major_offset_injective(rows: int, cols: int, i: int, j: int)
    requires
        rows >= 1,
        cols >= 1,
        0 <= i < rows * cols,
        0 <= j < rows * cols,
        i != j,
    ensures
        col_major_offset(rows, cols, i) != col_major_offset(rows, cols, j),
{
    assert((i % cols) * rows + i / cols != (j % cols) * rows + j / cols) by (nonlinear_arith)
        requires
            rows >= 1,
            cols >= 1,
            0 <= i < rows * cols,
            0 <= j < rows * cols,
            i != j,
    ;
}

/// A row-major offset stays inside the buffer and its coordinate can be
/// recovered by division and remainder.
pub proof fn lemma_rm_index(rows: int, cols: int, r: int, c: int)
    requires
        0 <= r < rows,
        0 <= c < cols,
    ensures
        0 <= r * cols + c < rows * cols,
        (r * cols + c) / cols == r,
        (r * cols + c) % cols == c,
{
    assert(0 <= r * cols + c < rows * cols && (r * cols + c) / cols == r && (r * cols + c) % cols
        == c) by (nonlinear_arith)
        requires
            0 <= r < rows,
            0 <= c < cols,
    ;
}

/// Reinterpreting a buffer with swapped dimensions and flipped layout flag
/// yields exactly the transpose of the original logical matrix: the O(1)
/// transposition trick.
pub proof fn lemma_flip_view(data: Seq<Element>, rows: int, cols: int, row_major: bool)
    requires
        rows >= 1,
        cols >= 1,
        data.len() == rows * cols,
    ensures
        view_of(data, cols, rows, !row_major) == mat_transpose(view_of(data, rows, cols, row_major)),
{
    let v = view_of(data, rows, cols, row_major);
    let f = view_of(data, cols, rows, !row_major);
    let t = mat_transpose(v);
    assert(rows_of(v) == rows && cols_of(v) == cols);
    assert forall|x: int, y: int| 0 <= x < cols && 0 <= y < rows implies f[x][y] == t[x][y] by {
        assert(t[x][y] == v[y][x]);
    }
    assert(f =~~= t);
}

/// Multiplying `a` by `b` with element-typed accumulation never overflows:
/// every pairwise product and every prefix of every dot product fits in the
/// element type, and the result buffer length fits in `usize`.
pub open spec fn mul_fits(a: MatView, b: MatView) -> bool {
    &&& forall|i: int, j: int, k: int|
        0 <= i < rows_of(a) && 0 <= j < cols_of(b) && 0 <= k < cols_of(a) ==> {
            &&& in_range(#[trigger] (a[i][k] * mat_col(b, j)[k]))
            &&& in_range(dot_prefix(a[i], mat_col(b, j), k + 1))
        }
    &&& rows_of(a) * cols_of(b) <= usize::MAX
}

} // verus!
