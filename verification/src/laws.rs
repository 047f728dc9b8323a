//! General laws of the matrix algebra, proved once and for all inputs:
//! transposition is an involution, element access and equality are
//! layout-independent, and addition is commutative.

use vstd::prelude::*;
use vstd::std_specs::cmp::PartialEqSpec;

use crate::mat2::Mat2;
use crate::model::Element;
use crate::model::MatView;
use crate::model::cols_of;
use crate::model::id_view;
use crate::model::is_matrix;
use crate::model::lemma_flip_view;
use crate::model::lemma_transpose_is_matrix;
use crate::model::mat_add;
use crate::model::mat_transpose;
use crate::model::rows_of;
use crate::model::view_of;

verus! {

/// Transpose is an involution: transposing any proper matrix twice
/// restores it exactly.
pub proof fn lemma_transpose_involution(v: MatView)
    requires
        is_matrix(v),
    ensures
        mat_transpose(mat_transpose(v)) == v,
{
    lemma_transpose_is_matrix(v);
    let t = mat_transpose(v);
    let tt = mat_transpose(t);
    assert forall|r: int, c: int|
        0 <= r < rows_of(v) && 0 <= c < cols_of(v) implies tt[r][c] == v[r][c] by {
        assert(t[c][r] == v[r][c]);
    }
    assert(tt =~~= v);
}

/// The identity matrix is symmetric: transposing it changes nothing.
pub proof fn lemma_transpose_identity(n: int)
    requires
        n >= 1,
    ensures
        mat_transpose(id_view(n)) == id_view(n),
{
    let v = id_view(n);
    let t = mat_transpose(v);
    assert forall|r: int, c: int| 0 <= r < n && 0 <= c < n implies t[r][c] == v[r][c] by {
        assert(t[r][c] == v[c][r]);
    }
    assert(t =~~= v);
}

/// Element access is layout-independent: entry `[c, r]` of the transpose is
/// entry `[r, c]` of the original, for every in-bounds coordinate.
pub proof fn lemma_transpose_entry(v: MatView, r: int, c: int)
    requires
        is_matrix(v),
        0 <= r < rows_of(v),
        0 <= c < cols_of(v),
    ensures
        mat_transpose(v)[c][r] == v[r][c],
{
}

/// Equality is layout-independent: two well-formed matrices compare equal
/// exactly when their logical values are equal, whatever their physical
/// layouts and however they were constructed.
pub proof fn lemma_eq_layout_independent(a: Mat2, b: Mat2)
    requires
        a.base_wf(),
        b.base_wf(),
    ensures
        a.eq_spec(&b) <==> a@ == b@,
{
    if a@ == b@ {
        a.lemma_base_is_matrix();
        b.lemma_base_is_matrix();
        assert(a.rows() == rows_of(a@) && b.rows() == rows_of(b@));
        assert(a.cols() == cols_of(a@) && b.cols() == cols_of(b@));
        assert(a.shape_spec() == b.shape_spec());
    }
}

/// The same buffer holds the same logical matrix in both layouts, up to
/// transposition with swapped dimensions: reading it column-major is
/// reading it row-major transposed.
pub proof fn lemma_layouts_same_value(data: Seq<Element>, rows: int, cols: int)
    requires
        rows >= 1,
        cols >= 1,
        data.len() == rows * cols,
    ensures
        view_of(data, rows, cols, false) == mat_transpose(view_of(data, cols, rows, true)),
{
    assert(cols * rows == rows * cols) by (nonlinear_arith);
    lemma_flip_view(data, cols, rows, true);
}

/// Addition is commutative: summing elementwise in either order gives the
/// same matrix, for all equal-shape operands.
pub proof fn lemma_add_comm(a: MatView, b: MatView)
    requires
        is_matrix(a),
        is_matrix(b),
        rows_of(a) == rows_of(b),
        cols_of(a) == cols_of(b),
    ensures
        mat_add(a, b) == mat_add(b, a),
{
    let x = mat_add(a, b);
    let y = mat_add(b, a);
    assert forall|r: int, c: int|
        0 <= r < rows_of(a) && 0 <= c < cols_of(a) implies x[r][c] == y[r][c] by {}
    assert(x =~~= y);
}

} // verus!
