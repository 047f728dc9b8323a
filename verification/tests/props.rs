use mat2::MatError;
use mat2::Mat2;

#[test]
fn zeroes_all_zero() {
    let m = Mat2::zeroes((2, 3)).unwrap();
    assert_eq!(m.shape(), (2, 3));
    for r in 0..2 {
        for c in 0..3 {
            assert_eq!(m.get([r, c]).unwrap(), 0);
        }
    }
}

#[test]
fn zeroes_rejects_empty_dimension() {
    assert_eq!(Mat2::zeroes((0, 5)).unwrap_err(), MatError::DimensionError);
    assert_eq!(Mat2::zeroes((5, 0)).unwrap_err(), MatError::DimensionError);
}

#[test]
fn identity_values() {
    let m = Mat2::I(3).unwrap();
    for r in 0..3 {
        for c in 0..3 {
            let expected = if r == c { 1 } else { 0 };
            assert_eq!(m.get([r, c]).unwrap(), expected);
        }
    }
}

#[test]
fn identity_rejects_zero_size() {
    assert_eq!(Mat2::I(0).unwrap_err(), MatError::DimensionError);
}

#[test]
fn new_rejects_wrong_buffer_length() {
    assert_eq!(
        Mat2::new((2, 2), vec![1, 2, 3]).unwrap_err(),
        MatError::DimensionError
    );
    assert_eq!(
        Mat2::new((0, 3), vec![]).unwrap_err(),
        MatError::DimensionError
    );
}

#[test]
fn transpose_involution() {
    let m = Mat2::new((2, 3), vec![1, 2, 3, 4, 5, 6]).unwrap();
    let back = Mat2::new((2, 3), vec![1, 2, 3, 4, 5, 6]).unwrap().T().T();
    assert_eq!(m, back);
}

#[test]
fn transpose_identity_unchanged() {
    assert_eq!(Mat2::I(4).unwrap().T(), Mat2::I(4).unwrap());
}

#[test]
fn element_access_layout_independent() {
    let m = Mat2::new((2, 3), vec![1, 2, 3, 4, 5, 6]).unwrap();
    let t = Mat2::new((2, 3), vec![1, 2, 3, 4, 5, 6]).unwrap().T();
    for r in 0..2 {
        for c in 0..3 {
            assert_eq!(m.get([r, c]).unwrap(), t.get([c, r]).unwrap());
        }
    }
}

#[test]
fn equality_layout_independent() {
    // The same logical 2x3 matrix, once as a row-major buffer and once as
    // the column-major (transposed) view of the swapped buffer.
    let row_major = Mat2::new((2, 3), vec![1, 2, 3, 4, 5, 6]).unwrap();
    let col_major = Mat2::new((3, 2), vec![1, 4, 2, 5, 3, 6]).unwrap().T();
    assert!(!col_major.row_major());
    assert_eq!(row_major, col_major);
    assert_eq!(col_major, row_major);
}

#[test]
fn add_commutative() {
    let a = Mat2::new((2, 2), vec![1, 2, 3, 4]).unwrap();
    let b = Mat2::new((2, 2), vec![10, 20, 30, 40]).unwrap();
    assert_eq!(a.add(&b).unwrap(), b.add(&a).unwrap());
    assert_eq!(
        a.add(&b).unwrap(),
        Mat2::new((2, 2), vec![11, 22, 33, 44]).unwrap()
    );
}

#[test]
fn add_rejects_shape_mismatch() {
    let a = Mat2::new((2, 2), vec![1, 2, 3, 4]).unwrap();
    let b = Mat2::new((2, 3), vec![1, 2, 3, 4, 5, 6]).unwrap();
    assert_eq!(a.add(&b).unwrap_err(), MatError::DimensionError);
}

#[test]
fn mul_rejects_inner_dimension_mismatch() {
    let a = Mat2::new((2, 3), vec![1, 2, 3, 4, 5, 6]).unwrap();
    let b = Mat2::new((2, 2), vec![1, 2, 3, 4]).unwrap();
    assert_eq!(a.mul(&b).unwrap_err(), MatError::DimensionError);
}

#[test]
fn transpose_changes_shape_and_entries() {
    let original = Mat2::new((3, 2), vec![1, 2, 3, 4, 5, 6]).unwrap();
    let transposed = Mat2::new((3, 2), vec![1, 2, 3, 4, 5, 6]).unwrap().T();
    assert_ne!(original, transposed);
    assert_eq!(transposed.shape(), (2, 3));
    assert_eq!(
        transposed.get([0, 1]).unwrap(),
        original.get([1, 0]).unwrap()
    );
}

#[test]
fn chain_equivalence() {
    // Lazily composed transpose-then-multiply-then-add ...
    let mut lazy = Mat2::new((2, 2), vec![1, 2, 3, 4])
        .unwrap()
        .T()
        .lazy_mul(Mat2::new((2, 2), vec![5, 6, 7, 8]).unwrap())
        .unwrap()
        .lazy_add(Mat2::new((2, 2), vec![9, 10, 11, 12]).unwrap())
        .unwrap();
    lazy.finalize();

    // ... equals the same steps performed eagerly in the same order.
    let mut t = Mat2::new((2, 2), vec![1, 2, 3, 4]).unwrap().T();
    t.finalize();
    let p = t
        .mul(&Mat2::new((2, 2), vec![5, 6, 7, 8]).unwrap())
        .unwrap();
    let eager = p
        .add(&Mat2::new((2, 2), vec![9, 10, 11, 12]).unwrap())
        .unwrap();

    assert_eq!(lazy, eager);
    assert_eq!(
        eager,
        Mat2::new((2, 2), vec![35, 40, 49, 56]).unwrap()
    );
}

#[test]
fn lazy_add_rejects_shape_mismatch() {
    let a = Mat2::new((2, 2), vec![1, 2, 3, 4]).unwrap();
    let b = Mat2::new((2, 3), vec![1, 2, 3, 4, 5, 6]).unwrap();
    assert_eq!(a.lazy_add(b).unwrap_err(), MatError::DimensionError);
}

#[test]
fn lazy_mul_rejects_inner_dimension_mismatch() {
    // After a queued transpose the effective shape is what counts: a 2x3
    // transposed is effectively 3x2, which cannot be multiplied by a 3x1.
    let a = Mat2::new((2, 3), vec![1, 2, 3, 4, 5, 6]).unwrap().T();
    let b = Mat2::new((3, 1), vec![1, 2, 3]).unwrap();
    assert_eq!(a.lazy_mul(b).unwrap_err(), MatError::DimensionError);
}

#[test]
fn lazy_mul_uses_effective_shape() {
    let a = Mat2::new((3, 2), vec![1, 2, 3, 4, 5, 6]).unwrap().T();
    assert_eq!(a.effective_shape(), (2, 3));
    let b = Mat2::new((3, 1), vec![1, 1, 1]).unwrap();
    let mut m = a.lazy_mul(b).unwrap();
    m.finalize();
    assert_eq!(m, Mat2::new((2, 1), vec![9, 12]).unwrap());
}

#[test]
fn finalize_materializes_row_major() {
    let mut t = Mat2::new((2, 3), vec![1, 2, 3, 4, 5, 6]).unwrap().T();
    assert!(!t.row_major());
    t.finalize();
    assert!(t.row_major());
    assert_eq!(t.shape(), (3, 2));
    assert_eq!(t.raw().to_vec(), vec![1, 4, 2, 5, 3, 6]);
    // Re-finalizing a concrete matrix changes nothing.
    let before = t.raw().to_vec();
    t.finalize();
    assert_eq!(t.raw().to_vec(), before);
}

#[test]
fn set_writes_through_layout() {
    let mut m = Mat2::new((2, 2), vec![1, 2, 3, 4]).unwrap().T();
    m.set([0, 1], 9).unwrap();
    assert_eq!(m.get([0, 1]).unwrap(), 9);
    assert_eq!(m.set([5, 0], 1).unwrap_err(), MatError::BoundsError);
    assert_eq!(m.get([0, 1]).unwrap(), 9);
}

#[test]
fn get_rejects_out_of_bounds() {
    let m = Mat2::new((2, 2), vec![1, 2, 3, 4]).unwrap();
    assert_eq!(m.get([2, 0]).unwrap_err(), MatError::BoundsError);
    assert_eq!(m.get([0, 2]).unwrap_err(), MatError::BoundsError);
}

#[test]
fn row_rejects_column_major_and_bounds() {
    let m = Mat2::new((2, 2), vec![1, 2, 3, 4]).unwrap().T();
    assert_eq!(m.row(0).unwrap_err(), MatError::LayoutError);
    assert_eq!(m.row(7).unwrap_err(), MatError::BoundsError);
}

#[test]
fn reshape_keeps_data() {
    let m = Mat2::new((2, 3), vec![1, 2, 3, 4, 5, 6]).unwrap();
    let r = m.reshape((3, 2)).unwrap();
    assert_eq!(r.shape(), (3, 2));
    assert_eq!(r.raw().to_vec(), vec![1, 2, 3, 4, 5, 6]);
    assert_eq!(r.get([1, 0]).unwrap(), 3);
}

#[test]
fn reshape_rejects_wrong_size() {
    let m = Mat2::new((2, 3), vec![1, 2, 3, 4, 5, 6]).unwrap();
    assert_eq!(m.reshape((2, 2)).unwrap_err(), MatError::DimensionError);
}

#[test]
fn idx2loc_row_major_offset() {
    assert_eq!(Mat2::idx2loc(&[0, 0], 4), 0);
    assert_eq!(Mat2::idx2loc(&[2, 3], 4), 11);
}

#[test]
fn validate_checks_shape_and_length() {
    assert!(Mat2::validate(&(2, 2), &vec![1, 2, 3, 4]).is_ok());
    assert_eq!(
        Mat2::validate(&(2, 2), &vec![1, 2, 3]).unwrap_err(),
        MatError::DimensionError
    );
    assert_eq!(
        Mat2::validate(&(0, 2), &vec![]).unwrap_err(),
        MatError::DimensionError
    );
    assert!(Mat2::validate_shape(&(1, 1)).is_ok());
    assert_eq!(
        Mat2::validate_shape(&(1, 0)).unwrap_err(),
        MatError::DimensionError
    );
}

#[test]
fn new_from_arrays_flattens_rows() {
    let m = Mat2::new_from_arrays([[1, 2], [3, 4], [5, 6]]).unwrap();
    assert_eq!(m.shape(), (3, 2));
    assert_eq!(m, Mat2::new((3, 2), vec![1, 2, 3, 4, 5, 6]).unwrap());
    assert!(m.row_major());
}

#[test]
fn new_from_arrays_rejects_empty() {
    let e: Result<Mat2, MatError> = Mat2::new_from_arrays::<2, 0>([]);
    assert_eq!(e.unwrap_err(), MatError::DimensionError);
}

#[test]
fn transpose_involution_with_pending_chain() {
    // Transpose stays an involution even while work is deferred: the queued
    // chain is preserved, the anchor is untouched, and comparison still
    // reads the same logical value.
    let a = Mat2::new((2, 2), vec![1, 2, 3, 4]).unwrap();
    let b = Mat2::new((2, 2), vec![5, 6, 7, 8]).unwrap();
    let m = a.lazy_add(b).unwrap();
    let back = m.clone().T().T();
    assert_eq!(back, m);
}

#[test]
fn clone_preserves_value_and_layout() {
    let m = Mat2::new((2, 3), vec![1, 2, 3, 4, 5, 6]).unwrap().T();
    let c = m.clone();
    assert_eq!(c, m);
    assert_eq!(c.shape(), m.shape());
    assert_eq!(c.row_major(), m.row_major());
    assert_eq!(c.raw().to_vec(), m.raw().to_vec());
}

#[test]
fn clone_preserves_pending_chain() {
    let a = Mat2::new((2, 2), vec![1, 2, 3, 4]).unwrap().T();
    let b = Mat2::new((2, 2), vec![5, 6, 7, 8]).unwrap();
    let mut m = a.lazy_mul(b).unwrap();
    let mut c = m.clone();
    m.finalize();
    c.finalize();
    assert_eq!(c, m);
}

#[test]
fn set_keeps_pending_chain() {
    // Writing to the anchor of a deferred chain changes the finalized value
    // accordingly: the chain itself is untouched.
    let a = Mat2::new((2, 2), vec![1, 2, 3, 4]).unwrap();
    let b = Mat2::new((2, 2), vec![10, 20, 30, 40]).unwrap();
    let mut m = a.lazy_add(b).unwrap();
    m.set([0, 0], 100).unwrap();
    m.finalize();
    assert_eq!(m, Mat2::new((2, 2), vec![110, 22, 33, 44]).unwrap());
}
