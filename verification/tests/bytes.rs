use mat2::Mat;

#[test]
fn byte_zeroes_fills_product() {
    let m = Mat::zeroes(&[2, 3]);
    assert_eq!(m.shape, vec![2, 3]);
    assert_eq!(m.data, vec![0; 6]);
}

#[test]
fn byte_zeroes_rank_three() {
    let m = Mat::zeroes(&[2, 3, 4]);
    assert_eq!(m.data.len(), 24);
    assert!(m.data.iter().all(|e| *e == 0));
}

#[test]
fn byte_zeroes_empty_shape_is_scalar() {
    let m = Mat::zeroes(&[]);
    assert_eq!(m.shape, Vec::<u8>::new());
    assert_eq!(m.data, vec![0]);
}

#[test]
fn byte_zero_dimension_empties_buffer() {
    let m = Mat::zeroes(&[3, 0, 5]);
    assert_eq!(m.data.len(), 0);
}

#[test]
fn byte_add_elementwise() {
    let a = Mat {
        shape: vec![2, 2],
        data: vec![1, 2, 3, 4],
    };
    let b = Mat {
        shape: vec![2, 2],
        data: vec![10, 20, 30, 40],
    };
    let c = a.add(&b);
    assert_eq!(c.shape, vec![2, 2]);
    assert_eq!(c.data, vec![11, 22, 33, 44]);
}

#[test]
fn byte_add_zero_is_identity() {
    let z = Mat::zeroes(&[2, 2]);
    let a = Mat {
        shape: vec![2, 2],
        data: vec![5, 6, 7, 8],
    };
    let c = a.add(&z);
    assert_eq!(c.data, a.data);
}
