use mat2::Element;
use mat2::Iter;
use mat2::Mat2;

#[test]
fn sanity() {
    assert_eq!(
        Mat2::I(2).unwrap(),
        Mat2::new((2, 2), vec![1, 0, 0, 1]).unwrap()
    );
}

#[test]
fn index() {
    let mat = Mat2::new((2, 2), vec![1, 0, 0, 1]).unwrap();
    assert_eq!(mat.row(1).unwrap(), [0 as Element, 1]);
    assert_eq!(mat.row(0).unwrap()[1], 0 as Element);
}

#[test]
fn transpose() {
    let mat1 = Mat2::I(2).unwrap();
    let mat2 = Mat2::I(2).unwrap();
    let mat3 = Mat2::new((3, 2), vec![1, 2, 3, 4, 5, 6]).unwrap();
    assert_eq!(mat1, mat2.T());
    let upper = mat3.get([0, 1]).unwrap();
    let transposed = mat3.T();
    assert_eq!(upper, transposed.get([1, 0]).unwrap());
}

#[test]
fn macro_rules() {
    let mat = Mat2::new(
        (3, 3),
        vec![
            1.0 as Element,
            0.0 as Element,
            0.0 as Element,
            0.0 as Element,
            1.0 as Element,
            0.0 as Element,
            0.0 as Element,
            0.0 as Element,
            1.0 as Element,
        ],
    )
    .unwrap();
    assert_eq!(mat, Mat2::I(3).unwrap());
}

#[allow(non_snake_case)]
#[test]
fn matmul() {
    let A = Mat2::new((3, 3), vec![6, 2, 4, -1, 4, 3, -2, 9, 3]).unwrap();
    let B = Mat2::new((3, 1), vec![4, -2, 1]).unwrap();
    let C: Mat2 = Mat2::new((3, 1), vec![24, -9, -23]).unwrap();

    assert_eq!(A.mul(&B).unwrap(), C);
}

#[test]
fn iter() {
    let rows = [[1 as Element, 0, 0], [0, 1, 0], [0, 0, 1]];
    let mat = Mat2::I(3).unwrap();
    let mut pairs = mat.pairs();
    while let Some((i, e)) = pairs.next() {
        assert_eq!(e, rows[i[0]][i[1]]);
    }
    let mut transposed = mat.T();
    transposed.finalize();
    let mut it = Iter::from_mat(&transposed).unwrap();
    let mut i = 0;
    while let Some(row) = it.next() {
        assert_eq!(row, rows[i]);
        i += 1;
    }
    assert_eq!(i, 3);
}
