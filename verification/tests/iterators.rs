use mat2::ColumnIterator;
use mat2::ElementIterator;
use mat2::IndexIterator;
use mat2::Iter;
use mat2::LocIter;
use mat2::Mat2;
use mat2::MatIterator2;
use mat2::RowIterator;

#[test]
fn row_iterator_is_identity() {
    let mut it = RowIterator::from_shape((2, 3));
    assert_eq!(it.row_size(), 3);
    assert_eq!(it.len(), 6);
    for expected in 0..6 {
        assert_eq!(it.next(), Some(expected));
    }
    assert_eq!(it.next(), None);
}

#[test]
fn column_iterator_offsets() {
    // Walking a 2x3 column-major buffer in logical row-major order reads
    // offsets (i % 3) * 2 + i / 3.
    let mut it = ColumnIterator::from_shape((2, 3));
    assert_eq!(it.row_size(), 3);
    assert_eq!(it.len(), 6);
    let mut seen = Vec::new();
    while let Some(off) = it.next() {
        seen.push(off);
    }
    assert_eq!(seen, vec![0, 2, 4, 1, 3, 5]);
    // A full walk visits every offset exactly once: a permutation.
    let mut sorted = seen.clone();
    sorted.sort();
    assert_eq!(sorted, vec![0, 1, 2, 3, 4, 5]);
}

#[test]
fn loc_iter_dispatches_by_layout() {
    let mut row = LocIter::for_layout((2, 2), true);
    assert_eq!(row.next(), Some(0));
    assert_eq!(row.next(), Some(1));
    let mut col = LocIter::for_layout((2, 2), false);
    assert_eq!(col.next(), Some(0));
    assert_eq!(col.next(), Some(2));
    assert_eq!(col.row_size(), 2);
    assert_eq!(col.len(), 4);
}

#[test]
fn loc_iter_advance_and_hint() {
    let mut it = LocIter::for_layout((2, 3), false);
    assert_eq!(it.size_hint(), (6, Some(6)));
    assert_eq!(it.advance_by(4), Ok(()));
    assert_eq!(it.size_hint(), (2, Some(2)));
    assert_eq!(it.position(), 4);
    assert_eq!(it.advance_by(5), Err(3));
    assert_eq!(it.size_hint(), (0, Some(0)));
}

#[test]
fn index_iterator_coordinates() {
    let mut it = IndexIterator::from_shape((2, 2));
    assert_eq!(it.row_size(), 2);
    assert_eq!(it.len(), 4);
    assert_eq!(it.next(), Some([0, 0]));
    assert_eq!(it.next(), Some([0, 1]));
    assert_eq!(it.next(), Some([1, 0]));
    assert_eq!(it.next(), Some([1, 1]));
    assert_eq!(it.next(), None);
}

#[test]
fn index_iterator_hint_and_advance() {
    let mut it = IndexIterator::from_shape((3, 3));
    assert_eq!(it.size_hint(), (9, Some(9)));
    assert_eq!(it.advance_by(7), Ok(()));
    assert_eq!(it.size_hint(), (2, Some(2)));
    assert_eq!(it.next(), Some([2, 1]));
    assert_eq!(it.advance_by(2), Err(1));
    assert_eq!(it.next(), None);
}

#[test]
fn index_iterator_max_is_bottom_right() {
    let it = IndexIterator::from_shape((4, 7));
    assert_eq!(it.max(), Some([3, 6]));
}

#[test]
fn elements_in_logical_order_row_major() {
    let m = Mat2::new((2, 3), vec![1, 2, 3, 4, 5, 6]).unwrap();
    let mut it = m.elements();
    let mut collected = Vec::new();
    while let Some(e) = it.next() {
        collected.push(e);
    }
    assert_eq!(collected, vec![1, 2, 3, 4, 5, 6]);
}

#[test]
fn elements_in_logical_order_column_major() {
    // A transposed matrix iterates in its logical (post-transpose) row-major
    // order, matching coordinate access at [k / cols, k % cols].
    let m = Mat2::new((2, 3), vec![1, 2, 3, 4, 5, 6]).unwrap().T();
    let (_, cols) = m.shape();
    let mut it = m.elements();
    let mut k = 0;
    while let Some(e) = it.next() {
        assert_eq!(e, m.get([k / cols, k % cols]).unwrap());
        k += 1;
    }
    assert_eq!(k, 6);
    let mut again = ElementIterator::from_mat(&m);
    let mut collected = Vec::new();
    while let Some(e) = again.next() {
        collected.push(e);
    }
    assert_eq!(collected, vec![1, 4, 2, 5, 3, 6]);
}

#[test]
fn pairs_couple_coordinates_with_elements() {
    let m = Mat2::new((2, 2), vec![7, 8, 9, 10]).unwrap().T();
    let mut it = m.pairs();
    let mut seen = Vec::new();
    while let Some((rc, e)) = it.next() {
        assert_eq!(e, m.get(rc).unwrap());
        seen.push((rc, e));
    }
    assert_eq!(
        seen,
        vec![
            ([0, 0], 7),
            ([0, 1], 9),
            ([1, 0], 8),
            ([1, 1], 10)
        ]
    );
}

#[test]
fn pairs_into_elements_drops_coordinates() {
    let m = Mat2::new((1, 3), vec![4, 5, 6]).unwrap();
    let mut it = m.pairs().into_elements();
    assert_eq!(it.next(), Some(4));
    assert_eq!(it.next(), Some(5));
    assert_eq!(it.next(), Some(6));
    assert_eq!(it.next(), None);
}

#[test]
fn element_iterator_hint_and_advance() {
    let m = Mat2::new((2, 3), vec![1, 2, 3, 4, 5, 6]).unwrap();
    let mut it = m.elements();
    assert_eq!(it.size_hint(), (6, Some(6)));
    assert_eq!(it.advance_by(4), Ok(()));
    assert_eq!(it.next(), Some(5));
    assert_eq!(it.advance_by(9), Err(8));
    assert_eq!(it.next(), None);
}

#[test]
fn mat_iterator2_walks_either_layout() {
    let row_major = Mat2::new((2, 2), vec![1, 2, 3, 4]).unwrap();
    let mut it = MatIterator2::from_mat(&row_major);
    let mut collected = Vec::new();
    while let Some(e) = it.next() {
        collected.push(e);
    }
    assert_eq!(collected, vec![1, 2, 3, 4]);

    let col_major = Mat2::new((2, 2), vec![1, 2, 3, 4]).unwrap().T();
    let mut it2 = MatIterator2::from_mat(&col_major);
    let mut collected2 = Vec::new();
    while let Some(e) = it2.next() {
        collected2.push(e);
    }
    assert_eq!(collected2, vec![1, 3, 2, 4]);
}

#[test]
fn row_iter_yields_rows_in_order() {
    let m = Mat2::new((3, 2), vec![1, 2, 3, 4, 5, 6]).unwrap();
    let mut it = Iter::from_mat(&m).unwrap();
    assert_eq!(it.size_hint(), (3, Some(3)));
    assert_eq!(it.next(), Some(vec![1, 2]));
    assert_eq!(it.advance_by(1), Ok(()));
    assert_eq!(it.next(), Some(vec![5, 6]));
    assert_eq!(it.next(), None);
    assert_eq!(it.advance_by(2), Err(2));
}

#[test]
fn row_iter_rejects_column_major() {
    let m = Mat2::new((2, 2), vec![1, 2, 3, 4]).unwrap().T();
    assert!(Iter::from_mat(&m).is_err());
}

#[test]
fn iterator_frozen_at_creation() {
    // An iterator keeps the layout chosen when it was created: it borrows
    // the matrix immutably, so the source cannot change underneath it.
    let m = Mat2::new((2, 2), vec![1, 2, 3, 4]).unwrap();
    let mut it = m.elements();
    let mut collected = Vec::new();
    while let Some(e) = it.next() {
        collected.push(e);
    }
    let t = m.T();
    let mut collected2 = Vec::new();
    let mut it2 = t.elements();
    while let Some(e) = it2.next() {
        collected2.push(e);
    }
    assert_eq!(collected, vec![1, 2, 3, 4]);
    assert_eq!(collected2, vec![1, 3, 2, 4]);
}
