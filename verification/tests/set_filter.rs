use chunked_ops::chunked_array::{BooleanChunked, Int32Chunked, UInt32Chunked};
use chunked_ops::datatypes::IsSorted;
use chunked_ops::error::PolarsError;
use chunked_ops::ops::{ChunkFilter, ChunkSet};

#[test]
fn set_at_idx_doc_example() {
    let ca = UInt32Chunked::new("a", &[1, 2, 3]);
    let new = ca.set_at_idx(vec![0, 1], Some(10)).unwrap();
    assert_eq!(new.to_vec(), vec![Some(10), Some(10), Some(3)]);
    assert_eq!(new.name(), "a");
}

#[test]
fn set_at_idx_with_doc_example() {
    let ca = Int32Chunked::new("a", &[1, 2, 3]);
    let new = ca.set_at_idx_with(vec![0, 1], |opt_v| opt_v.map(|v| v - 5)).unwrap();
    assert_eq!(new.to_vec(), vec![Some(-4), Some(-3), Some(3)]);
}

#[test]
fn set_doc_example() {
    let ca = Int32Chunked::new("a", &[1, 2, 3]);
    let mask = BooleanChunked::new("mask", &[false, true, false]);
    let new = ca.set(&mask, Some(5)).unwrap();
    assert_eq!(new.to_vec(), vec![Some(1), Some(5), Some(3)]);
}

#[test]
fn filter_doc_example() {
    let array = Int32Chunked::new("array", &[1, 2, 3]);
    let mask = BooleanChunked::new("mask", &[true, false, true]);
    let filtered = array.filter(&mask).unwrap();
    assert_eq!(filtered.to_vec(), vec![Some(1), Some(3)]);
}

#[test]
fn set_at_idx_out_of_bounds_names_first_bad_index() {
    let ca = Int32Chunked::new("a", &[1, 2, 3]);
    match ca.set_at_idx(vec![1, 7, 9], Some(0)) {
        Err(PolarsError::OutOfBounds { index, len }) => {
            assert_eq!(index, 7);
            assert_eq!(len, 3);
        }
        _ => panic!("expected an out-of-bounds error"),
    }
}

#[test]
fn set_at_idx_with_out_of_bounds() {
    let ca = Int32Chunked::new("a", &[1, 2, 3]);
    let r = ca.set_at_idx_with(vec![3], |v| v);
    assert!(matches!(r, Err(PolarsError::OutOfBounds { index: 3, len: 3 })));
}

#[test]
fn set_at_idx_with_null_and_duplicates() {
    let ca = Int32Chunked::from_options("a", vec![None, Some(2), Some(3)]);
    let new = ca
        .set_at_idx_with(vec![0, 2, 2], |opt_v| match opt_v {
            Some(v) => Some(v * 10),
            None => Some(-1),
        })
        .unwrap();
    assert_eq!(new.to_vec(), vec![Some(-1), Some(2), Some(30)]);
}

#[test]
fn set_with_mask_of_other_length_is_refused() {
    let ca = Int32Chunked::new("a", &[1, 2, 3]);
    let mask = BooleanChunked::new("mask", &[true]);
    assert!(matches!(
        ca.set(&mask, None),
        Err(PolarsError::ShapeMismatch { left: 3, right: 1 })
    ));
}

#[test]
fn set_null_mask_entries_do_not_select() {
    let ca = Int32Chunked::new("a", &[1, 2, 3]);
    let mask = BooleanChunked::from_options("mask", vec![None, Some(true), Some(false)]);
    let new = ca.set(&mask, None).unwrap();
    assert_eq!(new.to_vec(), vec![Some(1), None, Some(3)]);
    assert_eq!(new.is_sorted_flag(), IsSorted::Not);
}

#[test]
fn filter_with_mask_of_other_length_is_refused() {
    let ca = Int32Chunked::new("a", &[1, 2, 3]);
    let mask = BooleanChunked::new("mask", &[true, false]);
    assert!(matches!(
        ca.filter(&mask),
        Err(PolarsError::ShapeMismatch { left: 3, right: 2 })
    ));
}

#[test]
fn filter_keeps_name_nulls_and_sorted_flag() {
    let mut ca = Int32Chunked::from_options("x", vec![Some(1), None, Some(3), Some(4)]);
    ca.set_sorted_flag(IsSorted::Ascending);
    let mask = BooleanChunked::from_options("m", vec![Some(true), Some(true), None, Some(true)]);
    let out = ca.filter(&mask).unwrap();
    assert_eq!(out.to_vec(), vec![Some(1), None, Some(4)]);
    assert_eq!(out.name(), "x");
    assert_eq!(out.is_sorted_flag(), IsSorted::Ascending);
}

#[test]
fn filter_all_true_keeps_everything() {
    let ca = Int32Chunked::from_options("x", vec![Some(5), None, Some(7)]);
    let mask = BooleanChunked::new("m", &[true, true, true]);
    assert_eq!(ca.filter(&mask).unwrap().to_vec(), ca.to_vec());
}

#[test]
fn set_at_idx_equals_set_with_matching_mask() {
    let ca = Int32Chunked::new("a", &[4, 5, 6, 7]);
    let mask = BooleanChunked::new("m", &[false, true, false, true]);
    let by_idx = ca.set_at_idx(vec![3, 1], Some(0)).unwrap();
    let by_mask = ca.set(&mask, Some(0)).unwrap();
    assert_eq!(by_idx.to_vec(), by_mask.to_vec());
}
