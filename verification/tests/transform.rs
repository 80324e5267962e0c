use chunked_ops::chunked_array::{BooleanChunked, Int32Chunked, Utf8Chunked};
use chunked_ops::datatypes::IsSorted;
use chunked_ops::error::PolarsError;
use chunked_ops::ops::{
    ChunkApply, ChunkCompare, ChunkFillNullValue, ChunkFilter, ChunkSort, IsFirst, IsLast, SortOptions, ChunkReverse, ChunkShift, ChunkShiftFill, ChunkTake,
    ChunkUnique, ChunkZip,
};

#[test]
fn shift_forward_and_back() {
    let ca = Int32Chunked::new("a", &[1, 2, 3, 4]);
    assert_eq!(ca.shift(1).to_vec(), vec![None, Some(1), Some(2), Some(3)]);
    assert_eq!(ca.shift(-2).to_vec(), vec![Some(3), Some(4), None, None]);
    assert_eq!(ca.shift(0).to_vec(), ca.to_vec());
    assert_eq!(ca.shift(4).to_vec(), vec![None, None, None, None]);
    assert_eq!(ca.shift(i64::MIN).to_vec(), vec![None, None, None, None]);
    assert_eq!(ca.shift(i64::MAX).to_vec(), vec![None, None, None, None]);
}

#[test]
fn shift_and_fill_uses_fill_value() {
    let ca = Int32Chunked::new("a", &[1, 2, 3]);
    let out = ca.shift_and_fill(2, Some(0));
    assert_eq!(out.to_vec(), vec![Some(0), Some(0), Some(1)]);
    assert_eq!(out.name(), "a");
    let back = out.shift_and_fill(-2, Some(0));
    assert_eq!(back.to_vec(), vec![Some(1), Some(0), Some(0)]);
}

#[test]
fn reverse_twice_is_identity_and_flips_flag() {
    let mut ca = Int32Chunked::from_options("r", vec![Some(1), None, Some(3)]);
    ca.set_sorted_flag(IsSorted::Ascending);
    let rev = ca.reverse();
    assert_eq!(rev.to_vec(), vec![Some(3), None, Some(1)]);
    assert_eq!(rev.is_sorted_flag(), IsSorted::Descending);
    let back = rev.reverse();
    assert_eq!(back.to_vec(), ca.to_vec());
    assert_eq!(back.is_sorted_flag(), IsSorted::Ascending);
}

#[test]
fn zip_with_picks_by_mask() {
    let a = Int32Chunked::new("a", &[1, 2, 3]);
    let b = Int32Chunked::from_options("b", vec![Some(10), None, Some(30)]);
    let mask = BooleanChunked::from_options("m", vec![Some(true), Some(false), None]);
    let out = a.zip_with(&mask, &b).unwrap();
    assert_eq!(out.to_vec(), vec![Some(1), None, Some(30)]);
    assert_eq!(out.name(), "a");
}

#[test]
fn zip_with_length_errors() {
    let a = Int32Chunked::new("a", &[1, 2, 3]);
    let b = Int32Chunked::new("b", &[1, 2]);
    let short_mask = BooleanChunked::new("m", &[true]);
    let mask = BooleanChunked::new("m", &[true, true, true]);
    assert!(matches!(
        a.zip_with(&short_mask, &b),
        Err(PolarsError::ShapeMismatch { left: 3, right: 1 })
    ));
    assert!(matches!(
        a.zip_with(&mask, &b),
        Err(PolarsError::ShapeMismatch { left: 3, right: 2 })
    ));
}

#[test]
fn fill_null_with_values_replaces_nulls_only() {
    let ca = Int32Chunked::from_options("f", vec![None, Some(2), None]);
    let out = ca.fill_null_with_values(9).unwrap();
    assert_eq!(out.to_vec(), vec![Some(9), Some(2), Some(9)]);
    let again = out.fill_null_with_values(7).unwrap();
    assert_eq!(again.to_vec(), out.to_vec());
}

#[test]
fn take_gathers_and_checks_bounds() {
    let ca = Int32Chunked::from_options("t", vec![Some(5), None, Some(7)]);
    assert_eq!(ca.take(&[2, 0, 2, 1]).unwrap().to_vec(), vec![Some(7), Some(5), Some(7), None]);
    assert_eq!(ca.take_unchecked(&[1]).to_vec(), vec![None]);
    assert!(matches!(ca.take(&[0, 3, 4]), Err(PolarsError::OutOfBounds { index: 3, len: 3 })));
    assert_eq!(ca.take(&[]).unwrap().len(), 0);
}

#[test]
fn unique_arg_unique_n_unique() {
    let ca = Int32Chunked::from_options("u", vec![Some(3), None, Some(3), Some(1), None]);
    assert_eq!(ca.unique().unwrap().to_vec(), vec![Some(3), None, Some(1)]);
    assert_eq!(ca.arg_unique().unwrap().to_vec(), vec![Some(0), Some(1), Some(3)]);
    assert_eq!(ca.n_unique().unwrap(), 3);
    let empty = Int32Chunked::from_options("e", vec![]);
    assert_eq!(empty.n_unique().unwrap(), 0);
    let positions: Vec<u32> = ca.arg_unique().unwrap().to_vec().into_iter().map(|p| p.unwrap()).collect();
    assert_eq!(ca.take(&positions).unwrap().to_vec(), ca.unique().unwrap().to_vec());
}

#[test]
fn unique_of_strings() {
    let ca = Utf8Chunked::new("s", &["a".to_string(), "b".to_string(), "a".to_string()]);
    assert_eq!(ca.unique().unwrap().to_vec(), vec![Some("a".to_string()), Some("b".to_string())]);
}

#[test]
fn apply_doubles_non_null_values() {
    let ca = Int32Chunked::from_options("a", vec![Some(1), None, Some(3)]);
    assert_eq!(ca.apply(|v| v * 2).to_vec(), vec![Some(2), None, Some(6)]);
    assert_eq!(
        ca.apply_on_opt(|o| match o { Some(v) => Some(v + 1), None => Some(0) }).to_vec(),
        vec![Some(2), Some(0), Some(4)]
    );
    assert_eq!(ca.apply_with_idx(|(i, v)| v + i as i32).to_vec(), vec![Some(1), None, Some(5)]);
    assert_eq!(
        ca.apply_with_idx_on_opt(|(i, o)| o.map(|v| v * i as i32)).to_vec(),
        vec![Some(0), None, Some(6)]
    );
}

#[test]
fn try_apply_stops_at_error() {
    let ca = Int32Chunked::new("a", &[1, -2, 3]);
    let ok = ca.try_apply(|v| Ok(v * 10)).unwrap();
    assert_eq!(ok.to_vec(), vec![Some(10), Some(-20), Some(30)]);
    let err = ca.try_apply(|v| {
        if v < 0 {
            Err(PolarsError::IndexOverflow { len: 0 })
        } else {
            Ok(v)
        }
    });
    assert!(matches!(err, Err(PolarsError::IndexOverflow { len: 0 })));
    let first = Int32Chunked::from_options("b", vec![Some(1), None, Some(-5), Some(-7)]);
    let err = first.try_apply(|v| {
        if v < 0 {
            Err(PolarsError::IndexOverflow { len: (-v) as usize })
        } else {
            Ok(v)
        }
    });
    assert!(matches!(err, Err(PolarsError::IndexOverflow { len: 5 })));
}

#[test]
fn apply_to_slice_updates_prefix() {
    let ca = Int32Chunked::from_options("a", vec![Some(1), None]);
    let mut slice = vec![10i64, 20, 30];
    ca.apply_to_slice(|o, s| s + o.unwrap_or(100) as i64, &mut slice);
    assert_eq!(slice, vec![11, 120, 30]);
}

#[test]
fn is_first_and_is_last_masks() {
    let ca = Int32Chunked::from_options("m", vec![Some(1), None, Some(1), Some(2), None]);
    let first = ca.is_first().unwrap();
    assert_eq!(first.to_vec(), vec![Some(true), Some(true), Some(false), Some(true), Some(false)]);
    assert_eq!(first.name(), "m");
    let last = ca.is_last().unwrap();
    assert_eq!(last.to_vec(), vec![Some(false), Some(false), Some(true), Some(true), Some(true)]);
    assert_eq!(ca.filter(&first).unwrap().to_vec(), ca.unique().unwrap().to_vec());
}

#[test]
fn sort_and_arg_sort_with_nulls() {
    let ca = Int32Chunked::from_options("s", vec![Some(3), None, Some(1), Some(3), Some(2)]);
    let asc = ca.sort(false);
    assert_eq!(asc.to_vec(), vec![None, Some(1), Some(2), Some(3), Some(3)]);
    assert_eq!(asc.is_sorted_flag(), IsSorted::Ascending);
    assert_eq!(asc.name(), "s");
    let desc = ca.sort_with(SortOptions { descending: true, nulls_last: true, ..Default::default() });
    assert_eq!(desc.to_vec(), vec![Some(3), Some(3), Some(2), Some(1), None]);
    assert_eq!(desc.is_sorted_flag(), IsSorted::Descending);
    let idx = ca.arg_sort(SortOptions::default());
    assert_eq!(idx.to_vec(), vec![Some(1), Some(2), Some(4), Some(0), Some(3)]);
    let idx_desc = ca.arg_sort(SortOptions { descending: true, ..Default::default() });
    assert_eq!(idx_desc.to_vec(), vec![Some(1), Some(0), Some(3), Some(4), Some(2)]);
    let positions: Vec<u32> = idx.to_vec().into_iter().map(|p| p.unwrap()).collect();
    assert_eq!(ca.take(&positions).unwrap().to_vec(), asc.to_vec());
}

#[test]
fn compare_columns_with_nulls_and_broadcast() {
    let a = Int32Chunked::from_options("a", vec![Some(1), None, Some(3), Some(2)]);
    let b = Int32Chunked::from_options("b", vec![Some(1), None, Some(2), None]);
    assert_eq!(a.equal(&b).to_vec(), vec![Some(true), None, Some(false), None]);
    assert_eq!(a.equal_missing(&b).to_vec(), vec![Some(true), Some(true), Some(false), Some(false)]);
    assert_eq!(a.not_equal(&b).to_vec(), vec![Some(false), None, Some(true), None]);
    assert_eq!(a.not_equal_missing(&b).to_vec(), vec![Some(false), Some(false), Some(true), Some(true)]);
    assert_eq!(a.gt(&b).to_vec(), vec![Some(false), None, Some(true), None]);
    assert_eq!(a.gt_eq(&b).to_vec(), vec![Some(true), None, Some(true), None]);
    assert_eq!(a.lt(&b).to_vec(), vec![Some(false), None, Some(false), None]);
    assert_eq!(a.lt_eq(&b).to_vec(), vec![Some(true), None, Some(false), None]);
    let two = Int32Chunked::new("two", &[2]);
    let mask = a.gt_eq(&two);
    assert_eq!(mask.to_vec(), vec![Some(false), None, Some(true), Some(true)]);
    assert_eq!(mask.name(), "a");
    assert_eq!(a.filter(&mask).unwrap().to_vec(), vec![Some(3), Some(2)]);
    assert_eq!(two.lt(&a).to_vec(), vec![Some(false), None, Some(true), Some(false)]);
}
