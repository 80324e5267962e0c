use chunked_ops::chunked_array::{
    ArrayChunked, BinaryChunked, BooleanChunked, Int32Chunked, Int64Chunked, ListChunked,
    UInt8Chunked, Utf8Chunked,
};
use chunked_ops::datatypes::{AnyValue, DataType, IsSorted, Series};
use chunked_ops::ops::{ChunkExpandAtIndex, ChunkFull, ChunkFullNull, TakeRandom, TakeRandomUtf8};

#[test]
fn new_from_index_numeric_repeats_value_and_flags_ascending() {
    let ca = Int32Chunked::new("a", &[7, 8, 9]);
    let out = ca.new_from_index(1, 4);
    assert_eq!(out.to_vec(), vec![Some(8), Some(8), Some(8), Some(8)]);
    assert_eq!(out.name(), "a");
    assert_eq!(out.is_sorted_flag(), IsSorted::Ascending);
    assert!(out.dtype().same_as(&DataType::Int32));
}

#[test]
fn new_from_index_null_value_gives_nulls() {
    let ca = Int64Chunked::from_options("n", vec![Some(1), None]);
    let out = ca.new_from_index(1, 3);
    assert_eq!(out.to_vec(), vec![None, None, None]);
    assert_eq!(out.is_sorted_flag(), IsSorted::Ascending);
}

#[test]
fn new_from_index_empty_column_is_returned_unchanged() {
    let mut ca = UInt8Chunked::from_options("e", vec![]);
    ca.set_sorted_flag(IsSorted::Descending);
    let out = ca.new_from_index(5, 10);
    assert_eq!(out.len(), 0);
    assert_eq!(out.name(), "e");
    assert_eq!(out.is_sorted_flag(), IsSorted::Descending);
}

#[test]
fn new_from_index_zero_length() {
    let ca = Int32Chunked::new("a", &[1, 2]);
    let out = ca.new_from_index(0, 0);
    assert!(out.is_empty());
    assert_eq!(out.is_sorted_flag(), IsSorted::Ascending);
}

#[test]
fn new_from_index_boolean_utf8_binary() {
    let b = BooleanChunked::new("b", &[true, false]);
    assert_eq!(b.new_from_index(1, 2).to_vec(), vec![Some(false), Some(false)]);
    let s = Utf8Chunked::new("s", &["x".to_string(), "yz".to_string()]);
    let out = s.new_from_index(1, 2);
    assert_eq!(out.to_vec(), vec![Some("yz".to_string()), Some("yz".to_string())]);
    assert_eq!(out.is_sorted_flag(), IsSorted::Ascending);
    let bin = BinaryChunked::from_options("bin", vec![None, Some(vec![1u8, 2])]);
    assert_eq!(bin.new_from_index(1, 1).to_vec(), vec![Some(vec![1u8, 2])]);
    assert_eq!(bin.new_from_index(0, 2).to_vec(), vec![None, None]);
}

fn list_of(values: Vec<AnyValue>) -> Series {
    Series::new("", DataType::Int64, values)
}

#[test]
fn new_from_index_list_keeps_logical_type() {
    let ca = ListChunked::from_options_with_dtype(
        "l",
        DataType::List(Box::new(DataType::Int64)),
        vec![Some(list_of(vec![AnyValue::Int64(1), AnyValue::Int64(2)])), None],
    );
    let out = ca.new_from_index(0, 3);
    assert_eq!(out.len(), 3);
    assert_eq!(out.name(), "l");
    assert!(out.dtype().same_as(&DataType::List(Box::new(DataType::Int64))));
    assert_eq!(out.is_sorted_flag(), IsSorted::Not);
    let first = out.get(2).unwrap();
    assert!(first.same_as(&list_of(vec![AnyValue::Int64(1), AnyValue::Int64(2)])));
    let nulls = ca.new_from_index(1, 2);
    assert!(nulls.get(0).is_none() && nulls.get(1).is_none());
    assert!(nulls.dtype().same_as(&DataType::List(Box::new(DataType::Int64))));
}

#[test]
fn new_from_index_array_keeps_column_type() {
    let ca = ArrayChunked::from_options_with_dtype(
        "a",
        DataType::Array(Box::new(DataType::Int64), 3),
        vec![
            Some(list_of(vec![AnyValue::Int64(1), AnyValue::Int64(2), AnyValue::Int64(3)])),
            None,
        ],
    );
    let out = ca.new_from_index(0, 2);
    assert!(out.dtype().same_as(&DataType::Array(Box::new(DataType::Int64), 3)));
    assert_eq!(out.len(), 2);
    assert!(out.get(1).is_some_and(|v| v.values.len() == 3));
    let nulls = ca.new_from_index(1, 2);
    assert!(nulls.dtype().same_as(&DataType::Array(Box::new(DataType::Int64), 0)));
    assert_eq!(nulls.len(), 2);
}

#[test]
fn full_and_full_null() {
    let f = Int32Chunked::full("f", 3, 2);
    assert_eq!(f.to_vec(), vec![Some(3), Some(3)]);
    assert_eq!(f.is_sorted_flag(), IsSorted::Not);
    let n = Int32Chunked::full_null("n", 3);
    assert_eq!(n.to_vec(), vec![None, None, None]);
    assert!(n.dtype().same_as(&DataType::Int32));
}

#[test]
fn full_list_from_series_reference() {
    let s = list_of(vec![AnyValue::Int64(9)]);
    let l = ListChunked::full("l", &s, 2);
    assert!(l.dtype().same_as(&DataType::List(Box::new(DataType::Int64))));
    let a = ArrayChunked::full("a", &s, 2);
    assert!(a.dtype().same_as(&DataType::Array(Box::new(DataType::Int64), 1)));
}

#[test]
fn take_random_get_last_and_unchecked() {
    let ca = Int32Chunked::from_options("a", vec![Some(1), None, Some(3)]);
    assert_eq!(ca.get(0), Some(1));
    assert_eq!(ca.get(1), None);
    assert_eq!(ca.get_unchecked(2), Some(3));
    assert_eq!(ca.get_unchecked(1), Some(0));
    assert_eq!(ca.clone().get_unchecked(1), Some(0));
    assert_eq!(TakeRandom::last(&ca), Some(3));
}

#[test]
fn take_random_utf8_borrows() {
    let ca = Utf8Chunked::from_options("s", vec![Some("ab".to_string()), None]);
    let r = &ca;
    assert_eq!(TakeRandomUtf8::get(r, 0), Some("ab"));
    assert_eq!(TakeRandomUtf8::get_unchecked(r, 0), Some("ab"));
    assert_eq!(TakeRandomUtf8::get_unchecked(r, 1), Some(""));
    assert_eq!(TakeRandomUtf8::last(&r), None);
}
