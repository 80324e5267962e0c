use chunked_ops::chunked_array::ListChunked;
use chunked_ops::datatypes::{AnyValue, DataType, Series};
use chunked_ops::ops::ChunkExplode;

fn ints(values: &[i64]) -> Series {
    Series::new("", DataType::Int64, values.iter().map(|v| AnyValue::Int64(*v)).collect())
}

fn lists() -> ListChunked {
    ListChunked::from_options_with_dtype(
        "l",
        DataType::List(Box::new(DataType::Int64)),
        vec![Some(ints(&[1, 2])), Some(ints(&[])), None, Some(ints(&[3]))],
    )
}

#[test]
fn explode_and_offsets_of_lists() {
    let (s, offsets) = lists().explode_and_offsets().unwrap();
    assert_eq!(s.name, "l");
    assert!(s.dtype.same_as(&DataType::Int64));
    let expected = Series::new(
        "l",
        DataType::Int64,
        vec![AnyValue::Int64(1), AnyValue::Int64(2), AnyValue::Null, AnyValue::Null, AnyValue::Int64(3)],
    );
    assert!(s.same_as(&expected));
    assert_eq!(offsets.0.as_slice(), &[0i64, 2, 2, 2, 3]);
}

#[test]
fn explode_drops_offsets() {
    let s = lists().explode().unwrap();
    assert_eq!(s.len(), 5);
    assert!(matches!(s.values[2], AnyValue::Null));
}

#[test]
fn explode_empty_column() {
    let empty = ListChunked::from_options_with_dtype("e", DataType::List(Box::new(DataType::Utf8)), vec![]);
    let (s, offsets) = empty.explode_and_offsets().unwrap();
    assert_eq!(s.len(), 0);
    assert!(s.dtype.same_as(&DataType::Utf8));
    assert_eq!(offsets.0.as_slice(), &[0i64]);
}
