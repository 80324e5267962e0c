use chunked_ops::chunked_array::{Int32Chunked, ListChunked};
use chunked_ops::datatypes::{DataType, Int32Type, Series, Utf8Type};
use chunked_ops::error::{Operation, PolarsError, PolarsResult};
use chunked_ops::ops::{
    AsRefDataType, ChunkRollApply, ChunkSort, ChunkUnique, ChunkVar, FillNullStrategy, IsFirst,
    IsLast, RollingOptionsFixedWindow, SortMultipleOptions, SortOptions, ToList,
};

struct Plain;

impl ToList<Int32Type> for Plain {}
impl IsFirst<Utf8Type> for Plain {}
impl IsLast<Int32Type> for Plain {}
impl ChunkVar<i32> for Plain {}

impl AsRefDataType for Plain {
    fn spec_as_ref_dtype(&self) -> DataType {
        DataType::Binary
    }
    fn as_ref_dtype(&self) -> &DataType {
        &DataType::Binary
    }
}
impl ChunkRollApply for Plain {}

fn err_of<T>(r: PolarsResult<T>) -> PolarsError {
    match r {
        Err(e) => e,
        Ok(_) => panic!("expected an error"),
    }
}

fn is_unsupported(e: PolarsError, op: Operation, dtype: DataType) -> bool {
    match e {
        PolarsError::InvalidOperation { op: o, dtype: d } => o == op && d.same_as(&dtype),
        _ => false,
    }
}

#[test]
fn sort_options_default_values() {
    let o = SortOptions::default();
    assert!(!o.descending);
    assert!(!o.nulls_last);
    assert!(o.multithreaded);
    assert!(!o.maintain_order);
    assert_eq!(
        o,
        SortOptions { descending: false, nulls_last: false, multithreaded: true, maintain_order: false }
    );
}

#[test]
fn default_to_list_is_unsupported() {
    let r: PolarsResult<ListChunked> = Plain.to_list();
    assert!(is_unsupported(err_of(r), Operation::ToList, DataType::Int32));
}

#[test]
fn default_is_first_and_is_last_are_unsupported() {
    assert!(is_unsupported(err_of(IsFirst::<Utf8Type>::is_first(&Plain)), Operation::IsFirst, DataType::Utf8));
    assert!(is_unsupported(err_of(IsLast::<Int32Type>::is_last(&Plain)), Operation::IsLast, DataType::Int32));
}

#[test]
fn default_var_and_std_dev_are_none() {
    assert_eq!(Plain.var(1), None);
    assert_eq!(Plain.std_dev(0), None);
}

#[test]
fn default_rolling_apply_reports_own_dtype() {
    let opts = RollingOptionsFixedWindow { window_size: 2, min_periods: 1, center: false };
    let r = Plain.rolling_apply(|s: &Series| Series::new(&s.name, DataType::Null, vec![]), opts);
    assert!(is_unsupported(err_of(r), Operation::RollingApply, DataType::Binary));
}

#[test]
fn default_arg_sort_multiple_and_mode_are_unsupported() {
    let opts = SortMultipleOptions { other: vec![], descending: vec![false], multithreaded: true };
    assert!(is_unsupported(err_of(Int32Chunked::new("c", &[1]).arg_sort_multiple(&opts)), Operation::ArgSortMultiple, DataType::Int32));
    let ca = Int32Chunked::new("c", &[1]);
    assert!(is_unsupported(err_of(ca.mode()), Operation::Mode, DataType::Int32));
}

#[test]
fn column_dtype_and_fill_strategy() {
    let ca = Int32Chunked::new("c", &[1]);
    assert!(ca.as_ref_dtype().same_as(&DataType::Int32));
    let s = FillNullStrategy::Forward(Some(3));
    assert!(matches!(s, FillNullStrategy::Forward(Some(3))));
}
