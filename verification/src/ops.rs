//! Traits for the operations on columns, and the options that they take.
use vstd::prelude::*;

use arrow2::offset::OffsetsBuffer;

use crate::chunked_array::{BooleanChunked, ChunkedArray, IdxCa, ListChunked, Utf8Chunked};
use crate::datatypes::{AnyValue, DataType, IdxSize, PolarsDataType, Series, SeriesSpec};
use crate::error::{Operation, PolarsError, PolarsResult};

verus! {

/// Conversion of a column to a column of lists.
pub trait ToList<T: PolarsDataType> {
    /// A column of lists; unless a column type says otherwise, the operation is not supported.
    fn to_list(&self) -> (res: PolarsResult<ListChunked>)
        default_ensures
            res matches Err(PolarsError::InvalidOperation { op, dtype }) && op == Operation::ToList
                && dtype == T::spec_dtype(),
    {
        Err(PolarsError::InvalidOperation { op: Operation::ToList, dtype: T::get_dtype() })
    }
}

/// Reading the bits of an integer column as the other signedness.
pub trait Reinterpret {
    fn reinterpret_signed(&self) -> Series;

    fn reinterpret_unsigned(&self) -> Series;
}

/// Reading single values as [`AnyValue`].
pub trait ChunkAnyValue {
    /// The number of values.
    spec fn any_value_len(&self) -> nat;

    /// Get a single value; the index must be in bounds.
    fn get_any_value_unchecked(&self, index: usize) -> AnyValue
        requires
            index < self.any_value_len(),
    ;

    /// Get a single value.
    fn get_any_value(&self, index: usize) -> PolarsResult<AnyValue>;
}

/// Cumulative aggregations.
pub trait ChunkCumAgg<T: PolarsDataType> {
    /// An array with the cumulative max computed at every element.
    fn cummax(&self, reverse: bool) -> ChunkedArray<T>;

    /// An array with the cumulative min computed at every element.
    fn cummin(&self, reverse: bool) -> ChunkedArray<T>;

    /// An array with the cumulative sum computed at every element.
    fn cumsum(&self, reverse: bool) -> ChunkedArray<T>;

    /// An array with the cumulative product computed at every element.
    fn cumprod(&self, reverse: bool) -> ChunkedArray<T>;
}

/// The offsets at which the lists of a list column start, as the list layout of the
/// columnar format keeps them. Verus sees nothing inside a value of this type.
#[verifier::external_body]
pub struct ListOffsets(pub OffsetsBuffer<i64>);

/// Flattening a column of lists, or of strings, into a column of their elements.
pub trait ChunkExplode {
    /// The flattened column, or why the column cannot be flattened.
    spec fn spec_explode(&self) -> Result<SeriesSpec, PolarsError>;

    /// The flattened column.
    fn explode(&self) -> (res: PolarsResult<Series>)
        ensures
            match res {
                Ok(s) => self.spec_explode() == Ok::<SeriesSpec, PolarsError>(s.deep_view()),
                Err(e) => self.spec_explode() == Err::<SeriesSpec, PolarsError>(e),
            },
    {
        match self.explode_and_offsets() {
            Ok(t) => Ok(t.0),
            Err(e) => Err(e),
        }
    }

    /// The flattened column and the offsets at which each list starts in it.
    fn explode_and_offsets(&self) -> (res: PolarsResult<(Series, ListOffsets)>)
        ensures
            match res {
                Ok(t) => self.spec_explode() == Ok::<SeriesSpec, PolarsError>(t.0.deep_view()),
                Err(e) => self.spec_explode() == Err::<SeriesSpec, PolarsError>(e),
            },
    ;
}

/// The bytes of each value.
pub trait ChunkBytes {
    fn to_byte_slices(&self) -> Vec<&[u8]>;
}

/// Access to the logical type of a column.
pub trait AsRefDataType {
    /// The logical type.
    spec fn spec_as_ref_dtype(&self) -> DataType;

    /// The logical type.
    fn as_ref_dtype(&self) -> (res: &DataType)
        ensures
            *res == self.spec_as_ref_dtype(),
    ;
}

/// The parameters of a rolling window of fixed size.
#[derive(Copy, Clone, Debug, PartialEq, Eq, Structural)]
pub struct RollingOptionsFixedWindow {
    /// The length of the window.
    pub window_size: usize,
    /// The number of values in the window that must be non-null.
    pub min_periods: usize,
    /// Whether the result is set at the center of the window.
    pub center: bool,
}

/// Rolling application of a function on windows of a column.
pub trait ChunkRollApply: AsRefDataType {
    /// Unless a column type says otherwise, the operation is not supported.
    fn rolling_apply<F: Fn(&Series) -> Series>(
        &self,
        f: F,
        options: RollingOptionsFixedWindow,
    ) -> (res: PolarsResult<Series>) where Self: Sized
        default_ensures
            res matches Err(PolarsError::InvalidOperation { op, dtype }) && op
                == Operation::RollingApply && dtype == self.spec_as_ref_dtype(),
    {
        Err(
            PolarsError::InvalidOperation {
                op: Operation::RollingApply,
                dtype: self.as_ref_dtype().clone(),
            },
        )
    }
}

/// Random access to the values of a column.
pub trait TakeRandom {
    type Item: DeepView;

    /// The number of values.
    spec fn take_random_len(&self) -> nat;

    /// The value at an index, `None` for a null.
    spec fn spec_get(&self, index: int) -> Option<<Self::Item as DeepView>::V>;

    /// Get a nullable value by index; the index must be in bounds.
    fn get(&self, index: usize) -> (res: Option<Self::Item>)
        requires
            index < self.take_random_len(),
        ensures
            res.deep_view() == self.spec_get(index as int),
    ;

    /// Get a value by index, ignoring the null bit: there is always a value, the one at the
    /// index where it is not null, and the value stored under the null where it is.
    fn get_unchecked(&self, index: usize) -> (res: Option<Self::Item>) where Self: Sized
        requires
            index < self.take_random_len(),
        ensures
            res is Some,
            self.spec_get(index as int) is Some ==> res.deep_view() == self.spec_get(index as int),
    ;

    /// The last value; the column must not be empty.
    fn last(&self) -> (res: Option<Self::Item>)
        requires
            self.take_random_len() > 0,
        ensures
            res.deep_view() == self.spec_get(self.take_random_len() - 1),
    ;
}

/// Random access that hands out values borrowed from the column.
pub trait TakeRandomUtf8 {
    type Item: DeepView;

    /// The number of values.
    spec fn take_random_len(&self) -> nat;

    /// The value at an index, `None` for a null.
    spec fn spec_get(&self, index: int) -> Option<<Self::Item as DeepView>::V>;

    /// Get a nullable value by index; the index must be in bounds.
    fn get(self, index: usize) -> (res: Option<Self::Item>)
        requires
            index < self.take_random_len(),
        ensures
            res.deep_view() == self.spec_get(index as int),
    ;

    /// Get a value by index, ignoring the null bit: there is always a value, the one at the
    /// index where it is not null, and the value stored under the null where it is.
    fn get_unchecked(self, index: usize) -> (res: Option<Self::Item>) where Self: Sized
        requires
            index < self.take_random_len(),
        ensures
            res is Some,
            self.spec_get(index as int) is Some ==> res.deep_view() == self.spec_get(index as int),
    ;

    /// The last value; the column must not be empty.
    fn last(&self) -> (res: Option<Self::Item>)
        requires
            self.take_random_len() > 0,
        ensures
            res.deep_view() == self.spec_get(self.take_random_len() - 1),
    ;
}

/// Gathering values by index.
pub trait ChunkTake {
    /// The number of values.
    spec fn take_len(&self) -> nat;

    /// The values at the given indices; every index must be in bounds.
    fn take_unchecked(&self, indices: &[IdxSize]) -> Self where Self: Sized
        requires
            forall|i: int| 0 <= i < indices@.len() ==> #[trigger] indices@[i] < self.take_len(),
    ;

    /// The values at the given indices.
    fn take(&self, indices: &[IdxSize]) -> PolarsResult<Self> where Self: Sized;
}

/// New columns with values replaced at given indices or where a mask is set.
pub trait ChunkSet<'a, A, B> {
    /// Set the values at the indices `idx` to `opt_value`.
    fn set_at_idx(&'a self, idx: Vec<IdxSize>, opt_value: Option<A>) -> PolarsResult<Self> where
        Self: Sized;

    /// Set the values at the indices `idx` to what `f` gives for the value there.
    fn set_at_idx_with<F>(&'a self, idx: Vec<IdxSize>, f: F) -> PolarsResult<Self> where
        Self: Sized,
        F: Fn(Option<A>) -> Option<B>,
        requires
            forall|v: Option<A>| #[trigger] f.requires((v,)),
    ;

    /// Set the values where the mask is `true` to `opt_value`.
    fn set(&'a self, mask: &BooleanChunked, opt_value: Option<A>) -> PolarsResult<Self> where
        Self: Sized;
}

/// Casting a column to another logical type.
pub trait ChunkCast {
    /// Cast the column to `data_type`.
    fn cast(&self, data_type: &DataType) -> PolarsResult<Series>;

    /// Cast the column to `data_type` without checking that the cast is valid.
    fn cast_unchecked(&self, data_type: &DataType) -> PolarsResult<Series>;
}

/// Elementwise application of a function.
pub trait ChunkApply<'a, T> {
    type FuncRet;

    /// The number of values.
    spec fn apply_len(&self) -> nat;

    /// Apply a function to each non-null value; nulls stay null.
    fn apply<F>(&'a self, f: F) -> Self where F: Fn(T) -> Self::FuncRet + Copy, Self: Sized
        requires
            forall|x: T| #[trigger] f.requires((x,)),
    ;

    /// Apply a fallible function to each non-null value.
    fn try_apply<F>(&'a self, f: F) -> PolarsResult<Self> where
        F: Fn(T) -> PolarsResult<Self::FuncRet> + Copy,
        Self: Sized,
        requires
            forall|x: T| #[trigger] f.requires((x,)),
    ;

    /// Apply a function to each value, nulls included.
    fn apply_on_opt<F>(&'a self, f: F) -> Self where
        F: Fn(Option<T>) -> Option<Self::FuncRet> + Copy,
        Self: Sized,
        requires
            forall|x: Option<T>| #[trigger] f.requires((x,)),
    ;

    /// Apply a function to each non-null value and its index.
    fn apply_with_idx<F>(&'a self, f: F) -> Self where
        F: Fn((usize, T)) -> Self::FuncRet + Copy,
        Self: Sized,
        requires
            forall|x: (usize, T)| #[trigger] f.requires((x,)),
    ;

    /// Apply a function to each value, nulls included, and its index.
    fn apply_with_idx_on_opt<F>(&'a self, f: F) -> Self where
        F: Fn((usize, Option<T>)) -> Option<Self::FuncRet> + Copy,
        Self: Sized,
        requires
            forall|x: (usize, Option<T>)| #[trigger] f.requires((x,)),
    ;

    /// Apply a function to each value and the element of `slice` at the same position,
    /// and write the result there; `slice` must be at least as long as the column.
    fn apply_to_slice<F, S>(&'a self, f: F, slice: &mut [S]) where
        F: Fn(Option<T>, &S) -> S,
        requires
            forall|x: Option<T>, s: &S| #[trigger] f.requires((x, s)),
            old(slice)@.len() >= self.apply_len(),
    ;
}

/// Variance and standard deviation.
pub trait ChunkVar<T> {
    /// The variance; unless a column type says otherwise, `None`.
    fn var(&self, ddof: u8) -> (res: Option<T>)
        default_ensures
            res is None,
    {
        None
    }

    /// The standard deviation; unless a column type says otherwise, `None`.
    fn std_dev(&self, ddof: u8) -> (res: Option<T>)
        default_ensures
            res is None,
    {
        None
    }
}

/// Comparison of columns, or of a column and a value, into a boolean mask.
pub trait ChunkCompare<Rhs> {
    type Item;

    /// Whether the column can be compared with `rhs`.
    spec fn comparable(&self, rhs: Rhs) -> bool;

    /// Equality.
    fn equal(&self, rhs: Rhs) -> Self::Item
        requires
            self.comparable(rhs),
    ;

    /// Equality where null equals null.
    fn equal_missing(&self, rhs: Rhs) -> Self::Item
        requires
            self.comparable(rhs),
    ;

    /// Inequality.
    fn not_equal(&self, rhs: Rhs) -> Self::Item
        requires
            self.comparable(rhs),
    ;

    /// Inequality where null equals null.
    fn not_equal_missing(&self, rhs: Rhs) -> Self::Item
        requires
            self.comparable(rhs),
    ;

    /// Greater than.
    fn gt(&self, rhs: Rhs) -> Self::Item
        requires
            self.comparable(rhs),
    ;

    /// Greater than or equal.
    fn gt_eq(&self, rhs: Rhs) -> Self::Item
        requires
            self.comparable(rhs),
    ;

    /// Less than.
    fn lt(&self, rhs: Rhs) -> Self::Item
        requires
            self.comparable(rhs),
    ;

    /// Less than or equal.
    fn lt_eq(&self, rhs: Rhs) -> Self::Item
        requires
            self.comparable(rhs),
    ;
}

/// Distinct values.
pub trait ChunkUnique<T: PolarsDataType> {
    /// The outcome of `arg_unique`: the indices, or the error.
    spec fn spec_arg_unique(&self) -> Result<Seq<IdxSize>, PolarsError>;

    /// The distinct values.
    fn unique(&self) -> PolarsResult<ChunkedArray<T>>;

    /// The index of the first occurrence of each distinct value, in increasing order.
    fn arg_unique(&self) -> (res: PolarsResult<IdxCa>)
        ensures
            match res {
                Ok(ca) => self.spec_arg_unique() matches Ok(idx) && ca@.values == idx.map_values(
                    |i: IdxSize| Some(i),
                ),
                Err(e) => self.spec_arg_unique() == Err::<Seq<IdxSize>, PolarsError>(e),
            },
    ;

    /// The number of distinct values: the length of what `arg_unique` gives.
    fn n_unique(&self) -> (res: PolarsResult<usize>)
        ensures
            match res {
                Ok(n) => self.spec_arg_unique() matches Ok(idx) && n == idx.len(),
                Err(e) => self.spec_arg_unique() == Err::<Seq<IdxSize>, PolarsError>(e),
            },
    {
        match self.arg_unique() {
            Ok(v) => Ok(v.len()),
            Err(e) => Err(e),
        }
    }

    /// The most frequent values; unless a column type says otherwise, not supported.
    fn mode(&self) -> (res: PolarsResult<ChunkedArray<T>>)
        default_ensures
            res matches Err(PolarsError::InvalidOperation { op, dtype }) && op == Operation::Mode
                && dtype == T::spec_dtype(),
    {
        Err(PolarsError::InvalidOperation { op: Operation::Mode, dtype: T::get_dtype() })
    }
}

/// Options of a sort.
#[derive(Copy, Clone, Eq, PartialEq, Debug, Hash, Structural)]
pub struct SortOptions {
    pub descending: bool,
    pub nulls_last: bool,
    pub multithreaded: bool,
    pub maintain_order: bool,
}

impl Default for SortOptions {
    /// Ascending, nulls first, multithreaded, order of equal values not maintained.
    fn default() -> (res: Self)
        ensures
            res == (SortOptions {
                descending: false,
                nulls_last: false,
                multithreaded: true,
                maintain_order: false,
            }),
    {
        Self { descending: false, nulls_last: false, multithreaded: true, maintain_order: false }
    }
}

/// Options of a sort by several columns.
#[derive(Clone)]
pub struct SortMultipleOptions {
    /// The further columns to sort by.
    pub other: Vec<Series>,
    /// For each column, whether it is sorted in descending order.
    pub descending: Vec<bool>,
    pub multithreaded: bool,
}

/// Sorting.
pub trait ChunkSort<T: PolarsDataType> {
    /// The number of values.
    spec fn sort_len(&self) -> nat;

    /// The column sorted as the options say.
    fn sort_with(&self, options: SortOptions) -> ChunkedArray<T>;

    /// The column sorted.
    fn sort(&self, descending: bool) -> ChunkedArray<T>;

    /// The indices that sort the column; each position must be an index value.
    fn arg_sort(&self, options: SortOptions) -> IdxCa
        requires
            self.sort_len() <= 0x1_0000_0000,
    ;

    /// The indices that sort this column and the other columns; unless a column type
    /// says otherwise, not supported.
    fn arg_sort_multiple(&self, options: &SortMultipleOptions) -> (res: PolarsResult<IdxCa>)
        default_ensures
            res matches Err(PolarsError::InvalidOperation { op, dtype }) && op
                == Operation::ArgSortMultiple && dtype == T::spec_dtype(),
    {
        Err(PolarsError::InvalidOperation { op: Operation::ArgSortMultiple, dtype: T::get_dtype() })
    }
}

/// The greatest number of consecutive nulls to fill, or no limit.
pub type FillNullLimit = Option<IdxSize>;

/// How nulls are replaced.
#[derive(Copy, Clone, Debug)]
pub enum FillNullStrategy {
    /// previous value in array
    Backward(FillNullLimit),
    /// next value in array
    Forward(FillNullLimit),
    /// mean value of array
    Mean,
    /// minimal value in array
    Min,
    /// maximum value in array
    Max,
    /// replace with the value zero
    Zero,
    /// replace with the value one
    One,
    /// replace with the maximum value of that data type
    MaxBound,
    /// replace with the minimal value of that data type
    MinBound,
}

/// Replacing nulls with a value.
pub trait ChunkFillNullValue<T> {
    /// Replace the nulls with `value`.
    fn fill_null_with_values(&self, value: T) -> PolarsResult<Self> where Self: Sized;
}

/// A column of one repeated value.
pub trait ChunkFull<T> {
    /// `length` copies of `value`.
    fn full(name: &str, value: T, length: usize) -> Self where Self: Sized;
}

/// A column of nulls.
pub trait ChunkFullNull {
    /// `length` nulls.
    fn full_null(name: &str, length: usize) -> Self where Self: Sized;
}

/// Reversal.
pub trait ChunkReverse {
    /// The values in reverse order.
    fn reverse(&self) -> Self where Self: Sized;
}

/// Filtering by a boolean mask.
pub trait ChunkFilter<T: PolarsDataType> {
    /// The values where the mask is `true`.
    fn filter(&self, filter: &BooleanChunked) -> PolarsResult<ChunkedArray<T>> where Self: Sized;
}

/// A column filled with the value at one index.
pub trait ChunkExpandAtIndex<T: PolarsDataType> {
    /// The indices at which the column can be expanded.
    spec fn expandable_at(&self, index: usize) -> bool;

    /// A column of `length` copies of the value at `index`.
    fn new_from_index(&self, index: usize, length: usize) -> ChunkedArray<T>
        requires
            self.expandable_at(index),
    ;
}

/// Shifting values, with a fill value for the places left empty.
pub trait ChunkShiftFill<T: PolarsDataType, V> {
    /// Shift the values by `periods` places and put `fill_value` in the places left empty.
    fn shift_and_fill(&self, periods: i64, fill_value: V) -> ChunkedArray<T>;
}

/// Shifting values, with nulls in the places left empty.
pub trait ChunkShift<T: PolarsDataType> {
    /// Shift the values by `periods` places and put nulls in the places left empty.
    fn shift(&self, periods: i64) -> ChunkedArray<T>;
}

/// Combining two columns by a mask.
pub trait ChunkZip<T: PolarsDataType> {
    /// The values of `self` where the mask is `true` and those of `other` where it is not.
    fn zip_with(&self, mask: &BooleanChunked, other: &ChunkedArray<T>) -> PolarsResult<
        ChunkedArray<T>,
    >;
}

/// Local extrema.
pub trait ChunkPeaks {
    /// A mask of the local maxima.
    fn peak_max(&self) -> BooleanChunked;

    /// A mask of the local minima.
    fn peak_min(&self) -> BooleanChunked;
}

/// Membership of values in another column.
pub trait IsIn {
    /// Whether each value is in `other`, or in the lists of `other`.
    fn is_in(&self, other: &Series) -> PolarsResult<BooleanChunked>;
}

/// Repetition of values.
pub trait RepeatBy {
    /// Each value repeated as many times as the value of `by` at its position.
    fn repeat_by(&self, by: &IdxCa) -> PolarsResult<ListChunked>;
}

/// A mask of the first occurrences of the distinct values.
pub trait IsFirst<T: PolarsDataType> {
    /// Unless a column type says otherwise, not supported.
    fn is_first(&self) -> (res: PolarsResult<BooleanChunked>)
        default_ensures
            res matches Err(PolarsError::InvalidOperation { op, dtype }) && op == Operation::IsFirst
                && dtype == T::spec_dtype(),
    {
        Err(PolarsError::InvalidOperation { op: Operation::IsFirst, dtype: T::get_dtype() })
    }
}

/// A mask of the last occurrences of the distinct values.
pub trait IsLast<T: PolarsDataType> {
    /// Unless a column type says otherwise, not supported.
    fn is_last(&self) -> (res: PolarsResult<BooleanChunked>)
        default_ensures
            res matches Err(PolarsError::InvalidOperation { op, dtype }) && op == Operation::IsLast
                && dtype == T::spec_dtype(),
    {
        Err(PolarsError::InvalidOperation { op: Operation::IsLast, dtype: T::get_dtype() })
    }
}

/// Concatenation of the values into one string.
pub trait StrConcat {
    /// The values joined by `delimiter`.
    fn str_concat(&self, delimiter: &str) -> Utf8Chunked;
}

} // verus!
