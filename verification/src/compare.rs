//! Comparison of integer columns into boolean masks.
use vstd::prelude::*;

use crate::chunked_array::{BooleanChunked, ChunkedArray};
use crate::datatypes::{DataType, IsSorted, PolarsNumericType};
use crate::ops::ChunkCompare;

verus! {

/// A comparison of two values.
#[derive(Copy, Clone, Debug, PartialEq, Eq, Structural)]
pub enum Comparison {
    Equal,
    EqualMissing,
    NotEqual,
    NotEqualMissing,
    Gt,
    GtEq,
    Lt,
    LtEq,
}

/// The outcome of comparing two nullable values: null when either is null, except for the
/// comparisons in which null equals null.
pub open spec fn spec_compare<T: PolarsNumericType>(
    op: Comparison,
    a: Option<<T::Physical as DeepView>::V>,
    b: Option<<T::Physical as DeepView>::V>,
) -> Option<bool> {
    match op {
        Comparison::EqualMissing => Some(a == b),
        Comparison::NotEqualMissing => Some(a != b),
        _ => match a {
            None => None,
            Some(x) => match b {
                None => None,
                Some(y) => Some(
                    match op {
                        Comparison::Equal => x == y,
                        Comparison::NotEqual => x != y,
                        Comparison::Gt => !T::spec_le(x, y),
                        Comparison::GtEq => T::spec_le(y, x),
                        Comparison::Lt => !T::spec_le(y, x),
                        _ => T::spec_le(x, y),
                    },
                ),
            },
        },
    }
}

/// Whether two columns of these lengths can be compared: equal lengths, or one of length
/// one, whose value is compared with every value of the other.
pub open spec fn lengths_comparable(a: nat, b: nat) -> bool {
    a == b || a == 1 || b == 1
}

/// The length of the comparison of columns of these lengths.
pub open spec fn compared_len(a: nat, b: nat) -> nat {
    if b == 1 {
        a
    } else if a == 1 {
        b
    } else {
        a
    }
}

/// The position read in a column of length `len` for position `i` of the comparison.
pub open spec fn broadcast_index(len: nat, i: int) -> int {
    if len == 1 {
        0
    } else {
        i
    }
}

/// The mask of the comparison of two columns, a column of length one compared with every
/// value of the other.
pub open spec fn spec_compare_all<T: PolarsNumericType>(
    op: Comparison,
    a: Seq<Option<<T::Physical as DeepView>::V>>,
    b: Seq<Option<<T::Physical as DeepView>::V>>,
) -> Seq<Option<bool>> {
    Seq::new(
        compared_len(a.len(), b.len()),
        |i: int|
            spec_compare::<T>(
                op,
                a[broadcast_index(a.len(), i)],
                b[broadcast_index(b.len(), i)],
            ),
    )
}

/// Compares two nullable stored values.
fn compare_values<T: PolarsNumericType>(
    op: Comparison,
    a: &Option<T::Physical>,
    b: &Option<T::Physical>,
) -> (res: Option<bool>)
    ensures
        res == spec_compare::<T>(op, a.deep_view(), b.deep_view()),
{
    match op {
        Comparison::EqualMissing => Some(equal_options::<T>(a, b)),
        Comparison::NotEqualMissing => Some(!equal_options::<T>(a, b)),
        _ => match a {
            None => None,
            Some(x) => match b {
                None => None,
                Some(y) => Some(
                    match op {
                        Comparison::Equal => T::eq_physical(x, y),
                        Comparison::NotEqual => !T::eq_physical(x, y),
                        Comparison::Gt => !T::le_physical(x, y),
                        Comparison::GtEq => T::le_physical(y, x),
                        Comparison::Lt => !T::le_physical(y, x),
                        _ => T::le_physical(x, y),
                    },
                ),
            },
        },
    }
}

/// Whether two nullable stored values are equal, null equal to null.
fn equal_options<T: PolarsNumericType>(a: &Option<T::Physical>, b: &Option<T::Physical>) -> (res:
    bool)
    ensures
        res == (a.deep_view() == b.deep_view()),
{
    match a {
        None => b.is_none(),
        Some(x) => match b {
            None => false,
            Some(y) => T::eq_physical(x, y),
        },
    }
}

impl<T: PolarsNumericType> ChunkedArray<T> {
    /// The mask of a comparison with another column, under the name of this one.
    pub fn compare_with(&self, rhs: &ChunkedArray<T>, op: Comparison) -> (res: BooleanChunked)
        requires
            lengths_comparable(self@.values.len(), rhs@.values.len()),
        ensures
            res@.name == self@.name,
            res@.dtype == DataType::Boolean,
            res@.values == spec_compare_all::<T>(op, self@.values, rhs@.values),
            res@.sorted == IsSorted::Not,
    {
        let a_len = self.len();
        let b_len = rhs.len();
        let n = if b_len == 1 {
            a_len
        } else if a_len == 1 {
            b_len
        } else {
            a_len
        };
        let mut out: Vec<Option<bool>> = Vec::new();
        let mut i: usize = 0;
        while i < n
            invariant
                i <= n,
                a_len == self@.values.len(),
                b_len == rhs@.values.len(),
                lengths_comparable(a_len as nat, b_len as nat),
                n == compared_len(a_len as nat, b_len as nat),
                out@.len() == i,
                forall|j: int|
                    0 <= j < i ==> #[trigger] out@[j] == spec_compare::<T>(
                        op,
                        self@.values[broadcast_index(a_len as nat, j)],
                        rhs@.values[broadcast_index(b_len as nat, j)],
                    ),
            decreases n - i,
        {
            let ai = if a_len == 1 {
                0
            } else {
                i
            };
            let bi = if b_len == 1 {
                0
            } else {
                i
            };
            out.push(compare_values::<T>(op, self.value_at(ai), rhs.value_at(bi)));
            i = i + 1;
        }
        let ghost expected = spec_compare_all::<T>(op, self@.values, rhs@.values);
        assert(out.deep_view() =~= expected);
        BooleanChunked::from_options(self.name(), out)
    }
}

impl<'a, T: PolarsNumericType> ChunkCompare<&'a ChunkedArray<T>> for ChunkedArray<T> {
    type Item = BooleanChunked;

    open spec fn comparable(&self, rhs: &'a ChunkedArray<T>) -> bool {
        lengths_comparable(self@.values.len(), rhs@.values.len())
    }

    /// `true` where the values are equal, null where either is null.
    fn equal(&self, rhs: &'a ChunkedArray<T>) -> (res: BooleanChunked)
        ensures
            res@.name == self@.name,
            res@.dtype == DataType::Boolean,
            res@.sorted == IsSorted::Not,
            res@.values == spec_compare_all::<T>(Comparison::Equal, self@.values, rhs@.values),
    {
        self.compare_with(rhs, Comparison::Equal)
    }

    /// `true` where the values are equal, nulls equal to each other and to nothing else.
    fn equal_missing(&self, rhs: &'a ChunkedArray<T>) -> (res: BooleanChunked)
        ensures
            res@.name == self@.name,
            res@.dtype == DataType::Boolean,
            res@.sorted == IsSorted::Not,
            res@.values == spec_compare_all::<T>(
                Comparison::EqualMissing,
                self@.values,
                rhs@.values,
            ),
    {
        self.compare_with(rhs, Comparison::EqualMissing)
    }

    /// `true` where the values differ, null where either is null.
    fn not_equal(&self, rhs: &'a ChunkedArray<T>) -> (res: BooleanChunked)
        ensures
            res@.name == self@.name,
            res@.dtype == DataType::Boolean,
            res@.sorted == IsSorted::Not,
            res@.values == spec_compare_all::<T>(Comparison::NotEqual, self@.values, rhs@.values),
    {
        self.compare_with(rhs, Comparison::NotEqual)
    }

    /// `true` where the values differ, nulls equal to each other and to nothing else.
    fn not_equal_missing(&self, rhs: &'a ChunkedArray<T>) -> (res: BooleanChunked)
        ensures
            res@.name == self@.name,
            res@.dtype == DataType::Boolean,
            res@.sorted == IsSorted::Not,
            res@.values == spec_compare_all::<T>(
                Comparison::NotEqualMissing,
                self@.values,
                rhs@.values,
            ),
    {
        self.compare_with(rhs, Comparison::NotEqualMissing)
    }

    /// `true` where the value of `self` is greater, null where either is null.
    fn gt(&self, rhs: &'a ChunkedArray<T>) -> (res: BooleanChunked)
        ensures
            res@.name == self@.name,
            res@.dtype == DataType::Boolean,
            res@.sorted == IsSorted::Not,
            res@.values == spec_compare_all::<T>(Comparison::Gt, self@.values, rhs@.values),
    {
        self.compare_with(rhs, Comparison::Gt)
    }

    /// `true` where the value of `self` is greater or equal, null where either is null.
    fn gt_eq(&self, rhs: &'a ChunkedArray<T>) -> (res: BooleanChunked)
        ensures
            res@.name == self@.name,
            res@.dtype == DataType::Boolean,
            res@.sorted == IsSorted::Not,
            res@.values == spec_compare_all::<T>(Comparison::GtEq, self@.values, rhs@.values),
    {
        self.compare_with(rhs, Comparison::GtEq)
    }

    /// `true` where the value of `self` is less, null where either is null.
    fn lt(&self, rhs: &'a ChunkedArray<T>) -> (res: BooleanChunked)
        ensures
            res@.name == self@.name,
            res@.dtype == DataType::Boolean,
            res@.sorted == IsSorted::Not,
            res@.values == spec_compare_all::<T>(Comparison::Lt, self@.values, rhs@.values),
    {
        self.compare_with(rhs, Comparison::Lt)
    }

    /// `true` where the value of `self` is less or equal, null where either is null.
    fn lt_eq(&self, rhs: &'a ChunkedArray<T>) -> (res: BooleanChunked)
        ensures
            res@.name == self@.name,
            res@.dtype == DataType::Boolean,
            res@.sorted == IsSorted::Not,
            res@.values == spec_compare_all::<T>(Comparison::LtEq, self@.values, rhs@.values),
    {
        self.compare_with(rhs, Comparison::LtEq)
    }
}

} // verus!
