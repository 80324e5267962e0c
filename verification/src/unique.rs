//! Distinct values and the positions of their first occurrences.
use vstd::prelude::*;

use crate::chunked_array::{ArraySpec, BooleanChunked, ChunkedArray, IdxCa, lemma_plain_values_fit};
use crate::datatypes::{PlainValueType, IdxSize, IsSorted, PolarsDataType};
use crate::error::{PolarsError, PolarsResult};
use crate::ops::{ChunkUnique, IsFirst, IsLast};

verus! {

/// The positions of the first occurrence of each distinct value, in increasing order.
pub open spec fn first_occurrences<V>(values: Seq<V>) -> Seq<int>
    decreases values.len(),
{
    if values.len() == 0 {
        Seq::empty()
    } else {
        let prefix = values.drop_last();
        let rest = first_occurrences(prefix);
        if prefix.contains(values.last()) {
            rest
        } else {
            rest.push(values.len() - 1)
        }
    }
}

/// Positions as index values.
pub open spec fn as_idx(positions: Seq<int>) -> Seq<IdxSize> {
    positions.map_values(|i: int| i as IdxSize)
}

/// The greatest number of values whose positions are all index values.
pub open spec fn max_indexable() -> nat {
    0x1_0000_0000
}

/// What `arg_unique` gives: the first occurrences, or the refusal of a column too long
/// to be indexed.
pub open spec fn spec_arg_unique_of<V>(values: Seq<V>) -> Result<Seq<IdxSize>, PolarsError> {
    if values.len() > max_indexable() {
        Err(PolarsError::IndexOverflow { len: values.len() as usize })
    } else {
        Ok(as_idx(first_occurrences(values)))
    }
}

/// The distinct values, in the order of their first occurrences.
pub open spec fn spec_unique<V>(values: Seq<V>) -> Seq<V> {
    first_occurrences(values).map_values(|i: int| values[i])
}

/// For each position, whether its value occurs there for the first time.
pub open spec fn first_mask<V>(values: Seq<V>) -> Seq<Option<bool>> {
    Seq::new(values.len(), |i: int| Some(!values.take(i).contains(values[i])))
}

/// For each position, whether its value occurs there for the last time.
pub open spec fn last_mask<V>(values: Seq<V>) -> Seq<Option<bool>> {
    Seq::new(values.len(), |i: int| Some(!values.skip(i + 1).contains(values[i])))
}

/// The first occurrences lie in the sequence and increase strictly.
pub proof fn lemma_first_occurrences_bounds<V>(values: Seq<V>)
    ensures
        forall|k: int|
            0 <= k < first_occurrences(values).len() ==> 0 <= #[trigger] first_occurrences(
                values,
            )[k] < values.len(),
        forall|k: int, l: int|
            0 <= k < l < first_occurrences(values).len() ==> #[trigger] first_occurrences(
                values,
            )[k] < #[trigger] first_occurrences(values)[l],
        first_occurrences(values).len() <= values.len(),
    decreases values.len(),
{
    if values.len() > 0 {
        lemma_first_occurrences_bounds(values.drop_last());
    }
}

/// How the first occurrences, and the distinct values, of a prefix grow by one value.
pub proof fn lemma_first_occurrences_step<V>(values: Seq<V>, i: int)
    requires
        0 <= i < values.len(),
    ensures
        first_occurrences(values.take(i + 1)) == (if values.take(i).contains(values[i]) {
            first_occurrences(values.take(i))
        } else {
            first_occurrences(values.take(i)).push(i)
        }),
        spec_unique(values.take(i + 1)) == (if values.take(i).contains(values[i]) {
            spec_unique(values.take(i))
        } else {
            spec_unique(values.take(i)).push(values[i])
        }),
{
    let prefix = values.take(i);
    let next = values.take(i + 1);
    assert(next.drop_last() =~= prefix);
    assert(next.last() == values[i]);
    lemma_first_occurrences_bounds(prefix);
    let f = first_occurrences(prefix);
    if prefix.contains(values[i]) {
        assert(spec_unique(next) =~= spec_unique(prefix));
    } else {
        assert(spec_unique(next) =~= spec_unique(prefix).push(values[i]));
    }
}

/// Whether two nullable stored values are equal.
fn opt_eq<T: PolarsDataType>(a: &Option<T::Physical>, b: &Option<T::Physical>) -> (res: bool)
    ensures
        res == (a.deep_view() == b.deep_view()),
{
    match a {
        Some(x) => match b {
            Some(y) => T::eq_physical(x, y),
            None => false,
        },
        None => b.is_none(),
    }
}

impl<T: PolarsDataType> ChunkedArray<T> {
    /// Whether the value at `i` occurs before `i`.
    fn occurs_before(&self, i: usize) -> (res: bool)
        requires
            i < self@.values.len(),
        ensures
            res == self@.values.take(i as int).contains(self@.values[i as int]),
    {
        let mut j: usize = 0;
        while j < i
            invariant
                j <= i,
                i < self@.values.len(),
                forall|k: int| 0 <= k < j ==> self@.values[k] != self@.values[i as int],
            decreases i - j,
        {
            if opt_eq::<T>(self.value_at(j), self.value_at(i)) {
                assert(self@.values.take(i as int)[j as int] == self@.values[i as int]);
                return true;
            }
            j = j + 1;
        }
        assert forall|k: int| 0 <= k < i implies self@.values.take(i as int)[k]
            != self@.values[i as int] by {
            assert(self@.values.take(i as int)[k] == self@.values[k]);
        }
        false
    }
}

impl<T: PolarsDataType> ChunkedArray<T> {
    /// Whether the value at `i` occurs after `i`.
    fn occurs_after(&self, i: usize) -> (res: bool)
        requires
            i < self@.values.len(),
        ensures
            res == self@.values.skip(i + 1).contains(self@.values[i as int]),
    {
        let n = self.len();
        let mut j: usize = i + 1;
        while j < n
            invariant
                i < j <= n,
                n == self@.values.len(),
                forall|k: int| i < k < j ==> self@.values[k] != self@.values[i as int],
            decreases n - j,
        {
            if opt_eq::<T>(self.value_at(j), self.value_at(i)) {
                assert(self@.values.skip(i + 1)[j - i - 1] == self@.values[i as int]);
                return true;
            }
            j = j + 1;
        }
        assert forall|k: int| 0 <= k < n - i - 1 implies #[trigger] self@.values.skip(i + 1)[k]
            != self@.values[i as int] by {
            assert(self@.values.skip(i + 1)[k] == self@.values[i + 1 + k]);
        }
        false
    }
}

impl<T: PolarsDataType> IsFirst<T> for ChunkedArray<T> {
    /// A mask, under the same name, that is `true` where a value occurs for the first
    /// time, nulls counted as one value.
    fn is_first(&self) -> (res: PolarsResult<BooleanChunked>)
        ensures
            res matches Ok(mask) && mask@.name == self@.name && mask@.values == first_mask(
                self@.values,
            ) && mask@.sorted == IsSorted::Not,
    {
        let n = self.len();
        let mut out: Vec<Option<bool>> = Vec::new();
        let mut i: usize = 0;
        while i < n
            invariant
                i <= n,
                n == self@.values.len(),
                out@.len() == i,
                forall|j: int| 0 <= j < i ==> #[trigger] out@[j] == first_mask(self@.values)[j],
            decreases n - i,
        {
            let seen = self.occurs_before(i);
            out.push(Some(!seen));
            i = i + 1;
        }
        assert(out.deep_view() =~= first_mask(self@.values));
        Ok(BooleanChunked::from_options(self.name(), out))
    }
}

impl<T: PolarsDataType> IsLast<T> for ChunkedArray<T> {
    /// A mask, under the same name, that is `true` where a value occurs for the last
    /// time, nulls counted as one value.
    fn is_last(&self) -> (res: PolarsResult<BooleanChunked>)
        ensures
            res matches Ok(mask) && mask@.name == self@.name && mask@.values == last_mask(
                self@.values,
            ) && mask@.sorted == IsSorted::Not,
    {
        let n = self.len();
        let mut out: Vec<Option<bool>> = Vec::new();
        let mut i: usize = 0;
        while i < n
            invariant
                i <= n,
                n == self@.values.len(),
                out@.len() == i,
                forall|j: int| 0 <= j < i ==> #[trigger] out@[j] == last_mask(self@.values)[j],
            decreases n - i,
        {
            let seen = self.occurs_after(i);
            out.push(Some(!seen));
            i = i + 1;
        }
        assert(out.deep_view() =~= last_mask(self@.values));
        Ok(BooleanChunked::from_options(self.name(), out))
    }
}

impl<T: PlainValueType> ChunkUnique<T> for ChunkedArray<T> {
    open spec fn spec_arg_unique(&self) -> Result<Seq<IdxSize>, PolarsError> {
        spec_arg_unique_of(self@.values)
    }

    /// The distinct values, nulls counted as one value, in the order of their first
    /// occurrences, under the same name and type, not flagged as sorted.
    fn unique(&self) -> (res: PolarsResult<ChunkedArray<T>>)
        ensures
            res matches Ok(ca) && ca@ == (ArraySpec {
                values: spec_unique(self@.values),
                sorted: IsSorted::Not,
                ..self@
            }),
    {
        let n = self.len();
        let mut out: Vec<Option<T::Physical>> = Vec::new();
        let mut i: usize = 0;
        while i < n
            invariant
                i <= n,
                n == self@.values.len(),
                out.deep_view() == spec_unique(self@.values.take(i as int)),
            decreases n - i,
        {
            let seen = self.occurs_before(i);
            proof {
                lemma_first_occurrences_step(self@.values, i as int);
            }
            if !seen {
                out.push(self.get_value(i));
            }
            assert(out.deep_view() =~= spec_unique(self@.values.take(i + 1)));
            i = i + 1;
        }
        assert(self@.values.take(n as int) =~= self@.values);
        proof {
            lemma_plain_values_fit::<T>(self@.dtype, out.deep_view());
        }
        Ok(ChunkedArray::from_options_with_dtype(self.name(), self.dtype().clone(), out))
    }

    /// The position of the first occurrence of each distinct value, nulls counted as one
    /// value, in increasing order, under the same name; refused for a column with more values
    /// than there are index values.
    fn arg_unique(&self) -> (res: PolarsResult<IdxCa>) {
        let n = self.len();
        if n > 0 && n - 1 > 0xffff_ffffusize {
            return Err(PolarsError::IndexOverflow { len: n });
        }
        let mut out: Vec<Option<IdxSize>> = Vec::new();
        let mut i: usize = 0;
        while i < n
            invariant
                i <= n,
                n == self@.values.len(),
                n <= max_indexable(),
                out@ == as_idx(first_occurrences(self@.values.take(i as int))).map_values(
                    |p: IdxSize| Some(p),
                ),
            decreases n - i,
        {
            let seen = self.occurs_before(i);
            proof {
                lemma_first_occurrences_step(self@.values, i as int);
            }
            if !seen {
                out.push(Some(i as IdxSize));
            }
            let ghost target = as_idx(first_occurrences(self@.values.take(i + 1))).map_values(
                |p: IdxSize| Some(p),
            );
            assert(out@ =~= target);
            i = i + 1;
        }
        assert(self@.values.take(n as int) =~= self@.values);
        assert(out.deep_view() =~= out@);
        let res = IdxCa::from_options(self.name(), out);
        Ok(res)
    }
}

} // verus!
