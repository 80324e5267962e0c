//! Filtering by a boolean mask, and reversal.
use vstd::prelude::*;

use crate::chunked_array::{ArraySpec, BooleanChunked, ChunkedArray, lemma_plain_values_fit};
use crate::datatypes::{IsSorted, PlainValueType};
use crate::error::{PolarsError, PolarsResult};
use crate::ops::{ChunkFilter, ChunkReverse};

verus! {

/// Whether a mask value selects its position: only `true` does, a null does not.
pub open spec fn selects(m: Option<bool>) -> bool {
    m == Some(true)
}

/// The values at the positions that the mask selects, in order.
pub open spec fn spec_filter<V>(values: Seq<Option<V>>, mask: Seq<Option<bool>>) -> Seq<Option<V>>
    decreases values.len(),
{
    if values.len() == 0 {
        Seq::empty()
    } else {
        let rest = spec_filter(values.drop_last(), mask.take(values.len() - 1));
        if selects(mask[values.len() - 1]) {
            rest.push(values.last())
        } else {
            rest
        }
    }
}

/// The number of positions that the mask selects.
pub open spec fn count_selected(mask: Seq<Option<bool>>) -> nat
    decreases mask.len(),
{
    if mask.len() == 0 {
        0
    } else {
        count_selected(mask.drop_last()) + if selects(mask.last()) {
            1nat
        } else {
            0nat
        }
    }
}

/// The values in reverse order.
pub open spec fn spec_reverse<V>(values: Seq<V>) -> Seq<V> {
    Seq::new(values.len(), |i: int| values[values.len() - 1 - i])
}

/// The sortedness of the reversed values.
pub open spec fn reversed_flag(s: IsSorted) -> IsSorted {
    match s {
        IsSorted::Ascending => IsSorted::Descending,
        IsSorted::Descending => IsSorted::Ascending,
        IsSorted::Not => IsSorted::Not,
    }
}

impl<T: PlainValueType> ChunkFilter<T> for ChunkedArray<T> {
    /// The values where the mask is `true`, in order, under the same name and type; a
    /// sorted column stays flagged as sorted. A mask of another length is refused.
    fn filter(&self, filter: &BooleanChunked) -> (res: PolarsResult<ChunkedArray<T>>)
        ensures
            self@.values.len() != filter@.values.len() <==> res is Err,
            res matches Err(e) ==> e == (PolarsError::ShapeMismatch {
                left: self@.values.len() as usize,
                right: filter@.values.len() as usize,
            }),
            res matches Ok(ca) ==> ca@ == (ArraySpec {
                values: spec_filter(self@.values, filter@.values),
                ..self@
            }),
    {
        if self.len() != filter.len() {
            return Err(PolarsError::ShapeMismatch { left: self.len(), right: filter.len() });
        }
        let n = self.len();
        let mut out: Vec<Option<T::Physical>> = Vec::new();
        let mut i: usize = 0;
        while i < n
            invariant
                i <= n,
                n == self@.values.len(),
                n == filter@.values.len(),
                out.deep_view() == spec_filter(
                    self@.values.take(i as int),
                    filter@.values.take(i as int),
                ),
            decreases n - i,
        {
            let keep = match filter.value_at(i) {
                Some(b) => *b,
                None => false,
            };
            proof {
                assert(self@.values.take(i + 1).drop_last() =~= self@.values.take(i as int));
                assert(filter@.values.take(i + 1).take(i as int) =~= filter@.values.take(
                    i as int,
                ));
            }
            if keep {
                let v = match self.value_at(i) {
                    Some(v) => Some(T::clone_physical(v)),
                    None => None,
                };
                out.push(v);
                assert(out.deep_view() =~= spec_filter(
                    self@.values.take(i + 1),
                    filter@.values.take(i + 1),
                ));
            }
            i = i + 1;
        }
        assert(self@.values.take(n as int) =~= self@.values);
        assert(filter@.values.take(n as int) =~= filter@.values);
        proof {
            lemma_plain_values_fit::<T>(self@.dtype, out.deep_view());
        }
        let mut res = ChunkedArray::from_options_with_dtype(self.name(), self.dtype().clone(), out);
        res.set_sorted_flag(self.is_sorted_flag());
        Ok(res)
    }
}

impl<T: PlainValueType> ChunkReverse for ChunkedArray<T> {
    /// The values in reverse order, under the same name and type; an ascending column
    /// becomes descending and a descending one ascending.
    fn reverse(&self) -> (res: Self)
        ensures
            res@ == (ArraySpec {
                values: spec_reverse(self@.values),
                sorted: reversed_flag(self@.sorted),
                ..self@
            }),
    {
        let n = self.len();
        let mut out: Vec<Option<T::Physical>> = Vec::new();
        let mut i: usize = 0;
        while i < n
            invariant
                i <= n,
                n == self@.values.len(),
                out@.len() == i,
                forall|j: int|
                    0 <= j < i ==> #[trigger] out@[j].deep_view() == self@.values[n - 1 - j],
            decreases n - i,
        {
            let v = self.get_value(n - 1 - i);
            out.push(v);
            i = i + 1;
        }
        assert(out.deep_view() =~= spec_reverse(self@.values));
        proof {
            lemma_plain_values_fit::<T>(self@.dtype, out.deep_view());
        }
        let mut res = ChunkedArray::from_options_with_dtype(self.name(), self.dtype().clone(), out);
        let flag = match self.is_sorted_flag() {
            IsSorted::Ascending => IsSorted::Descending,
            IsSorted::Descending => IsSorted::Ascending,
            IsSorted::Not => IsSorted::Not,
        };
        res.set_sorted_flag(flag);
        res
    }
}

} // verus!
