//! Gathering values by index.
use vstd::prelude::*;

use crate::chunked_array::{ArraySpec, ChunkedArray, lemma_plain_values_fit};
use crate::datatypes::{IdxSize, IsSorted, PlainValueType};
use crate::error::{PolarsError, PolarsResult};
use crate::ops::ChunkTake;
use crate::set::{all_in_bounds, check_bounds, is_first_out_of_bounds};

verus! {

/// The values at the given indices, in the order of the indices.
pub open spec fn spec_take<V>(values: Seq<Option<V>>, idx: Seq<IdxSize>) -> Seq<Option<V>> {
    Seq::new(idx.len(), |k: int| values[idx[k] as int])
}

impl<T: PlainValueType> ChunkTake for ChunkedArray<T> {
    open spec fn take_len(&self) -> nat {
        self@.values.len()
    }

    /// The values at the given indices, under the same name and type, not flagged as sorted.
    fn take_unchecked(&self, indices: &[IdxSize]) -> (res: Self)
        ensures
            res@ == (ArraySpec {
                values: spec_take(self@.values, indices@),
                sorted: IsSorted::Not,
                ..self@
            }),
    {
        let mut out: Vec<Option<T::Physical>> = Vec::new();
        let mut k: usize = 0;
        while k < indices.len()
            invariant
                k <= indices@.len(),
                forall|i: int| 0 <= i < indices@.len() ==> #[trigger] indices@[i] < self@.values.len(),
                out@.len() == k,
                forall|j: int|
                    0 <= j < k ==> #[trigger] out@[j].deep_view() == self@.values[indices@[j] as int],
            decreases indices@.len() - k,
        {
            assert(indices@[k as int] < self@.values.len());
            out.push(self.get_value(indices[k] as usize));
            k = k + 1;
        }
        let ghost expected = spec_take(self@.values, indices@);
        assert(out.deep_view() =~= expected);
        proof {
            lemma_plain_values_fit::<T>(self@.dtype, out.deep_view());
        }
        ChunkedArray::from_options_with_dtype(self.name(), self.dtype().clone(), out)
    }

    /// The values at the given indices, under the same name and type, not flagged as
    /// sorted; refused with the first index that is out of bounds.
    fn take(&self, indices: &[IdxSize]) -> (res: PolarsResult<Self>)
        ensures
            res is Ok <==> all_in_bounds(indices@, self@.values.len()),
            res matches Err(e) ==> e matches PolarsError::OutOfBounds { index, len } && len
                == self@.values.len() && is_first_out_of_bounds(
                indices@,
                self@.values.len(),
                index,
            ),
            res matches Ok(ca) ==> ca@ == (ArraySpec {
                values: spec_take(self@.values, indices@),
                sorted: IsSorted::Not,
                ..self@
            }),
    {
        match check_bounds(indices, self.len()) {
            Err(e) => Err(e),
            Ok(()) => Ok(self.take_unchecked(indices)),
        }
    }
}

} // verus!
