//! Combining two columns by a mask, and replacing nulls with a value.
use vstd::prelude::*;

use crate::chunked_array::{ArraySpec, BooleanChunked, ChunkedArray, lemma_plain_values_fit};
use crate::datatypes::{IsSorted, PlainValueType};
use crate::error::{PolarsError, PolarsResult};
use crate::filter::selects;
use crate::ops::{ChunkFillNullValue, ChunkZip};

verus! {

/// The values of `a` where the mask selects, those of `b` elsewhere.
pub open spec fn spec_zip<V>(a: Seq<Option<V>>, mask: Seq<Option<bool>>, b: Seq<Option<V>>) -> Seq<
    Option<V>,
> {
    Seq::new(
        a.len(),
        |i: int|
            if selects(mask[i]) {
                a[i]
            } else {
                b[i]
            },
    )
}

/// The values with each null replaced by `v`.
pub open spec fn spec_fill_null<V>(values: Seq<Option<V>>, v: V) -> Seq<Option<V>> {
    Seq::new(
        values.len(),
        |i: int|
            match values[i] {
                Some(x) => Some(x),
                None => Some(v),
            },
    )
}

impl<T: PlainValueType> ChunkZip<T> for ChunkedArray<T> {
    /// The values of `self` where the mask is `true` and those of `other` elsewhere, under
    /// the name and type of `self`, not flagged as sorted. A mask, or then an `other`, of
    /// another length than `self` is refused.
    fn zip_with(&self, mask: &BooleanChunked, other: &ChunkedArray<T>) -> (res: PolarsResult<
        ChunkedArray<T>,
    >)
        ensures
            res is Ok <==> (self@.values.len() == mask@.values.len() && self@.values.len()
                == other@.values.len()),
            res matches Err(e) ==> e == (if self@.values.len() != mask@.values.len() {
                PolarsError::ShapeMismatch {
                    left: self@.values.len() as usize,
                    right: mask@.values.len() as usize,
                }
            } else {
                PolarsError::ShapeMismatch {
                    left: self@.values.len() as usize,
                    right: other@.values.len() as usize,
                }
            }),
            res matches Ok(ca) ==> ca@ == (ArraySpec {
                values: spec_zip(self@.values, mask@.values, other@.values),
                sorted: IsSorted::Not,
                ..self@
            }),
    {
        if self.len() != mask.len() {
            return Err(PolarsError::ShapeMismatch { left: self.len(), right: mask.len() });
        }
        if self.len() != other.len() {
            return Err(PolarsError::ShapeMismatch { left: self.len(), right: other.len() });
        }
        let n = self.len();
        let mut out: Vec<Option<T::Physical>> = Vec::new();
        let mut i: usize = 0;
        while i < n
            invariant
                i <= n,
                n == self@.values.len(),
                n == mask@.values.len(),
                n == other@.values.len(),
                out@.len() == i,
                forall|j: int|
                    0 <= j < i ==> #[trigger] out@[j].deep_view() == (if selects(mask@.values[j]) {
                        self@.values[j]
                    } else {
                        other@.values[j]
                    }),
            decreases n - i,
        {
            let hit = match mask.value_at(i) {
                Some(b) => *b,
                None => false,
            };
            if hit {
                out.push(self.get_value(i));
            } else {
                out.push(other.get_value(i));
            }
            i = i + 1;
        }
        let ghost expected = spec_zip(self@.values, mask@.values, other@.values);
        assert(out.deep_view() =~= expected);
        proof {
            lemma_plain_values_fit::<T>(self@.dtype, out.deep_view());
        }
        Ok(ChunkedArray::from_options_with_dtype(self.name(), self.dtype().clone(), out))
    }
}

impl<T: PlainValueType> ChunkFillNullValue<T::Physical> for ChunkedArray<T> {
    /// Each null replaced by `value`, under the same name and type, not flagged as sorted.
    fn fill_null_with_values(&self, value: T::Physical) -> (res: PolarsResult<Self>)
        ensures
            res matches Ok(ca) && ca@ == (ArraySpec {
                values: spec_fill_null(self@.values, value.deep_view()),
                sorted: IsSorted::Not,
                ..self@
            }),
    {
        let n = self.len();
        let mut out: Vec<Option<T::Physical>> = Vec::new();
        let mut i: usize = 0;
        while i < n
            invariant
                i <= n,
                n == self@.values.len(),
                out@.len() == i,
                forall|j: int|
                    0 <= j < i ==> #[trigger] out@[j].deep_view() == (match self@.values[j] {
                        Some(x) => Some(x),
                        None => Some(value.deep_view()),
                    }),
            decreases n - i,
        {
            let v = self.value_at(i);
            match v {
                Some(x) => out.push(Some(T::clone_physical(x))),
                None => out.push(Some(T::clone_physical(&value))),
            }
            i = i + 1;
        }
        let ghost expected = spec_fill_null(self@.values, value.deep_view());
        assert(out.deep_view() =~= expected);
        proof {
            lemma_plain_values_fit::<T>(self@.dtype, out.deep_view());
        }
        Ok(ChunkedArray::from_options_with_dtype(self.name(), self.dtype().clone(), out))
    }
}

} // verus!
