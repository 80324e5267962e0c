//! Shifting values, and filling the places left empty.
use vstd::prelude::*;

use crate::chunked_array::{clone_option, ArraySpec, ChunkedArray, lemma_plain_values_fit};
use crate::datatypes::{IsSorted, PlainValueType};
use crate::ops::{ChunkShift, ChunkShiftFill};

verus! {

/// The values moved `periods` places towards the end (towards the start when `periods` is
/// negative), with `fill` in the places that no value moves to.
pub open spec fn spec_shift<V>(values: Seq<Option<V>>, periods: int, fill: Option<V>) -> Seq<
    Option<V>,
> {
    Seq::new(
        values.len(),
        |i: int|
            if 0 <= i - periods < values.len() {
                values[i - periods]
            } else {
                fill
            },
    )
}

impl<T: PlainValueType> ChunkShiftFill<T, Option<T::Physical>> for ChunkedArray<T> {
    /// The values shifted by `periods` places, with `fill_value` in the places left empty,
    /// under the same name and type, not flagged as sorted.
    fn shift_and_fill(&self, periods: i64, fill_value: Option<T::Physical>) -> (res: ChunkedArray<
        T,
    >)
        ensures
            res@ == (ArraySpec {
                values: spec_shift(self@.values, periods as int, fill_value.deep_view()),
                sorted: IsSorted::Not,
                ..self@
            }),
    {
        let n = self.len();
        let mut out: Vec<Option<T::Physical>> = Vec::new();
        let mut i: usize = 0;
        while i < n
            invariant
                i <= n,
                n == self@.values.len(),
                out@.len() == i,
                forall|j: int|
                    0 <= j < i ==> #[trigger] out@[j].deep_view() == (if 0 <= j - periods < n {
                        self@.values[j - periods]
                    } else {
                        fill_value.deep_view()
                    }),
            decreases n - i,
        {
            let src: i128 = i as i128 - periods as i128;
            if 0 <= src && src < n as i128 {
                out.push(self.get_value(src as usize));
            } else {
                out.push(clone_option::<T>(&fill_value));
            }
            i = i + 1;
        }
        let ghost expected = spec_shift(self@.values, periods as int, fill_value.deep_view());
        assert(out.deep_view() =~= expected);
        proof {
            lemma_plain_values_fit::<T>(self@.dtype, out.deep_view());
        }
        ChunkedArray::from_options_with_dtype(self.name(), self.dtype().clone(), out)
    }
}

impl<T: PlainValueType> ChunkShift<T> for ChunkedArray<T> {
    /// The values shifted by `periods` places, with nulls in the places left empty.
    fn shift(&self, periods: i64) -> (res: ChunkedArray<T>)
        ensures
            res@ == (ArraySpec {
                values: spec_shift(self@.values, periods as int, None),
                sorted: IsSorted::Not,
                ..self@
            }),
    {
        self.shift_and_fill(periods, None)
    }
}

} // verus!
