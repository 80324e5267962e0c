//! New columns with values replaced at given indices or where a mask is set.
use vstd::prelude::*;

use crate::chunked_array::{clone_option, ArraySpec, BooleanChunked, ChunkedArray, lemma_plain_values_fit};
use crate::datatypes::{IdxSize, IsSorted, PlainValueType, PolarsDataType};
use crate::error::{PolarsError, PolarsResult};
use crate::filter::selects;
use crate::ops::ChunkSet;

verus! {

/// Whether every index is below `len`.
pub open spec fn all_in_bounds(idx: Seq<IdxSize>, len: nat) -> bool {
    forall|k: int| 0 <= k < idx.len() ==> #[trigger] idx[k] < len
}

/// Whether `index` is the first of the indices that is not below `len`.
pub open spec fn is_first_out_of_bounds(idx: Seq<IdxSize>, len: nat, index: IdxSize) -> bool {
    exists|k: int|
        0 <= k < idx.len() && #[trigger] idx[k] == index && index >= len && all_in_bounds(
            idx.take(k),
            len,
        )
}

/// Whether position `i` is one of the indices.
pub open spec fn listed(idx: Seq<IdxSize>, i: int) -> bool {
    exists|k: int| 0 <= k < idx.len() && #[trigger] idx[k] as int == i
}

/// An index listed among the first `k + 1` is listed among the first `k` or is the last of them.
proof fn lemma_listed_push(idx: Seq<IdxSize>, k: int, i: int)
    requires
        0 <= k < idx.len(),
    ensures
        listed(idx.take(k + 1), i) <==> (listed(idx.take(k), i) || idx[k] as int == i),
{
    if listed(idx.take(k + 1), i) {
        let w = choose|w: int| 0 <= w < k + 1 && #[trigger] idx.take(k + 1)[w] as int == i;
        if w < k {
            assert(idx.take(k)[w] == idx.take(k + 1)[w]);
        }
    }
    if listed(idx.take(k), i) {
        let w = choose|w: int| 0 <= w < k && #[trigger] idx.take(k)[w] as int == i;
        assert(idx.take(k + 1)[w] == idx.take(k)[w]);
    }
    if idx[k] as int == i {
        assert(idx.take(k + 1)[k] == idx[k]);
    }
}

/// Whether `f` may give a value with the model `to` for some value with the model `from`.
pub open spec fn maps_to<T: PolarsDataType, F: Fn(Option<T::Physical>) -> Option<T::Physical>>(
    f: F,
    from: Option<<T::Physical as DeepView>::V>,
    to: Option<<T::Physical as DeepView>::V>,
) -> bool {
    exists|a: Option<T::Physical>, b: Option<T::Physical>|
        #[trigger] f.ensures((a,), b) && a.deep_view() == from && b.deep_view() == to
}

/// The values with those at the listed indices replaced by `v`.
pub open spec fn spec_set_at_idx<V>(values: Seq<Option<V>>, idx: Seq<IdxSize>, v: Option<V>) -> Seq<
    Option<V>,
> {
    Seq::new(
        values.len(),
        |i: int|
            if listed(idx, i) {
                v
            } else {
                values[i]
            },
    )
}

/// The values with those at the positions that the mask selects replaced by `v`.
pub open spec fn spec_set_mask<V>(values: Seq<Option<V>>, mask: Seq<Option<bool>>, v: Option<V>) -> Seq<
    Option<V>,
> {
    Seq::new(
        values.len(),
        |i: int|
            if selects(mask[i]) {
                v
            } else {
                values[i]
            },
    )
}

/// Checks that every index is below `len`; else gives the first that is not.
pub fn check_bounds(idx: &[IdxSize], len: usize) -> (res: Result<(), PolarsError>)
    ensures
        res is Ok <==> all_in_bounds(idx@, len as nat),
        res matches Err(e) ==> e matches PolarsError::OutOfBounds { index, len: l } && l == len
            && is_first_out_of_bounds(idx@, len as nat, index),
{
    let mut k: usize = 0;
    while k < idx.len()
        invariant
            k <= idx@.len(),
            all_in_bounds(idx@.take(k as int), len as nat),
        decreases idx@.len() - k,
    {
        if idx[k] as usize >= len {
            assert(idx@[k as int] == idx[k as int]);
            return Err(PolarsError::OutOfBounds { index: idx[k], len });
        }
        assert forall|j: int| 0 <= j < k + 1 implies #[trigger] idx@.take(k + 1)[j] < len by {
            if j < k {
                assert(idx@.take(k + 1)[j] == idx@.take(k as int)[j]);
            }
        }
        k = k + 1;
    }
    assert(idx@.take(k as int) =~= idx@);
    Ok(())
}

impl<'a, T: PlainValueType> ChunkSet<'a, T::Physical, T::Physical> for ChunkedArray<T> {
    /// The values at the listed indices set to `opt_value`, under the same name and type,
    /// not flagged as sorted; refused with the first index that is out of bounds.
    fn set_at_idx(&'a self, idx: Vec<IdxSize>, opt_value: Option<T::Physical>) -> (res:
        PolarsResult<Self>)
        ensures
            res is Ok <==> all_in_bounds(idx@, self@.values.len()),
            res matches Err(e) ==> e matches PolarsError::OutOfBounds { index, len } && len
                == self@.values.len() && is_first_out_of_bounds(idx@, self@.values.len(), index),
            res matches Ok(ca) ==> ca@ == (ArraySpec {
                values: spec_set_at_idx(self@.values, idx@, opt_value.deep_view()),
                sorted: IsSorted::Not,
                ..self@
            }),
    {
        match check_bounds(idx.as_slice(), self.len()) {
            Err(e) => return Err(e),
            Ok(()) => {},
        }
        let n = self.len();
        let mut out = self.to_vec();
        let mut k: usize = 0;
        while k < idx.len()
            invariant
                k <= idx@.len(),
                n == self@.values.len(),
                all_in_bounds(idx@, n as nat),
                out@.len() == n,
                forall|i: int|
                    0 <= i < n ==> #[trigger] out@[i].deep_view() == (if listed(
                        idx@.take(k as int),
                        i,
                    ) {
                        opt_value.deep_view()
                    } else {
                        self@.values[i]
                    }),
            decreases idx@.len() - k,
        {
            let i = idx[k] as usize;
            assert(idx@[k as int] < n);
            out.set(i, clone_option::<T>(&opt_value));
            proof {
                assert forall|j: int| 0 <= j < n implies #[trigger] out@[j].deep_view() == (if listed(
                    idx@.take(k + 1),
                    j,
                ) {
                    opt_value.deep_view()
                } else {
                    self@.values[j]
                }) by {
                    lemma_listed_push(idx@, k as int, j);
                }
            }
            k = k + 1;
        }
        assert(idx@.take(k as int) =~= idx@);
        let ghost expected = spec_set_at_idx(self@.values, idx@, opt_value.deep_view());
        assert(out.deep_view() =~= expected);
        proof {
            lemma_plain_values_fit::<T>(self@.dtype, out.deep_view());
        }
        Ok(ChunkedArray::from_options_with_dtype(self.name(), self.dtype().clone(), out))
    }

    /// The values at the listed indices replaced by what `f` gives for the value that was
    /// there, under the same name and type, not flagged as sorted; refused with the first
    /// index that is out of bounds.
    fn set_at_idx_with<F>(&'a self, idx: Vec<IdxSize>, f: F) -> (res: PolarsResult<Self>) where
        F: Fn(Option<T::Physical>) -> Option<T::Physical>,
        ensures
            res is Ok <==> all_in_bounds(idx@, self@.values.len()),
            res matches Err(e) ==> e matches PolarsError::OutOfBounds { index, len } && len
                == self@.values.len() && is_first_out_of_bounds(idx@, self@.values.len(), index),
            res matches Ok(ca) ==> {
                &&& ca@.name == self@.name
                &&& ca@.dtype == self@.dtype
                &&& ca@.sorted == IsSorted::Not
                &&& ca@.values.len() == self@.values.len()
                &&& forall|i: int|
                    0 <= i < self@.values.len() ==> if listed(idx@, i) {
                        maps_to::<T, F>(f, self@.values[i], ca@.values[i])
                    } else {
                        ca@.values[i] == self@.values[i]
                    }
            },
    {
        match check_bounds(idx.as_slice(), self.len()) {
            Err(e) => return Err(e),
            Ok(()) => {},
        }
        let n = self.len();
        let mut out = self.to_vec();
        let mut k: usize = 0;
        while k < idx.len()
            invariant
                k <= idx@.len(),
                n == self@.values.len(),
                all_in_bounds(idx@, n as nat),
                forall|v: Option<T::Physical>| #[trigger] f.requires((v,)),
                out@.len() == n,
                forall|i: int|
                    0 <= i < n ==> if listed(idx@.take(k as int), i) {
                        maps_to::<T, F>(f, self@.values[i], out@[i].deep_view())
                    } else {
                        out@[i].deep_view() == self@.values[i]
                    },
            decreases idx@.len() - k,
        {
            let i = idx[k] as usize;
            assert(idx@[k as int] < n);
            let a = self.get_value(i);
            let ghost ga = a;
            let b = f(a);
            let ghost gb = b;
            let ghost prev = out@;
            out.set(i, b);
            proof {
                assert forall|j: int| 0 <= j < n implies if listed(idx@.take(k + 1), j) {
                    maps_to::<T, F>(f, self@.values[j], out@[j].deep_view())
                } else {
                    out@[j].deep_view() == self@.values[j]
                } by {
                    lemma_listed_push(idx@, k as int, j);
                    if j == i {
                        assert(f.ensures((ga,), gb));
                    } else {
                        assert(out@[j] == prev[j]);
                    }
                }
            }
            k = k + 1;
        }
        assert(idx@.take(k as int) =~= idx@);
        let ghost before = out@;
        proof {
            lemma_plain_values_fit::<T>(self@.dtype, out.deep_view());
        }
        let res = ChunkedArray::from_options_with_dtype(self.name(), self.dtype().clone(), out);
        assert forall|i: int| 0 <= i < n implies if listed(idx@, i) {
            maps_to::<T, F>(f, self@.values[i], res@.values[i])
        } else {
            res@.values[i] == self@.values[i]
        } by {
            assert(res@.values[i] == before[i].deep_view());

        }
        Ok(res)
    }

    /// The values where the mask is `true` set to `opt_value`, under the same name and type,
    /// not flagged as sorted; a mask of another length is refused.
    fn set(&'a self, mask: &BooleanChunked, opt_value: Option<T::Physical>) -> (res: PolarsResult<
        Self,
    >)
        ensures
            self@.values.len() != mask@.values.len() <==> res is Err,
            res matches Err(e) ==> e == (PolarsError::ShapeMismatch {
                left: self@.values.len() as usize,
                right: mask@.values.len() as usize,
            }),
            res matches Ok(ca) ==> ca@ == (ArraySpec {
                values: spec_set_mask(self@.values, mask@.values, opt_value.deep_view()),
                sorted: IsSorted::Not,
                ..self@
            }),
    {
        if self.len() != mask.len() {
            return Err(PolarsError::ShapeMismatch { left: self.len(), right: mask.len() });
        }
        let n = self.len();
        let mut out: Vec<Option<T::Physical>> = Vec::new();
        let mut i: usize = 0;
        while i < n
            invariant
                i <= n,
                n == self@.values.len(),
                n == mask@.values.len(),
                out@.len() == i,
                forall|j: int|
                    0 <= j < i ==> #[trigger] out@[j].deep_view() == (if selects(mask@.values[j]) {
                        opt_value.deep_view()
                    } else {
                        self@.values[j]
                    }),
            decreases n - i,
        {
            let m = mask.value_at(i);
            let hit = match m {
                Some(b) => *b,
                None => false,
            };
            assert(hit == selects(mask@.values[i as int]));
            if hit {
                out.push(clone_option::<T>(&opt_value));
            } else {
                out.push(self.get_value(i));
            }
            i = i + 1;
        }
        let ghost expected = spec_set_mask(self@.values, mask@.values, opt_value.deep_view());
        assert(out.deep_view() =~= expected);
        proof {
            lemma_plain_values_fit::<T>(self@.dtype, out.deep_view());
        }
        Ok(ChunkedArray::from_options_with_dtype(self.name(), self.dtype().clone(), out))
    }
}

} // verus!
