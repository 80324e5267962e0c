//! Elementwise application of functions.
use vstd::prelude::*;

use crate::chunked_array::{ArraySpec, ChunkedArray, lemma_plain_values_fit};
use crate::datatypes::{IsSorted, PlainValueType, PolarsDataType};
use crate::error::{PolarsError, PolarsResult};
use crate::ops::ChunkApply;
use crate::set::maps_to;

verus! {

/// Whether `f` may give a value with the model `to` for some value with the model `from`.
pub open spec fn applies<T: PolarsDataType, F: Fn(T::Physical) -> T::Physical>(
    f: F,
    from: <T::Physical as DeepView>::V,
    to: <T::Physical as DeepView>::V,
) -> bool {
    exists|a: T::Physical, b: T::Physical|
        #[trigger] f.ensures((a,), b) && a.deep_view() == from && b.deep_view() == to
}

/// Whether `f` may give a value with the model `to` for the index `i` and some value
/// with the model `from`.
pub open spec fn applies_at<T: PolarsDataType, F: Fn((usize, T::Physical)) -> T::Physical>(
    f: F,
    i: int,
    from: <T::Physical as DeepView>::V,
    to: <T::Physical as DeepView>::V,
) -> bool {
    exists|a: T::Physical, b: T::Physical|
        #[trigger] f.ensures(((i as usize, a),), b) && a.deep_view() == from && b.deep_view() == to
}

/// Whether `f` may give a nullable value with the model `to` for the index `i` and some
/// nullable value with the model `from`.
pub open spec fn maps_at<T: PolarsDataType, F: Fn((usize, Option<T::Physical>)) -> Option<
    T::Physical,
>>(f: F, i: int, from: Option<<T::Physical as DeepView>::V>, to: Option<<T::Physical as DeepView>::V>) -> bool {
    exists|a: Option<T::Physical>, b: Option<T::Physical>|
        #[trigger] f.ensures(((i as usize, a),), b) && a.deep_view() == from && b.deep_view() == to
}

/// Whether `f` may give the error `e` for some value with the model `from`.
pub open spec fn fails_with<T: PolarsDataType, F: Fn(T::Physical) -> PolarsResult<T::Physical>>(
    f: F,
    from: <T::Physical as DeepView>::V,
    e: PolarsError,
) -> bool {
    exists|a: T::Physical|
        #[trigger] f.ensures((a,), Err::<T::Physical, PolarsError>(e)) && a.deep_view() == from
}

/// Whether `f` may give `Ok` of a value with the model `to` for some value with the model
/// `from`.
pub open spec fn succeeds_with<T: PolarsDataType, F: Fn(T::Physical) -> PolarsResult<T::Physical>>(
    f: F,
    from: <T::Physical as DeepView>::V,
    to: <T::Physical as DeepView>::V,
) -> bool {
    exists|a: T::Physical, b: T::Physical|
        #[trigger] f.ensures((a,), Ok::<T::Physical, PolarsError>(b)) && a.deep_view() == from
            && b.deep_view() == to
}

/// Whether `f` may give `after` for some nullable value with the model `from` and `before`.
pub open spec fn updates<T: PolarsDataType, S, F: Fn(Option<T::Physical>, &S) -> S>(
    f: F,
    from: Option<<T::Physical as DeepView>::V>,
    before: S,
    after: S,
) -> bool {
    exists|a: Option<T::Physical>| #[trigger] f.ensures((a, &before), after) && a.deep_view() == from
}

/// Whether `f` may succeed on some value with the model `from`.
pub open spec fn succeeds_on<T: PolarsDataType, F: Fn(T::Physical) -> PolarsResult<T::Physical>>(
    f: F,
    from: <T::Physical as DeepView>::V,
) -> bool {
    exists|to: <T::Physical as DeepView>::V| succeeds_with::<T, F>(f, from, to)
}

/// Whether `f` succeeded on every non-null value before position `i`.
pub open spec fn succeeded_before<T: PolarsDataType, F: Fn(T::Physical) -> PolarsResult<
    T::Physical,
>>(f: F, values: Seq<Option<<T::Physical as DeepView>::V>>, i: int) -> bool {
    forall|j: int|
        0 <= j < i ==> match #[trigger] values[j] {
            Some(x) => succeeds_on::<T, F>(f, x),
            None => true,
        }
}

/// Whether each non-null value of `out` is what `f` may give for the value of `values` at
/// the same position, and the nulls are at the same positions.
pub open spec fn mapped_non_null<T: PolarsDataType, F: Fn(T::Physical) -> T::Physical>(
    f: F,
    values: Seq<Option<<T::Physical as DeepView>::V>>,
    out: Seq<Option<<T::Physical as DeepView>::V>>,
) -> bool {
    &&& out.len() == values.len()
    &&& forall|i: int|
        0 <= i < values.len() ==> match values[i] {
            Some(x) => #[trigger] out[i] matches Some(y) && applies::<T, F>(f, x, y),
            None => out[i] is None,
        }
}

impl<'a, T: PlainValueType> ChunkApply<'a, T::Physical> for ChunkedArray<T> {
    type FuncRet = T::Physical;

    open spec fn apply_len(&self) -> nat {
        self@.values.len()
    }

    /// `f` applied to a copy of each non-null value; nulls stay null; under the same name
    /// and type, not flagged as sorted.
    fn apply<F>(&'a self, f: F) -> (res: Self) where
        F: Fn(T::Physical) -> T::Physical + Copy,
        ensures
            res@.name == self@.name,
            res@.dtype == self@.dtype,
            res@.sorted == IsSorted::Not,
            mapped_non_null::<T, F>(f, self@.values, res@.values),
    {
        let n = self.len();
        let mut out: Vec<Option<T::Physical>> = Vec::new();
        let mut i: usize = 0;
        while i < n
            invariant
                i <= n,
                n == self@.values.len(),
                forall|x: T::Physical| #[trigger] f.requires((x,)),
                out@.len() == i,
                forall|j: int|
                    0 <= j < i ==> match self@.values[j] {
                        Some(x) => #[trigger] out@[j].deep_view() matches Some(y) && applies::<T, F>(
                            f,
                            x,
                            y,
                        ),
                        None => out@[j] is None,
                    },
            decreases n - i,
        {
            let v = self.get_value(i);
            match v {
                Some(x) => {
                    let ghost gx = x;
                    let y = f(x);
                    assert(f.ensures((gx,), y));
                    out.push(Some(y));
                },
                None => out.push(None),
            }
            i = i + 1;
        }
        let ghost before = out@;
        proof {
            lemma_plain_values_fit::<T>(self@.dtype, out.deep_view());
        }
        let res = ChunkedArray::from_options_with_dtype(self.name(), self.dtype().clone(), out);
        assert forall|j: int| 0 <= j < n implies #[trigger] res@.values[j] == before[j].deep_view() by {}
        res
    }

    /// `f` applied to a copy of each non-null value, nulls staying null, under the same name
    /// and type, not flagged as sorted; or the error that `f` gives at the first non-null
    /// value on which it fails, after succeeding on every non-null value before it.
    fn try_apply<F>(&'a self, f: F) -> (res: PolarsResult<Self>) where
        F: Fn(T::Physical) -> PolarsResult<T::Physical> + Copy,
        ensures
            res matches Ok(ca) ==> {
                &&& ca@.name == self@.name
                &&& ca@.dtype == self@.dtype
                &&& ca@.sorted == IsSorted::Not
                &&& ca@.values.len() == self@.values.len()
                &&& forall|i: int|
                    0 <= i < self@.values.len() ==> match self@.values[i] {
                        Some(x) => #[trigger] ca@.values[i] matches Some(y) && succeeds_with::<
                            T,
                            F,
                        >(f, x, y),
                        None => ca@.values[i] is None,
                    }
            },
            res matches Err(e) ==> exists|i: int|
                0 <= i < self@.values.len() && (#[trigger] self@.values[i] matches Some(x)
                    && fails_with::<T, F>(f, x, e)) && succeeded_before::<T, F>(f, self@.values, i),
    {
        let n = self.len();
        let mut out: Vec<Option<T::Physical>> = Vec::new();
        let mut i: usize = 0;
        while i < n
            invariant
                i <= n,
                n == self@.values.len(),
                forall|x: T::Physical| #[trigger] f.requires((x,)),
                out@.len() == i,
                forall|j: int|
                    0 <= j < i ==> match self@.values[j] {
                        Some(x) => #[trigger] out@[j].deep_view() matches Some(y) && succeeds_with::<
                            T,
                            F,
                        >(f, x, y),
                        None => out@[j] is None,
                    },
            decreases n - i,
        {
            let v = self.get_value(i);
            match v {
                Some(x) => {
                    let ghost gx = x;
                    match f(x) {
                        Ok(y) => {
                            assert(f.ensures((gx,), Ok::<T::Physical, PolarsError>(y)));
                            out.push(Some(y));
                        },
                        Err(e) => {
                            assert(f.ensures((gx,), Err::<T::Physical, PolarsError>(e)));
                            assert(self@.values[i as int] matches Some(x) && fails_with::<T, F>(
                                f,
                                x,
                                e,
                            ));
                            assert forall|j: int| 0 <= j < i implies match #[trigger] self@.values[j] {
                                Some(x) => succeeds_on::<T, F>(f, x),
                                None => true,
                            } by {
                                if let Some(x) = self@.values[j] {
                                    let y = out@[j].deep_view()->0;
                                    assert(succeeds_with::<T, F>(f, x, y));
                                }
                            }
                            assert(succeeded_before::<T, F>(f, self@.values, i as int));
                            return Err(e);
                        },
                    }
                },
                None => out.push(None),
            }
            i = i + 1;
        }
        let ghost before = out@;
        proof {
            lemma_plain_values_fit::<T>(self@.dtype, out.deep_view());
        }
        let res = ChunkedArray::from_options_with_dtype(self.name(), self.dtype().clone(), out);
        assert forall|j: int| 0 <= j < n implies #[trigger] res@.values[j] == before[j].deep_view() by {}
        Ok(res)
    }

    /// `f` applied to a copy of each value, nulls included, under the same name and type,
    /// not flagged as sorted.
    fn apply_on_opt<F>(&'a self, f: F) -> (res: Self) where
        F: Fn(Option<T::Physical>) -> Option<T::Physical> + Copy,
        ensures
            res@.name == self@.name,
            res@.dtype == self@.dtype,
            res@.sorted == IsSorted::Not,
            res@.values.len() == self@.values.len(),
            forall|i: int|
                0 <= i < self@.values.len() ==> maps_to::<T, F>(
                    f,
                    self@.values[i],
                    #[trigger] res@.values[i],
                ),
    {
        let n = self.len();
        let mut out: Vec<Option<T::Physical>> = Vec::new();
        let mut i: usize = 0;
        while i < n
            invariant
                i <= n,
                n == self@.values.len(),
                forall|x: Option<T::Physical>| #[trigger] f.requires((x,)),
                out@.len() == i,
                forall|j: int|
                    0 <= j < i ==> maps_to::<T, F>(
                        f,
                        self@.values[j],
                        #[trigger] out@[j].deep_view(),
                    ),
            decreases n - i,
        {
            let v = self.get_value(i);
            let ghost gv = v;
            let y = f(v);
            assert(f.ensures((gv,), y));
            out.push(y);
            i = i + 1;
        }
        let ghost before = out@;
        proof {
            lemma_plain_values_fit::<T>(self@.dtype, out.deep_view());
        }
        let res = ChunkedArray::from_options_with_dtype(self.name(), self.dtype().clone(), out);
        assert forall|j: int| 0 <= j < n implies #[trigger] res@.values[j] == before[j].deep_view() by {}
        res
    }

    /// `f` applied to the index and a copy of each non-null value; nulls stay null; under
    /// the same name and type, not flagged as sorted.
    fn apply_with_idx<F>(&'a self, f: F) -> (res: Self) where
        F: Fn((usize, T::Physical)) -> T::Physical + Copy,
        ensures
            res@.name == self@.name,
            res@.dtype == self@.dtype,
            res@.sorted == IsSorted::Not,
            res@.values.len() == self@.values.len(),
            forall|i: int|
                0 <= i < self@.values.len() ==> match self@.values[i] {
                    Some(x) => #[trigger] res@.values[i] matches Some(y) && applies_at::<T, F>(
                        f,
                        i,
                        x,
                        y,
                    ),
                    None => res@.values[i] is None,
                },
    {
        let n = self.len();
        let mut out: Vec<Option<T::Physical>> = Vec::new();
        let mut i: usize = 0;
        while i < n
            invariant
                i <= n,
                n == self@.values.len(),
                forall|x: (usize, T::Physical)| #[trigger] f.requires((x,)),
                out@.len() == i,
                forall|j: int|
                    0 <= j < i ==> match self@.values[j] {
                        Some(x) => #[trigger] out@[j].deep_view() matches Some(y) && applies_at::<
                            T,
                            F,
                        >(f, j, x, y),
                        None => out@[j] is None,
                    },
            decreases n - i,
        {
            let v = self.get_value(i);
            match v {
                Some(x) => {
                    let ghost gx = x;
                    let y = f((i, x));
                    assert(f.ensures((((i as int) as usize, gx),), y));
                    assert(applies_at::<T, F>(f, i as int, gx.deep_view(), y.deep_view()));
                    out.push(Some(y));
                },
                None => out.push(None),
            }
            i = i + 1;
        }
        let ghost before = out@;
        proof {
            lemma_plain_values_fit::<T>(self@.dtype, out.deep_view());
        }
        let res = ChunkedArray::from_options_with_dtype(self.name(), self.dtype().clone(), out);
        assert forall|j: int| 0 <= j < n implies #[trigger] res@.values[j] == before[j].deep_view() by {}
        res
    }

    /// `f` applied to the index and a copy of each value, nulls included, under the same
    /// name and type, not flagged as sorted.
    fn apply_with_idx_on_opt<F>(&'a self, f: F) -> (res: Self) where
        F: Fn((usize, Option<T::Physical>)) -> Option<T::Physical> + Copy,
        ensures
            res@.name == self@.name,
            res@.dtype == self@.dtype,
            res@.sorted == IsSorted::Not,
            res@.values.len() == self@.values.len(),
            forall|i: int|
                0 <= i < self@.values.len() ==> maps_at::<T, F>(
                    f,
                    i,
                    self@.values[i],
                    #[trigger] res@.values[i],
                ),
    {
        let n = self.len();
        let mut out: Vec<Option<T::Physical>> = Vec::new();
        let mut i: usize = 0;
        while i < n
            invariant
                i <= n,
                n == self@.values.len(),
                forall|x: (usize, Option<T::Physical>)| #[trigger] f.requires((x,)),
                out@.len() == i,
                forall|j: int|
                    0 <= j < i ==> maps_at::<T, F>(
                        f,
                        j,
                        self@.values[j],
                        #[trigger] out@[j].deep_view(),
                    ),
            decreases n - i,
        {
            let v = self.get_value(i);
            let ghost gv = v;
            let y = f((i, v));
            assert(f.ensures((((i as int) as usize, gv),), y));
            assert(maps_at::<T, F>(f, i as int, gv.deep_view(), y.deep_view()));
            out.push(y);
            i = i + 1;
        }
        let ghost before = out@;
        proof {
            lemma_plain_values_fit::<T>(self@.dtype, out.deep_view());
        }
        let res = ChunkedArray::from_options_with_dtype(self.name(), self.dtype().clone(), out);
        assert forall|j: int| 0 <= j < n implies #[trigger] res@.values[j] == before[j].deep_view() by {}
        res
    }

    /// Each of the first elements of `slice`, one per value of the column, replaced by what
    /// `f` gives for the value at the same position and that element; the other elements
    /// stay as they were.
    fn apply_to_slice<F, S>(&'a self, f: F, slice: &mut [S]) where
        F: Fn(Option<T::Physical>, &S) -> S,
        ensures
            final(slice)@.len() == old(slice)@.len(),
            forall|i: int|
                0 <= i < self@.values.len() ==> updates::<T, S, F>(
                    f,
                    self@.values[i],
                    old(slice)@[i],
                    #[trigger] final(slice)@[i],
                ),
            forall|i: int|
                self@.values.len() <= i < old(slice)@.len() ==> #[trigger] final(slice)@[i]
                    == old(slice)@[i],
    {
        let n = self.len();
        let ghost initial = slice@;
        let mut i: usize = 0;
        while i < n
            invariant
                i <= n,
                n == self@.values.len(),
                n <= initial.len(),
                slice@.len() == initial.len(),
                forall|x: Option<T::Physical>, s: &S| #[trigger] f.requires((x, s)),
                forall|j: int|
                    0 <= j < i ==> updates::<T, S, F>(
                        f,
                        self@.values[j],
                        initial[j],
                        #[trigger] slice@[j],
                    ),
                forall|j: int| i <= j < initial.len() ==> #[trigger] slice@[j] == initial[j],
            decreases n - i,
        {
            let v = self.get_value(i);
            let ghost gv = v;
            let y = f(v, &slice[i]);
            assert(f.ensures((gv, &initial[i as int]), y));
            slice[i] = y;
            i = i + 1;
        }
    }
}

} // verus!
