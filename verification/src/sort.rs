//! Sorting integer columns, and the positions that sort them.
use vstd::prelude::*;

use crate::chunked_array::{clone_option, ArraySpec, ChunkedArray, IdxCa, lemma_plain_values_fit};
use crate::datatypes::{IdxSize, IsSorted, PolarsNumericType};
use crate::ops::{ChunkSort, SortOptions};
use vstd::set_lib::{lemma_int_range, lemma_subset_equality, set_int_range};

verus! {

/// Whether the nullable value `a` may stand before `b` in a column sorted in the given
/// direction with nulls at the given end.
pub open spec fn may_precede<T: PolarsNumericType>(
    a: Option<<T::Physical as DeepView>::V>,
    b: Option<<T::Physical as DeepView>::V>,
    descending: bool,
    nulls_last: bool,
) -> bool {
    match a {
        None => match b {
            None => true,
            Some(_) => !nulls_last,
        },
        Some(x) => match b {
            None => nulls_last,
            Some(y) => if descending {
                T::spec_le(y, x)
            } else {
                T::spec_le(x, y)
            },
        },
    }
}

/// Whether `p` lists each position below `k` once, in the order that sorts the values at
/// those positions in the given direction with nulls at the given end, positions of equal
/// values in increasing order.
pub open spec fn sorts_prefix<T: PolarsNumericType>(
    values: Seq<Option<<T::Physical as DeepView>::V>>,
    p: Seq<int>,
    k: int,
    descending: bool,
    nulls_last: bool,
) -> bool {
    &&& p.len() == k
    &&& forall|a: int| 0 <= a < p.len() ==> 0 <= #[trigger] p[a] < k
    &&& forall|a: int, b: int| 0 <= a < b < p.len() ==> #[trigger] p[a] != #[trigger] p[b]
    &&& forall|a: int, b: int|
        0 <= a < b < p.len() ==> may_precede::<T>(
            values[#[trigger] p[a]],
            values[#[trigger] p[b]],
            descending,
            nulls_last,
        )
    &&& forall|a: int, b: int|
        0 <= a < b < p.len() && may_precede::<T>(
            values[#[trigger] p[b]],
            values[#[trigger] p[a]],
            descending,
            nulls_last,
        ) ==> p[a] < p[b]
}

/// Whether `p` lists each position of `values` once, in the order that sorts the values
/// in the given direction with nulls at the given end, positions of equal values in
/// increasing order.
pub open spec fn is_sort_permutation<T: PolarsNumericType>(
    values: Seq<Option<<T::Physical as DeepView>::V>>,
    p: Seq<int>,
    descending: bool,
    nulls_last: bool,
) -> bool {
    sorts_prefix::<T>(values, p, values.len() as int, descending, nulls_last)
}

/// Positions as mathematical integers.
pub open spec fn as_positions(p: Seq<usize>) -> Seq<int> {
    p.map_values(|i: usize| i as int)
}

/// The order in which nullable values may stand is reflexive, transitive and total.
pub proof fn lemma_may_precede_order<T: PolarsNumericType>(
    a: Option<<T::Physical as DeepView>::V>,
    b: Option<<T::Physical as DeepView>::V>,
    c: Option<<T::Physical as DeepView>::V>,
    descending: bool,
    nulls_last: bool,
)
    ensures
        may_precede::<T>(a, a, descending, nulls_last),
        may_precede::<T>(a, b, descending, nulls_last) && may_precede::<T>(
            b,
            c,
            descending,
            nulls_last,
        ) ==> may_precede::<T>(a, c, descending, nulls_last),
        may_precede::<T>(a, b, descending, nulls_last) || may_precede::<T>(
            b,
            a,
            descending,
            nulls_last,
        ),
{
    match (a, b, c) {
        (Some(x), Some(y), Some(z)) => {
            T::lemma_total_order(x, y, z);
            T::lemma_total_order(z, y, x);
        },
        (Some(x), Some(y), None) => {
            T::lemma_total_order(x, y, x);
        },
        (Some(x), None, _) => {
            T::lemma_total_order(x, x, x);
        },
        (None, Some(y), _) => {
            T::lemma_total_order(y, y, y);
        },
        _ => {},
    }
}

/// Inserting position `k` after the positions whose values may stand before its value,
/// and before the others, extends an order of the positions below `k` to one of those
/// below `k + 1`.
pub proof fn lemma_insert_position<T: PolarsNumericType>(
    values: Seq<Option<<T::Physical as DeepView>::V>>,
    p: Seq<int>,
    k: int,
    j: int,
    descending: bool,
    nulls_last: bool,
)
    requires
        0 <= k < values.len(),
        sorts_prefix::<T>(values, p, k, descending, nulls_last),
        0 <= j <= p.len(),
        forall|a: int|
            0 <= a < j ==> may_precede::<T>(
                values[#[trigger] p[a]],
                values[k],
                descending,
                nulls_last,
            ),
        j < p.len() ==> !may_precede::<T>(values[p[j]], values[k], descending, nulls_last),
    ensures
        sorts_prefix::<T>(values, p.insert(j, k), k + 1, descending, nulls_last),
{
    let q = p.insert(j, k);
    assert forall|a: int, b: int| 0 <= a < b < q.len() implies may_precede::<T>(
        values[#[trigger] q[a]],
        values[#[trigger] q[b]],
        descending,
        nulls_last,
    ) by {
        if a < j && b == j {
        } else if a == j && b > j {
            let x = values[p[j]];
            lemma_may_precede_order::<T>(x, values[k], x, descending, nulls_last);
            if b - 1 > j {
                lemma_may_precede_order::<T>(
                    values[k],
                    x,
                    values[p[b - 1]],
                    descending,
                    nulls_last,
                );
            }
        } else {
            let oa = if a < j { a } else { a - 1 };
            let ob = if b < j { b } else { b - 1 };
            assert(q[a] == p[oa]);
            assert(q[b] == p[ob]);
        }
    }
    assert forall|a: int, b: int|
        0 <= a < b < q.len() && may_precede::<T>(
            values[#[trigger] q[b]],
            values[#[trigger] q[a]],
            descending,
            nulls_last,
        ) implies q[a] < q[b] by {
        if a < j && b == j {
        } else if a == j && b > j {
            let x = values[p[j]];
            let y = values[p[b - 1]];
            if b - 1 > j {
                lemma_may_precede_order::<T>(x, y, values[k], descending, nulls_last);
            }
        } else {
            let oa = if a < j { a } else { a - 1 };
            let ob = if b < j { b } else { b - 1 };
            assert(q[a] == p[oa]);
            assert(q[b] == p[ob]);
        }
    }
    assert forall|a: int, b: int| 0 <= a < b < q.len() implies #[trigger] q[a] != #[trigger] q[b] by {
        if a != j && b != j {
            let oa = if a < j { a } else { a - 1 };
            let ob = if b < j { b } else { b - 1 };
            assert(q[a] == p[oa]);
            assert(q[b] == p[ob]);
        } else if a == j {
            assert(q[b] == p[b - 1]);
        } else {
            assert(q[a] == p[a]);
        }
    }
    assert forall|a: int| 0 <= a < q.len() implies 0 <= #[trigger] q[a] < k + 1 by {
        if a < j {
            assert(q[a] == p[a]);
        } else if a > j {
            assert(q[a] == p[a - 1]);
        }
    }
}

/// The first place at or after `j` where the value at position `k` may not come after the
/// value listed there.
pub open spec fn insert_place<T: PolarsNumericType>(
    values: Seq<Option<<T::Physical as DeepView>::V>>,
    p: Seq<int>,
    k: int,
    j: int,
    descending: bool,
    nulls_last: bool,
) -> int
    decreases p.len() - j,
{
    if j < p.len() && may_precede::<T>(values[p[j]], values[k], descending, nulls_last) {
        insert_place::<T>(values, p, k, j + 1, descending, nulls_last)
    } else {
        j
    }
}

proof fn lemma_insert_place<T: PolarsNumericType>(
    values: Seq<Option<<T::Physical as DeepView>::V>>,
    p: Seq<int>,
    k: int,
    j: int,
    descending: bool,
    nulls_last: bool,
)
    requires
        0 <= j <= p.len(),
    ensures
        j <= insert_place::<T>(values, p, k, j, descending, nulls_last) <= p.len(),
        forall|a: int|
            j <= a < insert_place::<T>(values, p, k, j, descending, nulls_last) ==> may_precede::<T>(
                values[#[trigger] p[a]],
                values[k],
                descending,
                nulls_last,
            ),
        insert_place::<T>(values, p, k, j, descending, nulls_last) < p.len() ==> !may_precede::<T>(
            values[p[insert_place::<T>(values, p, k, j, descending, nulls_last)]],
            values[k],
            descending,
            nulls_last,
        ),
    decreases p.len() - j,
{
    if j < p.len() && may_precede::<T>(values[p[j]], values[k], descending, nulls_last) {
        lemma_insert_place::<T>(values, p, k, j + 1, descending, nulls_last);
    }
}

/// Every column has an order that sorts it: the positions below `k` can always be ordered.
pub proof fn lemma_sorts_prefix_exists<T: PolarsNumericType>(
    values: Seq<Option<<T::Physical as DeepView>::V>>,
    k: int,
    descending: bool,
    nulls_last: bool,
)
    requires
        0 <= k <= values.len(),
    ensures
        exists|p: Seq<int>| #[trigger] sorts_prefix::<T>(values, p, k, descending, nulls_last),
    decreases k,
{
    if k == 0 {
        assert(sorts_prefix::<T>(values, Seq::<int>::empty(), 0, descending, nulls_last));
    } else {
        lemma_sorts_prefix_exists::<T>(values, k - 1, descending, nulls_last);
        let p = choose|p: Seq<int>| #[trigger] sorts_prefix::<T>(values, p, k - 1, descending, nulls_last);
        lemma_insert_place::<T>(values, p, k - 1, 0, descending, nulls_last);
        let j = insert_place::<T>(values, p, k - 1, 0, descending, nulls_last);
        lemma_insert_position::<T>(values, p, k - 1, j, descending, nulls_last);
        assert(sorts_prefix::<T>(values, p.insert(j, k - 1), k, descending, nulls_last));
    }
}

/// Whether the nullable stored value `a` may stand before `b`.
fn precedes<T: PolarsNumericType>(
    a: &Option<T::Physical>,
    b: &Option<T::Physical>,
    descending: bool,
    nulls_last: bool,
) -> (res: bool)
    ensures
        res == may_precede::<T>(a.deep_view(), b.deep_view(), descending, nulls_last),
{
    match a {
        None => match b {
            None => true,
            Some(_) => !nulls_last,
        },
        Some(x) => match b {
            None => nulls_last,
            Some(y) => if descending {
                T::le_physical(y, x)
            } else {
                T::le_physical(x, y)
            },
        },
    }
}

impl<T: PolarsNumericType> ChunkedArray<T> {
    /// The positions that sort the column stably in the given direction with nulls at the
    /// given end.
    pub fn sort_positions(&self, descending: bool, nulls_last: bool) -> (res: Vec<usize>)
        ensures
            is_sort_permutation::<T>(self@.values, as_positions(res@), descending, nulls_last),
    {
        let n = self.len();
        let ghost vals = self@.values;
        let mut out: Vec<usize> = Vec::new();
        let mut k: usize = 0;
        assert(as_positions(out@) =~= Seq::<int>::empty());
        while k < n
            invariant
                k <= n,
                n == vals.len(),
                vals == self@.values,
                sorts_prefix::<T>(vals, as_positions(out@), k as int, descending, nulls_last),
            decreases n - k,
        {
            let ghost p = as_positions(out@);
            assert forall|a: int| 0 <= a < out@.len() implies #[trigger] out@[a] < k by {
                assert(p[a] == out@[a] as int);
            }
            let mut j: usize = 0;
            while j < out.len() && precedes::<T>(
                self.value_at(out[j]),
                self.value_at(k),
                descending,
                nulls_last,
            )
                invariant
                    j <= out@.len(),
                    k < n,
                    n == vals.len(),
                    vals == self@.values,
                    p == as_positions(out@),
                    sorts_prefix::<T>(vals, p, k as int, descending, nulls_last),
                    forall|a: int| 0 <= a < out@.len() ==> #[trigger] out@[a] < k,
                    forall|a: int|
                        0 <= a < j ==> may_precede::<T>(
                            vals[#[trigger] p[a]],
                            vals[k as int],
                            descending,
                            nulls_last,
                        ),
                decreases out@.len() - j,
            {
                assert(p[j as int] == out@[j as int] as int);
                j = j + 1;
            }
            proof {
                if j < out@.len() {
                    assert(p[j as int] == out@[j as int] as int);
                }
                lemma_insert_position::<T>(vals, p, k as int, j as int, descending, nulls_last);
            }
            out.insert(j, k);
            assert(as_positions(out@) =~= p.insert(j as int, k as int));
            k = k + 1;
        }
        out
    }
}

/// The positions of distinct indices below `n`, as many as `n`, are all the indices
/// below `n`.
pub proof fn lemma_positions_cover(p: Seq<int>, n: nat, i: int)
    requires
        p.len() == n,
        forall|k: int| 0 <= k < p.len() ==> 0 <= #[trigger] p[k] < n,
        forall|k: int, l: int| 0 <= k < l < p.len() ==> #[trigger] p[k] != #[trigger] p[l],
        0 <= i < n,
    ensures
        exists|k: int| 0 <= k < p.len() && #[trigger] p[k] == i,
{
    assert(p.no_duplicates()) by {
        assert forall|k: int, l: int| 0 <= k < p.len() && 0 <= l < p.len() && k != l implies p[k]
            != p[l] by {
            if k < l {
            } else {
            }
        }
    }
    p.unique_seq_to_set();
    lemma_int_range(0, n as int);
    assert(p.to_set().subset_of(set_int_range(0, n as int)));
    lemma_subset_equality(p.to_set(), set_int_range(0, n as int));
    assert(set_int_range(0, n as int).contains(i));
    assert(p.to_set().contains(i));
}

/// Two sorting permutations agree on their first `k + 1` positions.
proof fn lemma_sort_permutation_prefix<T: PolarsNumericType>(
    values: Seq<Option<<T::Physical as DeepView>::V>>,
    p: Seq<int>,
    q: Seq<int>,
    descending: bool,
    nulls_last: bool,
    k: int,
)
    requires
        is_sort_permutation::<T>(values, p, descending, nulls_last),
        is_sort_permutation::<T>(values, q, descending, nulls_last),
        0 <= k < p.len(),
    ensures
        forall|l: int| 0 <= l <= k ==> #[trigger] p[l] == q[l],
    decreases k,
{
    if k > 0 {
        lemma_sort_permutation_prefix::<T>(values, p, q, descending, nulls_last, k - 1);
    }
    let x = p[k];
    let y = q[k];
    if x != y {
        lemma_positions_cover(q, values.len(), x);
        let l = choose|l: int| 0 <= l < q.len() && #[trigger] q[l] == x;
        if l < k {
            assert(p[l] == q[l]);
        }
        lemma_positions_cover(p, values.len(), y);
        let m = choose|m: int| 0 <= m < p.len() && #[trigger] p[m] == y;
        if m < k {
            assert(p[m] == q[m]);
        }
        assert(k < l && k < m);
        assert(may_precede::<T>(values[p[k]], values[p[m]], descending, nulls_last));
        assert(may_precede::<T>(values[q[k]], values[q[l]], descending, nulls_last));
        assert(false);
    }
}

/// There is only one stable order that sorts a column: two sorting permutations are equal.
pub proof fn law_sort_permutation_unique<T: PolarsNumericType>(
    values: Seq<Option<<T::Physical as DeepView>::V>>,
    p: Seq<int>,
    q: Seq<int>,
    descending: bool,
    nulls_last: bool,
)
    requires
        is_sort_permutation::<T>(values, p, descending, nulls_last),
        is_sort_permutation::<T>(values, q, descending, nulls_last),
    ensures
        p == q,
{
    if p.len() > 0 {
        lemma_sort_permutation_prefix::<T>(values, p, q, descending, nulls_last, p.len() - 1);
    }
    assert(p =~= q);
}

/// The positions that sort the values stably in the given direction with nulls at the
/// given end.
pub open spec fn spec_sort_positions<T: PolarsNumericType>(
    values: Seq<Option<<T::Physical as DeepView>::V>>,
    descending: bool,
    nulls_last: bool,
) -> Seq<int> {
    choose|p: Seq<int>| is_sort_permutation::<T>(values, p, descending, nulls_last)
}

/// The values sorted stably in the given direction with nulls at the given end.
pub open spec fn spec_sorted<T: PolarsNumericType>(
    values: Seq<Option<<T::Physical as DeepView>::V>>,
    descending: bool,
    nulls_last: bool,
) -> Seq<Option<<T::Physical as DeepView>::V>> {
    spec_sort_positions::<T>(values, descending, nulls_last).map_values(|i: int| values[i])
}

/// The sortedness flag of a column sorted in the given direction.
pub open spec fn sorted_flag(descending: bool) -> IsSorted {
    if descending {
        IsSorted::Descending
    } else {
        IsSorted::Ascending
    }
}

impl<T: PolarsNumericType> ChunkSort<T> for ChunkedArray<T> {
    open spec fn sort_len(&self) -> nat {
        self@.values.len()
    }

    /// The values sorted stably in the direction and with nulls at the end that the options
    /// give, under the same name and type, flagged as sorted in that direction.
    fn sort_with(&self, options: SortOptions) -> (res: ChunkedArray<T>)
        ensures
            res@ == (ArraySpec {
                values: spec_sorted::<T>(self@.values, options.descending, options.nulls_last),
                sorted: sorted_flag(options.descending),
                ..self@
            }),
    {
        let positions = self.sort_positions(options.descending, options.nulls_last);
        proof {
            let p = as_positions(positions@);
            law_sort_permutation_unique::<T>(
                self@.values,
                p,
                spec_sort_positions::<T>(self@.values, options.descending, options.nulls_last),
                options.descending,
                options.nulls_last,
            );
        }
        let n = positions.len();
        let mut out: Vec<Option<T::Physical>> = Vec::new();
        let mut k: usize = 0;
        while k < n
            invariant
                k <= n,
                n == positions@.len(),
                is_sort_permutation::<T>(
                    self@.values,
                    as_positions(positions@),
                    options.descending,
                    options.nulls_last,
                ),
                out@.len() == k,
                forall|j: int|
                    0 <= j < k ==> #[trigger] out@[j].deep_view() == self@.values[positions@[j] as int],
            decreases n - k,
        {
            assert(as_positions(positions@)[k as int] == positions@[k as int] as int);
            out.push(clone_option::<T>(self.value_at(positions[k])));
            k = k + 1;
        }
        let ghost expected = spec_sorted::<T>(self@.values, options.descending, options.nulls_last);
        assert(out.deep_view() =~= expected);
        proof {
            lemma_plain_values_fit::<T>(self@.dtype, out.deep_view());
        }
        let mut res = ChunkedArray::from_options_with_dtype(self.name(), self.dtype().clone(), out);
        res.set_sorted_flag(if options.descending {
            IsSorted::Descending
        } else {
            IsSorted::Ascending
        });
        res
    }

    /// The values sorted stably in the given direction, nulls first.
    fn sort(&self, descending: bool) -> (res: ChunkedArray<T>)
        ensures
            res@ == (ArraySpec {
                values: spec_sorted::<T>(self@.values, descending, false),
                sorted: sorted_flag(descending),
                ..self@
            }),
    {
        self.sort_with(SortOptions { descending, ..Default::default() })
    }

    /// The positions that sort the values stably in the direction and with nulls at the end
    /// that the options give, under the same name.
    fn arg_sort(&self, options: SortOptions) -> (res: IdxCa)
        ensures
            res@.name == self@.name,
            res@.sorted == IsSorted::Not,
            res@.values == spec_sort_positions::<T>(
                self@.values,
                options.descending,
                options.nulls_last,
            ).map_values(|i: int| Some(i as IdxSize)),
    {
        let positions = self.sort_positions(options.descending, options.nulls_last);
        proof {
            law_sort_permutation_unique::<T>(
                self@.values,
                as_positions(positions@),
                spec_sort_positions::<T>(self@.values, options.descending, options.nulls_last),
                options.descending,
                options.nulls_last,
            );
        }
        let n = positions.len();
        let mut out: Vec<Option<IdxSize>> = Vec::new();
        let mut k: usize = 0;
        while k < n
            invariant
                k <= n,
                n == positions@.len(),
                n == self@.values.len(),
                n <= 0x1_0000_0000,
                is_sort_permutation::<T>(
                    self@.values,
                    as_positions(positions@),
                    options.descending,
                    options.nulls_last,
                ),
                out@.len() == k,
                forall|j: int| 0 <= j < k ==> #[trigger] out@[j] == Some(positions@[j] as IdxSize),
            decreases n - k,
        {
            assert(as_positions(positions@)[k as int] == positions@[k as int] as int);
            out.push(Some(positions[k] as IdxSize));
            k = k + 1;
        }
        let ghost expected = spec_sort_positions::<T>(
            self@.values,
            options.descending,
            options.nulls_last,
        ).map_values(|i: int| Some(i as IdxSize));
        assert(out.deep_view() =~= expected);
        IdxCa::from_options(self.name(), out)
    }
}

} // verus!
