//! Properties that the operations on columns have together.
use vstd::prelude::*;

use crate::chunked_array::repeat;
use crate::compare::{spec_compare, Comparison};
use crate::datatypes::{
    Int16Type, Int32Type, Int64Type, Int8Type, SeriesSpec, UInt16Type, UInt32Type, UInt64Type,
    UInt8Type,
};
use crate::explode::{
    exploded_part, lemma_total_len_prefix, list_len, spec_exploded, spec_list_offsets, total_len,
};
use crate::datatypes::{IdxSize, IsSorted, PolarsNumericType};
use crate::filter::{count_selected, reversed_flag, selects, spec_filter, spec_reverse};
use crate::set::{listed, spec_set_at_idx, spec_set_mask};
use crate::shift::spec_shift;
use crate::sort::{
    is_sort_permutation, lemma_may_precede_order, lemma_sorts_prefix_exists,
    law_sort_permutation_unique, may_precede,
    sorts_prefix,
    spec_sort_positions, spec_sorted,
};
use crate::take::spec_take;
use crate::unique::{
    as_idx, first_mask, first_occurrences, last_mask, lemma_first_occurrences_bounds,
    lemma_first_occurrences_step, spec_unique,
};
use crate::zip::{spec_fill_null, spec_zip};

verus! {

/// Reversing a column twice gives back its values and its sortedness flag.
pub proof fn law_reverse_twice<V>(values: Seq<V>, sorted: IsSorted)
    ensures
        spec_reverse(spec_reverse(values)) == values,
        reversed_flag(reversed_flag(sorted)) == sorted,
{
    assert(spec_reverse(spec_reverse(values)) =~= values);
}

/// Filtering keeps as many values as the mask has `true` entries.
pub proof fn law_filter_len<V>(values: Seq<Option<V>>, mask: Seq<Option<bool>>)
    requires
        values.len() == mask.len(),
    ensures
        spec_filter(values, mask).len() == count_selected(mask),
    decreases values.len(),
{
    if values.len() > 0 {
        assert(mask.take(values.len() - 1) =~= mask.drop_last());
        law_filter_len(values.drop_last(), mask.take(values.len() - 1));
    }
}

/// A mask that is `true` everywhere keeps every value.
pub proof fn law_filter_all_true<V>(values: Seq<Option<V>>, mask: Seq<Option<bool>>)
    requires
        values.len() == mask.len(),
        forall|i: int| 0 <= i < mask.len() ==> #[trigger] mask[i] == Some(true),
    ensures
        spec_filter(values, mask) == values,
    decreases values.len(),
{
    if values.len() > 0 {
        let m = mask.take(values.len() - 1);
        assert forall|i: int| 0 <= i < m.len() implies #[trigger] m[i] == Some(true) by {
            assert(m[i] == mask[i]);
        }
        law_filter_all_true(values.drop_last(), m);
        assert(values.drop_last().push(values.last()) =~= values);
    }
}

/// Filtering is taking the values at the positions that the mask selects: the kept
/// values are those of the column at increasing positions, and every selected position
/// is kept.
pub proof fn law_filter_is_take<V>(values: Seq<Option<V>>, mask: Seq<Option<bool>>)
    requires
        values.len() == mask.len(),
    ensures
        exists|positions: Seq<int>|
            #![trigger positions.len()]
            positions.len() == spec_filter(values, mask).len() && (forall|k: int|
                0 <= k < positions.len() ==> 0 <= #[trigger] positions[k] < values.len()
                    && selects(mask[positions[k]]) && spec_filter(values, mask)[k]
                    == values[positions[k]]) && (forall|k: int, l: int|
                0 <= k < l < positions.len() ==> #[trigger] positions[k] < #[trigger] positions[l])
                && (forall|i: int|
                0 <= i < values.len() && selects(mask[i]) ==> exists|k: int|
                    0 <= k < positions.len() && #[trigger] positions[k] == i),
    decreases values.len(),
{
    if values.len() == 0 {
        let p = Seq::<int>::empty();
        assert(p.len() == spec_filter(values, mask).len());
    } else {
        let n = values.len() - 1;
        let pv = values.drop_last();
        let pm = mask.take(n);
        law_filter_is_take(pv, pm);
        let q = choose|positions: Seq<int>|
            #![trigger positions.len()]
            positions.len() == spec_filter(pv, pm).len() && (forall|k: int|
                0 <= k < positions.len() ==> 0 <= #[trigger] positions[k] < pv.len()
                    && selects(pm[positions[k]]) && spec_filter(pv, pm)[k] == pv[positions[k]])
                && (forall|k: int, l: int|
                0 <= k < l < positions.len() ==> #[trigger] positions[k] < #[trigger] positions[l])
                && (forall|i: int|
                0 <= i < pv.len() && selects(pm[i]) ==> exists|k: int|
                    0 <= k < positions.len() && #[trigger] positions[k] == i);
        if selects(mask[n]) {
            let p = q.push(n);
            assert forall|k: int| 0 <= k < p.len() implies 0 <= #[trigger] p[k] < values.len()
                && selects(mask[p[k]]) && spec_filter(values, mask)[k] == values[p[k]] by {
                if k < q.len() {
                    assert(pm[q[k]] == mask[q[k]]);
                }
            }
            assert forall|i: int| 0 <= i < values.len() && selects(mask[i]) implies exists|k: int|
                0 <= k < p.len() && #[trigger] p[k] == i by {
                if i < n {
                    assert(pm[i] == mask[i]);
                    let k = choose|k: int| 0 <= k < q.len() && #[trigger] q[k] == i;
                    assert(p[k] == i);
                } else {
                    assert(p[q.len() as int] == i);
                }
            }
            assert(p.len() == spec_filter(values, mask).len());
        } else {
            assert forall|k: int| 0 <= k < q.len() implies 0 <= #[trigger] q[k] < values.len()
                && selects(mask[q[k]]) && spec_filter(values, mask)[k] == values[q[k]] by {
                assert(pm[q[k]] == mask[q[k]]);
            }
            assert forall|i: int| 0 <= i < values.len() && selects(mask[i]) implies exists|k: int|
                0 <= k < q.len() && #[trigger] q[k] == i by {
                assert(pm[i] == mask[i]);
            }
            assert(q.len() == spec_filter(values, mask).len());
        }
    }
}

/// Setting values at a list of indices is the same as setting them where a mask selects
/// exactly the listed positions.
pub proof fn law_set_at_idx_is_set_with_mask<V>(
    values: Seq<Option<V>>,
    idx: Seq<IdxSize>,
    mask: Seq<Option<bool>>,
    v: Option<V>,
)
    requires
        mask.len() == values.len(),
        forall|i: int| 0 <= i < values.len() ==> (selects(#[trigger] mask[i]) <==> listed(idx, i)),
    ensures
        spec_set_at_idx(values, idx, v) == spec_set_mask(values, mask, v),
{
    assert(spec_set_at_idx(values, idx, v) =~= spec_set_mask(values, mask, v));
}

/// After setting values at a list of indices, each listed position holds the new value
/// and every other position its old one.
pub proof fn law_set_then_read<V>(values: Seq<Option<V>>, idx: Seq<IdxSize>, v: Option<V>, i: int)
    requires
        0 <= i < values.len(),
    ensures
        spec_set_at_idx(values, idx, v).len() == values.len(),
        listed(idx, i) ==> spec_set_at_idx(values, idx, v)[i] == v,
        !listed(idx, i) ==> spec_set_at_idx(values, idx, v)[i] == values[i],
{
}

/// Shifting by zero places changes nothing; shifting by at least the length leaves
/// nothing but the fill value.
pub proof fn law_shift_extremes<V>(values: Seq<Option<V>>, periods: int, fill: Option<V>)
    ensures
        spec_shift(values, 0, fill) == values,
        periods >= values.len() || periods <= -values.len() ==> spec_shift(values, periods, fill)
            == repeat(fill, values.len()),
{
    assert(spec_shift(values, 0, fill) =~= values);
    if periods >= values.len() || periods <= -values.len() {
        assert(spec_shift(values, periods, fill) =~= repeat(fill, values.len()));
    }
}

/// Shifting forward and then back by the same number of places gives back every value
/// that was not shifted out, and the fill value elsewhere.
pub proof fn law_shift_back<V>(values: Seq<Option<V>>, periods: int, fill: Option<V>, i: int)
    requires
        0 <= i < values.len(),
    ensures
        spec_shift(spec_shift(values, periods, fill), -periods, fill)[i] == if 0 <= i + periods
            < values.len() {
            values[i]
        } else {
            fill
        },
{
}

/// A mask that is `true` everywhere takes every value from the first column, one that is
/// never `true` every value from the second.
pub proof fn law_zip_extremes<V>(a: Seq<Option<V>>, b: Seq<Option<V>>, mask: Seq<Option<bool>>)
    requires
        a.len() == b.len(),
        a.len() == mask.len(),
    ensures
        (forall|i: int| 0 <= i < mask.len() ==> #[trigger] mask[i] == Some(true)) ==> spec_zip(
            a,
            mask,
            b,
        ) == a,
        (forall|i: int| 0 <= i < mask.len() ==> !selects(#[trigger] mask[i])) ==> spec_zip(
            a,
            mask,
            b,
        ) == b,
{
    if forall|i: int| 0 <= i < mask.len() ==> #[trigger] mask[i] == Some(true) {
        assert(spec_zip(a, mask, b) =~= a);
    }
    if forall|i: int| 0 <= i < mask.len() ==> !selects(#[trigger] mask[i]) {
        assert(spec_zip(a, mask, b) =~= b);
    }
}

/// Filling nulls leaves no null, keeps every non-null value, and filling again changes
/// nothing.
pub proof fn law_fill_null<V>(values: Seq<Option<V>>, v: V, w: V)
    ensures
        spec_fill_null(values, v).len() == values.len(),
        forall|i: int| 0 <= i < values.len() ==> #[trigger] spec_fill_null(values, v)[i] is Some,
        forall|i: int|
            0 <= i < values.len() && values[i] is Some ==> #[trigger] spec_fill_null(values, v)[i]
                == values[i],
        spec_fill_null(spec_fill_null(values, v), w) == spec_fill_null(values, v),
{
    assert(spec_fill_null(spec_fill_null(values, v), w) =~= spec_fill_null(values, v));
}

/// A column of copies of one value, as `new_from_index` gives, is sorted in ascending
/// order wherever its nulls would go: sorting it changes nothing, so the ascending flag that
/// `new_from_index` sets is true of it.
pub proof fn law_expanded_is_sorted<T: PolarsNumericType>(
    value: Option<<T::Physical as DeepView>::V>,
    n: nat,
    nulls_last: bool,
)
    ensures
        spec_sorted::<T>(repeat(value, n), false, nulls_last) == repeat(value, n),
{
    let values = repeat(value, n);
    let id = Seq::new(n, |i: int| i);
    lemma_may_precede_order::<T>(value, value, value, false, nulls_last);
    assert(sorts_prefix::<T>(values, id, n as int, false, nulls_last));
    assert(is_sort_permutation::<T>(values, id, false, nulls_last));
    law_sort_permutation_unique::<T>(
        values,
        id,
        spec_sort_positions::<T>(values, false, nulls_last),
        false,
        nulls_last,
    );
    assert(spec_sorted::<T>(values, false, nulls_last) =~= values);
}

/// The distinct values hold no value twice.
pub proof fn law_unique_distinct<V>(values: Seq<V>)
    ensures
        spec_unique(values).no_duplicates(),
    decreases values.len(),
{
    if values.len() > 0 {
        let n = values.len() - 1;
        law_unique_distinct(values.drop_last());
        assert(values.take(n) =~= values.drop_last());
        assert(values.take(n + 1) =~= values);
        lemma_first_occurrences_step(values, n);
        if !values.take(n).contains(values[n]) {
            let u = spec_unique(values.take(n));
            lemma_unique_in_prefix(values.take(n));
            assert forall|k: int, l: int|
                0 <= k < l < u.push(values[n]).len() implies u.push(values[n])[k] != u.push(
                values[n],
            )[l] by {
                if l == u.len() {
                    assert(values.take(n).contains(u[k]));
                }
            }
        }
    }
}

/// Every distinct value occurs in the column, and every value of the column is among the
/// distinct values.
pub proof fn law_unique_same_values<V>(values: Seq<V>)
    ensures
        forall|k: int|
            0 <= k < spec_unique(values).len() ==> values.contains(#[trigger] spec_unique(values)[k]),
        forall|i: int| 0 <= i < values.len() ==> spec_unique(values).contains(#[trigger] values[i]),
    decreases values.len(),
{
    lemma_unique_in_prefix(values);
    if values.len() > 0 {
        let n = values.len() - 1;
        law_unique_same_values(values.drop_last());
        assert(values.take(n) =~= values.drop_last());
        assert(values.take(n + 1) =~= values);
        lemma_first_occurrences_step(values, n);
        let u = spec_unique(values.take(n));
        assert forall|i: int| 0 <= i < values.len() implies spec_unique(values).contains(
            #[trigger] values[i],
        ) by {
            if i < n {
                assert(values.take(n)[i] == values[i]);
                let k = choose|k: int| 0 <= k < u.len() && u[k] == values.take(n)[i];
                if values.take(n).contains(values[n]) {
                    assert(spec_unique(values)[k] == values[i]);
                } else {
                    assert(spec_unique(values)[k] == values[i]);
                }
            } else {
                if values.take(n).contains(values[n]) {
                    let j = choose|j: int| 0 <= j < n && values.take(n)[j] == values[n];
                    assert(spec_unique(values.take(n)).contains(values.take(n)[j]));
                    let k = choose|k: int| 0 <= k < u.len() && u[k] == values.take(n)[j];
                    assert(spec_unique(values)[k] == values[i]);
                } else {
                    assert(spec_unique(values)[u.len() as int] == values[i]);
                }
            }
        }
    }
}

/// Every distinct value occurs in the column.
proof fn lemma_unique_in_prefix<V>(values: Seq<V>)
    ensures
        forall|k: int|
            0 <= k < spec_unique(values).len() ==> values.contains(#[trigger] spec_unique(values)[k]),
{
    lemma_first_occurrences_bounds(values);
    assert forall|k: int| 0 <= k < spec_unique(values).len() implies values.contains(
        #[trigger] spec_unique(values)[k],
    ) by {
        let p = first_occurrences(values)[k];
        assert(values[p] == spec_unique(values)[k]);
    }
}

/// The positions that `arg_unique` gives increase strictly and lie in the column, there are
/// no more of them than values, and taking the values at them gives the distinct values,
/// as `unique` does.
pub proof fn law_arg_unique_takes_unique<V>(values: Seq<Option<V>>)
    requires
        values.len() <= 0x1_0000_0000,
    ensures
        as_idx(first_occurrences(values)).len() <= values.len(),
        forall|k: int|
            0 <= k < as_idx(first_occurrences(values)).len() ==> #[trigger] as_idx(
                first_occurrences(values),
            )[k] < values.len(),
        forall|k: int, l: int|
            0 <= k < l < as_idx(first_occurrences(values)).len() ==> #[trigger] as_idx(
                first_occurrences(values),
            )[k] < #[trigger] as_idx(first_occurrences(values))[l],
        spec_take(values, as_idx(first_occurrences(values))) == spec_unique(values),
{
    lemma_first_occurrences_bounds(values);
    let f = first_occurrences(values);
    assert forall|k: int| 0 <= k < f.len() implies (f[k] as IdxSize) as int == f[k] by {}
    assert(spec_take(values, as_idx(f)) =~= spec_unique(values));
}

/// Filtering a column by its `is_first` mask gives its distinct values, as `unique` does.
pub proof fn law_filter_is_first_is_unique<V>(values: Seq<Option<V>>)
    ensures
        spec_filter(values, first_mask(values)) == spec_unique(values),
    decreases values.len(),
{
    if values.len() > 0 {
        let n = values.len() - 1;
        let prefix = values.drop_last();
        law_filter_is_first_is_unique(prefix);
        assert(first_mask(values).take(n) =~= first_mask(prefix)) by {
            assert forall|i: int| 0 <= i < n implies #[trigger] first_mask(values).take(n)[i]
                == first_mask(prefix)[i] by {
                assert(values.take(i) =~= prefix.take(i));
            }
        }
        assert(values.take(n) =~= prefix);
        assert(values.take(n + 1) =~= values);
        lemma_first_occurrences_step(values, n);
    } else {
        assert(spec_unique(values) =~= Seq::<Option<V>>::empty());
    }
}

/// Taking the values at the positions that `arg_sort` gives yields what `sort_with` gives
/// with the same options, and those values stand in sorted order.
pub proof fn law_take_arg_sort_is_sort<T: PolarsNumericType>(
    values: Seq<Option<<T::Physical as DeepView>::V>>,
    descending: bool,
    nulls_last: bool,
)
    requires
        values.len() <= 0x1_0000_0000,
    ensures
        spec_take(values, spec_sort_positions::<T>(values, descending, nulls_last).map_values(
            |i: int| i as IdxSize,
        )) == spec_sorted::<T>(values, descending, nulls_last),
        forall|k: int, l: int|
            0 <= k < l < values.len() ==> may_precede::<T>(
                #[trigger] spec_sorted::<T>(values, descending, nulls_last)[k],
                #[trigger] spec_sorted::<T>(values, descending, nulls_last)[l],
                descending,
                nulls_last,
            ),
{
    lemma_sorts_prefix_exists::<T>(values, values.len() as int, descending, nulls_last);
    let p = choose|p: Seq<int>|
        #[trigger] sorts_prefix::<T>(values, p, values.len() as int, descending, nulls_last);
    assert(is_sort_permutation::<T>(values, p, descending, nulls_last));
    let q = spec_sort_positions::<T>(values, descending, nulls_last);
    law_sort_permutation_unique::<T>(values, p, q, descending, nulls_last);
    assert forall|k: int| 0 <= k < q.len() implies (q[k] as IdxSize) as int == q[k] by {}
    assert(spec_take(values, q.map_values(|i: int| i as IdxSize)) =~= spec_sorted::<T>(
        values,
        descending,
        nulls_last,
    ));
    assert forall|k: int, l: int| 0 <= k < l < values.len() implies may_precede::<T>(
        #[trigger] spec_sorted::<T>(values, descending, nulls_last)[k],
        #[trigger] spec_sorted::<T>(values, descending, nulls_last)[l],
        descending,
        nulls_last,
    ) by {
        assert(q[k] == p[k] && q[l] == p[l]);
    }
}

/// Sorting sorted values changes nothing: sorting twice with the same options is sorting
/// once.
pub proof fn law_sort_twice<T: PolarsNumericType>(
    values: Seq<Option<<T::Physical as DeepView>::V>>,
    descending: bool,
    nulls_last: bool,
)
    requires
        values.len() <= 0x1_0000_0000,
    ensures
        spec_sorted::<T>(spec_sorted::<T>(values, descending, nulls_last), descending, nulls_last)
            == spec_sorted::<T>(values, descending, nulls_last),
{
    law_take_arg_sort_is_sort::<T>(values, descending, nulls_last);
    let s = spec_sorted::<T>(values, descending, nulls_last);
    lemma_sorts_prefix_exists::<T>(values, values.len() as int, descending, nulls_last);
    let p = choose|p: Seq<int>|
        #[trigger] sorts_prefix::<T>(values, p, values.len() as int, descending, nulls_last);
    assert(is_sort_permutation::<T>(values, p, descending, nulls_last));
    law_sort_permutation_unique::<T>(
        values,
        p,
        spec_sort_positions::<T>(values, descending, nulls_last),
        descending,
        nulls_last,
    );
    assert(s.len() == values.len());
    let id = Seq::new(s.len(), |i: int| i);
    assert(sorts_prefix::<T>(s, id, s.len() as int, descending, nulls_last));
    assert(is_sort_permutation::<T>(s, id, descending, nulls_last));
    law_sort_permutation_unique::<T>(
        s,
        id,
        spec_sort_positions::<T>(s, descending, nulls_last),
        descending,
        nulls_last,
    );
    assert(spec_sorted::<T>(s, descending, nulls_last) =~= s);
}

/// `not_equal` is the negation of `equal`, `gt` that of `lt_eq` and `lt` that of `gt_eq`,
/// null wherever either value is null; `gt` is `lt` with the sides swapped; and the
/// comparisons in which null equals null negate each other and are never null.
pub proof fn law_compare_negations<T: PolarsNumericType>(
    a: Option<<T::Physical as DeepView>::V>,
    b: Option<<T::Physical as DeepView>::V>,
)
    ensures
        spec_compare::<T>(Comparison::NotEqual, a, b) == negate(
            spec_compare::<T>(Comparison::Equal, a, b),
        ),
        spec_compare::<T>(Comparison::Gt, a, b) == negate(
            spec_compare::<T>(Comparison::LtEq, a, b),
        ),
        spec_compare::<T>(Comparison::Lt, a, b) == negate(
            spec_compare::<T>(Comparison::GtEq, a, b),
        ),
        spec_compare::<T>(Comparison::Gt, a, b) == spec_compare::<T>(Comparison::Lt, b, a),
        spec_compare::<T>(Comparison::NotEqualMissing, a, b) == negate(
            spec_compare::<T>(Comparison::EqualMissing, a, b),
        ),
        spec_compare::<T>(Comparison::EqualMissing, a, b) is Some,
        (a is None || b is None) ==> spec_compare::<T>(Comparison::Equal, a, b) is None,
{
}

/// The negation of a nullable boolean; null stays null.
pub open spec fn negate(v: Option<bool>) -> Option<bool> {
    match v {
        Some(b) => Some(!b),
        None => None,
    }
}

/// The offsets that `explode_and_offsets` gives start at zero, and two consecutive offsets
/// are as far apart as the list between them is long.
pub proof fn law_offsets_are_list_lengths(lists: Seq<Option<SeriesSpec>>, i: int)
    requires
        0 <= i < lists.len(),
    ensures
        spec_list_offsets(lists)[0] == 0,
        spec_list_offsets(lists)[i + 1] - spec_list_offsets(lists)[i] == list_len(lists[i]),
{
    assert(lists.take(0) =~= Seq::<Option<SeriesSpec>>::empty());
    assert(lists.take(i + 1).drop_last() =~= lists.take(i));
}

/// Flattening lists one after another is flattening each and joining the results.
pub proof fn law_explode_concat(a: Seq<Option<SeriesSpec>>, b: Seq<Option<SeriesSpec>>)
    ensures
        spec_exploded(a + b) == spec_exploded(a) + spec_exploded(b),
    decreases b.len(),
{
    if b.len() == 0 {
        assert(a + b =~= a);
        assert(spec_exploded(a) + spec_exploded(b) =~= spec_exploded(a));
    } else {
        law_explode_concat(a, b.drop_last());
        assert((a + b).drop_last() =~= a + b.drop_last());
        assert(spec_exploded(a + b) =~= spec_exploded(a) + spec_exploded(b.drop_last())
            + exploded_part(b.last()));
        assert(spec_exploded(a) + spec_exploded(b) =~= spec_exploded(a) + spec_exploded(
            b.drop_last(),
        ) + exploded_part(b.last()));
    }
}

/// The number that `n_unique` gives, the length of what `arg_unique` gives, is the number
/// of distinct values of the column, a null counting as one value.
pub proof fn law_n_unique_counts_distinct<V>(values: Seq<V>)
    ensures
        as_idx(first_occurrences(values)).len() == values.to_set().len(),
{
    let u = spec_unique(values);
    law_unique_distinct(values);
    law_unique_same_values(values);
    u.unique_seq_to_set();
    assert forall|x: V| u.to_set().contains(x) <==> values.to_set().contains(x) by {
        if u.to_set().contains(x) {
            let k = choose|k: int| 0 <= k < u.len() && u[k] == x;
            assert(values.contains(u[k]));
        }
        if values.to_set().contains(x) {
            let i = choose|i: int| 0 <= i < values.len() && values[i] == x;
            assert(u.contains(values[i]));
        }
    }
    assert(u.to_set() =~= values.to_set());
}

/// Sorting puts the nulls at the end that `nulls_last` names, whatever the direction: with
/// `nulls_last` no non-null value follows a null, and without it no null follows a non-null
/// value. The non-null values come in the order of the direction: each at most the next
/// when ascending, at least it when descending. The same holds of the values at the
/// positions that sort the column, which are the sorted values.
pub proof fn law_sort_places_nulls_and_orders<T: PolarsNumericType>(
    values: Seq<Option<<T::Physical as DeepView>::V>>,
    descending: bool,
    nulls_last: bool,
)
    ensures
        spec_sort_positions::<T>(values, descending, nulls_last).len() == values.len(),
        spec_sorted::<T>(values, descending, nulls_last).len() == values.len(),
        forall|k: int|
            0 <= k < values.len() ==> 0 <= #[trigger] spec_sort_positions::<T>(
                values,
                descending,
                nulls_last,
            )[k] < values.len() && spec_sorted::<T>(values, descending, nulls_last)[k]
                == values[spec_sort_positions::<T>(values, descending, nulls_last)[k]],
        forall|k: int, l: int|
            0 <= k < l < values.len() && nulls_last && (
            #[trigger] spec_sorted::<T>(values, descending, nulls_last)[k]) is None
                ==> (#[trigger] spec_sorted::<T>(values, descending, nulls_last)[l]) is None,
        forall|k: int, l: int|
            0 <= k < l < values.len() && !nulls_last && (
            #[trigger] spec_sorted::<T>(values, descending, nulls_last)[k]) is Some
                ==> (#[trigger] spec_sorted::<T>(values, descending, nulls_last)[l]) is Some,
        forall|k: int, l: int|
            0 <= k < l < values.len() && (#[trigger] spec_sorted::<T>(
                values,
                descending,
                nulls_last,
            )[k]) is Some && (#[trigger] spec_sorted::<T>(values, descending, nulls_last)[l]) is Some
                ==> if descending {
                T::spec_le(
                    spec_sorted::<T>(values, descending, nulls_last)[l]->0,
                    spec_sorted::<T>(values, descending, nulls_last)[k]->0,
                )
            } else {
                T::spec_le(
                    spec_sorted::<T>(values, descending, nulls_last)[k]->0,
                    spec_sorted::<T>(values, descending, nulls_last)[l]->0,
                )
            },
{
    lemma_sorts_prefix_exists::<T>(values, values.len() as int, descending, nulls_last);
    let p = choose|p: Seq<int>|
        #[trigger] sorts_prefix::<T>(values, p, values.len() as int, descending, nulls_last);
    assert(is_sort_permutation::<T>(values, p, descending, nulls_last));
    let q = spec_sort_positions::<T>(values, descending, nulls_last);
    law_sort_permutation_unique::<T>(values, p, q, descending, nulls_last);
    let s = spec_sorted::<T>(values, descending, nulls_last);
    assert forall|k: int, l: int| 0 <= k < l < values.len() implies may_precede::<T>(
        #[trigger] s[k],
        #[trigger] s[l],
        descending,
        nulls_last,
    ) by {
        assert(s[k] == values[p[k]] && s[l] == values[p[l]]);
    }
}

/// Comparing `u8` values answers as the integers compare, and their order is the numeric one.
pub proof fn law_uint8_order_is_numeric(x: u8, y: u8)
    ensures
        UInt8Type::spec_le(x, y) == (x <= y),
        spec_compare::<UInt8Type>(Comparison::Gt, Some(x), Some(y)) == Some(x > y),
        spec_compare::<UInt8Type>(Comparison::GtEq, Some(x), Some(y)) == Some(x >= y),
        spec_compare::<UInt8Type>(Comparison::Lt, Some(x), Some(y)) == Some(x < y),
        spec_compare::<UInt8Type>(Comparison::LtEq, Some(x), Some(y)) == Some(x <= y),
        spec_compare::<UInt8Type>(Comparison::Equal, Some(x), Some(y)) == Some(x == y),
        spec_compare::<UInt8Type>(Comparison::NotEqual, Some(x), Some(y)) == Some(x != y),
{
}
/// Comparing `u16` values answers as the integers compare, and their order is the numeric one.
pub proof fn law_uint16_order_is_numeric(x: u16, y: u16)
    ensures
        UInt16Type::spec_le(x, y) == (x <= y),
        spec_compare::<UInt16Type>(Comparison::Gt, Some(x), Some(y)) == Some(x > y),
        spec_compare::<UInt16Type>(Comparison::GtEq, Some(x), Some(y)) == Some(x >= y),
        spec_compare::<UInt16Type>(Comparison::Lt, Some(x), Some(y)) == Some(x < y),
        spec_compare::<UInt16Type>(Comparison::LtEq, Some(x), Some(y)) == Some(x <= y),
        spec_compare::<UInt16Type>(Comparison::Equal, Some(x), Some(y)) == Some(x == y),
        spec_compare::<UInt16Type>(Comparison::NotEqual, Some(x), Some(y)) == Some(x != y),
{
}
/// Comparing `u32` values answers as the integers compare, and their order is the numeric one.
pub proof fn law_uint32_order_is_numeric(x: u32, y: u32)
    ensures
        UInt32Type::spec_le(x, y) == (x <= y),
        spec_compare::<UInt32Type>(Comparison::Gt, Some(x), Some(y)) == Some(x > y),
        spec_compare::<UInt32Type>(Comparison::GtEq, Some(x), Some(y)) == Some(x >= y),
        spec_compare::<UInt32Type>(Comparison::Lt, Some(x), Some(y)) == Some(x < y),
        spec_compare::<UInt32Type>(Comparison::LtEq, Some(x), Some(y)) == Some(x <= y),
        spec_compare::<UInt32Type>(Comparison::Equal, Some(x), Some(y)) == Some(x == y),
        spec_compare::<UInt32Type>(Comparison::NotEqual, Some(x), Some(y)) == Some(x != y),
{
}
/// Comparing `u64` values answers as the integers compare, and their order is the numeric one.
pub proof fn law_uint64_order_is_numeric(x: u64, y: u64)
    ensures
        UInt64Type::spec_le(x, y) == (x <= y),
        spec_compare::<UInt64Type>(Comparison::Gt, Some(x), Some(y)) == Some(x > y),
        spec_compare::<UInt64Type>(Comparison::GtEq, Some(x), Some(y)) == Some(x >= y),
        spec_compare::<UInt64Type>(Comparison::Lt, Some(x), Some(y)) == Some(x < y),
        spec_compare::<UInt64Type>(Comparison::LtEq, Some(x), Some(y)) == Some(x <= y),
        spec_compare::<UInt64Type>(Comparison::Equal, Some(x), Some(y)) == Some(x == y),
        spec_compare::<UInt64Type>(Comparison::NotEqual, Some(x), Some(y)) == Some(x != y),
{
}
/// Comparing `i8` values answers as the integers compare, and their order is the numeric one.
pub proof fn law_int8_order_is_numeric(x: i8, y: i8)
    ensures
        Int8Type::spec_le(x, y) == (x <= y),
        spec_compare::<Int8Type>(Comparison::Gt, Some(x), Some(y)) == Some(x > y),
        spec_compare::<Int8Type>(Comparison::GtEq, Some(x), Some(y)) == Some(x >= y),
        spec_compare::<Int8Type>(Comparison::Lt, Some(x), Some(y)) == Some(x < y),
        spec_compare::<Int8Type>(Comparison::LtEq, Some(x), Some(y)) == Some(x <= y),
        spec_compare::<Int8Type>(Comparison::Equal, Some(x), Some(y)) == Some(x == y),
        spec_compare::<Int8Type>(Comparison::NotEqual, Some(x), Some(y)) == Some(x != y),
{
}
/// Comparing `i16` values answers as the integers compare, and their order is the numeric one.
pub proof fn law_int16_order_is_numeric(x: i16, y: i16)
    ensures
        Int16Type::spec_le(x, y) == (x <= y),
        spec_compare::<Int16Type>(Comparison::Gt, Some(x), Some(y)) == Some(x > y),
        spec_compare::<Int16Type>(Comparison::GtEq, Some(x), Some(y)) == Some(x >= y),
        spec_compare::<Int16Type>(Comparison::Lt, Some(x), Some(y)) == Some(x < y),
        spec_compare::<Int16Type>(Comparison::LtEq, Some(x), Some(y)) == Some(x <= y),
        spec_compare::<Int16Type>(Comparison::Equal, Some(x), Some(y)) == Some(x == y),
        spec_compare::<Int16Type>(Comparison::NotEqual, Some(x), Some(y)) == Some(x != y),
{
}
/// Comparing `i32` values answers as the integers compare, and their order is the numeric one.
pub proof fn law_int32_order_is_numeric(x: i32, y: i32)
    ensures
        Int32Type::spec_le(x, y) == (x <= y),
        spec_compare::<Int32Type>(Comparison::Gt, Some(x), Some(y)) == Some(x > y),
        spec_compare::<Int32Type>(Comparison::GtEq, Some(x), Some(y)) == Some(x >= y),
        spec_compare::<Int32Type>(Comparison::Lt, Some(x), Some(y)) == Some(x < y),
        spec_compare::<Int32Type>(Comparison::LtEq, Some(x), Some(y)) == Some(x <= y),
        spec_compare::<Int32Type>(Comparison::Equal, Some(x), Some(y)) == Some(x == y),
        spec_compare::<Int32Type>(Comparison::NotEqual, Some(x), Some(y)) == Some(x != y),
{
}
/// Comparing `i64` values answers as the integers compare, and their order is the numeric one.
pub proof fn law_int64_order_is_numeric(x: i64, y: i64)
    ensures
        Int64Type::spec_le(x, y) == (x <= y),
        spec_compare::<Int64Type>(Comparison::Gt, Some(x), Some(y)) == Some(x > y),
        spec_compare::<Int64Type>(Comparison::GtEq, Some(x), Some(y)) == Some(x >= y),
        spec_compare::<Int64Type>(Comparison::Lt, Some(x), Some(y)) == Some(x < y),
        spec_compare::<Int64Type>(Comparison::LtEq, Some(x), Some(y)) == Some(x <= y),
        spec_compare::<Int64Type>(Comparison::Equal, Some(x), Some(y)) == Some(x == y),
        spec_compare::<Int64Type>(Comparison::NotEqual, Some(x), Some(y)) == Some(x != y),
{
}

/// `is_first` marks a position exactly when no earlier position holds an equal value, and
/// `is_last` exactly when no later one does; nulls are equal to each other.
pub proof fn law_first_and_last_occurrences<V>(values: Seq<V>)
    ensures
        first_mask(values).len() == values.len(),
        last_mask(values).len() == values.len(),
        forall|i: int|
            0 <= i < values.len() ==> #[trigger] first_mask(values)[i] == Some(
                forall|j: int| 0 <= j < i ==> values[j] != values[i],
            ),
        forall|i: int|
            0 <= i < values.len() ==> #[trigger] last_mask(values)[i] == Some(
                forall|j: int| i < j < values.len() ==> values[j] != values[i],
            ),
{
    assert forall|i: int| 0 <= i < values.len() implies #[trigger] first_mask(values)[i] == Some(
        forall|j: int| 0 <= j < i ==> values[j] != values[i],
    ) by {
        if values.take(i).contains(values[i]) {
            let j = choose|j: int| 0 <= j < values.take(i).len() && values.take(i)[j] == values[i];
            assert(values[j] == values[i]);
        } else {
            assert forall|j: int| 0 <= j < i implies values[j] != values[i] by {
                assert(values.take(i)[j] == values[j]);
            }
        }
    }
    assert forall|i: int| 0 <= i < values.len() implies #[trigger] last_mask(values)[i] == Some(
        forall|j: int| i < j < values.len() ==> values[j] != values[i],
    ) by {
        let rest = values.skip(i + 1);
        if rest.contains(values[i]) {
            let j = choose|j: int| 0 <= j < rest.len() && rest[j] == values[i];
            assert(values[i + 1 + j] == values[i]);
        } else {
            assert forall|j: int| i < j < values.len() implies values[j] != values[i] by {
                assert(rest[j - i - 1] == values[j]);
            }
        }
    }
}

/// The reversed values hold at each position the value as far from the end as that
/// position is from the start.
pub proof fn law_reverse_positions<V>(values: Seq<V>)
    ensures
        spec_reverse(values).len() == values.len(),
        forall|i: int|
            0 <= i < values.len() ==> #[trigger] spec_reverse(values)[i] == values[values.len() - 1
                - i],
{
}

/// Reversing two joined sequences of values reverses each and puts the second first.
pub proof fn law_reverse_concat<V>(a: Seq<V>, b: Seq<V>)
    ensures
        spec_reverse(a + b) == spec_reverse(b) + spec_reverse(a),
{
    assert(spec_reverse(a + b) =~= spec_reverse(b) + spec_reverse(a));
}

/// Flattening lists that are all there and not empty keeps every value of every list,
/// nulls included: the values of each list stand in the flattened column from its offset
/// on, in order, and the flattened column is as long as the last offset.
pub proof fn law_explode_keeps_list_values(lists: Seq<Option<SeriesSpec>>)
    requires
        forall|i: int| 0 <= i < lists.len() ==> #[trigger] list_len(lists[i]) > 0,
    ensures
        spec_exploded(lists).len() == spec_list_offsets(lists)[lists.len() as int],
        forall|i: int, k: int|
            #![trigger lists[i]->0.values[k]]
            0 <= i < lists.len() && 0 <= k < list_len(lists[i]) ==> spec_exploded(lists)[
            spec_list_offsets(lists)[i] + k] == lists[i]->0.values[k],
    decreases lists.len(),
{
    let n = lists.len() as int;
    assert(lists.take(n) =~= lists);
    if n == 0 {
        assert(lists.take(0) =~= Seq::<Option<SeriesSpec>>::empty());
    } else {
        let p = lists.drop_last();
        assert forall|i: int| 0 <= i < p.len() implies #[trigger] list_len(p[i]) > 0 by {
            assert(p[i] == lists[i]);
            assert(list_len(lists[i]) > 0);
        }
        law_explode_keeps_list_values(p);
        assert(p.take(n - 1) =~= p);
        assert(lists.take(n - 1) =~= p);
        let last = lists[n - 1];
        assert(list_len(lists[n - 1]) > 0);
        assert(last is Some);
        assert(exploded_part(last) == last->0.values);
        let e = spec_exploded(lists);
        let ep = spec_exploded(p);
        assert(e == ep + last->0.values);
        assert(total_len(lists) == total_len(p) + list_len(last));
        assert(ep.len() == total_len(p));
        assert forall|i: int, k: int|
            #![trigger lists[i]->0.values[k]]
            0 <= i < lists.len() && 0 <= k < list_len(lists[i]) implies e[spec_list_offsets(lists)[i]
            + k] == lists[i]->0.values[k] by {
            if i < n - 1 {
                assert(lists.take(i) =~= p.take(i));
                assert(p[i] == lists[i]);
                assert(spec_list_offsets(lists)[i] == spec_list_offsets(p)[i]);
                law_offsets_are_list_lengths(p, i);
                lemma_total_len_prefix(p, i + 1);
                lemma_total_len_prefix(p, i);
                assert(spec_list_offsets(p)[i + 1] == total_len(p.take(i + 1)));
                assert(spec_list_offsets(p)[i] == total_len(p.take(i)));
                assert(spec_list_offsets(p)[i + 1] <= total_len(p));
                let idx = spec_list_offsets(p)[i] + k;
                assert(0 <= idx < ep.len());
                assert(p[i]->0.values[k] == lists[i]->0.values[k]);
                assert(ep[idx] == p[i]->0.values[k]);
                assert(e[idx] == ep[idx]);
            } else {
                assert(spec_list_offsets(lists)[i] == total_len(lists.take(i)));
                assert(spec_list_offsets(lists)[i] == total_len(p));
                assert(e[ep.len() + k] == last->0.values[k]);
            }
        }
    }
}

} // verus!
