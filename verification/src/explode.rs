//! Flattening a column of lists into the column of their values, with the offsets at which
//! each list starts.
use vstd::prelude::*;

use arrow2::offset::OffsetsBuffer;

use crate::chunked_array::ListChunked;
use crate::datatypes::{AnyValue, AnyValueSpec, Series, SeriesSpec};
use crate::error::{PolarsError, PolarsResult};
use crate::ops::{ChunkExplode, ListOffsets};

verus! {

/// The offsets that a value of [`ListOffsets`] holds.
pub uninterp spec fn list_offsets_values(offsets: ListOffsets) -> Seq<i64>;

/// Whether a sequence is accepted as offsets: it is not empty, it starts at zero or more,
/// and no offset is less than the one before it.
pub open spec fn valid_offsets(offsets: Seq<i64>) -> bool {
    &&& offsets.len() > 0
    &&& offsets[0] >= 0
    &&& forall|i: int| 0 <= i < offsets.len() - 1 ==> #[trigger] offsets[i] <= offsets[i + 1]
}

/// `OffsetsBuffer::<i64>::try_from(Vec<i64>)` of arrow2, which checks the offsets
/// (`try_check_offsets`): it fails when they are empty, when the first is negative, or when
/// one is less than the one before it, and otherwise keeps them as they are.
#[verifier::external_body]
fn offsets_try_from(offsets: Vec<i64>) -> (res: Result<ListOffsets, arrow2::error::Error>)
    ensures
        res is Ok <==> valid_offsets(offsets@),
        res matches Ok(o) ==> list_offsets_values(o) == offsets@,
{
    OffsetsBuffer::<i64>::try_from(offsets).map(ListOffsets)
}

/// The number of values of a list; none for a null list.
pub open spec fn list_len(list: Option<SeriesSpec>) -> int {
    match list {
        Some(s) => s.values.len() as int,
        None => 0,
    }
}

/// The number of values of all the lists.
pub open spec fn total_len(lists: Seq<Option<SeriesSpec>>) -> int
    decreases lists.len(),
{
    if lists.len() == 0 {
        0
    } else {
        total_len(lists.drop_last()) + list_len(lists.last())
    }
}

/// The offset at which each list starts, and the end of the last.
pub open spec fn spec_list_offsets(lists: Seq<Option<SeriesSpec>>) -> Seq<int> {
    Seq::new(lists.len() + 1, |i: int| total_len(lists.take(i)))
}

/// What a list gives to the flattened column: its values, or one null for an empty or a
/// null list.
pub open spec fn exploded_part(list: Option<SeriesSpec>) -> Seq<AnyValueSpec> {
    match list {
        Some(s) => if s.values.len() > 0 {
            s.values
        } else {
            seq![AnyValueSpec::Null]
        },
        None => seq![AnyValueSpec::Null],
    }
}

/// The values of all the lists in order, with a null for each empty or null list.
pub open spec fn spec_exploded(lists: Seq<Option<SeriesSpec>>) -> Seq<AnyValueSpec>
    decreases lists.len(),
{
    if lists.len() == 0 {
        Seq::empty()
    } else {
        spec_exploded(lists.drop_last()) + exploded_part(lists.last())
    }
}

/// The number of values of a prefix of the lists is at most that of all of them, and never
/// negative.
pub proof fn lemma_total_len_prefix(lists: Seq<Option<SeriesSpec>>, i: int)
    requires
        0 <= i <= lists.len(),
    ensures
        0 <= total_len(lists.take(i)) <= total_len(lists),
    decreases lists.len() - i,
{
    if i < lists.len() {
        lemma_total_len_prefix(lists, i + 1);
        assert(lists.take(i + 1).drop_last() =~= lists.take(i));
        lemma_total_len_nonnegative(lists.take(i));
    } else {
        assert(lists.take(i) =~= lists);
        lemma_total_len_nonnegative(lists);
    }
}

/// The number of values of lists is never negative.
pub proof fn lemma_total_len_nonnegative(lists: Seq<Option<SeriesSpec>>)
    ensures
        total_len(lists) >= 0,
    decreases lists.len(),
{
    if lists.len() > 0 {
        lemma_total_len_nonnegative(lists.drop_last());
    }
}

impl ChunkExplode for ListChunked {
    open spec fn spec_explode(&self) -> Result<SeriesSpec, PolarsError> {
        if total_len(self@.values) > i64::MAX {
            Err(PolarsError::OffsetOverflow)
        } else {
            Ok(
                SeriesSpec {
                    name: self@.name,
                    dtype: self@.dtype.spec_inner(),
                    values: spec_exploded(self@.values),
                },
            )
        }
    }

    /// The values of all the lists in order, a null for each empty or null list, under the
    /// column's name and typed as its inner type; with the offset at which each list starts
    /// among its own values. Refused when the lists hold more values than an offset counts.
    fn explode_and_offsets(&self) -> (res: PolarsResult<(Series, ListOffsets)>)
        ensures
            res matches Ok(t) ==> list_offsets_values(t.1) == spec_list_offsets(
                self@.values,
            ).map_values(|o: int| o as i64),
    {
        let n = self.len();
        let ghost lists = self@.values;
        let mut out: Vec<AnyValue> = Vec::new();
        let mut offsets: Vec<i64> = Vec::new();
        offsets.push(0);
        let mut cur: i64 = 0;
        let mut i: usize = 0;
        proof {
            assert(lists.take(0) =~= Seq::<Option<SeriesSpec>>::empty());
        }
        while i < n
            invariant
                i <= n,
                n == lists.len(),
                lists == self@.values,
                cur as int == total_len(lists.take(i as int)),
                cur >= 0,
                out.deep_view() == spec_exploded(lists.take(i as int)),
                offsets@.len() == i + 1,
                forall|k: int|
                    0 <= k <= i ==> #[trigger] offsets@[k] as int == total_len(lists.take(k)),
            decreases n - i,
        {
            proof {
                assert(lists.take(i + 1).drop_last() =~= lists.take(i as int));
                assert(lists.take(i + 1).last() == lists[i as int]);
            }
            let list = self.value_at(i);
            let ghost before = out.deep_view();
            assert(list.deep_view() == lists[i as int]);
            match list {
                Some(s) => {
                    assert(lists[i as int] == Some(s.deep_view()));
                    let len = s.len();
                    if len as u64 > (i64::MAX - cur) as u64 {
                        proof {
                            lemma_total_len_prefix(lists, i + 1);
                        }
                        return Err(PolarsError::OffsetOverflow);
                    }
                    if len == 0 {
                        out.push(AnyValue::Null);
                        assert(out.deep_view() =~= before + exploded_part(lists[i as int]));
                    } else {
                        let mut j: usize = 0;
                        while j < len
                            invariant
                                j <= len,
                                len == s.values@.len(),
                                out@.len() == before.len() + j,
                                forall|k: int|
                                    0 <= k < before.len() ==> #[trigger] out@[k].deep_view()
                                        == before[k],
                                forall|k: int|
                                    0 <= k < j ==> #[trigger] out@[before.len() + k].deep_view()
                                        == s.values@[k].deep_view(),
                            decreases len - j,
                        {
                            out.push(s.values[j].clone());
                            j = j + 1;
                        }
                        assert(s.deep_view().values == s.values.deep_view());
                        assert(s.values.deep_view().len() == len);
                        assert(exploded_part(lists[i as int]) == s.values.deep_view());
                        assert forall|k: int|
                            before.len() <= k < out@.len() implies #[trigger] out@[k].deep_view()
                            == s.values@[k - before.len()].deep_view() by {
                            assert(out@[before.len() + (k - before.len())] == out@[k]);
                        }
                        assert(out.deep_view() =~= before + s.values.deep_view());
                    }
                    cur = cur + len as i64;
                },
                None => {
                    out.push(AnyValue::Null);
                    assert(out.deep_view() =~= before + exploded_part(lists[i as int]));
                },
            }
            offsets.push(cur);
            i = i + 1;
        }
        assert(lists.take(n as int) =~= lists);
        let ghost expected = spec_list_offsets(lists).map_values(|o: int| o as i64);
        proof {
            assert forall|k: int| 0 <= k <= n implies 0 <= #[trigger] total_len(lists.take(k)) <= i64::MAX by {
                lemma_total_len_prefix(lists, k);
            }
            assert(offsets@ =~= expected);
            assert forall|k: int| 0 <= k < offsets@.len() - 1 implies #[trigger] offsets@[k]
                <= offsets@[k + 1] by {
                assert(lists.take(k + 1).drop_last() =~= lists.take(k));
            }
        }
        let series = Series::new(self.name(), self.inner_dtype(), out);
        match offsets_try_from(offsets) {
            Ok(o) => Ok((series, o)),
            Err(e) => Err(PolarsError::ArrowError(e)),
        }
    }
}

} // verus!
