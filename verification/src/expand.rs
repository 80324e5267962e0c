//! Columns of one repeated value, random access, and expansion of the value at
//! one index into a whole column.
use vstd::prelude::*;

use crate::chunked_array::{
    copies, lemma_plain_values_fit, nulls, repeat, ArrayChunked, ArraySpec, BinaryChunked, BooleanChunked, ChunkedArray,
    ListChunked, ObjectChunked, Utf8Chunked,
};
use crate::datatypes::{
    BinaryType, BooleanType, DataType, FixedSizeListType, IsSorted, ListType, ObjectType,
    PlainValueType, PolarsDataType, PolarsNumericType, PolarsObject, Series, Utf8Type,
};
use crate::ops::{AsRefDataType, ChunkExpandAtIndex, ChunkFull, ChunkFullNull, TakeRandom, TakeRandomUtf8};

verus! {

impl<T: PlainValueType> ChunkFull<T::Physical> for ChunkedArray<T> {
    /// `length` copies of `value`, of the column type's logical type, not flagged as sorted.
    fn full(name: &str, value: T::Physical, length: usize) -> (res: Self)
        ensures
            res@ == (ArraySpec {
                name: name@,
                dtype: T::spec_dtype(),
                values: repeat(Some(value.deep_view()), length as nat),
                sorted: IsSorted::Not,
            }),
    {
        let values = copies::<T>(&value, length);
        proof {
            lemma_plain_values_fit::<T>(T::spec_dtype(), values.deep_view());
        }
        ChunkedArray::from_options(name, values)
    }
}

impl<'a> ChunkFull<&'a Series> for ListChunked {
    /// `length` copies of the list `value`, typed as lists of the type of `value`.
    fn full(name: &str, value: &'a Series, length: usize) -> (res: Self)
        ensures
            res@ == (ArraySpec {
                name: name@,
                dtype: DataType::List(Box::new(value.dtype)),
                values: repeat(Some(value.deep_view()), length as nat),
                sorted: IsSorted::Not,
            }),
    {
        ChunkedArray::from_options_with_dtype(
            name,
            DataType::List(Box::new(value.dtype.clone())),
            copies::<ListType>(value, length),
        )
    }
}

impl<'a> ChunkFull<&'a Series> for ArrayChunked {
    /// `length` copies of the list `value`, typed as lists of the type and the length of
    /// `value`.
    fn full(name: &str, value: &'a Series, length: usize) -> (res: Self)
        ensures
            res@ == (ArraySpec {
                name: name@,
                dtype: DataType::Array(Box::new(value.dtype), value.values@.len() as usize),
                values: repeat(Some(value.deep_view()), length as nat),
                sorted: IsSorted::Not,
            }),
    {
        ChunkedArray::from_options_with_dtype(
            name,
            DataType::Array(Box::new(value.dtype.clone()), value.len()),
            copies::<FixedSizeListType>(value, length),
        )
    }
}

impl<T: PolarsDataType> ChunkFullNull for ChunkedArray<T> {
    /// `length` nulls, of the column type's logical type, not flagged as sorted.
    fn full_null(name: &str, length: usize) -> (res: Self)
        ensures
            res@ == (ArraySpec {
                name: name@,
                dtype: T::spec_dtype(),
                values: repeat(None::<<T::Physical as DeepView>::V>, length as nat),
                sorted: IsSorted::Not,
            }),
    {
        ChunkedArray::from_options(name, nulls::<T>(length))
    }
}

impl<T: PolarsDataType> TakeRandom for ChunkedArray<T> {
    type Item = T::Physical;

    open spec fn take_random_len(&self) -> nat {
        self@.values.len()
    }

    open spec fn spec_get(&self, index: int) -> Option<<T::Physical as DeepView>::V> {
        self@.values[index]
    }

    fn get(&self, index: usize) -> (res: Option<T::Physical>) {
        self.get_value(index)
    }

    /// The value stored at the index, the null bit ignored: always a value, the one there
    /// where it is not null and the value the column stores under the null where it is.
    fn get_unchecked(&self, index: usize) -> (res: Option<T::Physical>)
        ensures
            res.deep_view() == Some(self.stored()[index as int]),
    {
        Some(self.stored_value(index))
    }

    fn last(&self) -> (res: Option<T::Physical>) {
        self.get_value(self.len() - 1)
    }
}

impl<'a> TakeRandomUtf8 for &'a Utf8Chunked {
    type Item = &'a str;

    open spec fn take_random_len(&self) -> nat {
        self@.values.len()
    }

    open spec fn spec_get(&self, index: int) -> Option<Seq<char>> {
        self@.values[index]
    }

    fn get(self, index: usize) -> (res: Option<&'a str>) {
        let ca: &'a Utf8Chunked = self;
        let v = ca.value_at(index);
        match v {
            Some(s) => {
                let r = s.as_str();
                assert(v.deep_view() == Some(s@));
                assert(Some(r).deep_view() == Some(s@));
                Some(r)
            },
            None => None,
        }
    }

    /// The string stored at the index, the null bit ignored: always a string, the one there
    /// where it is not null and the string the column stores under the null where it is.
    fn get_unchecked(self, index: usize) -> (res: Option<&'a str>)
    {
        let ca: &'a Utf8Chunked = self;
        Some(ca.stored_str(index))
    }

    fn last(&self) -> (res: Option<&'a str>) {
        let ca: &'a Utf8Chunked = *self;
        match ca.value_at(ca.len() - 1) {
            Some(s) => Some(s.as_str()),
            None => None,
        }
    }
}

impl<T: PolarsDataType> AsRefDataType for ChunkedArray<T> {
    open spec fn spec_as_ref_dtype(&self) -> DataType {
        self@.dtype
    }

    fn as_ref_dtype(&self) -> (res: &DataType) {
        self.dtype()
    }
}

/// What `new_from_index` gives for the column types whose lists of values are flat: the
/// column itself when it is empty, else `length` copies of the value at `index`, of the
/// column type's logical type, flagged as sorted in ascending order.
pub open spec fn spec_new_from_index<V>(
    ca: ArraySpec<V>,
    dtype: DataType,
    index: usize,
    length: usize,
) -> ArraySpec<V> {
    if ca.values.len() == 0 {
        ca
    } else {
        ArraySpec {
            name: ca.name,
            dtype,
            values: repeat(ca.values[index as int], length as nat),
            sorted: IsSorted::Ascending,
        }
    }
}

/// `length` copies of the value at `index`, under the name of `ca`: a full column when the
/// value is there, a null column when it is null.
fn filled_from_index<T: PlainValueType>(ca: &ChunkedArray<T>, index: usize, length: usize) -> (res:
    ChunkedArray<T>)
    requires
        index < ca@.values.len(),
    ensures
        res@ == (ArraySpec {
            name: ca@.name,
            dtype: T::spec_dtype(),
            values: repeat(ca@.values[index as int], length as nat),
            sorted: IsSorted::Not,
        }),
{
    let opt_val = ca.get(index);
    match opt_val {
        Some(val) => ChunkedArray::full(ca.name(), val, length),
        None => ChunkedArray::full_null(ca.name(), length),
    }
}

impl<T: PolarsNumericType> ChunkExpandAtIndex<T> for ChunkedArray<T> {
    open spec fn expandable_at(&self, index: usize) -> bool {
        self@.values.len() == 0 || index < self@.values.len()
    }

    fn new_from_index(&self, index: usize, length: usize) -> (res: ChunkedArray<T>)
        ensures
            res@ == spec_new_from_index(self@, T::spec_dtype(), index, length),
    {
        if self.is_empty() {
            return self.clone();
        }
        let mut out = filled_from_index(self, index, length);
        out.set_sorted_flag(IsSorted::Ascending);
        out
    }
}

impl ChunkExpandAtIndex<BooleanType> for BooleanChunked {
    open spec fn expandable_at(&self, index: usize) -> bool {
        self@.values.len() == 0 || index < self@.values.len()
    }

    fn new_from_index(&self, index: usize, length: usize) -> (res: BooleanChunked)
        ensures
            res@ == spec_new_from_index(self@, DataType::Boolean, index, length),
    {
        if self.is_empty() {
            return self.clone();
        }
        let mut out = filled_from_index(self, index, length);
        out.set_sorted_flag(IsSorted::Ascending);
        out
    }
}

impl ChunkExpandAtIndex<Utf8Type> for Utf8Chunked {
    open spec fn expandable_at(&self, index: usize) -> bool {
        self@.values.len() == 0 || index < self@.values.len()
    }

    fn new_from_index(&self, index: usize, length: usize) -> (res: Utf8Chunked)
        ensures
            res@ == spec_new_from_index(self@, DataType::Utf8, index, length),
    {
        if self.is_empty() {
            return self.clone();
        }
        let mut out = filled_from_index(self, index, length);
        out.set_sorted_flag(IsSorted::Ascending);
        out
    }
}

impl ChunkExpandAtIndex<BinaryType> for BinaryChunked {
    open spec fn expandable_at(&self, index: usize) -> bool {
        self@.values.len() == 0 || index < self@.values.len()
    }

    fn new_from_index(&self, index: usize, length: usize) -> (res: BinaryChunked)
        ensures
            res@ == spec_new_from_index(self@, DataType::Binary, index, length),
    {
        if self.is_empty() {
            return self.clone();
        }
        let mut out = filled_from_index(self, index, length);
        out.set_sorted_flag(IsSorted::Ascending);
        out
    }
}

impl ChunkExpandAtIndex<ListType> for ListChunked {
    open spec fn expandable_at(&self, index: usize) -> bool {
        index < self@.values.len()
    }

    /// `length` copies of the list at `index`, of the column's own type, not flagged as
    /// sorted.
    fn new_from_index(&self, index: usize, length: usize) -> (res: ListChunked)
        ensures
            res@ == (ArraySpec {
                name: self@.name,
                dtype: self@.dtype,
                values: repeat(self@.values[index as int], length as nat),
                sorted: IsSorted::Not,
            }),
    {
        let opt_val = self.get(index);
        match opt_val {
            Some(val) => {
                let mut ca = ListChunked::full(self.name(), &val, length);
                ca.to_logical(self.inner_dtype());
                ca
            },
            None => ListChunked::full_null_with_dtype(self.name(), length, &self.inner_dtype()),
        }
    }
}

impl ChunkExpandAtIndex<FixedSizeListType> for ArrayChunked {
    open spec fn expandable_at(&self, index: usize) -> bool {
        index < self@.values.len()
    }

    /// `length` copies of the list at `index`, not flagged as sorted: of the column's own
    /// type when that list is there, of fixed-width lists of the column's inner type and of
    /// width zero when it is null.
    fn new_from_index(&self, index: usize, length: usize) -> (res: ArrayChunked)
        ensures
            res@ == (ArraySpec {
                name: self@.name,
                dtype: match self@.values[index as int] {
                    Some(_) => self@.dtype,
                    None => DataType::Array(Box::new(self@.dtype.spec_inner()), 0usize),
                },
                values: repeat(self@.values[index as int], length as nat),
                sorted: IsSorted::Not,
            }),
    {
        let opt_val = self.get(index);
        match opt_val {
            Some(val) => {
                let mut ca = ArrayChunked::full(self.name(), &val, length);
                ca.to_physical(self.inner_dtype());
                ca
            },
            None => ArrayChunked::full_null_with_dtype(self.name(), length, &self.inner_dtype(), 0),
        }
    }
}

impl<O: PolarsObject> ChunkExpandAtIndex<ObjectType<O>> for ObjectChunked<O> {
    open spec fn expandable_at(&self, index: usize) -> bool {
        index < self@.values.len()
    }

    /// `length` copies of the value at `index`, of the object type, not flagged as sorted.
    fn new_from_index(&self, index: usize, length: usize) -> (res: ObjectChunked<O>)
        ensures
            res@ == (ArraySpec {
                name: self@.name,
                dtype: DataType::Object,
                values: repeat(self@.values[index as int], length as nat),
                sorted: IsSorted::Not,
            }),
    {
        let opt_val = self.get(index);
        match opt_val {
            Some(val) => ObjectChunked::<O>::full(self.name(), val.clone_object(), length),
            None => ObjectChunked::<O>::full_null(self.name(), length),
        }
    }
}

} // verus!
