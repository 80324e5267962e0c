//! A column: a name, a logical type, a sequence of nullable values with the value buffer
//! under them, and a flag that records whether the values are known to be sorted.
use vstd::prelude::*;

use crate::datatypes::{
    BinaryType, BooleanType, DataType, SeriesSpec, FixedSizeListType, Int16Type, Int32Type, Int64Type, Int8Type,
    IsSorted, ListType, ObjectType, PlainValueType, PolarsDataType, UInt16Type, UInt32Type, UInt64Type, UInt8Type, Utf8Type,
};

verus! {

/// A named column of nullable values of the type `T`.
///
/// Beside the nullable values the column keeps its value buffer, `slots`: one stored value
/// per position, which is the value itself where it is not null and, under a null, whatever
/// the column stores there.
pub struct ChunkedArray<T: PolarsDataType> {
    name: String,
    dtype: DataType,
    values: Vec<Option<T::Physical>>,
    slots: Vec<T::Physical>,
    sorted: IsSorted,
}

/// The mathematical value of a column whose values have the model `V`.
#[verifier::ext_equal]
pub struct ArraySpec<V> {
    pub name: Seq<char>,
    pub dtype: DataType,
    pub values: Seq<Option<V>>,
    pub sorted: IsSorted,
}

pub type BooleanChunked = ChunkedArray<BooleanType>;

pub type UInt8Chunked = ChunkedArray<UInt8Type>;

pub type UInt16Chunked = ChunkedArray<UInt16Type>;

pub type UInt32Chunked = ChunkedArray<UInt32Type>;

pub type UInt64Chunked = ChunkedArray<UInt64Type>;

pub type Int8Chunked = ChunkedArray<Int8Type>;

pub type Int16Chunked = ChunkedArray<Int16Type>;

pub type Int32Chunked = ChunkedArray<Int32Type>;

pub type Int64Chunked = ChunkedArray<Int64Type>;

pub type Utf8Chunked = ChunkedArray<Utf8Type>;

pub type BinaryChunked = ChunkedArray<BinaryType>;

pub type ListChunked = ChunkedArray<ListType>;

pub type ArrayChunked = ChunkedArray<FixedSizeListType>;

pub type ObjectChunked<O> = ChunkedArray<ObjectType<O>>;

/// The type of index columns.
pub type IdxType = UInt32Type;

/// An index column.
pub type IdxCa = ChunkedArray<IdxType>;

impl<T: PolarsDataType> View for ChunkedArray<T> {
    type V = ArraySpec<<T::Physical as DeepView>::V>;

    closed spec fn view(&self) -> Self::V {
        ArraySpec {
            name: self.name@,
            dtype: self.dtype,
            values: self.values.deep_view(),
            sorted: self.sorted,
        }
    }
}

/// Whether `slots` is a value buffer for `values`: one stored value per position, equal to
/// the value wherever that is not null.
pub open spec fn slots_agree<V>(values: Seq<Option<V>>, slots: Seq<V>) -> bool {
    &&& slots.len() == values.len()
    &&& forall|i: int|
        0 <= i < values.len() ==> (#[trigger] values[i] is Some ==> values[i] == Some(slots[i]))
}

/// The value buffer of nullable values: each value where it is not null, the column type's
/// null slot under a null.
pub fn slots_for<T: PolarsDataType>(values: &Vec<Option<T::Physical>>) -> (res: Vec<T::Physical>)
    ensures
        slots_agree(values.deep_view(), res.deep_view()),
{
    let mut res: Vec<T::Physical> = Vec::new();
    let mut i: usize = 0;
    while i < values.len()
        invariant
            i <= values.len(),
            res@.len() == i,
            forall|j: int|
                0 <= j < i ==> (#[trigger] values@[j] is Some ==> values@[j].deep_view() == Some(
                    res@[j].deep_view(),
                )),
        decreases values.len() - i,
    {
        let v = match &values[i] {
            Some(v) => T::clone_physical(v),
            None => T::null_slot(),
        };
        res.push(v);
        i = i + 1;
    }
    assert forall|j: int| 0 <= j < values.deep_view().len() implies #[trigger] values.deep_view()[j]
        == values@[j].deep_view() && res.deep_view()[j] == res@[j].deep_view() by {}
    res
}

/// Copies a value buffer.
fn clone_slots<T: PolarsDataType>(slots: &Vec<T::Physical>) -> (res: Vec<T::Physical>)
    ensures
        res.deep_view() == slots.deep_view(),
{
    let mut res: Vec<T::Physical> = Vec::new();
    let mut i: usize = 0;
    while i < slots.len()
        invariant
            i <= slots.len(),
            res@.len() == i,
            forall|j: int| 0 <= j < i ==> #[trigger] res@[j].deep_view() == slots@[j].deep_view(),
        decreases slots.len() - i,
    {
        res.push(T::clone_physical(&slots[i]));
        i = i + 1;
    }
    assert(res.deep_view() =~= slots.deep_view());
    res
}

/// `n` copies of `v`.
pub open spec fn repeat<A>(v: A, n: nat) -> Seq<A> {
    Seq::new(n, |i: int| v)
}

/// Copies a sequence of stored values.
pub fn clone_values<T: PolarsDataType>(values: &Vec<Option<T::Physical>>) -> (res: Vec<
    Option<T::Physical>,
>)
    ensures
        res.deep_view() == values.deep_view(),
{
    let mut res: Vec<Option<T::Physical>> = Vec::new();
    let mut i: usize = 0;
    while i < values.len()
        invariant
            i <= values.len(),
            res@.len() == i,
            forall|j: int| 0 <= j < i ==> #[trigger] res@[j].deep_view() == values@[j].deep_view(),
        decreases values.len() - i,
    {
        let v = match &values[i] {
            Some(v) => Some(T::clone_physical(v)),
            None => None,
        };
        res.push(v);
        i = i + 1;
    }
    assert(res.deep_view() =~= values.deep_view());
    res
}

/// Copies a nullable stored value.
pub fn clone_option<T: PolarsDataType>(o: &Option<T::Physical>) -> (res: Option<T::Physical>)
    ensures
        res.deep_view() == o.deep_view(),
{
    match o {
        Some(v) => Some(T::clone_physical(v)),
        None => None,
    }
}

/// `n` nulls.
pub fn nulls<T: PolarsDataType>(n: usize) -> (res: Vec<Option<T::Physical>>)
    ensures
        res.deep_view() == repeat(None::<<T::Physical as DeepView>::V>, n as nat),
{
    let mut res: Vec<Option<T::Physical>> = Vec::new();
    let mut i: usize = 0;
    while i < n
        invariant
            i <= n,
            res@.len() == i,
            forall|j: int| 0 <= j < i ==> #[trigger] res@[j] is None,
        decreases n - i,
    {
        res.push(None);
        i = i + 1;
    }
    assert(res.deep_view() =~= repeat(None::<<T::Physical as DeepView>::V>, n as nat));
    res
}

/// `n` copies of a value.
pub fn copies<T: PolarsDataType>(value: &T::Physical, n: usize) -> (res: Vec<Option<T::Physical>>)
    ensures
        res.deep_view() == repeat(Some(value.deep_view()), n as nat),
{
    let mut res: Vec<Option<T::Physical>> = Vec::new();
    let mut i: usize = 0;
    while i < n
        invariant
            i <= n,
            res@.len() == i,
            forall|j: int| 0 <= j < i ==> #[trigger] res@[j].deep_view() == Some(value.deep_view()),
        decreases n - i,
    {
        res.push(Some(T::clone_physical(value)));
        i = i + 1;
    }
    assert(res.deep_view() =~= repeat(Some(value.deep_view()), n as nat));
    res
}

/// Whether a nullable value fits a column of the type `T` and the logical type `dtype`.
pub open spec fn fits<T: PolarsDataType>(
    dtype: DataType,
    value: Option<<T::Physical as DeepView>::V>,
) -> bool {
    match value {
        Some(v) => T::valid_value(dtype, v),
        None => true,
    }
}

/// Whether every value fits a column of the type `T` and the logical type `dtype`.
pub open spec fn values_fit<T: PolarsDataType>(
    dtype: DataType,
    values: Seq<Option<<T::Physical as DeepView>::V>>,
) -> bool {
    forall|i: int| 0 <= i < values.len() ==> fits::<T>(dtype, #[trigger] values[i])
}

/// In a column type in which every value fits every column, all values fit.
pub proof fn lemma_plain_values_fit<T: PlainValueType>(
    dtype: DataType,
    values: Seq<Option<<T::Physical as DeepView>::V>>,
)
    ensures
        values_fit::<T>(dtype, values),
{
    assert forall|i: int| 0 <= i < values.len() implies fits::<T>(dtype, #[trigger] values[i]) by {
        if let Some(v) = values[i] {
            T::lemma_any_value_fits(dtype, v);
        }
    }
}

impl<T: PolarsDataType> ChunkedArray<T> {
    /// The logical type of a column is one that its column type allows, and every value
    /// fits it.
    #[verifier::type_invariant]
    closed spec fn well_formed(self) -> bool {
        &&& T::valid_dtype(self.dtype)
        &&& values_fit::<T>(self.dtype, self.values.deep_view())
        &&& slots_agree(self.values.deep_view(), self.slots.deep_view())
    }

    /// The value buffer: at each position the stored value, which is the value itself where
    /// that is not null.
    pub closed spec fn stored(&self) -> Seq<<T::Physical as DeepView>::V> {
        self.slots.deep_view()
    }

    /// The value stored at an index, the null bit ignored: the value there where it is not
    /// null, and the value stored under the null where it is.
    pub fn stored_value(&self, index: usize) -> (res: T::Physical)
        requires
            index < self@.values.len(),
        ensures
            res.deep_view() == self.stored()[index as int],
            self@.values[index as int] is Some ==> self@.values[index as int] == Some(
                res.deep_view(),
            ),
    {
        proof {
            use_type_invariant(self);
            assert(self.values.deep_view()[index as int] == self.values@[index as int].deep_view());
        }
        T::clone_physical(&self.slots[index])
    }

    /// A column with the given name and values, of the column type's own logical type,
    /// not flagged as sorted.
    pub fn from_options(name: &str, values: Vec<Option<T::Physical>>) -> (res: Self)
        requires
            values_fit::<T>(T::spec_dtype(), values.deep_view()),
        ensures
            res@.name == name@,
            res@.dtype == T::spec_dtype(),
            res@.values == values.deep_view(),
            res@.sorted == IsSorted::Not,
    {
        proof {
            T::lemma_spec_dtype_valid();
        }
        let slots = slots_for::<T>(&values);
        ChunkedArray {
            name: name.to_owned(),
            dtype: T::get_dtype(),
            values,
            slots,
            sorted: IsSorted::Not,
        }
    }

    /// A column with the given name, logical type and values, not flagged as sorted.
    pub fn from_options_with_dtype(
        name: &str,
        dtype: DataType,
        values: Vec<Option<T::Physical>>,
    ) -> (res: Self)
        requires
            T::valid_dtype(dtype),
            values_fit::<T>(dtype, values.deep_view()),
        ensures
            res@.name == name@,
            res@.dtype == dtype,
            res@.values == values.deep_view(),
            res@.sorted == IsSorted::Not,
    {
        let slots = slots_for::<T>(&values);
        ChunkedArray { name: name.to_owned(), dtype, values, slots, sorted: IsSorted::Not }
    }

    /// A column without nulls holding copies of the given values.
    pub fn new(name: &str, values: &[T::Physical]) -> (res: Self)
        requires
            forall|i: int|
                0 <= i < values@.len() ==> T::valid_value(
                    T::spec_dtype(),
                    #[trigger] values@[i].deep_view(),
                ),
        ensures
            res@.name == name@,
            res@.dtype == T::spec_dtype(),
            res@.values.len() == values@.len(),
            forall|i: int|
                0 <= i < values@.len() ==> #[trigger] res@.values[i] == Some(
                    values@[i].deep_view(),
                ),
            res@.sorted == IsSorted::Not,
    {
        let mut out: Vec<Option<T::Physical>> = Vec::new();
        let mut i: usize = 0;
        while i < values.len()
            invariant
                i <= values@.len(),
                out@.len() == i,
                forall|j: int|
                    0 <= j < i ==> #[trigger] out@[j].deep_view() == Some(values@[j].deep_view()),
            decreases values@.len() - i,
        {
            out.push(Some(T::clone_physical(&values[i])));
            i = i + 1;
        }
        assert forall|j: int| 0 <= j < out.deep_view().len() implies fits::<T>(
            T::spec_dtype(),
            #[trigger] out.deep_view()[j],
        ) by {
            assert(out.deep_view()[j] == out@[j].deep_view());
        }
        Self::from_options(name, out)
    }

    /// The name of the column.
    pub fn name(&self) -> (res: &str)
        ensures
            res@ == self@.name,
    {
        self.name.as_str()
    }

    /// The logical type of the column; it is always one that the column type allows, and
    /// every value fits it.
    pub fn dtype(&self) -> (res: &DataType)
        ensures
            *res == self@.dtype,
            T::valid_dtype(*res),
            values_fit::<T>(*res, self@.values),
    {
        proof {
            use_type_invariant(self);
        }
        &self.dtype
    }

    /// The number of values, nulls included.
    pub fn len(&self) -> (res: usize)
        ensures
            res == self@.values.len(),
    {
        self.values.len()
    }

    /// Whether the column holds no value.
    pub fn is_empty(&self) -> (res: bool)
        ensures
            res == (self@.values.len() == 0),
    {
        self.values.len() == 0
    }

    /// The sortedness flag of the column.
    pub fn is_sorted_flag(&self) -> (res: IsSorted)
        ensures
            res == self@.sorted,
    {
        self.sorted
    }

    /// Sets the sortedness flag; nothing else changes.
    pub fn set_sorted_flag(&mut self, sorted: IsSorted)
        ensures
            final(self)@ == (ArraySpec { sorted, ..old(self)@ }),
    {
        proof {
            use_type_invariant(&*self);
        }
        self.sorted = sorted;
    }

    /// The value at an index, by reference.
    pub fn value_at(&self, index: usize) -> (res: &Option<T::Physical>)
        requires
            index < self@.values.len(),
        ensures
            res.deep_view() == self@.values[index as int],
    {
        &self.values[index]
    }

    /// A copy of the value at an index.
    pub fn get_value(&self, index: usize) -> (res: Option<T::Physical>)
        requires
            index < self@.values.len(),
        ensures
            res.deep_view() == self@.values[index as int],
    {
        match &self.values[index] {
            Some(v) => Some(T::clone_physical(v)),
            None => None,
        }
    }

    /// Copies of the values, nulls included.
    pub fn to_vec(&self) -> (res: Vec<Option<T::Physical>>)
        ensures
            res.deep_view() == self@.values,
    {
        clone_values::<T>(&self.values)
    }
}

impl ChunkedArray<Utf8Type> {
    /// The string stored at an index, borrowed, the null bit ignored: the value there where
    /// it is not null, and the string stored under the null where it is.
    pub fn stored_str(&self, index: usize) -> (res: &str)
        requires
            index < self@.values.len(),
        ensures
            res@ == self.stored()[index as int],
            self@.values[index as int] is Some ==> self@.values[index as int] == Some(res@),
    {
        proof {
            use_type_invariant(self);
            assert(self.values.deep_view()[index as int] == self.values@[index as int].deep_view());
            assert(self.slots.deep_view()[index as int] == self.slots@[index as int]@);
        }
        self.slots[index].as_str()
    }
}

impl ChunkedArray<ListType> {
    /// The type of the values of the lists.
    pub fn inner_dtype(&self) -> (res: DataType)
        ensures
            res == self@.dtype.spec_inner(),
            self@.dtype == DataType::List(Box::new(res)),
    {
        proof {
            use_type_invariant(self);
        }
        match &self.dtype {
            DataType::List(inner) => (**inner).clone(),
            _ => DataType::Null,
        }
    }

    /// Gives the column the list type with the given inner type; nothing else changes.
    pub fn to_logical(&mut self, inner_dtype: DataType)
        ensures
            final(self)@ == (ArraySpec { dtype: DataType::List(Box::new(inner_dtype)), ..old(self)@ }),
    {
        proof {
            use_type_invariant(&*self);
        }
        self.dtype = DataType::List(Box::new(inner_dtype));
    }

    /// `length` null lists of the given inner type, not flagged as sorted.
    pub fn full_null_with_dtype(name: &str, length: usize, inner_dtype: &DataType) -> (res: Self)
        ensures
            res@ == (ArraySpec {
                name: name@,
                dtype: DataType::List(Box::new(*inner_dtype)),
                values: repeat(None::<SeriesSpec>, length as nat),
                sorted: IsSorted::Not,
            }),
    {
        let values = nulls::<ListType>(length);
        let slots = slots_for::<ListType>(&values);
        ChunkedArray {
            name: name.to_owned(),
            dtype: DataType::List(Box::new(inner_dtype.clone())),
            values,
            slots,
            sorted: IsSorted::Not,
        }
    }
}

impl ChunkedArray<FixedSizeListType> {
    /// The type of the values of the lists; every list has the column's width.
    pub fn inner_dtype(&self) -> (res: DataType)
        ensures
            res == self@.dtype.spec_inner(),
            self@.dtype == DataType::Array(Box::new(res), self@.dtype->Array_1),
            values_fit::<FixedSizeListType>(self@.dtype, self@.values),
    {
        proof {
            use_type_invariant(self);
        }
        match &self.dtype {
            DataType::Array(inner, _) => (**inner).clone(),
            _ => DataType::Null,
        }
    }

    /// The width of the lists.
    pub fn width(&self) -> (res: usize)
        ensures
            self@.dtype == DataType::Array(Box::new(self@.dtype.spec_inner()), res),
    {
        proof {
            use_type_invariant(self);
        }
        match &self.dtype {
            DataType::Array(_, width) => *width,
            _ => 0,
        }
    }

    /// Gives the column the fixed-width list type with the given inner type and its own
    /// width; nothing else changes.
    pub fn to_physical(&mut self, inner_dtype: DataType)
        ensures
            final(self)@ == (ArraySpec {
                dtype: DataType::Array(
                    Box::new(inner_dtype),
                    old(self)@.dtype->Array_1,
                ),
                ..old(self)@
            }),
    {
        proof {
            use_type_invariant(&*self);
        }
        let width = self.width();
        self.dtype = DataType::Array(Box::new(inner_dtype), width);
    }

    /// `length` null lists of the given inner type and width, not flagged as sorted.
    pub fn full_null_with_dtype(
        name: &str,
        length: usize,
        inner_dtype: &DataType,
        width: usize,
    ) -> (res: Self)
        ensures
            res@ == (ArraySpec {
                name: name@,
                dtype: DataType::Array(Box::new(*inner_dtype), width),
                values: repeat(None::<SeriesSpec>, length as nat),
                sorted: IsSorted::Not,
            }),
    {
        let values = nulls::<FixedSizeListType>(length);
        let slots = slots_for::<FixedSizeListType>(&values);
        ChunkedArray {
            name: name.to_owned(),
            dtype: DataType::Array(Box::new(inner_dtype.clone()), width),
            values,
            slots,
            sorted: IsSorted::Not,
        }
    }
}

impl<T: PolarsDataType> Clone for ChunkedArray<T> {
    fn clone(&self) -> (res: Self)
        ensures
            res@ == self@,
            res.stored() == self.stored(),
    {
        proof {
            use_type_invariant(self);
        }
        ChunkedArray {
            name: self.name.clone(),
            dtype: self.dtype.clone(),
            values: clone_values::<T>(&self.values),
            slots: clone_slots::<T>(&self.slots),
            sorted: self.sorted,
        }
    }
}

} // verus!
