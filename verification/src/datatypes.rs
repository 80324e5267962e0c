//! Data types, scalar values and the physical storage types of columns.
use vstd::prelude::*;

verus! {

/// The type of index values.
pub type IdxSize = u32;

/// The logical type of a column.
#[derive(Debug)]
pub enum DataType {
    Boolean,
    UInt8,
    UInt16,
    UInt32,
    UInt64,
    Int8,
    Int16,
    Int32,
    Int64,
    Utf8,
    Binary,
    /// A column whose values are lists of the inner type.
    List(Box<DataType>),
    /// A column whose values are lists of fixed width of the inner type.
    Array(Box<DataType>, usize),
    /// A column of values of a type defined by the user of the library.
    Object,
    Null,
}

impl Clone for DataType {
    fn clone(&self) -> (res: Self)
        ensures
            res == *self,
        decreases self,
    {
        match self {
            DataType::Boolean => DataType::Boolean,
            DataType::UInt8 => DataType::UInt8,
            DataType::UInt16 => DataType::UInt16,
            DataType::UInt32 => DataType::UInt32,
            DataType::UInt64 => DataType::UInt64,
            DataType::Int8 => DataType::Int8,
            DataType::Int16 => DataType::Int16,
            DataType::Int32 => DataType::Int32,
            DataType::Int64 => DataType::Int64,
            DataType::Utf8 => DataType::Utf8,
            DataType::Binary => DataType::Binary,
            DataType::List(inner) => DataType::List(Box::new((**inner).clone())),
            DataType::Array(inner, width) => DataType::Array(Box::new((**inner).clone()), *width),
            DataType::Object => DataType::Object,
            DataType::Null => DataType::Null,
        }
    }
}


impl DataType {
    /// The inner type of a list or fixed-width list type.
    pub open spec fn spec_inner(self) -> DataType {
        match self {
            DataType::List(inner) => *inner,
            DataType::Array(inner, _) => *inner,
            _ => DataType::Null,
        }
    }
}

impl DataType {
    /// Whether two types are the same.
    pub fn same_as(&self, other: &DataType) -> (res: bool)
        ensures
            res == (*self == *other),
        decreases self,
    {
        match self {
            DataType::Boolean => matches!(other, DataType::Boolean),
            DataType::UInt8 => matches!(other, DataType::UInt8),
            DataType::UInt16 => matches!(other, DataType::UInt16),
            DataType::UInt32 => matches!(other, DataType::UInt32),
            DataType::UInt64 => matches!(other, DataType::UInt64),
            DataType::Int8 => matches!(other, DataType::Int8),
            DataType::Int16 => matches!(other, DataType::Int16),
            DataType::Int32 => matches!(other, DataType::Int32),
            DataType::Int64 => matches!(other, DataType::Int64),
            DataType::Utf8 => matches!(other, DataType::Utf8),
            DataType::Binary => matches!(other, DataType::Binary),
            DataType::Null => matches!(other, DataType::Null),
            DataType::Object => matches!(other, DataType::Object),
            DataType::List(inner) => match other {
                DataType::List(o) => (**inner).same_as(&**o),
                _ => false,
            },
            DataType::Array(inner, width) => match other {
                DataType::Array(o, w) => *width == *w && (**inner).same_as(&**o),
                _ => false,
            },
        }
    }
}

/// Whether a column is known to be sorted, and in which direction.
#[derive(Copy, Clone, Debug, PartialEq, Eq, Structural)]
pub enum IsSorted {
    Ascending,
    Descending,
    Not,
}

/// Copies a byte string.
pub fn copy_bytes(v: &Vec<u8>) -> (res: Vec<u8>)
    ensures
        res@ == v@,
{
    let mut res: Vec<u8> = Vec::new();
    let mut i: usize = 0;
    while i < v.len()
        invariant
            i <= v.len(),
            res@ == v@.subrange(0, i as int),
        decreases v.len() - i,
    {
        res.push(v[i]);
        i = i + 1;
    }
    res
}

/// A single value of any type.
#[derive(Debug)]
pub enum AnyValue {
    Null,
    Boolean(bool),
    UInt8(u8),
    UInt16(u16),
    UInt32(u32),
    UInt64(u64),
    Int8(i8),
    Int16(i16),
    Int32(i32),
    Int64(i64),
    Utf8(String),
    Binary(Vec<u8>),
}

/// The mathematical value of an [`AnyValue`].
pub enum AnyValueSpec {
    Null,
    Boolean(bool),
    UInt8(u8),
    UInt16(u16),
    UInt32(u32),
    UInt64(u64),
    Int8(i8),
    Int16(i16),
    Int32(i32),
    Int64(i64),
    Utf8(Seq<char>),
    Binary(Seq<u8>),
}

impl DeepView for AnyValue {
    type V = AnyValueSpec;

    open spec fn deep_view(&self) -> AnyValueSpec {
        match self {
            AnyValue::Null => AnyValueSpec::Null,
            AnyValue::Boolean(v) => AnyValueSpec::Boolean(*v),
            AnyValue::UInt8(v) => AnyValueSpec::UInt8(*v),
            AnyValue::UInt16(v) => AnyValueSpec::UInt16(*v),
            AnyValue::UInt32(v) => AnyValueSpec::UInt32(*v),
            AnyValue::UInt64(v) => AnyValueSpec::UInt64(*v),
            AnyValue::Int8(v) => AnyValueSpec::Int8(*v),
            AnyValue::Int16(v) => AnyValueSpec::Int16(*v),
            AnyValue::Int32(v) => AnyValueSpec::Int32(*v),
            AnyValue::Int64(v) => AnyValueSpec::Int64(*v),
            AnyValue::Utf8(s) => AnyValueSpec::Utf8(s@),
            AnyValue::Binary(b) => AnyValueSpec::Binary(b@),
        }
    }
}

/// Whether two byte strings are equal.
pub fn bytes_eq(a: &Vec<u8>, b: &Vec<u8>) -> (res: bool)
    ensures
        res == (a@ == b@),
{
    if a.len() != b.len() {
        return false;
    }
    let mut i: usize = 0;
    while i < a.len()
        invariant
            i <= a@.len(),
            a@.len() == b@.len(),
            a@.subrange(0, i as int) == b@.subrange(0, i as int),
        decreases a@.len() - i,
    {
        if a[i] != b[i] {
            assert(a@[i as int] != b@[i as int]);
            return false;
        }
        assert(a@.subrange(0, i + 1) =~= a@.subrange(0, i as int).push(a@[i as int]));
        assert(b@.subrange(0, i + 1) =~= b@.subrange(0, i as int).push(b@[i as int]));
        i = i + 1;
    }
    assert(a@ =~= a@.subrange(0, i as int));
    assert(b@ =~= b@.subrange(0, i as int));
    true
}

impl AnyValue {
    /// Whether two values are equal.
    pub fn same_as(&self, other: &AnyValue) -> (res: bool)
        ensures
            res == (self.deep_view() == other.deep_view()),
    {
        match self {
            AnyValue::Null => matches!(other, AnyValue::Null),
            AnyValue::Boolean(x) => match other {
                AnyValue::Boolean(y) => *x == *y,
                _ => false,
            },
            AnyValue::UInt8(x) => match other {
                AnyValue::UInt8(y) => *x == *y,
                _ => false,
            },
            AnyValue::UInt16(x) => match other {
                AnyValue::UInt16(y) => *x == *y,
                _ => false,
            },
            AnyValue::UInt32(x) => match other {
                AnyValue::UInt32(y) => *x == *y,
                _ => false,
            },
            AnyValue::UInt64(x) => match other {
                AnyValue::UInt64(y) => *x == *y,
                _ => false,
            },
            AnyValue::Int8(x) => match other {
                AnyValue::Int8(y) => *x == *y,
                _ => false,
            },
            AnyValue::Int16(x) => match other {
                AnyValue::Int16(y) => *x == *y,
                _ => false,
            },
            AnyValue::Int32(x) => match other {
                AnyValue::Int32(y) => *x == *y,
                _ => false,
            },
            AnyValue::Int64(x) => match other {
                AnyValue::Int64(y) => *x == *y,
                _ => false,
            },
            AnyValue::Utf8(x) => match other {
                AnyValue::Utf8(y) => x.eq(y),
                _ => false,
            },
            AnyValue::Binary(x) => match other {
                AnyValue::Binary(y) => bytes_eq(x, y),
                _ => false,
            },
        }
    }
}

impl Clone for AnyValue {
    fn clone(&self) -> (res: Self)
        ensures
            res.deep_view() == self.deep_view(),
    {
        match self {
            AnyValue::Null => AnyValue::Null,
            AnyValue::Boolean(v) => AnyValue::Boolean(*v),
            AnyValue::UInt8(v) => AnyValue::UInt8(*v),
            AnyValue::UInt16(v) => AnyValue::UInt16(*v),
            AnyValue::UInt32(v) => AnyValue::UInt32(*v),
            AnyValue::UInt64(v) => AnyValue::UInt64(*v),
            AnyValue::Int8(v) => AnyValue::Int8(*v),
            AnyValue::Int16(v) => AnyValue::Int16(*v),
            AnyValue::Int32(v) => AnyValue::Int32(*v),
            AnyValue::Int64(v) => AnyValue::Int64(*v),
            AnyValue::Utf8(s) => AnyValue::Utf8(s.clone()),
            AnyValue::Binary(b) => AnyValue::Binary(copy_bytes(b)),
        }
    }
}

/// A named, dynamically typed column.
#[derive(Debug)]
pub struct Series {
    pub name: String,
    pub dtype: DataType,
    pub values: Vec<AnyValue>,
}

/// The mathematical value of a [`Series`].
#[verifier::ext_equal]
pub struct SeriesSpec {
    pub name: Seq<char>,
    pub dtype: DataType,
    pub values: Seq<AnyValueSpec>,
}

impl DeepView for Series {
    type V = SeriesSpec;

    open spec fn deep_view(&self) -> SeriesSpec {
        SeriesSpec { name: self.name@, dtype: self.dtype, values: self.values.deep_view() }
    }
}

impl Series {
    /// Builds a series from its name, type and values.
    pub fn new(name: &str, dtype: DataType, values: Vec<AnyValue>) -> (res: Series)
        ensures
            res.name@ == name@,
            res.dtype == dtype,
            res.values@ == values@,
    {
        Series { name: name.to_owned(), dtype, values }
    }

    /// The number of values.
    pub fn len(&self) -> (res: usize)
        ensures
            res == self.values@.len(),
    {
        self.values.len()
    }

    /// Whether two series have the same name, type and values.
    pub fn same_as(&self, other: &Series) -> (res: bool)
        ensures
            res == (self.deep_view() == other.deep_view()),
    {
        if !self.name.eq(&other.name) {
            assert(self.deep_view().name != other.deep_view().name);
            return false;
        }
        if !self.dtype.same_as(&other.dtype) {
            assert(self.deep_view().dtype != other.deep_view().dtype);
            return false;
        }
        if self.values.len() != other.values.len() {
            assert(self.deep_view().values.len() != other.deep_view().values.len());
            return false;
        }
        let mut i: usize = 0;
        while i < self.values.len()
            invariant
                i <= self.values@.len(),
                self.values@.len() == other.values@.len(),
                forall|j: int|
                    0 <= j < i ==> #[trigger] self.values@[j].deep_view()
                        == other.values@[j].deep_view(),
            decreases self.values@.len() - i,
        {
            if !self.values[i].same_as(&other.values[i]) {
                assert(self.values.deep_view()[i as int] != other.values.deep_view()[i as int]);
                return false;
            }
            i = i + 1;
        }
        assert(self.values.deep_view() =~= other.values.deep_view());
        true
    }
}

impl Clone for Series {
    fn clone(&self) -> (res: Self)
        ensures
            res.deep_view() == self.deep_view(),
    {
        let mut values: Vec<AnyValue> = Vec::new();
        let mut i: usize = 0;
        while i < self.values.len()
            invariant
                i <= self.values.len(),
                values@.len() == i,
                forall|j: int| 0 <= j < i ==> #[trigger] values@[j].deep_view() == self.values@[j].deep_view(),
            decreases self.values.len() - i,
        {
            values.push(self.values[i].clone());
            i = i + 1;
        }
        assert(values.deep_view() =~= self.values.deep_view());
        Series { name: self.name.clone(), dtype: self.dtype.clone(), values }
    }
}

/// A type of column: its logical type and the type in which a value is stored.
pub trait PolarsDataType {
    /// The owned type of one non-null value.
    type Physical: DeepView;

    /// The logical type of a column of this type.
    spec fn spec_dtype() -> DataType;

    /// The logical types that a column of this type may carry.
    spec fn valid_dtype(dtype: DataType) -> bool;

    /// The values that a column of this type and of the logical type `dtype` may hold.
    spec fn valid_value(dtype: DataType, v: <Self::Physical as DeepView>::V) -> bool;

    /// The type that `get_dtype` gives is one that a column of this type may carry.
    proof fn lemma_spec_dtype_valid()
        ensures
            Self::valid_dtype(Self::spec_dtype()),
    ;

    /// The logical type of a column of this type.
    fn get_dtype() -> (res: DataType)
        ensures
            res == Self::spec_dtype(),
    ;

    /// Copies a stored value.
    fn clone_physical(v: &Self::Physical) -> (res: Self::Physical)
        ensures
            res.deep_view() == v.deep_view(),
    ;

    /// Whether two stored values are equal.
    fn eq_physical(a: &Self::Physical, b: &Self::Physical) -> (res: bool)
        ensures
            res == (a.deep_view() == b.deep_view()),
    ;
    /// The value that a column built from nullable values stores under a null; each type
    /// states which value that is.
    fn null_slot() -> (res: Self::Physical);
}

/// The column types in which every value fits every column of the type.
pub trait PlainValueType: PolarsDataType {
    /// Every value fits every column of the type.
    proof fn lemma_any_value_fits(dtype: DataType, v: <Self::Physical as DeepView>::V)
        ensures
            Self::valid_value(dtype, v),
    ;
}

/// The integer column types, whose values are totally ordered.
pub trait PolarsNumericType: PlainValueType {
    /// The order of the values.
    spec fn spec_le(a: <Self::Physical as DeepView>::V, b: <Self::Physical as DeepView>::V) -> bool;

    /// The order is total.
    proof fn lemma_total_order(
        a: <Self::Physical as DeepView>::V,
        b: <Self::Physical as DeepView>::V,
        c: <Self::Physical as DeepView>::V,
    )
        ensures
            Self::spec_le(a, a),
            Self::spec_le(a, b) && Self::spec_le(b, c) ==> Self::spec_le(a, c),
            Self::spec_le(a, b) || Self::spec_le(b, a),
            Self::spec_le(a, b) && Self::spec_le(b, a) ==> a == b,
    ;

    /// Whether `a` comes before or is equal to `b`.
    fn le_physical(a: &Self::Physical, b: &Self::Physical) -> (res: bool)
        ensures
            res == Self::spec_le(a.deep_view(), b.deep_view()),
    ;
}

/// Columns of `u8` values.
pub struct UInt8Type;

impl PolarsDataType for UInt8Type {
    type Physical = u8;

    open spec fn spec_dtype() -> DataType {
        DataType::UInt8
    }

    open spec fn valid_dtype(dtype: DataType) -> bool {
        dtype == Self::spec_dtype()
    }

    open spec fn valid_value(dtype: DataType, v: <u8 as DeepView>::V) -> bool {
        true
    }

    proof fn lemma_spec_dtype_valid() {
    }

    fn get_dtype() -> (res: DataType) {
        DataType::UInt8
    }

    /// Zero.
    fn null_slot() -> (res: u8)
        ensures
            res == 0,
    {
        0u8
    }

    fn clone_physical(v: &u8) -> (res: u8) {
        *v
    }

    fn eq_physical(a: &u8, b: &u8) -> (res: bool) {
        *a == *b
    }
}

impl PolarsNumericType for UInt8Type {
    open spec fn spec_le(a: u8, b: u8) -> bool {
        a <= b
    }

    proof fn lemma_total_order(a: u8, b: u8, c: u8) {
    }

    fn le_physical(a: &u8, b: &u8) -> (res: bool) {
        *a <= *b
    }
}

/// Columns of `u16` values.
pub struct UInt16Type;

impl PolarsDataType for UInt16Type {
    type Physical = u16;

    open spec fn spec_dtype() -> DataType {
        DataType::UInt16
    }

    open spec fn valid_dtype(dtype: DataType) -> bool {
        dtype == Self::spec_dtype()
    }

    open spec fn valid_value(dtype: DataType, v: <u16 as DeepView>::V) -> bool {
        true
    }

    proof fn lemma_spec_dtype_valid() {
    }

    fn get_dtype() -> (res: DataType) {
        DataType::UInt16
    }

    /// Zero.
    fn null_slot() -> (res: u16)
        ensures
            res == 0,
    {
        0u16
    }

    fn clone_physical(v: &u16) -> (res: u16) {
        *v
    }

    fn eq_physical(a: &u16, b: &u16) -> (res: bool) {
        *a == *b
    }
}

impl PolarsNumericType for UInt16Type {
    open spec fn spec_le(a: u16, b: u16) -> bool {
        a <= b
    }

    proof fn lemma_total_order(a: u16, b: u16, c: u16) {
    }

    fn le_physical(a: &u16, b: &u16) -> (res: bool) {
        *a <= *b
    }
}

/// Columns of `u32` values.
pub struct UInt32Type;

impl PolarsDataType for UInt32Type {
    type Physical = u32;

    open spec fn spec_dtype() -> DataType {
        DataType::UInt32
    }

    open spec fn valid_dtype(dtype: DataType) -> bool {
        dtype == Self::spec_dtype()
    }

    open spec fn valid_value(dtype: DataType, v: <u32 as DeepView>::V) -> bool {
        true
    }

    proof fn lemma_spec_dtype_valid() {
    }

    fn get_dtype() -> (res: DataType) {
        DataType::UInt32
    }

    /// Zero.
    fn null_slot() -> (res: u32)
        ensures
            res == 0,
    {
        0u32
    }

    fn clone_physical(v: &u32) -> (res: u32) {
        *v
    }

    fn eq_physical(a: &u32, b: &u32) -> (res: bool) {
        let res: bool = *a == *b;
        assert(a.deep_view() == *a);
        res
    }
}

impl PolarsNumericType for UInt32Type {
    open spec fn spec_le(a: u32, b: u32) -> bool {
        a <= b
    }

    proof fn lemma_total_order(a: u32, b: u32, c: u32) {
    }

    fn le_physical(a: &u32, b: &u32) -> (res: bool) {
        *a <= *b
    }
}

/// Columns of `u64` values.
pub struct UInt64Type;

impl PolarsDataType for UInt64Type {
    type Physical = u64;

    open spec fn spec_dtype() -> DataType {
        DataType::UInt64
    }

    open spec fn valid_dtype(dtype: DataType) -> bool {
        dtype == Self::spec_dtype()
    }

    open spec fn valid_value(dtype: DataType, v: <u64 as DeepView>::V) -> bool {
        true
    }

    proof fn lemma_spec_dtype_valid() {
    }

    fn get_dtype() -> (res: DataType) {
        DataType::UInt64
    }

    /// Zero.
    fn null_slot() -> (res: u64)
        ensures
            res == 0,
    {
        0u64
    }

    fn clone_physical(v: &u64) -> (res: u64) {
        *v
    }

    fn eq_physical(a: &u64, b: &u64) -> (res: bool) {
        *a == *b
    }
}

impl PolarsNumericType for UInt64Type {
    open spec fn spec_le(a: u64, b: u64) -> bool {
        a <= b
    }

    proof fn lemma_total_order(a: u64, b: u64, c: u64) {
    }

    fn le_physical(a: &u64, b: &u64) -> (res: bool) {
        *a <= *b
    }
}

/// Columns of `i8` values.
pub struct Int8Type;

impl PolarsDataType for Int8Type {
    type Physical = i8;

    open spec fn spec_dtype() -> DataType {
        DataType::Int8
    }

    open spec fn valid_dtype(dtype: DataType) -> bool {
        dtype == Self::spec_dtype()
    }

    open spec fn valid_value(dtype: DataType, v: <i8 as DeepView>::V) -> bool {
        true
    }

    proof fn lemma_spec_dtype_valid() {
    }

    fn get_dtype() -> (res: DataType) {
        DataType::Int8
    }

    /// Zero.
    fn null_slot() -> (res: i8)
        ensures
            res == 0,
    {
        0i8
    }

    fn clone_physical(v: &i8) -> (res: i8) {
        *v
    }

    fn eq_physical(a: &i8, b: &i8) -> (res: bool) {
        *a == *b
    }
}

impl PolarsNumericType for Int8Type {
    open spec fn spec_le(a: i8, b: i8) -> bool {
        a <= b
    }

    proof fn lemma_total_order(a: i8, b: i8, c: i8) {
    }

    fn le_physical(a: &i8, b: &i8) -> (res: bool) {
        *a <= *b
    }
}

/// Columns of `i16` values.
pub struct Int16Type;

impl PolarsDataType for Int16Type {
    type Physical = i16;

    open spec fn spec_dtype() -> DataType {
        DataType::Int16
    }

    open spec fn valid_dtype(dtype: DataType) -> bool {
        dtype == Self::spec_dtype()
    }

    open spec fn valid_value(dtype: DataType, v: <i16 as DeepView>::V) -> bool {
        true
    }

    proof fn lemma_spec_dtype_valid() {
    }

    fn get_dtype() -> (res: DataType) {
        DataType::Int16
    }

    /// Zero.
    fn null_slot() -> (res: i16)
        ensures
            res == 0,
    {
        0i16
    }

    fn clone_physical(v: &i16) -> (res: i16) {
        *v
    }

    fn eq_physical(a: &i16, b: &i16) -> (res: bool) {
        *a == *b
    }
}

impl PolarsNumericType for Int16Type {
    open spec fn spec_le(a: i16, b: i16) -> bool {
        a <= b
    }

    proof fn lemma_total_order(a: i16, b: i16, c: i16) {
    }

    fn le_physical(a: &i16, b: &i16) -> (res: bool) {
        *a <= *b
    }
}

/// Columns of `i32` values.
pub struct Int32Type;

impl PolarsDataType for Int32Type {
    type Physical = i32;

    open spec fn spec_dtype() -> DataType {
        DataType::Int32
    }

    open spec fn valid_dtype(dtype: DataType) -> bool {
        dtype == Self::spec_dtype()
    }

    open spec fn valid_value(dtype: DataType, v: <i32 as DeepView>::V) -> bool {
        true
    }

    proof fn lemma_spec_dtype_valid() {
    }

    fn get_dtype() -> (res: DataType) {
        DataType::Int32
    }

    /// Zero.
    fn null_slot() -> (res: i32)
        ensures
            res == 0,
    {
        0i32
    }

    fn clone_physical(v: &i32) -> (res: i32) {
        *v
    }

    fn eq_physical(a: &i32, b: &i32) -> (res: bool) {
        *a == *b
    }
}

impl PolarsNumericType for Int32Type {
    open spec fn spec_le(a: i32, b: i32) -> bool {
        a <= b
    }

    proof fn lemma_total_order(a: i32, b: i32, c: i32) {
    }

    fn le_physical(a: &i32, b: &i32) -> (res: bool) {
        *a <= *b
    }
}

/// Columns of `i64` values.
pub struct Int64Type;

impl PolarsDataType for Int64Type {
    type Physical = i64;

    open spec fn spec_dtype() -> DataType {
        DataType::Int64
    }

    open spec fn valid_dtype(dtype: DataType) -> bool {
        dtype == Self::spec_dtype()
    }

    open spec fn valid_value(dtype: DataType, v: <i64 as DeepView>::V) -> bool {
        true
    }

    proof fn lemma_spec_dtype_valid() {
    }

    fn get_dtype() -> (res: DataType) {
        DataType::Int64
    }

    /// Zero.
    fn null_slot() -> (res: i64)
        ensures
            res == 0,
    {
        0i64
    }

    fn clone_physical(v: &i64) -> (res: i64) {
        *v
    }

    fn eq_physical(a: &i64, b: &i64) -> (res: bool) {
        *a == *b
    }
}

impl PolarsNumericType for Int64Type {
    open spec fn spec_le(a: i64, b: i64) -> bool {
        a <= b
    }

    proof fn lemma_total_order(a: i64, b: i64, c: i64) {
    }

    fn le_physical(a: &i64, b: &i64) -> (res: bool) {
        *a <= *b
    }
}

/// Columns of booleans.
pub struct BooleanType;

impl PolarsDataType for BooleanType {
    type Physical = bool;

    open spec fn spec_dtype() -> DataType {
        DataType::Boolean
    }

    open spec fn valid_dtype(dtype: DataType) -> bool {
        dtype == Self::spec_dtype()
    }

    open spec fn valid_value(dtype: DataType, v: <bool as DeepView>::V) -> bool {
        true
    }

    proof fn lemma_spec_dtype_valid() {
    }

    fn get_dtype() -> (res: DataType) {
        DataType::Boolean
    }

    /// `false`.
    fn null_slot() -> (res: bool)
        ensures
            res == false,
    {
        false
    }

    fn clone_physical(v: &bool) -> (res: bool) {
        *v
    }

    fn eq_physical(a: &bool, b: &bool) -> (res: bool) {
        *a == *b
    }
}

/// Columns of strings.
pub struct Utf8Type;

impl PolarsDataType for Utf8Type {
    type Physical = String;

    open spec fn spec_dtype() -> DataType {
        DataType::Utf8
    }

    open spec fn valid_dtype(dtype: DataType) -> bool {
        dtype == Self::spec_dtype()
    }

    open spec fn valid_value(dtype: DataType, v: <String as DeepView>::V) -> bool {
        true
    }

    proof fn lemma_spec_dtype_valid() {
    }

    fn get_dtype() -> (res: DataType) {
        DataType::Utf8
    }

    /// The empty string.
    fn null_slot() -> (res: String)
        ensures
            res@ == Seq::<char>::empty(),
    {
        String::new()
    }

    fn clone_physical(v: &String) -> (res: String) {
        v.clone()
    }

    fn eq_physical(a: &String, b: &String) -> (res: bool) {
        let res = a.eq(b);
        assert(a.deep_view() == a@);
        assert(res == (a@ == b@));
        res
    }
}

/// Columns of byte strings.
pub struct BinaryType;

impl PolarsDataType for BinaryType {
    type Physical = Vec<u8>;

    open spec fn spec_dtype() -> DataType {
        DataType::Binary
    }

    open spec fn valid_dtype(dtype: DataType) -> bool {
        dtype == Self::spec_dtype()
    }

    open spec fn valid_value(dtype: DataType, v: <Vec<u8> as DeepView>::V) -> bool {
        true
    }

    proof fn lemma_spec_dtype_valid() {
    }

    fn get_dtype() -> (res: DataType) {
        DataType::Binary
    }

    /// The empty byte string.
    fn null_slot() -> (res: Vec<u8>)
        ensures
            res@ == Seq::<u8>::empty(),
    {
        Vec::new()
    }

    fn clone_physical(v: &Vec<u8>) -> (res: Vec<u8>) {
        let res = copy_bytes(v);
        assert(res.deep_view() =~= v.deep_view());
        res
    }

    fn eq_physical(a: &Vec<u8>, b: &Vec<u8>) -> (res: bool) {
        let res = bytes_eq(a, b);
        assert(a.deep_view() =~= a@);
        assert(b.deep_view() =~= b@);
        res
    }
}

/// Columns of lists; the inner type is held by each column.
pub struct ListType;

impl PolarsDataType for ListType {
    type Physical = Series;

    open spec fn spec_dtype() -> DataType {
        DataType::List(Box::new(DataType::Null))
    }

    open spec fn valid_dtype(dtype: DataType) -> bool {
        dtype is List
    }

    open spec fn valid_value(dtype: DataType, v: <Series as DeepView>::V) -> bool {
        true
    }

    proof fn lemma_spec_dtype_valid() {
    }

    fn get_dtype() -> (res: DataType) {
        DataType::List(Box::new(DataType::Null))
    }

    /// The empty list, with no name and of the null type.
    fn null_slot() -> (res: Series)
        ensures
            res.deep_view().values.len() == 0,
    {
        Series { name: String::new(), dtype: DataType::Null, values: Vec::new() }
    }

    fn clone_physical(v: &Series) -> (res: Series) {
        v.clone()
    }

    fn eq_physical(a: &Series, b: &Series) -> (res: bool) {
        a.same_as(b)
    }
}

/// Columns of fixed-width lists; the inner type and width are held by each column.
pub struct FixedSizeListType;

impl PolarsDataType for FixedSizeListType {
    type Physical = Series;

    open spec fn spec_dtype() -> DataType {
        DataType::Array(Box::new(DataType::Null), 0)
    }

    open spec fn valid_dtype(dtype: DataType) -> bool {
        dtype is Array
    }

    open spec fn valid_value(dtype: DataType, v: SeriesSpec) -> bool {
        v.values.len() == dtype->Array_1
    }

    proof fn lemma_spec_dtype_valid() {
    }

    fn get_dtype() -> (res: DataType) {
        DataType::Array(Box::new(DataType::Null), 0)
    }

    /// The empty list, with no name and of the null type.
    fn null_slot() -> (res: Series)
        ensures
            res.deep_view().values.len() == 0,
    {
        Series { name: String::new(), dtype: DataType::Null, values: Vec::new() }
    }

    fn clone_physical(v: &Series) -> (res: Series) {
        v.clone()
    }

    fn eq_physical(a: &Series, b: &Series) -> (res: bool) {
        a.same_as(b)
    }
}

/// Values of a type defined by the user of the library, which a column stores as they are.
pub trait PolarsObject: DeepView + Sized + Default {
    /// A copy of the value.
    fn clone_object(&self) -> (res: Self)
        ensures
            res.deep_view() == self.deep_view(),
    ;

    /// Whether two values are equal.
    fn eq_object(&self, other: &Self) -> (res: bool)
        ensures
            res == (self.deep_view() == other.deep_view()),
    ;
}

/// Columns of values of the user's type `O`.
pub struct ObjectType<O> {
    marker: core::marker::PhantomData<O>,
}

impl<O: PolarsObject> PolarsDataType for ObjectType<O> {
    type Physical = O;

    open spec fn spec_dtype() -> DataType {
        DataType::Object
    }

    open spec fn valid_dtype(dtype: DataType) -> bool {
        dtype == Self::spec_dtype()
    }

    open spec fn valid_value(dtype: DataType, v: <O as DeepView>::V) -> bool {
        true
    }

    proof fn lemma_spec_dtype_valid() {
    }

    fn get_dtype() -> (res: DataType) {
        DataType::Object
    }

    /// The object type's default value.
    fn null_slot() -> (res: O)
    {
        O::default()
    }

    fn clone_physical(v: &O) -> (res: O) {
        v.clone_object()
    }

    fn eq_physical(a: &O, b: &O) -> (res: bool) {
        a.eq_object(b)
    }
}

impl PlainValueType for UInt8Type {
    proof fn lemma_any_value_fits(dtype: DataType, v: <<Self as PolarsDataType>::Physical as DeepView>::V) {
    }
}

impl PlainValueType for UInt16Type {
    proof fn lemma_any_value_fits(dtype: DataType, v: <<Self as PolarsDataType>::Physical as DeepView>::V) {
    }
}

impl PlainValueType for UInt32Type {
    proof fn lemma_any_value_fits(dtype: DataType, v: <<Self as PolarsDataType>::Physical as DeepView>::V) {
    }
}

impl PlainValueType for UInt64Type {
    proof fn lemma_any_value_fits(dtype: DataType, v: <<Self as PolarsDataType>::Physical as DeepView>::V) {
    }
}

impl PlainValueType for Int8Type {
    proof fn lemma_any_value_fits(dtype: DataType, v: <<Self as PolarsDataType>::Physical as DeepView>::V) {
    }
}

impl PlainValueType for Int16Type {
    proof fn lemma_any_value_fits(dtype: DataType, v: <<Self as PolarsDataType>::Physical as DeepView>::V) {
    }
}

impl PlainValueType for Int32Type {
    proof fn lemma_any_value_fits(dtype: DataType, v: <<Self as PolarsDataType>::Physical as DeepView>::V) {
    }
}

impl PlainValueType for Int64Type {
    proof fn lemma_any_value_fits(dtype: DataType, v: <<Self as PolarsDataType>::Physical as DeepView>::V) {
    }
}

impl PlainValueType for BooleanType {
    proof fn lemma_any_value_fits(dtype: DataType, v: <<Self as PolarsDataType>::Physical as DeepView>::V) {
    }
}

impl PlainValueType for Utf8Type {
    proof fn lemma_any_value_fits(dtype: DataType, v: <<Self as PolarsDataType>::Physical as DeepView>::V) {
    }
}

impl PlainValueType for BinaryType {
    proof fn lemma_any_value_fits(dtype: DataType, v: <<Self as PolarsDataType>::Physical as DeepView>::V) {
    }
}

impl PlainValueType for ListType {
    proof fn lemma_any_value_fits(dtype: DataType, v: <<Self as PolarsDataType>::Physical as DeepView>::V) {
    }
}

impl<O: PolarsObject> PlainValueType for ObjectType<O> {
    proof fn lemma_any_value_fits(dtype: DataType, v: <O as DeepView>::V) {
    }
}

} // verus!
