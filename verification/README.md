# chunked_ops

The traits for the operations on columns of a dataframe library, the options that
they take, and a verified model of a column on which many of them are carried out.

- `src/datatypes.rs`: logical types, scalar values, series, and the column types with
  the type in which each stores a value.
- `src/chunked_array.rs`: the column: a name, a logical type, nullable values, the value
  buffer that also holds a stored value under each null, and a sortedness flag, with its
  mathematical model.
- `src/error.rs`: the errors of the operations.
- `src/ops.rs`: the traits, with their default methods, and the option types.
- `src/expand.rs`, `src/filter.rs`, `src/set.rs`, `src/shift.rs`, `src/zip.rs`,
  `src/take.rs`, `src/unique.rs`, `src/apply.rs`, `src/sort.rs`, `src/compare.rs`,
  `src/explode.rs`: the operations on the model column.
- `src/laws.rs`: properties that the operations have together.
- `app/lib.rs`: serde support for the sort options, and the traits whose results or
  parameters are floating point or outside trait objects.
