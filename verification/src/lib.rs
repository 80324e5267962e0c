//! Operations on chunked arrays: the traits that describe them, the options
//! they take, and a verified model of a column on which they are carried out.
pub mod datatypes;
pub mod error;
pub mod chunked_array;
pub mod ops;
pub mod expand;
pub mod filter;
pub mod set;
pub mod shift;
pub mod zip;
pub mod take;
pub mod unique;
pub mod sort;
pub mod compare;
pub mod apply;
pub mod explode;
pub mod laws;
