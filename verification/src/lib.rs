//! Fixed-precision decimal columns for an in-memory columnar format.
//!
//! A column is an immutable array of optional 128-bit signed decimal values
//! ([`decimal::DecimalArray`]), produced by a growable builder
//! ([`mutable::MutableDecimalArray`]) that validates every value against the
//! inclusive range determined by the column's precision.  Values are stored as
//! 16-byte little-endian two's-complement slots inside a generic fixed-size
//! binary array; nulls are tracked by a validity bitmap.

pub mod bitmap;
mod buffer;
pub mod datatypes;
pub mod decimal;
pub mod encoding;
pub mod error;
pub mod fixed_size_binary;
pub mod iterator;
pub mod mutable;
pub mod text;
