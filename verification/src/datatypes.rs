use vstd::prelude::*;

verus! {

/// Descriptor naming the logical type of a columnar array.
///
/// Only the two variants the decimal column touches are modelled here:
/// `Decimal(precision, scale)` tags the column itself, and
/// `FixedSizeBinary(size)` tags the delegate that physically stores one
/// `size`-byte slot per logical element.
#[derive(Clone, Copy, Debug, PartialEq, Eq, Structural)]
pub enum DataType {
    Decimal(usize, usize),
    FixedSizeBinary(usize),
}

} // verus!
