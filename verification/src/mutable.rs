use crate::bitmap::MutableBitmap;
use crate::datatypes::DataType;
use crate::decimal::DecimalArray;
use crate::encoding::{
    encode_i128, in_range, lemma_i128_le_bytes_round_trip, lemma_le_bytes_all_zero,
    max_value_for_precision, min_value_for_precision, spec_i128_from_le_bytes,
    spec_i128_to_le_bytes, DECIMAL_BYTE_WIDTH,
};
use crate::error::ArrowError;
use crate::fixed_size_binary::{zero_slot, MutableFixedSizeBinaryArray};
use crate::text::{append_decimal, append_signed_decimal, spec_decimal_digits, spec_signed_decimal};
use std::sync::Arc;
use vstd::prelude::*;
use vstd::string::StringExecFns;

verus! {

/// The report for a value rejected at the given precision and scale: it
/// names the value and the column's `Decimal(precision, scale)` type.
pub open spec fn spec_out_of_range_message(value: int, precision: int, scale: int) -> Seq<char> {
    "The value of "@ + spec_signed_decimal(value) + " i128 is not compatible with Decimal("@
        + spec_decimal_digits(precision as nat) + ","@ + spec_decimal_digits(scale as nat) + ")"@
}

fn out_of_range_message(value: i128, precision: usize, scale: usize) -> (r: String)
    ensures
        r@ == spec_out_of_range_message(value as int, precision as int, scale as int),
{
    let mut s = String::new();
    s.append("The value of ");
    append_signed_decimal(&mut s, value);
    s.append(" i128 is not compatible with Decimal(");
    append_decimal(&mut s, precision as u128);
    s.append(",");
    append_decimal(&mut s, scale as u128);
    s.append(")");
    proof {
        assert(s@ =~= spec_out_of_range_message(value as int, precision as int, scale as int));
    }
    s
}

/// The builder for [`DecimalArray`]: validates each pushed value against the
/// column's precision, encodes it into a 16-byte slot of the delegate
/// fixed-size binary builder, and snapshots into immutable arrays.
///
/// Its view (`@`) is the sequence of logical elements pushed so far:
/// `Some(value)` for a valid slot, `None` for a null.
pub struct MutableDecimalArray {
    inner: MutableFixedSizeBinaryArray,
    precision: usize,
    scale: usize,
}

impl View for MutableDecimalArray {
    type V = Seq<Option<i128>>;

    open spec fn view(&self) -> Seq<Option<i128>> {
        Seq::new(
            self.spec_len(),
            |i: int|
                if self.spec_validity()[i] {
                    Some(self.spec_values()[i])
                } else {
                    None
                },
        )
    }
}

impl MutableDecimalArray {
    /// Maximum number of decimal digits of a stored value.
    pub closed spec fn spec_precision(&self) -> usize {
        self.precision
    }

    /// Number of fractional digits a stored value is read with.
    pub closed spec fn spec_scale(&self) -> usize {
        self.scale
    }

    /// Number of elements pushed so far.
    pub closed spec fn spec_len(&self) -> nat {
        self.inner.spec_len()
    }

    /// Whether a validity bitmap exists yet (it appears with the first null).
    pub closed spec fn has_validity(&self) -> bool {
        self.inner.has_validity()
    }

    /// The decoded unscaled value of every slot, null-unaware.
    pub closed spec fn spec_values(&self) -> Seq<i128> {
        Seq::new(
            self.inner.spec_len(),
            |i: int| spec_i128_from_le_bytes(self.inner.values_model()[i]),
        )
    }

    /// One validity bit per slot; an absent bitmap reads as all-set.
    pub closed spec fn spec_validity(&self) -> Seq<bool> {
        self.inner.validity_model()
    }

    /// Every valid slot holds a value within the column's range.
    pub closed spec fn wf(&self) -> bool {
        &&& self.inner.wf()
        &&& self.inner.spec_size() == DECIMAL_BYTE_WIDTH
        &&& 1 <= self.precision <= 38
        &&& forall|i: int|
            0 <= i < self.spec_len() && self.spec_validity()[i] ==> in_range(
                #[trigger] self.spec_values()[i],
                self.precision as int,
            )
    }

    /// A well-formed builder's models have one entry per element.
    pub proof fn lemma_models_len(&self)
        requires
            self.wf(),
        ensures
            self.spec_values().len() == self.spec_len(),
            self.spec_validity().len() == self.spec_len(),
            self@.len() == self.spec_len(),
    {
        self.inner.lemma_models_len();
    }

    /// A new builder for a `Decimal(precision, scale)` column, with room
    /// reserved for `capacity` elements of 16 bytes each.
    pub fn new(capacity: usize, precision: usize, scale: usize) -> (r: Self)
        requires
            1 <= precision <= 38,
        ensures
            r.wf(),
            r.spec_precision() == precision,
            r.spec_scale() == scale,
            r.spec_len() == 0,
            !r.has_validity(),
            r@ == Seq::<Option<i128>>::empty(),
            r.spec_values() == Seq::<i128>::empty(),
            r.spec_validity() == Seq::<bool>::empty(),
    {
        let byte_width: usize = 16;
        let r = MutableDecimalArray {
            inner: MutableFixedSizeBinaryArray::with_capacity(byte_width, capacity),
            precision,
            scale,
        };
        proof {
            r.inner.lemma_models_len();
            assert(r@ =~= Seq::<Option<i128>>::empty());
            assert(r.spec_values() =~= Seq::<i128>::empty());
            assert(r.spec_validity() =~= Seq::<bool>::empty());
        }
        r
    }

    /// The little-endian bytes of `v` for a slot of `size` bytes.  A
    /// decimal slot is always 16 bytes — the width the decode path expects —
    /// so every other width is rejected rather than truncated.
    pub fn from_i128_to_fixed_size_bytes(v: i128, size: usize) -> (r: Result<Vec<u8>, ArrowError>)
        ensures
            size != DECIMAL_BYTE_WIDTH ==> r matches Err(ArrowError::InvalidArgumentError(_)),
            size == DECIMAL_BYTE_WIDTH ==> (r matches Ok(b) && b@ == spec_i128_to_le_bytes(v)),
    {
        if size > 16 {
            return Err(
                ArrowError::InvalidArgumentError(
                    "DecimalBuilder only supports values up to 16 bytes.".to_string(),
                ),
            );
        }
        if size < 16 {
            return Err(
                ArrowError::InvalidArgumentError(
                    "DecimalBuilder stores every value as a 16 byte slot.".to_string(),
                ),
            );
        }
        Ok(encode_i128(v))
    }

    /// Appends `value` to the column.
    ///
    /// `None` appends a null and always succeeds.  `Some(v)` is validated
    /// first: a value outside the column's range is rejected with an
    /// invalid-argument error and the builder is left exactly as it was;
    /// otherwise the value is encoded and appended as a valid slot.
    pub fn try_push(&mut self, value: Option<i128>) -> (r: Result<(), ArrowError>)
        requires
            old(self).wf(),
            (old(self).spec_len() + 1) * DECIMAL_BYTE_WIDTH <= usize::MAX,
        ensures
            final(self).wf(),
            final(self).spec_precision() == old(self).spec_precision(),
            final(self).spec_scale() == old(self).spec_scale(),
            (match value {
                None => {
                    &&& r is Ok
                    &&& final(self).spec_len() == old(self).spec_len() + 1
                    &&& final(self).spec_values() == old(self).spec_values().push(0i128)
                    &&& final(self).spec_validity() == old(self).spec_validity().push(false)
                    &&& final(self)@ == old(self)@.push(Option::<i128>::None)
                    &&& final(self).has_validity()
                },
                Some(v) => {
                    if in_range(v, old(self).spec_precision() as int) {
                        &&& r is Ok
                        &&& final(self).spec_len() == old(self).spec_len() + 1
                        &&& final(self).spec_values() == old(self).spec_values().push(v)
                        &&& final(self).spec_validity() == old(self).spec_validity().push(true)
                        &&& final(self)@ == old(self)@.push(Some(v))
                        &&& final(self).has_validity() == old(self).has_validity()
                    } else {
                        &&& r matches Err(ArrowError::InvalidArgumentError(m)) && m@
                            == spec_out_of_range_message(
                            v as int,
                            old(self).spec_precision() as int,
                            old(self).spec_scale() as int,
                        )
                        &&& *final(self) == *old(self)
                    }
                },
            }),
    {
        match value {
            Some(value) => {
                let max = max_value_for_precision(self.precision);
                let min = min_value_for_precision(self.precision);
                if value > max || value < min {
                    return Err(
                        ArrowError::InvalidArgumentError(
                            out_of_range_message(value, self.precision, self.scale),
                        ),
                    );
                }
                let value_as_bytes = match Self::from_i128_to_fixed_size_bytes(
                    value,
                    self.inner.size(),
                ) {
                    Ok(b) => b,
                    Err(e) => {
                        return Err(e);
                    },
                };
                if self.inner.size() != value_as_bytes.len() {
                    return Err(
                        ArrowError::InvalidArgumentError(
                            "Byte slice does not have the same length as DecimalBuilder value lengths".to_string(),
                        ),
                    );
                }
                proof {
                    lemma_i128_le_bytes_round_trip(value);
                    assert(value_as_bytes@ =~= spec_i128_to_le_bytes(value));
                    old(self).lemma_models_len();
                }
                self.inner.push_value(value_as_bytes.as_slice());
                proof {
                    self.lemma_push_value_model(*old(self), value);
                }
                Ok(())
            },
            None => {
                proof {
                    old(self).lemma_models_len();
                }
                self.inner.push_null();
                proof {
                    self.lemma_push_null_model(*old(self));
                }
                Ok(())
            },
        }
    }

    /// Appends a null slot unconditionally: null has no value domain, so no
    /// validation applies.
    pub fn push_null(&mut self)
        requires
            old(self).wf(),
            (old(self).spec_len() + 1) * DECIMAL_BYTE_WIDTH <= usize::MAX,
        ensures
            final(self).wf(),
            final(self).spec_precision() == old(self).spec_precision(),
            final(self).spec_scale() == old(self).spec_scale(),
            final(self).spec_len() == old(self).spec_len() + 1,
            final(self).spec_values() == old(self).spec_values().push(0i128),
            final(self).spec_validity() == old(self).spec_validity().push(false),
            final(self)@ == old(self)@.push(Option::<i128>::None),
            final(self).has_validity(),
    {
        proof {
            old(self).lemma_models_len();
        }
        self.inner.push_null();
        proof {
            self.lemma_push_null_model(*old(self));
        }
    }

    /// After the delegate accepted the encoded bytes of `v`, the builder's
    /// models have grown by exactly that valid element.
    proof fn lemma_push_value_model(&self, prev: Self, v: i128)
        requires
            prev.wf(),
            self.precision == prev.precision,
            self.scale == prev.scale,
            in_range(v, prev.precision as int),
            self.inner.spec_size() == prev.inner.spec_size(),
            self.inner.wf(),
            self.inner.spec_len() == prev.inner.spec_len() + 1,
            self.inner.has_validity() == prev.inner.has_validity(),
            self.inner.values_model() == prev.inner.values_model().push(spec_i128_to_le_bytes(v)),
            self.inner.validity_model() == prev.inner.validity_model().push(true),
        ensures
            self.wf(),
            self.spec_values() == prev.spec_values().push(v),
            self.spec_validity() == prev.spec_validity().push(true),
            self@ == prev@.push(Some(v)),
    {
        prev.lemma_models_len();
        lemma_i128_le_bytes_round_trip(v);
        assert(self.spec_values() =~= prev.spec_values().push(v));
        assert(self.spec_validity() =~= prev.spec_validity().push(true));
        assert(self@ =~= prev@.push(Some(v)));
    }

    /// After the delegate accepted a null slot, the builder's models have
    /// grown by exactly that null element.
    proof fn lemma_push_null_model(&self, prev: Self)
        requires
            prev.wf(),
            self.precision == prev.precision,
            self.scale == prev.scale,
            self.inner.spec_size() == prev.inner.spec_size(),
            self.inner.wf(),
            self.inner.spec_len() == prev.inner.spec_len() + 1,
            self.inner.has_validity(),
            self.inner.values_model() == prev.inner.values_model().push(
                zero_slot(DECIMAL_BYTE_WIDTH as nat),
            ),
            self.inner.validity_model() == prev.inner.validity_model().push(false),
        ensures
            self.wf(),
            self.spec_values() == prev.spec_values().push(0i128),
            self.spec_validity() == prev.spec_validity().push(false),
            self@ == prev@.push(Option::<i128>::None),
    {
        prev.lemma_models_len();
        lemma_le_bytes_all_zero(zero_slot(DECIMAL_BYTE_WIDTH as nat));
        assert(self.spec_values() =~= prev.spec_values().push(0i128));
        assert(self.spec_validity() =~= prev.spec_validity().push(false));
        assert(self@ =~= prev@.push(Option::<i128>::None));
    }

    /// An immutable snapshot of the column built so far.  Every valid slot
    /// of the result decodes to a value within the column's range.
    fn snapshot(&mut self) -> (r: DecimalArray)
        requires
            old(self).wf(),
        ensures
            *final(self) == *old(self),
            r.wf(),
            r.spec_precision() == old(self).spec_precision(),
            r.spec_scale() == old(self).spec_scale(),
            r.spec_data_type() == DataType::Decimal(
                old(self).spec_precision(),
                old(self).spec_scale(),
            ),
            r.spec_len() == old(self).spec_len(),
            r.has_validity() == old(self).has_validity(),
            r.spec_values() == old(self).spec_values(),
            r.spec_validity() == old(self).spec_validity(),
            r@ == old(self)@,
            forall|i: int|
                0 <= i < r.spec_len() && r.spec_validity()[i] ==> in_range(
                    #[trigger] r.spec_values()[i],
                    old(self).spec_precision() as int,
                ),
    {
        let data = self.inner.as_fixed_size_array();
        let r = DecimalArray::from_data(self.precision, self.scale, data);
        proof {
            old(self).lemma_models_len();
            assert(r.spec_values() =~= old(self).spec_values());
            assert(r@ =~= old(self)@);
        }
        r
    }

    /// Materialises the column as an owned immutable array; the builder
    /// keeps its state and may be snapshotted again.
    pub fn as_box(&mut self) -> (r: Box<DecimalArray>)
        requires
            old(self).wf(),
        ensures
            *final(self) == *old(self),
            r.wf(),
            r.spec_precision() == old(self).spec_precision(),
            r.spec_scale() == old(self).spec_scale(),
            r.spec_len() == old(self).spec_len(),
            r.has_validity() == old(self).has_validity(),
            r.spec_values() == old(self).spec_values(),
            r.spec_validity() == old(self).spec_validity(),
            r@ == old(self)@,
            forall|i: int|
                0 <= i < r.spec_len() && r.spec_validity()[i] ==> in_range(
                    #[trigger] r.spec_values()[i],
                    old(self).spec_precision() as int,
                ),
    {
        Box::new(self.snapshot())
    }

    /// Materialises the column as a shared immutable array; the builder
    /// keeps its state and may be snapshotted again.
    pub fn as_arc(&mut self) -> (r: Arc<DecimalArray>)
        requires
            old(self).wf(),
        ensures
            *final(self) == *old(self),
            r.wf(),
            r.spec_precision() == old(self).spec_precision(),
            r.spec_scale() == old(self).spec_scale(),
            r.spec_len() == old(self).spec_len(),
            r.has_validity() == old(self).has_validity(),
            r.spec_values() == old(self).spec_values(),
            r.spec_validity() == old(self).spec_validity(),
            r@ == old(self)@,
            forall|i: int|
                0 <= i < r.spec_len() && r.spec_validity()[i] ==> in_range(
                    #[trigger] r.spec_values()[i],
                    old(self).spec_precision() as int,
                ),
    {
        Arc::new(self.snapshot())
    }

    pub fn len(&self) -> (r: usize)
        ensures
            r == self.spec_len(),
    {
        self.inner.len()
    }

    pub fn precision(&self) -> (r: usize)
        ensures
            r == self.spec_precision(),
    {
        self.precision
    }

    pub fn scale(&self) -> (r: usize)
        ensures
            r == self.spec_scale(),
    {
        self.scale
    }

    /// The column's data type.
    pub fn data_type(&self) -> (r: DataType)
        ensures
            r == DataType::Decimal(self.spec_precision(), self.spec_scale()),
    {
        DataType::Decimal(self.precision, self.scale)
    }

    pub fn validity(&self) -> (r: Option<&MutableBitmap>)
        requires
            self.wf(),
        ensures
            (match r {
                Some(b) => self.has_validity() && b@ == self.spec_validity(),
                None => !self.has_validity(),
            }),
    {
        self.inner.validity()
    }

    /// Releases unused reserved capacity; contents and length are unchanged.
    pub fn shrink_to_fit(&mut self)
        requires
            old(self).wf(),
        ensures
            final(self).wf(),
            final(self).spec_precision() == old(self).spec_precision(),
            final(self).spec_scale() == old(self).spec_scale(),
            final(self).spec_len() == old(self).spec_len(),
            final(self).has_validity() == old(self).has_validity(),
            final(self).spec_values() == old(self).spec_values(),
            final(self).spec_validity() == old(self).spec_validity(),
            final(self)@ == old(self)@,
    {
        self.inner.shrink_to_fit();
        proof {
            assert(self.spec_values() =~= old(self).spec_values());
            assert(self@ =~= old(self)@);
        }
    }
}

/// Law: a value pushed at the end of the column is read back unchanged: the
/// element that the push appends at the old length is the pushed value.
pub proof fn lemma_push_read_round_trip(values: Seq<i128>, v: i128)
    ensures
        values.push(v)[values.len() as int] == v,
{
}

/// Law: a null pushed at the end of the column is reported invalid: the
/// validity bit that the push appends at the old length is unset.
pub proof fn lemma_push_null_round_trip(validity: Seq<bool>)
    ensures
        !validity.push(false)[validity.len() as int],
{
}

} // verus!
