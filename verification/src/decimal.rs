use crate::bitmap::Bitmap;
use crate::datatypes::DataType;
use crate::encoding::{decode_i128, spec_i128_from_le_bytes, DECIMAL_BYTE_WIDTH};
use crate::fixed_size_binary::FixedSizeBinaryArray;
use vstd::prelude::*;

verus! {

/// An immutable array of optional 128-bit decimal values: the columnar
/// equivalent of a read-only `Vec<Option<i128>>` tagged with a precision and
/// a scale.
///
/// The bytes live in a delegate fixed-size binary array whose buffer is
/// shared by every clone and slice, so cloning and slicing are O(1) and
/// never copy data.  Its view (`@`) is the sequence of logical elements:
/// `Some(value)` where the slot is valid, `None` where it is null.
pub struct DecimalArray {
    data_type: DataType,
    data: FixedSizeBinaryArray,
    precision: usize,
    scale: usize,
}

impl View for DecimalArray {
    type V = Seq<Option<i128>>;

    open spec fn view(&self) -> Seq<Option<i128>> {
        Seq::new(
            self.spec_len(),
            |i: int|
                if self.spec_validity()[i] {
                    Some(self.spec_values()[i])
                } else {
                    None
                },
        )
    }
}

impl DecimalArray {
    /// Maximum number of decimal digits of a stored value.
    pub closed spec fn spec_precision(&self) -> usize {
        self.precision
    }

    /// Number of fractional digits a stored value is read with.
    pub closed spec fn spec_scale(&self) -> usize {
        self.scale
    }

    /// Number of logical elements.
    pub closed spec fn spec_len(&self) -> nat {
        self.data.spec_len()
    }

    pub closed spec fn spec_data_type(&self) -> DataType {
        self.data_type
    }

    /// Whether a validity bitmap is present (absence means "no nulls").
    pub closed spec fn has_validity(&self) -> bool {
        self.data.has_validity()
    }

    pub closed spec fn wf(&self) -> bool {
        &&& self.data.wf()
        &&& self.data.spec_size() == DECIMAL_BYTE_WIDTH
        &&& 1 <= self.precision <= 38
        &&& self.data_type == DataType::Decimal(self.precision, self.scale)
    }

    /// The decoded unscaled value of every slot, null-unaware: a null slot
    /// decodes whatever bytes it physically holds.
    pub closed spec fn spec_values(&self) -> Seq<i128> {
        Seq::new(
            self.data.spec_len(),
            |i: int| spec_i128_from_le_bytes(self.data.values_model()[i]),
        )
    }

    /// One validity bit per slot; an absent bitmap reads as all-set.
    pub closed spec fn spec_validity(&self) -> Seq<bool> {
        self.data.validity_model()
    }

    /// A well-formed array's models have one entry per element.
    pub proof fn lemma_models_len(&self)
        requires
            self.wf(),
        ensures
            self.spec_values().len() == self.spec_len(),
            self.spec_validity().len() == self.spec_len(),
            self@.len() == self.spec_len(),
    {
        self.data.lemma_models_len();
    }

    /// Without a bitmap every slot reads as valid.
    pub proof fn lemma_no_validity_all_valid(&self)
        requires
            self.wf(),
            !self.has_validity(),
        ensures
            forall|i: int| 0 <= i < self.spec_len() ==> self.spec_validity()[i] == true,
    {
        self.data.lemma_no_validity_model();
    }

    /// The data type of the delegate array: 16-byte fixed-size binary slots.
    pub fn default_data_data_type() -> (r: DataType)
        ensures
            r == DataType::FixedSizeBinary(DECIMAL_BYTE_WIDTH),
    {
        DataType::FixedSizeBinary(DECIMAL_BYTE_WIDTH)
    }

    /// A new [`DecimalArray`] over a ready-made delegate.
    pub fn from_data(precision: usize, scale: usize, data: FixedSizeBinaryArray) -> (r: Self)
        requires
            1 <= precision <= 38,
            data.wf(),
            data.spec_size() == DECIMAL_BYTE_WIDTH,
        ensures
            r.wf(),
            r.spec_precision() == precision,
            r.spec_scale() == scale,
            r.spec_data_type() == DataType::Decimal(precision, scale),
            r.spec_len() == data.spec_len(),
            r.has_validity() == data.has_validity(),
            r.spec_validity() == data.validity_model(),
            r.spec_values() == Seq::new(
                data.spec_len(),
                |i: int| spec_i128_from_le_bytes(data.values_model()[i]),
            ),
    {
        DecimalArray { data_type: DataType::Decimal(precision, scale), scale, precision, data }
    }

    /// A new empty [`DecimalArray`].
    pub fn new_empty(precision: usize, scale: usize) -> (r: Self)
        requires
            1 <= precision <= 38,
        ensures
            r.wf(),
            r.spec_precision() == precision,
            r.spec_scale() == scale,
            r.spec_data_type() == DataType::Decimal(precision, scale),
            r.spec_len() == 0,
            r@ == Seq::<Option<i128>>::empty(),
    {
        let r = Self::from_data(
            precision,
            scale,
            FixedSizeBinaryArray::new_empty(Self::default_data_data_type()),
        );
        proof {
            assert(r@ =~= Seq::<Option<i128>>::empty());
        }
        r
    }

    /// A new [`DecimalArray`] of `length` elements whose slots are all null.
    pub fn new_null(precision: usize, scale: usize, length: usize) -> (r: Self)
        requires
            1 <= precision <= 38,
            length * DECIMAL_BYTE_WIDTH <= usize::MAX,
        ensures
            r.wf(),
            r.spec_precision() == precision,
            r.spec_scale() == scale,
            r.spec_data_type() == DataType::Decimal(precision, scale),
            r.spec_len() == length,
            forall|i: int| 0 <= i < length ==> r.spec_validity()[i] == false,
            forall|i: int| 0 <= i < length ==> r@[i] is None,
    {
        let r = Self::from_data(
            precision,
            scale,
            FixedSizeBinaryArray::new_null(Self::default_data_data_type(), length),
        );
        r
    }

    /// A slice of `length` elements starting at `offset`: a new logical view
    /// over the same buffer and bitmap, O(1).
    ///
    /// The caller must have established that `offset + length <= self.len()`.
    pub fn slice_unchecked(&self, offset: usize, length: usize) -> (r: Self)
        requires
            self.wf(),
            offset + length <= self.spec_len(),
        ensures
            r.wf(),
            r.spec_precision() == self.spec_precision(),
            r.spec_scale() == self.spec_scale(),
            r.spec_data_type() == self.spec_data_type(),
            r.spec_len() == length,
            r.spec_values() == self.spec_values().subrange(offset as int, offset + length),
            r.spec_validity() == self.spec_validity().subrange(offset as int, offset + length),
            r@ == self@.subrange(offset as int, offset + length),
    {
        let r = DecimalArray {
            data_type: self.data_type,
            precision: self.precision,
            scale: self.scale,
            data: self.data.slice(offset, length),
        };
        proof {
            self.lemma_models_len();
            r.lemma_models_len();
            assert(r.spec_values() =~= self.spec_values().subrange(offset as int, offset + length));
            assert forall|i: int| 0 <= i < length implies r@[i] == self@.subrange(
                offset as int,
                offset + length,
            )[i] by {
                assert(r.spec_validity()[i] == self.spec_validity()[offset + i]);
                assert(r.spec_values()[i] == self.spec_values()[offset + i]);
                assert(self@.subrange(offset as int, offset + length)[i] == self@[offset + i]);
            }
            assert(r@ =~= self@.subrange(offset as int, offset + length));
        }
        r
    }

    /// A slice of `length` elements starting at `offset`; O(1).  The bound
    /// `offset + length <= self.len()` is a hard precondition.
    pub fn slice(&self, offset: usize, length: usize) -> (r: Self)
        requires
            self.wf(),
            offset + length <= self.spec_len(),
        ensures
            r.wf(),
            r.spec_precision() == self.spec_precision(),
            r.spec_scale() == self.spec_scale(),
            r.spec_data_type() == self.spec_data_type(),
            r.spec_len() == length,
            r.spec_values() == self.spec_values().subrange(offset as int, offset + length),
            r.spec_validity() == self.spec_validity().subrange(offset as int, offset + length),
            r@ == self@.subrange(offset as int, offset + length),
    {
        self.slice_unchecked(offset, length)
    }

    /// The same elements with the validity bitmap replaced; the byte buffer
    /// is shared, not copied.  The bitmap, where given, must match the
    /// array's length.
    pub fn with_validity(&self, validity: Option<Bitmap>) -> (r: Self)
        requires
            self.wf(),
            validity matches Some(b) ==> b.wf() && b@.len() == self.spec_len(),
        ensures
            r.wf(),
            r.spec_precision() == self.spec_precision(),
            r.spec_scale() == self.spec_scale(),
            r.spec_data_type() == self.spec_data_type(),
            r.spec_len() == self.spec_len(),
            r.spec_values() == self.spec_values(),
            r.has_validity() == (validity matches Some(_)),
            r.spec_validity() == (match validity {
                Some(b) => b@,
                None => Seq::new(self.spec_len(), |i: int| true),
            }),
    {
        let r = DecimalArray {
            data_type: self.data_type,
            precision: self.precision,
            scale: self.scale,
            data: self.data.with_validity(validity),
        };
        proof {
            assert(r.spec_values() =~= self.spec_values());
        }
        r
    }

    /// The unscaled value stored at index `i`, null-unaware: reading a null
    /// slot returns whatever its bytes decode to.  The bound `i < self.len()`
    /// is a hard precondition.
    pub fn value(&self, i: usize) -> (r: i128)
        requires
            self.wf(),
            i < self.spec_len(),
        ensures
            r == self.spec_values()[i as int],
    {
        let bytes = self.data.value(i);
        decode_i128(bytes)
    }

    pub fn precision(&self) -> (r: usize)
        ensures
            r == self.spec_precision(),
    {
        self.precision
    }

    pub fn scale(&self) -> (r: usize)
        ensures
            r == self.spec_scale(),
    {
        self.scale
    }

    pub fn len(&self) -> (r: usize)
        ensures
            r == self.spec_len(),
    {
        self.data.len()
    }

    pub fn data_type(&self) -> (r: &DataType)
        ensures
            *r == self.spec_data_type(),
    {
        &self.data_type
    }

    pub fn validity(&self) -> (r: Option<&Bitmap>)
        requires
            self.wf(),
        ensures
            (match r {
                Some(b) => self.has_validity() && b.wf() && b@ == self.spec_validity(),
                None => !self.has_validity(),
            }),
    {
        self.data.validity()
    }
}

impl Clone for DecimalArray {
    /// An O(1) copy of the handles: the clone observes the same buffer and
    /// bitmap.
    fn clone(&self) -> (r: Self)
        ensures
            r == *self,
    {
        DecimalArray {
            data_type: self.data_type,
            data: self.data.clone(),
            precision: self.precision,
            scale: self.scale,
        }
    }
}

/// Law: a slice keeps its elements in place: element `i` of the
/// `length`-element slice taken at `offset` is element `offset + i` of the
/// original sequence.
pub proof fn lemma_slice_values(vals: Seq<i128>, offset: int, length: int, i: int)
    requires
        0 <= offset,
        0 <= i < length,
        offset + length <= vals.len(),
    ensures
        vals.subrange(offset, offset + length)[i] == vals[offset + i],
{
}

} // verus!
