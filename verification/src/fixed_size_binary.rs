use crate::bitmap::{Bitmap, MutableBitmap};
use crate::buffer::{copy_bytes, share, shrink_vec, zero_bytes};
use crate::datatypes::DataType;
use std::sync::Arc;
use vstd::prelude::*;
use vstd::slice::slice_subrange;

verus! {

/// The all-zero content of one `size`-byte slot.
pub open spec fn zero_slot(size: nat) -> Seq<u8> {
    Seq::new(size, |j: int| 0u8)
}

/// A count of elements is no larger than the bytes those elements occupy.
proof fn lemma_le_times(a: int, s: int)
    requires
        a >= 0,
        s >= 1,
    ensures
        a <= a * s,
{
    assert(a <= a * s) by (nonlinear_arith)
        requires
            a >= 0,
            s >= 1,
    ;
}

/// Multiplying both sides of an inequality by a nonnegative width keeps it.
proof fn lemma_mul_mono(a: int, b: int, s: int)
    requires
        a <= b,
        s >= 0,
    ensures
        a * s <= b * s,
{
    assert(a * s <= b * s) by (nonlinear_arith)
        requires
            a <= b,
            s >= 0,
    ;
}

/// One more element occupies one more slot of bytes.
proof fn lemma_mul_step(a: int, s: int)
    ensures
        (a + 1) * s == a * s + s,
{
    assert((a + 1) * s == a * s + s) by (nonlinear_arith);
}

/// An immutable array of equally sized byte slots plus an optional validity
/// bitmap.  The slots live in a reference-counted byte buffer shared with
/// every clone and slice of the array, addressed through an
/// `(offset, length)` window counted in elements.
pub struct FixedSizeBinaryArray {
    data_type: DataType,
    size: usize,
    values: Arc<Vec<u8>>,
    offset: usize,
    length: usize,
    validity: Option<Bitmap>,
}

impl FixedSizeBinaryArray {
    /// Bytes per element.
    pub closed spec fn spec_size(&self) -> usize {
        self.size
    }

    /// Number of logical elements.
    pub closed spec fn spec_len(&self) -> nat {
        self.length as nat
    }

    pub closed spec fn spec_data_type(&self) -> DataType {
        self.data_type
    }

    /// Whether a validity bitmap is present (absence means "no nulls").
    pub closed spec fn has_validity(&self) -> bool {
        self.validity is Some
    }

    pub closed spec fn wf(&self) -> bool {
        &&& self.size >= 1
        &&& (self.offset + self.length) * self.size <= self.values@.len()
        &&& (self.offset + self.length) * self.size <= usize::MAX
        &&& self.data_type == DataType::FixedSizeBinary(self.size)
        &&& match self.validity {
            Some(b) => b.wf() && b@.len() == self.length,
            None => true,
        }
    }

    /// The bytes of element `i`.
    pub closed spec fn spec_value(&self, i: int) -> Seq<u8> {
        self.values@.subrange((self.offset + i) * self.size, (self.offset + i + 1) * self.size)
    }

    /// The elements, each as its byte slot.
    pub open spec fn values_model(&self) -> Seq<Seq<u8>> {
        Seq::new(self.spec_len(), |i: int| self.spec_value(i))
    }

    /// One validity bit per element; an absent bitmap reads as all-set.
    pub closed spec fn validity_model(&self) -> Seq<bool> {
        match self.validity {
            Some(b) => b@,
            None => Seq::new(self.spec_len(), |i: int| true),
        }
    }

    /// A well-formed array's models have one entry per element, and every
    /// byte slot has the fixed width.
    pub proof fn lemma_models_len(&self)
        requires
            self.wf(),
        ensures
            self.validity_model().len() == self.spec_len(),
            self.values_model().len() == self.spec_len(),
            forall|i: int|
                0 <= i < self.spec_len() ==> (#[trigger] self.values_model()[i]).len()
                    == self.spec_size(),
    {
        assert forall|i: int| 0 <= i < self.spec_len() implies (#[trigger] self.values_model()[
            i
        ]).len() == self.spec_size() by {
            lemma_mul_mono(self.offset + i + 1, self.offset + self.length, self.size as int);
            lemma_mul_step(self.offset + i, self.size as int);
            lemma_le_times(self.offset + i, self.size as int);
            assert(0 <= (self.offset + i) * self.size) by (nonlinear_arith)
                requires
                    self.offset >= 0,
                    i >= 0,
                    self.size >= 0,
            ;
        }
    }

    /// Without a bitmap every element reads as valid.
    pub proof fn lemma_no_validity_model(&self)
        requires
            !self.has_validity(),
        ensures
            self.validity_model() == Seq::new(self.spec_len(), |i: int| true),
    {
    }

    /// An empty array of the given fixed-size-binary type.
    pub fn new_empty(data_type: DataType) -> (r: Self)
        requires
            data_type matches DataType::FixedSizeBinary(s) && s >= 1,
        ensures
            r.wf(),
            r.spec_data_type() == data_type,
            data_type == DataType::FixedSizeBinary(r.spec_size()),
            r.spec_len() == 0,
            !r.has_validity(),
    {
        let size = match data_type {
            DataType::FixedSizeBinary(s) => s,
            DataType::Decimal(_, _) => 1,
        };
        let r = FixedSizeBinaryArray {
            data_type,
            size,
            values: Arc::new(Vec::new()),
            offset: 0,
            length: 0,
            validity: None,
        };
        proof {
            assert((0 + 0) * size == 0) by (nonlinear_arith);
        }
        r
    }

    /// An array of `length` elements, all null; every slot is zero-filled.
    pub fn new_null(data_type: DataType, length: usize) -> (r: Self)
        requires
            data_type matches DataType::FixedSizeBinary(s) && s >= 1 && length * s <= usize::MAX,
        ensures
            r.wf(),
            r.spec_data_type() == data_type,
            data_type == DataType::FixedSizeBinary(r.spec_size()),
            r.spec_len() == length,
            r.has_validity(),
            forall|i: int| 0 <= i < length ==> r.validity_model()[i] == false,
            forall|i: int|
                0 <= i < length ==> r.values_model()[i] == zero_slot(r.spec_size() as nat),
    {
        let size = match data_type {
            DataType::FixedSizeBinary(s) => s,
            DataType::Decimal(_, _) => 1,
        };
        let values = zero_bytes(length * size);
        let validity = Bitmap::new_unset(length);
        let r = FixedSizeBinaryArray {
            data_type,
            size,
            values: Arc::new(values),
            offset: 0,
            length,
            validity: Some(validity),
        };
        proof {
            assert((0 + length) * size == length * size) by (nonlinear_arith);
            assert forall|i: int| 0 <= i < length implies r.values_model()[i] == zero_slot(
                r.spec_size() as nat,
            ) by {
                lemma_mul_mono(i + 1, length as int, size as int);
                lemma_le_times(i, size as int);
                lemma_mul_step(i, size as int);
                assert(0 <= i * size) by (nonlinear_arith)
                    requires
                        0 <= i,
                        size >= 0,
                ;
                assert((0 + i) * size == i * size) by (nonlinear_arith);
                assert((0 + i + 1) * size == (i + 1) * size) by (nonlinear_arith);
                assert(r.spec_value(i) =~= zero_slot(size as nat));
            }
        }
        r
    }

    pub fn size(&self) -> (r: usize)
        ensures
            r == self.spec_size(),
    {
        self.size
    }

    pub fn len(&self) -> (r: usize)
        ensures
            r == self.spec_len(),
    {
        self.length
    }

    pub fn data_type(&self) -> (r: &DataType)
        ensures
            *r == self.spec_data_type(),
    {
        &self.data_type
    }

    pub fn validity(&self) -> (r: Option<&Bitmap>)
        requires
            self.wf(),
        ensures
            (match r {
                Some(b) => self.has_validity() && b.wf() && b@ == self.validity_model(),
                None => !self.has_validity(),
            }),
    {
        match &self.validity {
            Some(b) => Some(b),
            None => None,
        }
    }

    /// The byte slot of element `i`, as a borrowed slice of `size` bytes.
    pub fn value(&self, i: usize) -> (r: &[u8])
        requires
            self.wf(),
            i < self.spec_len(),
        ensures
            r@ == self.values_model()[i as int],
            r@.len() == self.spec_size(),
    {
        proof {
            lemma_mul_step(self.offset + i, self.size as int);
            lemma_mul_mono(
                self.offset + i + 1,
                self.offset + self.length,
                self.size as int,
            );
            lemma_le_times(self.offset + i, self.size as int);
            assert(0 <= (self.offset + i) * self.size) by (nonlinear_arith)
                requires
                    self.offset >= 0,
                    i >= 0,
                    self.size >= 0,
            ;
        }
        let start: usize = (self.offset + i) * self.size;
        let end: usize = start + self.size;
        let values: &Vec<u8> = &*self.values;
        let r = slice_subrange(values.as_slice(), start, end);
        proof {
            assert(r@ == self.spec_value(i as int));
        }
        r
    }

    /// A window of `length` elements starting at `offset` within this array,
    /// sharing buffer and bitmap; O(1).
    pub fn slice(&self, offset: usize, length: usize) -> (r: Self)
        requires
            self.wf(),
            offset + length <= self.spec_len(),
        ensures
            r.wf(),
            r.spec_size() == self.spec_size(),
            r.spec_data_type() == self.spec_data_type(),
            r.spec_len() == length,
            r.has_validity() == self.has_validity(),
            r.values_model() == self.values_model().subrange(offset as int, offset + length),
            r.validity_model() == self.validity_model().subrange(offset as int, offset + length),
    {
        proof {
            lemma_mul_mono(
                self.offset + offset + length,
                self.offset + self.length,
                self.size as int,
            );
            lemma_le_times(self.offset + offset + length, self.size as int);
        }
        let validity = match &self.validity {
            Some(b) => Some(b.sliced(offset, length)),
            None => None,
        };
        let r = FixedSizeBinaryArray {
            data_type: self.data_type,
            size: self.size,
            values: share(&self.values),
            offset: self.offset + offset,
            length,
            validity,
        };
        proof {
            assert forall|i: int| 0 <= i < length implies r.spec_value(i) == self.spec_value(
                offset + i,
            ) by {
                assert(r.offset + i == self.offset + (offset + i));
            }
            assert(r.values_model() =~= self.values_model().subrange(
                offset as int,
                offset + length,
            ));
            match &self.validity {
                Some(_) => {}
                None => {
                    assert(r.validity_model() =~= self.validity_model().subrange(
                        offset as int,
                        offset + length,
                    ));
                }
            }
        }
        r
    }

    /// The same elements with the validity bitmap replaced; the byte buffer
    /// is shared, not copied.
    pub fn with_validity(&self, validity: Option<Bitmap>) -> (r: Self)
        requires
            self.wf(),
            validity matches Some(b) ==> b.wf() && b@.len() == self.spec_len(),
        ensures
            r.wf(),
            r.spec_size() == self.spec_size(),
            r.spec_data_type() == self.spec_data_type(),
            r.spec_len() == self.spec_len(),
            r.values_model() == self.values_model(),
            r.has_validity() == (validity matches Some(_)),
            r.validity_model() == (match validity {
                Some(b) => b@,
                None => Seq::new(self.spec_len(), |i: int| true),
            }),
    {
        FixedSizeBinaryArray {
            data_type: self.data_type,
            size: self.size,
            values: share(&self.values),
            offset: self.offset,
            length: self.length,
            validity,
        }
    }
}

impl Clone for FixedSizeBinaryArray {
    /// An O(1) copy of the handles: the clone observes the same buffer and
    /// bitmap.
    fn clone(&self) -> (r: Self)
        ensures
            r == *self,
    {
        FixedSizeBinaryArray {
            data_type: self.data_type,
            size: self.size,
            values: share(&self.values),
            offset: self.offset,
            length: self.length,
            validity: match &self.validity {
                Some(b) => Some(b.clone()),
                None => None,
            },
        }
    }
}

/// The growable counterpart of [`FixedSizeBinaryArray`]: a flat byte vector
/// extended slot by slot, with a validity bitmap that is materialised the
/// first time a null is pushed.
pub struct MutableFixedSizeBinaryArray {
    size: usize,
    values: Vec<u8>,
    length: usize,
    validity: Option<MutableBitmap>,
}

impl MutableFixedSizeBinaryArray {
    /// Bytes per element.
    pub closed spec fn spec_size(&self) -> usize {
        self.size
    }

    /// Number of elements pushed so far.
    pub closed spec fn spec_len(&self) -> nat {
        self.length as nat
    }

    pub closed spec fn has_validity(&self) -> bool {
        self.validity is Some
    }

    pub closed spec fn wf(&self) -> bool {
        &&& self.size >= 1
        &&& self.values@.len() == self.length * self.size
        &&& self.length * self.size <= usize::MAX
        &&& match self.validity {
            Some(b) => b@.len() == self.length,
            None => true,
        }
    }

    /// The bytes of element `i`.
    pub closed spec fn spec_value(&self, i: int) -> Seq<u8> {
        self.values@.subrange(i * self.size, (i + 1) * self.size)
    }

    /// The elements, each as its byte slot.
    pub open spec fn values_model(&self) -> Seq<Seq<u8>> {
        Seq::new(self.spec_len(), |i: int| self.spec_value(i))
    }

    /// One validity bit per element; an absent bitmap reads as all-set.
    pub closed spec fn validity_model(&self) -> Seq<bool> {
        match self.validity {
            Some(b) => b@,
            None => Seq::new(self.spec_len(), |i: int| true),
        }
    }

    /// A well-formed builder's models have one entry per element, and every
    /// byte slot has the fixed width.
    pub proof fn lemma_models_len(&self)
        requires
            self.wf(),
        ensures
            self.validity_model().len() == self.spec_len(),
            self.values_model().len() == self.spec_len(),
            forall|i: int|
                0 <= i < self.spec_len() ==> (#[trigger] self.values_model()[i]).len()
                    == self.spec_size(),
    {
        assert forall|i: int| 0 <= i < self.spec_len() implies (#[trigger] self.values_model()[
            i
        ]).len() == self.spec_size() by {
            lemma_mul_mono(i + 1, self.length as int, self.size as int);
            lemma_mul_step(i, self.size as int);
            lemma_le_times(i, self.size as int);
            assert(0 <= i * self.size) by (nonlinear_arith)
                requires
                    i >= 0,
                    self.size >= 0,
            ;
        }
    }

    /// An empty builder for `size`-byte slots, with room reserved for
    /// `capacity` elements.
    pub fn with_capacity(size: usize, capacity: usize) -> (r: Self)
        requires
            size >= 1,
        ensures
            r.wf(),
            r.spec_size() == size,
            r.spec_len() == 0,
            !r.has_validity(),
    {
        let values = match size.checked_mul(capacity) {
            Some(n) => Vec::with_capacity(n),
            None => Vec::new(),
        };
        MutableFixedSizeBinaryArray { size, values, length: 0, validity: None }
    }

    pub fn size(&self) -> (r: usize)
        ensures
            r == self.spec_size(),
    {
        self.size
    }

    pub fn len(&self) -> (r: usize)
        ensures
            r == self.spec_len(),
    {
        self.length
    }

    pub fn validity(&self) -> (r: Option<&MutableBitmap>)
        requires
            self.wf(),
        ensures
            (match r {
                Some(b) => self.has_validity() && b@ == self.validity_model(),
                None => !self.has_validity(),
            }),
    {
        match &self.validity {
            Some(b) => Some(b),
            None => None,
        }
    }

    /// Appends one slot holding the given bytes and marks it valid.
    pub fn push_value(&mut self, bytes: &[u8])
        requires
            old(self).wf(),
            bytes@.len() == old(self).spec_size(),
            (old(self).spec_len() + 1) * old(self).spec_size() <= usize::MAX,
        ensures
            final(self).wf(),
            final(self).spec_size() == old(self).spec_size(),
            final(self).spec_len() == old(self).spec_len() + 1,
            final(self).has_validity() == old(self).has_validity(),
            final(self).values_model() == old(self).values_model().push(bytes@),
            final(self).validity_model() == old(self).validity_model().push(true),
    {
        proof {
            let n = old(self).length as int;
            let s = old(self).size as int;
            lemma_mul_step(n, s);
            lemma_le_times(n + 1, s);
        }
        let ghost old_values = self.values@;
        let mut k: usize = 0;
        while k < bytes.len()
            invariant
                k <= bytes@.len(),
                self.values@ == old_values + bytes@.subrange(0, k as int),
                self.size == old(self).size,
                self.length == old(self).length,
                self.validity == old(self).validity,
                bytes@.len() == old(self).size,
                old_values.len() == old(self).length * old(self).size,
            decreases bytes@.len() - k,
        {
            self.values.push(bytes[k]);
            proof {
                assert(self.values@ =~= old_values + bytes@.subrange(0, k + 1));
            }
            k = k + 1;
        }
        proof {
            assert(self.values@ =~= old_values + bytes@);
        }
        match &mut self.validity {
            Some(b) => b.push(true),
            None => {}
        }
        self.length = self.length + 1;
        proof {
            lemma_flat_push(old_values, bytes@, old(self).length as int, old(self).size as int);
            assert(self.values_model() =~= old(self).values_model().push(bytes@));
            match old(self).validity {
                Some(b) => {}
                None => {
                    assert(self.validity_model() =~= old(self).validity_model().push(true));
                }
            }
        }
    }

    /// Appends one null slot: zero-filled bytes and an unset validity bit.
    /// The bitmap is created on the first null, marking every earlier slot
    /// valid.
    pub fn push_null(&mut self)
        requires
            old(self).wf(),
            (old(self).spec_len() + 1) * old(self).spec_size() <= usize::MAX,
        ensures
            final(self).wf(),
            final(self).spec_size() == old(self).spec_size(),
            final(self).spec_len() == old(self).spec_len() + 1,
            final(self).has_validity(),
            final(self).values_model() == old(self).values_model().push(
                zero_slot(old(self).spec_size() as nat),
            ),
            final(self).validity_model() == old(self).validity_model().push(false),
    {
        proof {
            let n = old(self).length as int;
            let s = old(self).size as int;
            lemma_mul_step(n, s);
            lemma_le_times(n + 1, s);
        }
        let ghost old_values = self.values@;
        let mut k: usize = 0;
        while k < self.size
            invariant
                k <= self.size,
                self.values@.len() == old_values.len() + k,
                self.values@ == old_values + zero_slot(k as nat),
                self.size == old(self).size,
                self.length == old(self).length,
                self.validity == old(self).validity,
                old_values.len() == old(self).length * old(self).size,
            decreases self.size - k,
        {
            self.values.push(0u8);
            proof {
                assert(self.values@ =~= old_values + zero_slot((k + 1) as nat));
            }
            k = k + 1;
        }
        let needs_bitmap = match &self.validity {
            Some(_) => false,
            None => true,
        };
        if needs_bitmap {
            self.validity = Some(MutableBitmap::from_len_set(self.length));
        }
        match &mut self.validity {
            Some(b) => b.push(false),
            None => {}
        }
        self.length = self.length + 1;
        proof {
            lemma_flat_push(
                old_values,
                zero_slot(old(self).size as nat),
                old(self).length as int,
                old(self).size as int,
            );
            assert(self.values_model() =~= old(self).values_model().push(
                zero_slot(old(self).spec_size() as nat),
            ));
            assert(self.validity_model() =~= old(self).validity_model().push(false));
        }
    }

    /// An immutable array holding a snapshot of the slots pushed so far.
    /// The builder keeps its state and may be snapshotted again.
    pub fn as_fixed_size_array(&mut self) -> (r: FixedSizeBinaryArray)
        requires
            old(self).wf(),
        ensures
            *final(self) == *old(self),
            r.wf(),
            r.spec_size() == old(self).spec_size(),
            r.spec_data_type() == DataType::FixedSizeBinary(old(self).spec_size()),
            r.spec_len() == old(self).spec_len(),
            r.has_validity() == old(self).has_validity(),
            r.values_model() == old(self).values_model(),
            r.validity_model() == old(self).validity_model(),
    {
        let validity = match &self.validity {
            Some(b) => Some(b.to_bitmap()),
            None => None,
        };
        let r = FixedSizeBinaryArray {
            data_type: DataType::FixedSizeBinary(self.size),
            size: self.size,
            values: Arc::new(copy_bytes(&self.values)),
            offset: 0,
            length: self.length,
            validity,
        };
        proof {
            assert forall|i: int| 0 <= i < self.length implies r.spec_value(i) == self.spec_value(
                i,
            ) by {
                assert(r.offset + i == i);
            }
            assert(r.values_model() =~= self.values_model());
            match &self.validity {
                Some(_) => {}
                None => {
                    assert(r.validity_model() =~= self.validity_model());
                }
            }
        }
        r
    }

    /// Releases unused reserved capacity; contents and length are unchanged.
    pub fn shrink_to_fit(&mut self)
        requires
            old(self).wf(),
        ensures
            final(self).wf(),
            final(self).spec_size() == old(self).spec_size(),
            final(self).spec_len() == old(self).spec_len(),
            final(self).has_validity() == old(self).has_validity(),
            final(self).values_model() == old(self).values_model(),
            final(self).validity_model() == old(self).validity_model(),
    {
        shrink_vec(&mut self.values);
        match &mut self.validity {
            Some(b) => b.shrink_to_fit(),
            None => {}
        }
        proof {
            assert(self.values_model() =~= old(self).values_model());
        }
    }
}

/// Appending one `size`-byte slot to a flat buffer of `n` slots leaves the
/// first `n` slots in place and makes the new bytes slot `n`.
proof fn lemma_flat_push(values: Seq<u8>, slot: Seq<u8>, n: int, size: int)
    requires
        size >= 1,
        n >= 0,
        values.len() == n * size,
        slot.len() == size,
    ensures
        forall|i: int|
            0 <= i < n ==> #[trigger] (values + slot).subrange(i * size, (i + 1) * size)
                == values.subrange(i * size, (i + 1) * size),
        (values + slot).subrange(n * size, (n + 1) * size) == slot,
{
    assert forall|i: int| 0 <= i < n implies #[trigger] (values + slot).subrange(
        i * size,
        (i + 1) * size,
    ) == values.subrange(i * size, (i + 1) * size) by {
        assert((i + 1) * size <= n * size) by (nonlinear_arith)
            requires
                i < n,
                size >= 0,
        ;
        assert(0 <= i * size) by (nonlinear_arith)
            requires
                0 <= i,
                size >= 0,
        ;
        assert(i * size <= (i + 1) * size) by (nonlinear_arith)
            requires
                size >= 0,
        ;
        assert((values + slot).subrange(i * size, (i + 1) * size) =~= values.subrange(
            i * size,
            (i + 1) * size,
        ));
    }
    assert((n + 1) * size == n * size + size) by (nonlinear_arith);
    assert(0 <= n * size) by (nonlinear_arith)
        requires
            0 <= n,
            size >= 0,
    ;
    assert((values + slot).subrange(n * size, (n + 1) * size) =~= slot);
}

} // verus!
