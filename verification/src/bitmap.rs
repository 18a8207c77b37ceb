use crate::buffer::{copy_bits, share, shrink_vec};
use std::sync::Arc;
use vstd::prelude::*;

verus! {

/// An immutable sequence of validity bits: `true` marks a slot that holds a
/// value, `false` marks a null.
///
/// The bits are owned by a reference-counted allocation together with an
/// `(offset, length)` window into it, so slicing and cloning copy a handle,
/// never the bits.
pub struct Bitmap {
    bits: Arc<Vec<bool>>,
    offset: usize,
    length: usize,
}

impl View for Bitmap {
    type V = Seq<bool>;

    closed spec fn view(&self) -> Seq<bool> {
        self.bits@.subrange(self.offset as int, self.offset + self.length)
    }
}

impl Bitmap {
    /// The window lies inside the shared allocation.
    pub closed spec fn wf(&self) -> bool {
        &&& self.offset + self.length <= self.bits@.len()
        &&& self.offset + self.length <= usize::MAX
    }

    /// A bitmap owning exactly the given bits.
    pub fn from_vec(bits: Vec<bool>) -> (r: Self)
        ensures
            r.wf(),
            r@ == bits@,
    {
        let length = bits.len();
        let r = Bitmap { bits: Arc::new(bits), offset: 0, length };
        proof {
            assert(r@ =~= r.bits@);
        }
        r
    }

    /// A bitmap of `length` bits, all unset.
    pub fn new_unset(length: usize) -> (r: Self)
        ensures
            r.wf(),
            r@.len() == length,
            forall|i: int| 0 <= i < length ==> r@[i] == false,
    {
        let mut bits: Vec<bool> = Vec::new();
        let mut k: usize = 0;
        while k < length
            invariant
                k <= length,
                bits@.len() == k,
                forall|i: int| 0 <= i < k ==> bits@[i] == false,
            decreases length - k,
        {
            bits.push(false);
            k = k + 1;
        }
        Bitmap::from_vec(bits)
    }

    /// The number of bits in this window.
    pub fn len(&self) -> (r: usize)
        requires
            self.wf(),
        ensures
            r == self@.len(),
    {
        self.length
    }

    /// The bit at position `i`.
    pub fn get(&self, i: usize) -> (r: bool)
        requires
            self.wf(),
            i < self@.len(),
        ensures
            r == self@[i as int],
    {
        proof {
            assert(self@.len() == self.length);
        }
        let bits: &Vec<bool> = &*self.bits;
        bits[self.offset + i]
    }

    /// A window of `length` bits starting at `offset` within this one,
    /// sharing the same allocation.
    pub fn sliced(&self, offset: usize, length: usize) -> (r: Self)
        requires
            self.wf(),
            offset + length <= self@.len(),
        ensures
            r.wf(),
            r@ == self@.subrange(offset as int, offset + length),
    {
        proof {
            assert(self@.len() == self.length);
        }
        let r = Bitmap { bits: share(&self.bits), offset: self.offset + offset, length };
        proof {
            assert(r@ =~= self@.subrange(offset as int, offset + length));
        }
        r
    }
}

impl Clone for Bitmap {
    /// An O(1) copy of the handle: the clone observes the very same bits.
    fn clone(&self) -> (r: Self)
        ensures
            r == *self,
    {
        Bitmap { bits: share(&self.bits), offset: self.offset, length: self.length }
    }
}

/// A growable sequence of validity bits, filled by the builder.
pub struct MutableBitmap {
    bits: Vec<bool>,
}

impl View for MutableBitmap {
    type V = Seq<bool>;

    closed spec fn view(&self) -> Seq<bool> {
        self.bits@
    }
}

impl MutableBitmap {
    /// A bitmap of `length` bits, all set.
    pub fn from_len_set(length: usize) -> (r: Self)
        ensures
            r@.len() == length,
            forall|i: int| 0 <= i < length ==> r@[i] == true,
    {
        let mut bits: Vec<bool> = Vec::new();
        let mut k: usize = 0;
        while k < length
            invariant
                k <= length,
                bits@.len() == k,
                forall|i: int| 0 <= i < k ==> bits@[i] == true,
            decreases length - k,
        {
            bits.push(true);
            k = k + 1;
        }
        MutableBitmap { bits }
    }

    /// The number of bits pushed so far.
    pub fn len(&self) -> (r: usize)
        ensures
            r == self@.len(),
    {
        self.bits.len()
    }

    /// The bit at position `i`.
    pub fn get(&self, i: usize) -> (r: bool)
        requires
            i < self@.len(),
        ensures
            r == self@[i as int],
    {
        self.bits[i]
    }

    /// Appends one bit.
    pub fn push(&mut self, bit: bool)
        ensures
            final(self)@ == old(self)@.push(bit),
    {
        self.bits.push(bit);
    }

    /// An immutable bitmap holding a snapshot of the bits pushed so far.
    pub fn to_bitmap(&self) -> (r: Bitmap)
        ensures
            r.wf(),
            r@ == self@,
    {
        Bitmap::from_vec(copy_bits(&self.bits))
    }

    /// Releases unused reserved capacity; the bits are unchanged.
    pub fn shrink_to_fit(&mut self)
        ensures
            final(self)@ == old(self)@,
    {
        shrink_vec(&mut self.bits);
    }
}

} // verus!
