use crate::decimal::DecimalArray;
use vstd::prelude::*;
use vstd::seq_lib::*;

verus! {

/// Iterator over the raw, null-unaware decoded values of a
/// [`DecimalArray`].
///
/// It walks the half-open index range `[index, end)`: [`Self::next`]
/// consumes from the front, [`Self::next_back`] from the back, and the two
/// ends never cross.  [`Self::size_hint`] reports the exact remaining count.
pub struct DecimalValuesIter<'a> {
    array: &'a DecimalArray,
    index: usize,
    end: usize,
}

impl<'a> DecimalValuesIter<'a> {
    pub closed spec fn wf(&self) -> bool {
        &&& self.array.wf()
        &&& self.index <= self.end <= self.array.spec_len()
    }

    /// The values not yet yielded, front to back.
    pub closed spec fn remaining(&self) -> Seq<i128> {
        self.array.spec_values().subrange(self.index as int, self.end as int)
    }

    /// A new iterator over all values of `array`.
    pub fn new(array: &'a DecimalArray) -> (r: Self)
        requires
            array.wf(),
        ensures
            r.wf(),
            r.remaining() == array.spec_values(),
    {
        let r = DecimalValuesIter { array, index: 0, end: array.len() };
        proof {
            array.lemma_models_len();
            assert(r.remaining() =~= array.spec_values());
        }
        r
    }

    /// Yields the front value of the remaining range, or `None` once the
    /// range is exhausted.
    pub fn next(&mut self) -> (r: Option<i128>)
        requires
            old(self).wf(),
        ensures
            final(self).wf(),
            old(self).remaining().len() == 0 ==> r is None && *final(self) == *old(self),
            old(self).remaining().len() > 0 ==> (r == Some(old(self).remaining()[0])
                && final(self).remaining() == old(self).remaining().drop_first()),
    {
        proof {
            self.array.lemma_models_len();
        }
        if self.index == self.end {
            return None;
        }
        let old_index = self.index;
        self.index = old_index + 1;
        let v = self.array.value(old_index);
        proof {
            assert(self.remaining() =~= old(self).remaining().drop_first());
        }
        Some(v)
    }

    /// Yields the back value of the remaining range, or `None` once the
    /// range is exhausted.
    pub fn next_back(&mut self) -> (r: Option<i128>)
        requires
            old(self).wf(),
        ensures
            final(self).wf(),
            old(self).remaining().len() == 0 ==> r is None && *final(self) == *old(self),
            old(self).remaining().len() > 0 ==> (r == Some(old(self).remaining().last())
                && final(self).remaining() == old(self).remaining().drop_last()),
    {
        proof {
            self.array.lemma_models_len();
        }
        if self.index == self.end {
            return None;
        }
        self.end = self.end - 1;
        let v = self.array.value(self.end);
        proof {
            assert(self.remaining() =~= old(self).remaining().drop_last());
        }
        Some(v)
    }

    /// The exact number of values still to come, as both bounds of the hint.
    pub fn size_hint(&self) -> (r: (usize, Option<usize>))
        requires
            self.wf(),
        ensures
            r.0 == self.remaining().len(),
            r.1 == Some(r.0),
    {
        proof {
            self.array.lemma_models_len();
        }
        (self.end - self.index, Some(self.end - self.index))
    }

    /// Drains the iterator front to back into a vector: the remaining values
    /// in order.
    pub fn collect_vec(&mut self) -> (r: Vec<i128>)
        requires
            old(self).wf(),
        ensures
            final(self).wf(),
            r@ == old(self).remaining(),
            final(self).remaining() == Seq::<i128>::empty(),
    {
        let mut r: Vec<i128> = Vec::new();
        loop
            invariant
                self.wf(),
                r@ + self.remaining() == old(self).remaining(),
            decreases self.remaining().len(),
        {
            match self.next() {
                Some(v) => {
                    r.push(v);
                    proof {
                        assert(r@ + self.remaining() =~= old(self).remaining());
                    }
                },
                None => {
                    proof {
                        assert(r@ =~= old(self).remaining());
                        assert(self.remaining() =~= Seq::<i128>::empty());
                    }
                    return r;
                },
            }
        }
    }

    /// Drains the iterator back to front into a vector: the remaining values
    /// in reverse order.
    pub fn collect_back_vec(&mut self) -> (r: Vec<i128>)
        requires
            old(self).wf(),
        ensures
            final(self).wf(),
            r@ == old(self).remaining().reverse(),
            final(self).remaining() == Seq::<i128>::empty(),
    {
        let mut r: Vec<i128> = Vec::new();
        loop
            invariant
                self.wf(),
                r@.len() + self.remaining().len() == old(self).remaining().len(),
                forall|k: int|
                    0 <= k < r@.len() ==> r@[k] == old(self).remaining()[old(self).remaining().len()
                        - 1 - k],
                self.remaining() == old(self).remaining().subrange(0, self.remaining().len() as int),
            decreases self.remaining().len(),
        {
            match self.next_back() {
                Some(v) => {
                    r.push(v);
                },
                None => {
                    proof {
                        assert(r@ =~= old(self).remaining().reverse());
                        assert(self.remaining() =~= Seq::<i128>::empty());
                    }
                    return r;
                },
            }
        }
    }
}

/// Law: draining the values front to back yields the same sequence as
/// draining them back to front and reversing: `collect_vec` returns
/// `remaining()`, `collect_back_vec` returns `remaining().reverse()`, and
/// reversing twice restores the sequence.
pub proof fn lemma_values_iter_symmetry(s: Seq<i128>)
    ensures
        s.reverse().reverse() == s,
{
    assert(s.reverse().reverse() =~= s);
}

/// Null-aware iterator over a [`DecimalArray`]: at each position it yields
/// `Some(value)` where the slot is valid and `None` where it is null,
/// zipping the raw values with the validity bitmap.
pub struct ZipValidity<'a> {
    array: &'a DecimalArray,
    index: usize,
    end: usize,
}

impl<'a> ZipValidity<'a> {
    pub closed spec fn wf(&self) -> bool {
        &&& self.array.wf()
        &&& self.index <= self.end <= self.array.spec_len()
    }

    /// The logical elements not yet yielded, front to back.
    pub closed spec fn remaining(&self) -> Seq<Option<i128>> {
        self.array@.subrange(self.index as int, self.end as int)
    }

    /// A new null-aware iterator over all elements of `array`.
    pub fn new(array: &'a DecimalArray) -> (r: Self)
        requires
            array.wf(),
        ensures
            r.wf(),
            r.remaining() == array@,
    {
        let r = ZipValidity { array, index: 0, end: array.len() };
        proof {
            array.lemma_models_len();
            assert(r.remaining() =~= array@);
        }
        r
    }

    /// Yields the front element of the remaining range — `Some(Some(v))`
    /// for a valid slot, `Some(None)` for a null — or `None` once the range
    /// is exhausted.
    pub fn next(&mut self) -> (r: Option<Option<i128>>)
        requires
            old(self).wf(),
        ensures
            final(self).wf(),
            old(self).remaining().len() == 0 ==> r is None && *final(self) == *old(self),
            old(self).remaining().len() > 0 ==> (r == Some(old(self).remaining()[0])
                && final(self).remaining() == old(self).remaining().drop_first()),
    {
        proof {
            self.array.lemma_models_len();
        }
        if self.index == self.end {
            return None;
        }
        let i = self.index;
        self.index = i + 1;
        let valid = match self.array.validity() {
            Some(bitmap) => bitmap.get(i),
            None => true,
        };
        let element = if valid {
            Some(self.array.value(i))
        } else {
            None
        };
        proof {
            if !self.array.has_validity() {
                self.array.lemma_no_validity_all_valid();
            }
            assert(element == self.array@[i as int]);
            assert(self.remaining() =~= old(self).remaining().drop_first());
        }
        Some(element)
    }

    /// The exact number of elements still to come, as both bounds of the
    /// hint.
    pub fn size_hint(&self) -> (r: (usize, Option<usize>))
        requires
            self.wf(),
        ensures
            r.0 == self.remaining().len(),
            r.1 == Some(r.0),
    {
        proof {
            self.array.lemma_models_len();
        }
        (self.end - self.index, Some(self.end - self.index))
    }

    /// Drains the iterator into a vector: the remaining logical elements in
    /// order.
    pub fn collect_vec(&mut self) -> (r: Vec<Option<i128>>)
        requires
            old(self).wf(),
        ensures
            final(self).wf(),
            r@ == old(self).remaining(),
            final(self).remaining() == Seq::<Option<i128>>::empty(),
    {
        let mut r: Vec<Option<i128>> = Vec::new();
        loop
            invariant
                self.wf(),
                r@ + self.remaining() == old(self).remaining(),
            decreases self.remaining().len(),
        {
            match self.next() {
                Some(element) => {
                    r.push(element);
                    proof {
                        assert(r@ + self.remaining() =~= old(self).remaining());
                    }
                },
                None => {
                    proof {
                        assert(r@ =~= old(self).remaining());
                        assert(self.remaining() =~= Seq::<Option<i128>>::empty());
                    }
                    return r;
                },
            }
        }
    }
}

impl DecimalArray {
    /// A null-aware iterator over the logical elements: `Some(value)` where
    /// the slot is valid, `None` where it is null.
    pub fn iter(&self) -> (r: ZipValidity<'_>)
        requires
            self.wf(),
        ensures
            r.wf(),
            r.remaining() == self@,
    {
        ZipValidity::new(self)
    }

    /// A raw iterator over the decoded values, null-unaware: the caller
    /// pairs it with separately obtained validity where nulls matter.
    pub fn values_iter(&self) -> (r: DecimalValuesIter<'_>)
        requires
            self.wf(),
        ensures
            r.wf(),
            r.remaining() == self.spec_values(),
    {
        DecimalValuesIter::new(self)
    }
}

} // verus!
