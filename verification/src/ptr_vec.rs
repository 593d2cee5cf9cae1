//! [`PtrVec`] is the bounded output buffer used to return variable-length
//! results from game implementations.
//!
//! The host owns every result buffer and declares its exact capacity up
//! front; the bridge exposes the buffer as a vector whose capacity is fixed
//! at construction.  Writing past the declared capacity is a defect in the
//! logic layer, not a runtime condition, so every write carries a
//! precondition that rules the overflow out.

use vstd::prelude::*;

use crate::error::spec_str_bytes;

verus! {

/// Vector with a fixed, run-time capacity.
///
/// All variable-length results cross the host boundary through this type.
/// `capacity` is fixed when the buffer is constructed and never changes;
/// the current length can only grow up to it.
pub struct PtrVec<T> {
    buf: Vec<T>,
    cap: usize,
}

impl<T> View for PtrVec<T> {
    type V = Seq<T>;

    closed spec fn view(&self) -> Seq<T> {
        self.buf@
    }
}

impl<T> PtrVec<T> {
    /// Capacity fixed at construction.
    pub closed spec fn spec_capacity(&self) -> usize {
        self.cap
    }

    /// Representation invariant: the length never exceeds the capacity.
    ///
    /// Construction establishes it and every operation maintains it, so
    /// indices up to the length are the initialized ones and the length
    /// can only grow up to the capacity.
    pub open spec fn wf(&self) -> bool {
        self@.len() <= self.spec_capacity()
    }

    /// Create an empty buffer that accepts up to `capacity` elements.
    ///
    /// This is the single validated construction site: every buffer the
    /// bridge hands to game logic is created here with the exact capacity
    /// the capacity contract declared.
    pub fn new(capacity: usize) -> (v: Self)
        ensures
            v@ == Seq::<T>::empty(),
            v.spec_capacity() == capacity,
            v.wf(),
    {
        Self { buf: Vec::new(), cap: capacity }
    }

    /// Length of the vector.
    pub fn len(&self) -> (l: usize)
        ensures
            l == self@.len(),
            self.wf() ==> l <= self.spec_capacity(),
    {
        self.buf.len()
    }

    /// Returns whether [`Self::len()`] is zero.
    pub fn is_empty(&self) -> (r: bool)
        ensures
            r == (self@.len() == 0),
    {
        self.buf.len() == 0
    }

    /// Maximum for [`Self::len()`].
    pub fn capacity(&self) -> (c: usize)
        ensures
            c == self.spec_capacity(),
    {
        self.cap
    }

    /// Returns whether [`Self::len()`]` == `[`Self::capacity()`].
    pub fn is_full(&self) -> (r: bool)
        ensures
            r == (self@.len() >= self.spec_capacity()),
            self.wf() ==> r == (self@.len() == self.spec_capacity()),
    {
        self.buf.len() >= self.cap
    }

    /// Append `value` at index [`Self::len()`].
    ///
    /// Exceeding the declared capacity is a contract violation, so a full
    /// buffer is ruled out by the precondition rather than handled at run
    /// time.
    pub fn push(&mut self, value: T)
        requires
            old(self)@.len() < old(self).spec_capacity(),
        ensures
            final(self)@ == old(self)@.push(value),
            final(self).spec_capacity() == old(self).spec_capacity(),
            final(self).wf(),
    {
        self.buf.push(value);
    }

    /// Read the element at `index`.
    ///
    /// Indices at or past the current length are logically uninitialized
    /// and ruled out by the precondition.
    pub fn get(&self, index: usize) -> (r: &T)
        requires
            index < self@.len(),
        ensures
            *r == self@[index as int],
    {
        &self.buf[index]
    }

    /// Overwrite the element at `index`.
    pub fn set(&mut self, index: usize, value: T)
        requires
            index < old(self)@.len(),
        ensures
            final(self)@ == old(self)@.update(index as int, value),
            final(self).spec_capacity() == old(self).spec_capacity(),
            old(self).wf() ==> final(self).wf(),
    {
        self.buf[index] = value;
    }

    /// Hand the written prefix back as an owned vector.
    ///
    /// The bridge uses this to return what the logic wrote into a buffer.
    pub fn into_vec(self) -> (v: Vec<T>)
        ensures
            v@ == self@,
    {
        self.buf
    }
}

impl<T: Clone> PtrVec<T> {
    /// Resize the vector to `new_len`.
    ///
    /// If `new_len` is larger than the current length, the vector is
    /// extended with clones of `value`; if smaller, the trailing elements
    /// are discarded.  A `new_len` beyond the capacity is a contract
    /// violation and ruled out by the precondition.
    pub fn resize(&mut self, new_len: usize, value: T)
        requires
            new_len <= old(self).spec_capacity(),
        ensures
            final(self)@.len() == new_len,
            final(self).spec_capacity() == old(self).spec_capacity(),
            final(self).wf(),
            new_len <= old(self)@.len() ==> final(self)@ == old(self)@.subrange(0, new_len as int),
            new_len > old(self)@.len() ==> {
                &&& final(self)@.subrange(0, old(self)@.len() as int) == old(self)@
                &&& forall|i: int|
                    old(self)@.len() <= i < new_len ==> cloned(value, #[trigger] final(self)@[i])
            },
    {
        self.buf.resize(new_len, value);
        proof {
            if new_len > old(self)@.len() {
                assert(self.buf@.subrange(0, old(self)@.len() as int) =~= old(self)@);
            } else if new_len == old(self)@.len() {
                assert(old(self)@.subrange(0, new_len as int) =~= old(self)@);
            }
        }
    }

    /// Append clones of all elements of `other`.
    ///
    /// Needing more than the free slots that are left is a contract
    /// violation and ruled out by the precondition.
    pub fn extend_from_slice(&mut self, other: &[T])
        requires
            old(self)@.len() + other@.len() <= old(self).spec_capacity(),
        ensures
            final(self)@.len() == old(self)@.len() + other@.len(),
            final(self).spec_capacity() == old(self).spec_capacity(),
            final(self).wf(),
            final(self)@.subrange(0, old(self)@.len() as int) == old(self)@,
            forall|i: int|
                0 <= i < other@.len() ==> cloned(
                    other@[i],
                    #[trigger] final(self)@[old(self)@.len() + i],
                ),
    {
        self.buf.extend_from_slice(other);
        proof {
            assert(self.buf@.subrange(0, old(self)@.len() as int) =~= old(self)@);
        }
    }
}

/// True when `s` holds no terminator byte.
///
/// Text handed back to the host is terminated by a single trailing zero
/// byte; the content itself must stay free of them.
pub open spec fn nul_free(s: Seq<u8>) -> bool {
    forall|i: int| 0 <= i < s.len() ==> s[i] != 0
}

/// Local failure of a text-buffer write: the input held a terminator byte
/// or the buffer had not enough room.
///
/// Unlike exceeding a declared capacity, this is a recoverable condition:
/// the caller turns it into a descriptive error-channel entry.
#[derive(Clone, Copy, PartialEq, Eq, Debug)]
pub struct StrWriteError;

/// Bounded buffer for returning terminator-delimited text.
///
/// The capacity equals the declared text size minus one: the slot for the
/// trailing terminator byte is reserved by the bridge and never counted in
/// the length.  Writes are atomic: a failed write leaves the buffer
/// untouched.
pub struct StrBuf {
    vec: PtrVec<u8>,
}

impl View for StrBuf {
    type V = Seq<u8>;

    closed spec fn view(&self) -> Seq<u8> {
        self.vec@
    }
}

impl StrBuf {
    /// Capacity fixed at construction, excluding the terminator slot.
    pub closed spec fn spec_capacity(&self) -> usize {
        self.vec.spec_capacity()
    }

    /// All content written so far is free of terminator bytes, and the
    /// length is within the capacity.
    pub closed spec fn wf(&self) -> bool {
        nul_free(self.vec@) && self.vec.wf()
    }

    /// Create an empty text buffer with room for `capacity` content bytes.
    pub fn new(capacity: usize) -> (v: Self)
        ensures
            v@ == Seq::<u8>::empty(),
            v.spec_capacity() == capacity,
            v.wf(),
    {
        StrBuf { vec: PtrVec::new(capacity) }
    }

    /// Length of the text written so far.
    pub fn len(&self) -> (l: usize)
        ensures
            l == self@.len(),
            self.wf() ==> l <= self.spec_capacity(),
    {
        self.vec.len()
    }

    /// Returns whether the buffer holds no text.
    pub fn is_empty(&self) -> (r: bool)
        ensures
            r == (self@.len() == 0),
    {
        self.vec.is_empty()
    }

    /// Maximum content length.
    pub fn capacity(&self) -> (c: usize)
        ensures
            c == self.spec_capacity(),
    {
        self.vec.capacity()
    }

    /// Returns whether no more content fits.
    pub fn is_full(&self) -> (r: bool)
        ensures
            r == (self@.len() >= self.spec_capacity()),
            self.wf() ==> r == (self@.len() == self.spec_capacity()),
    {
        self.vec.is_full()
    }

    /// Append the bytes of `s` to the buffer.
    ///
    /// Fails without writing anything when `s` holds a terminator byte or
    /// when the remaining room is too small; succeeds with all of `s`
    /// appended otherwise.
    pub fn write_bytes(&mut self, s: &[u8]) -> (r: Result<(), StrWriteError>)
        ensures
            final(self).spec_capacity() == old(self).spec_capacity(),
            nul_free(s@) && old(self)@.len() + s@.len() <= old(self).spec_capacity() ==> {
                &&& r is Ok
                &&& final(self)@ == old(self)@ + s@
            },
            !(nul_free(s@) && old(self)@.len() + s@.len() <= old(self).spec_capacity()) ==> {
                &&& r is Err
                &&& final(self)@ == old(self)@
            },
            old(self).wf() ==> final(self).wf(),
    {
        if s.len() > self.vec.capacity() || self.vec.len() > self.vec.capacity() - s.len() {
            return Err(StrWriteError);
        }
        let mut i: usize = 0;
        while i < s.len()
            invariant
                i <= s@.len(),
                forall|j: int| 0 <= j < i ==> s@[j] != 0,
            decreases s@.len() - i,
        {
            if s[i] == 0 {
                return Err(StrWriteError);
            }
            i += 1;
        }
        let mut j: usize = 0;
        while j < s.len()
            invariant
                j <= s@.len(),
                old(self)@.len() + s@.len() <= old(self).spec_capacity(),
                self.vec.spec_capacity() == old(self).spec_capacity(),
                self.vec@ == old(self)@ + s@.subrange(0, j as int),
            decreases s@.len() - j,
        {
            self.vec.push(s[j]);
            j += 1;
            proof {
                assert(self.vec@ =~= old(self)@ + s@.subrange(0, j as int));
            }
        }
        proof {
            assert(s@.subrange(0, s@.len() as int) =~= s@);
        }
        Ok(())
    }

    /// Append the bytes of the text `s` to the buffer.
    ///
    /// Fails without writing anything when `s` holds a terminator byte or
    /// when the remaining room is too small, exactly as
    /// [`Self::write_bytes()`] does.
    pub fn write_str(&mut self, s: &str) -> (r: Result<(), StrWriteError>)
        ensures
            final(self).spec_capacity() == old(self).spec_capacity(),
            nul_free(spec_str_bytes(s)) && old(self)@.len() + spec_str_bytes(s).len() <= old(
                self,
            ).spec_capacity() ==> {
                &&& r is Ok
                &&& final(self)@ == old(self)@ + spec_str_bytes(s)
            },
            !(nul_free(spec_str_bytes(s)) && old(self)@.len() + spec_str_bytes(s).len() <= old(
                self,
            ).spec_capacity()) ==> {
                &&& r is Err
                &&& final(self)@ == old(self)@
            },
            old(self).wf() ==> final(self).wf(),
    {
        self.write_bytes(s.as_bytes())
    }

    /// Hand the written text back as an owned vector, without a terminator.
    pub fn into_vec(self) -> (v: Vec<u8>)
        ensures
            v@ == self@,
    {
        self.vec.into_vec()
    }
}

/// Allocated memory for backing a [`PtrVec`].
///
/// This is mainly intended for use in tests: it plays the part of the
/// caller-owned region a host would hand to the bridge.
pub struct Storage<T> {
    cap: usize,
    data: Vec<T>,
}

impl<T> Storage<T> {
    /// Capacity every buffer of this storage is created with.
    pub closed spec fn spec_capacity(&self) -> usize {
        self.cap
    }

    /// The data most recently stored with [`Self::put()`].
    pub closed spec fn spec_data(&self) -> Seq<T> {
        self.data@
    }

    /// Create a new [`Storage`] with room for `capacity` many items.
    pub fn new(capacity: usize) -> (s: Self)
        ensures
            s.spec_capacity() == capacity,
            s.spec_data() == Seq::<T>::empty(),
    {
        Storage { cap: capacity, data: Vec::new() }
    }

    /// Create a new, empty [`PtrVec`] with this storage's capacity.
    ///
    /// Any data previously stored is discarded.
    pub fn get_ptr_vec(&mut self) -> (v: PtrVec<T>)
        ensures
            v@ == Seq::<T>::empty(),
            v.spec_capacity() == old(self).spec_capacity(),
            final(self).spec_capacity() == old(self).spec_capacity(),
            final(self).spec_data() == Seq::<T>::empty(),
    {
        self.data = Vec::new();
        PtrVec::new(self.cap)
    }

    /// Store the written prefix of a buffer back into this storage.
    pub fn put(&mut self, v: PtrVec<T>)
        ensures
            final(self).spec_capacity() == old(self).spec_capacity(),
            final(self).spec_data() == v@,
    {
        self.data = v.into_vec();
    }

    /// The data most recently stored with [`Self::put()`].
    pub fn items(&self) -> (r: &Vec<T>)
        ensures
            r@ == self.spec_data(),
    {
        &self.data
    }
}

} // verus!
