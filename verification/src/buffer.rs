//! Packet buffers: a byte window over an owned allocation, with room that can be
//! dropped from the front (`adjust`) and from the back (`trim`).

use vstd::prelude::*;
use crate::fail::{Fail, EINVAL};

verus! {

/// Room reserved in front of a buffer for the headers of every layer: Ethernet
/// (14 bytes), IPv4 with options (60) and TCP with options (60).
pub const MAX_HEADER_SIZE: usize = 134;

/// Sequence of `n` zero bytes.
pub open spec fn zeros(n: nat) -> Seq<u8> {
    Seq::new(n, |i: int| 0u8)
}

/// A packet buffer. Its contents (its view) are the bytes of `data` between
/// `head` and `tail`; the bytes before `head` are headroom.
#[derive(Debug)]
pub struct DemiBuffer {
    data: Vec<u8>,
    head: usize,
    tail: usize,
}

impl View for DemiBuffer {
    type V = Seq<u8>;

    closed spec fn view(&self) -> Seq<u8> {
        self.data@.subrange(self.head as int, self.tail as int)
    }
}

/// A vector of `n` zero bytes.
fn zero_bytes(n: usize) -> (v: Vec<u8>)
    ensures
        v@ == zeros(n as nat),
{
    let mut v: Vec<u8> = Vec::new();
    let mut i: usize = 0;
    while i < n
        invariant
            i <= n,
            v@ == zeros(i as nat),
        decreases n - i,
    {
        v.push(0u8);
        i = i + 1;
        assert(v@ =~= zeros(i as nat));
    }
    v
}

impl DemiBuffer {
    #[verifier::type_invariant]
    spec fn well_formed(&self) -> bool {
        self.head <= self.tail <= self.data@.len()
    }

    /// Space reserved in front of the contents.
    pub closed spec fn spec_headroom(&self) -> nat {
        self.head as nat
    }

    /// Creates a buffer of `capacity` zero bytes.
    pub fn new(capacity: u16) -> (r: DemiBuffer)
        ensures
            r@ == zeros(capacity as nat),
            r.spec_headroom() == 0,
    {
        let data = zero_bytes(capacity as usize);
        let r = DemiBuffer { data, head: 0, tail: capacity as usize };
        assert(r@ =~= zeros(capacity as nat));
        r
    }

    /// Creates a buffer of `capacity` zero bytes, preceded by `headroom` bytes of
    /// reserved space for headers.
    pub fn new_with_headroom(capacity: u16, headroom: u16) -> (r: DemiBuffer)
        ensures
            r@ == zeros(capacity as nat),
            r.spec_headroom() == headroom as nat,
    {
        let total: usize = capacity as usize + headroom as usize;
        let data = zero_bytes(total);
        let r = DemiBuffer { data, head: headroom as usize, tail: total };
        assert(r@ =~= zeros(capacity as nat));
        r
    }

    /// Creates a buffer holding a copy of `slice`. Fails with `EINVAL` when the
    /// slice is too large for a single buffer (`u16::MAX` bytes or more).
    pub fn from_slice(slice: &[u8]) -> (r: Result<DemiBuffer, Fail>)
        ensures
            r is Ok <==> slice@.len() < u16::MAX,
            r matches Ok(b) ==> b@ == slice@ && b.spec_headroom() == 0,
            r matches Err(e) ==> e.errno == EINVAL,
    {
        if slice.len() >= 65535 {
            return Err(Fail::new(EINVAL, "slice is larger than a DemiBuffer can hold"));
        }
        let mut data: Vec<u8> = Vec::new();
        let mut i: usize = 0;
        while i < slice.len()
            invariant
                i <= slice@.len(),
                data@ == slice@.subrange(0, i as int),
            decreases slice@.len() - i,
        {
            data.push(slice[i]);
            i = i + 1;
            assert(data@ =~= slice@.subrange(0, i as int));
        }
        assert(data@ =~= slice@);
        let len = data.len();
        let r = DemiBuffer { data, head: 0, tail: len };
        assert(r@ =~= slice@);
        Ok(r)
    }

    /// Number of bytes in the buffer.
    pub fn len(&self) -> (n: usize)
        ensures
            n == self@.len(),
    {
        proof { use_type_invariant(self); }
        self.tail - self.head
    }

    /// Whether the buffer holds no bytes.
    pub fn is_empty(&self) -> (b: bool)
        ensures
            b == (self@.len() == 0),
    {
        proof { use_type_invariant(self); }
        self.tail == self.head
    }

    /// The byte at position `i`.
    pub fn get(&self, i: usize) -> (b: u8)
        requires
            i < self@.len(),
        ensures
            b == self@[i as int],
    {
        proof { use_type_invariant(self); }
        self.data[self.head + i]
    }

    /// The contents as a slice.
    pub fn as_slice(&self) -> (s: &[u8])
        ensures
            s@ == self@,
    {
        proof { use_type_invariant(self); }
        let all = self.data.as_slice();
        &all[self.head..self.tail]
    }

    /// Removes `nbytes` bytes from the front of the buffer. Fails with `EINVAL`,
    /// leaving the buffer unchanged, when it holds fewer bytes.
    pub fn adjust(&mut self, nbytes: usize) -> (r: Result<(), Fail>)
        ensures
            r is Ok <==> nbytes <= old(self)@.len(),
            r is Ok ==> final(self)@ == old(self)@.skip(nbytes as int),
            r is Ok ==> final(self).spec_headroom() == old(self).spec_headroom() + nbytes,
            r matches Err(e) ==> e.errno == EINVAL && final(self)@ == old(self)@
                && final(self).spec_headroom() == old(self).spec_headroom(),
    {
        proof { use_type_invariant(&*self); }
        if nbytes > self.tail - self.head {
            return Err(Fail::new(EINVAL, "buffer too short"));
        }
        self.head = self.head + nbytes;
        assert(self@ =~= old(self)@.skip(nbytes as int));
        Ok(())
    }

    /// Removes `nbytes` bytes from the back of the buffer. Fails with `EINVAL`,
    /// leaving the buffer unchanged, when it holds fewer bytes.
    pub fn trim(&mut self, nbytes: usize) -> (r: Result<(), Fail>)
        ensures
            r is Ok <==> nbytes <= old(self)@.len(),
            r is Ok ==> final(self)@ == old(self)@.take(old(self)@.len() - nbytes),
            final(self).spec_headroom() == old(self).spec_headroom(),
            r matches Err(e) ==> e.errno == EINVAL && final(self)@ == old(self)@,
    {
        proof { use_type_invariant(&*self); }
        if nbytes > self.tail - self.head {
            return Err(Fail::new(EINVAL, "buffer too short"));
        }
        self.tail = self.tail - nbytes;
        assert(self@ =~= old(self)@.take(old(self)@.len() - nbytes));
        Ok(())
    }

    /// Splits the buffer at `offset`: the buffer keeps the bytes before `offset`
    /// and the bytes from `offset` on are returned in a new buffer. Fails with
    /// `EINVAL`, leaving the buffer unchanged, when `offset` is past its end.
    pub fn split_back(&mut self, offset: usize) -> (r: Result<DemiBuffer, Fail>)
        ensures
            r is Ok <==> offset <= old(self)@.len(),
            r matches Ok(back) ==> final(self)@ == old(self)@.take(offset as int)
                && back@ == old(self)@.skip(offset as int),
            final(self).spec_headroom() == old(self).spec_headroom(),
            r matches Err(e) ==> e.errno == EINVAL && final(self)@ == old(self)@,
    {
        proof { use_type_invariant(&*self); }
        if offset > self.tail - self.head {
            return Err(Fail::new(EINVAL, "split offset past the end of the buffer"));
        }
        let start = self.head + offset;
        let mut back: Vec<u8> = Vec::new();
        let mut i: usize = start;
        while i < self.tail
            invariant
                self.head <= start <= i <= self.tail <= self.data@.len(),
                back@ == self.data@.subrange(start as int, i as int),
            decreases self.tail - i,
        {
            back.push(self.data[i]);
            i = i + 1;
            assert(back@ =~= self.data@.subrange(start as int, i as int));
        }
        let blen = back.len();
        let rest = DemiBuffer { data: back, head: 0, tail: blen };
        assert(rest@ =~= old(self)@.skip(offset as int));
        self.tail = start;
        assert(self@ =~= old(self)@.take(offset as int));
        Ok(rest)
    }

    /// Sets the byte at position `i` to `value`.
    pub fn set(&mut self, i: usize, value: u8)
        requires
            i < old(self)@.len(),
        ensures
            final(self)@ == old(self)@.update(i as int, value),
            final(self).spec_headroom() == old(self).spec_headroom(),
    {
        proof { use_type_invariant(&*self); }
        let j = self.head + i;
        let mut data: Vec<u8> = Vec::new();
        let mut k: usize = 0;
        while k < self.data.len()
            invariant
                k <= self.data@.len(),
                k <= j ==> data@ == self.data@.subrange(0, k as int),
                k > j ==> data@ == self.data@.update(j as int, value).subrange(0, k as int),
                j < self.data@.len(),
            decreases self.data@.len() - k,
        {
            if k == j {
                data.push(value);
            } else {
                data.push(self.data[k]);
            }
            k = k + 1;
            assert(k <= j ==> data@ =~= self.data@.subrange(0, k as int));
            assert(k > j ==> data@ =~= self.data@.update(j as int, value).subrange(0, k as int));
        }
        assert(data@ =~= self.data@.update(j as int, value));
        self.data = data;
        assert(self@ =~= old(self)@.update(i as int, value));
    }

    /// Extends the buffer at the front by `nbytes` bytes of its headroom.
    /// Fails with `EINVAL`, leaving the buffer unchanged, when the headroom is
    /// smaller. What the new front bytes hold is not stated.
    pub fn prepend(&mut self, nbytes: usize) -> (r: Result<(), Fail>)
        ensures
            r is Ok <==> nbytes <= old(self).spec_headroom(),
            r is Ok ==> final(self)@.len() == old(self)@.len() + nbytes && final(self)@.skip(
                nbytes as int,
            ) == old(self)@ && final(self).spec_headroom() == old(self).spec_headroom() - nbytes,
            r matches Err(e) ==> e.errno == EINVAL && final(self)@ == old(self)@
                && final(self).spec_headroom() == old(self).spec_headroom(),
    {
        proof { use_type_invariant(&*self); }
        if nbytes > self.head {
            return Err(Fail::new(EINVAL, "not enough headroom"));
        }
        self.head = self.head - nbytes;
        assert(self@.skip(nbytes as int) =~= old(self)@);
        Ok(())
    }

    /// Copies `bytes` into the buffer from position `offset` on.
    pub fn write_at(&mut self, offset: usize, bytes: &[u8])
        requires
            offset + bytes@.len() <= old(self)@.len(),
        ensures
            final(self)@ == old(self)@.subrange(0, offset as int) + bytes@ + old(self)@.subrange(
                offset + bytes@.len(),
                old(self)@.len() as int,
            ),
            final(self).spec_headroom() == old(self).spec_headroom(),
    {
        let len = self.len();
        let mut i: usize = 0;
        while i < bytes.len()
            invariant
                i <= bytes@.len(),
                len == old(self)@.len(),
                offset + bytes@.len() <= old(self)@.len(),
                self@.len() == old(self)@.len(),
                self.spec_headroom() == old(self).spec_headroom(),
                self@ == old(self)@.subrange(0, offset as int) + bytes@.subrange(0, i as int) + old(
                    self,
                )@.subrange(offset + i, old(self)@.len() as int),
            decreases bytes@.len() - i,
        {
            self.set(offset + i, bytes[i]);
            i = i + 1;
            assert(self@ =~= old(self)@.subrange(0, offset as int) + bytes@.subrange(0, i as int)
                + old(self)@.subrange(offset + i, old(self)@.len() as int));
        }
        assert(bytes@.subrange(0, i as int) =~= bytes@);
    }

    /// A copy of the buffer, with the same contents and headroom.
    pub fn duplicate(&self) -> (r: DemiBuffer)
        ensures
            r@ == self@,
            r.spec_headroom() == self.spec_headroom(),
    {
        proof { use_type_invariant(self); }
        let mut data: Vec<u8> = Vec::new();
        let mut i: usize = 0;
        while i < self.data.len()
            invariant
                i <= self.data@.len(),
                data@ == self.data@.subrange(0, i as int),
            decreases self.data@.len() - i,
        {
            data.push(self.data[i]);
            i = i + 1;
            assert(data@ =~= self.data@.subrange(0, i as int));
        }
        assert(data@ =~= self.data@);
        DemiBuffer { data, head: self.head, tail: self.tail }
    }
}

impl Clone for DemiBuffer {
    fn clone(&self) -> (r: DemiBuffer)
        ensures
            r@ == self@,
    {
        self.duplicate()
    }
}

/// Splitting a buffer loses no byte: the bytes kept followed by the bytes split
/// off are the bytes the buffer held.
pub proof fn lemma_split_keeps_every_byte(contents: Seq<u8>, offset: int)
    requires
        0 <= offset <= contents.len(),
    ensures
        contents.take(offset) + contents.skip(offset) == contents,
{
    assert(contents.take(offset) + contents.skip(offset) =~= contents);
}

} // verus!
