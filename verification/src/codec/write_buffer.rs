//! A growable byte queue: frames are appended at the back, the transport
//! consumes from the front.

use crate::bytes_model::{bytes_as_slice, bytes_from_vec, bytes_seq};
use bytes::Bytes;
use vstd::prelude::*;
use vstd::std_specs::iter::IteratorSpec;

verus! {

/// Bytes waiting to be written out. The view is the unread part, front first.
pub struct WriteBuffer {
    data: Vec<u8>,
    position: usize,
}

impl View for WriteBuffer {
    type V = Seq<u8>;

    closed spec fn view(&self) -> Seq<u8> {
        self.data@.skip(self.position as int)
    }
}

impl WriteBuffer {
    /// The read position lies inside the storage. Every constructor
    /// establishes this and every method keeps it.
    pub closed spec fn wf(&self) -> bool {
        self.position <= self.data.len()
    }

    /// How many bytes that were consumed the storage still holds in front
    /// of the unread ones.
    pub closed spec fn consumed(&self) -> nat {
        self.position as nat
    }

    /// An empty buffer.
    pub fn new() -> (r: WriteBuffer)
        ensures
            r.wf(),
            r@ == Seq::<u8>::empty(),
            r.consumed() == 0,
    {
        WriteBuffer { data: Vec::new(), position: 0 }
    }

    /// Size of data in the buffer.
    pub fn remaining(&self) -> (n: usize)
        requires
            self.wf(),
        ensures
            n == self@.len(),
    {
        self.data.len() - self.position
    }

    /// The unread bytes.
    pub fn bytes(&self) -> (r: &[u8])
        requires
            self.wf(),
        ensures
            r@ == self@,
    {
        let r = vstd::slice::slice_subrange(self.data.as_slice(), self.position, self.data.len());
        assert(r@ =~= self@);
        r
    }

    /// Marks the first `cnt` unread bytes as consumed.
    pub fn advance(&mut self, cnt: usize)
        requires
            old(self).wf(),
            cnt <= old(self)@.len(),
        ensures
            final(self).wf(),
            final(self)@ == old(self)@.skip(cnt as int),
            final(self).consumed() == old(self).consumed() + cnt,
    {
        self.position = self.position + cnt;
        assert(self@ =~= old(self)@.skip(cnt as int));
    }

    /// Consumes and returns the first unread byte.
    pub fn get_u8(&mut self) -> (b: u8)
        requires
            old(self).wf(),
            old(self)@.len() >= 1,
        ensures
            final(self).wf(),
            b == old(self)@[0],
            final(self)@ == old(self)@.skip(1),
            final(self).consumed() == old(self).consumed() + 1,
    {
        let b: u8 = self.data[self.position];
        self.position = self.position + 1;
        assert(self@ =~= old(self)@.skip(1));
        b
    }

    /// What `reserve` leaves of the consumed bytes in the storage: nothing
    /// changes while the unread bytes are at least as many as the room
    /// asked for; else the consumed bytes are dropped.
    pub open spec fn spec_consumed_after_reserve(&self, additional: usize) -> nat {
        if self@.len() >= additional {
            self.consumed()
        } else {
            0
        }
    }

    /// Makes room for `additional` more bytes. The contents do not change.
    /// Where fewer bytes are unread than the room asked for, the consumed
    /// bytes are dropped from the storage first.
    pub fn reserve(&mut self, additional: usize)
        requires
            old(self).wf(),
        ensures
            final(self).wf(),
            final(self)@ == old(self)@,
            final(self).consumed() == old(self).spec_consumed_after_reserve(additional),
    {
        if self.remaining() >= additional {
            return ;
        }
        self.compact();
        self.data.reserve(additional);
    }

    /// Drops the consumed prefix from the underlying storage.
    fn compact(&mut self)
        requires
            old(self).wf(),
        ensures
            final(self).wf(),
            final(self)@ == old(self)@,
            final(self).position == 0,
    {
        let rest = self.data.split_off(self.position);
        self.position = 0;
        self.data = rest;
        assert(self@ =~= old(self)@);
    }

    /// Appends the bytes of `data`, after room was made for them as
    /// `reserve` does.
    pub fn extend_from_slice(&mut self, data: &[u8])
        requires
            old(self).wf(),
        ensures
            final(self).wf(),
            final(self)@ == old(self)@ + data@,
            final(self).consumed() == old(self).spec_consumed_after_reserve(data.len()),
    {
        self.reserve(data.len());
        let ghost before = self.data@;
        self.data.extend_from_slice(data);
        assert(self.data@ =~= before + data@);
        assert(self@ =~= old(self)@ + data@);
    }

    /// Appends the bytes of `data`, as `extend_from_slice` does.
    pub fn extend_from_vec(&mut self, data: Vec<u8>)
        requires
            old(self).wf(),
        ensures
            final(self).wf(),
            final(self)@ == old(self)@ + data@,
            final(self).consumed() == old(self).spec_consumed_after_reserve(data.len()),
    {
        self.extend_from_slice(data.as_slice());
    }

    /// Appends the bytes that `iter` gives, in order, after the consumed
    /// bytes were dropped from the storage. The iterator must be one that
    /// ends.
    pub fn extend_from_iter<I: Iterator<Item = u8>>(&mut self, iter: I)
        requires
            old(self).wf(),
            iter.obeys_prophetic_iter_laws(),
            iter.decrease() is Some,
        ensures
            final(self).wf(),
            final(self)@ == old(self)@ + iter.remaining(),
            final(self).consumed() == 0,
    {
        let mut iter = iter;
        let ghost all = iter.remaining();
        self.compact();
        loop
            invariant
                self.wf(),
                self.consumed() == 0,
                iter.obeys_prophetic_iter_laws(),
                iter.decrease() is Some,
                self@ + iter.remaining() == old(self)@ + all,
            ensures
                self.wf(),
                self.consumed() == 0,
                self@ == old(self)@ + all,
            decreases iter.decrease()->0,
        {
            let ghost before = iter.remaining();
            match iter.next() {
                Some(b) => {
                    let one: [u8; 1] = [b];
                    self.extend_from_slice(one.as_slice());
                    assert(one@ =~= seq![b]);
                    assert(before =~= seq![b] + iter.remaining());
                    assert(self@ + iter.remaining() =~= old(self)@ + all);
                },
                None => {
                    assert(before =~= Seq::<u8>::empty());
                    assert(self@ =~= old(self)@ + all);
                    break ;
                },
            }
        }
    }

    /// Appends the bytes that `data` refers to, as `extend_from_slice` does.
    pub fn extend_from_bytes(&mut self, data: Bytes)
        requires
            old(self).wf(),
        ensures
            final(self).wf(),
            final(self)@ == old(self)@ + bytes_seq(data),
            final(self).consumed() == old(self).spec_consumed_after_reserve(
                bytes_seq(data).len() as usize,
            ),
    {
        self.extend_from_slice(bytes_as_slice(&data));
    }

    /// Appends the bytes that `data` refers to, as `extend_from_slice` does.
    pub fn extend_from_bytes_ref(&mut self, data: &Bytes)
        requires
            old(self).wf(),
        ensures
            final(self).wf(),
            final(self)@ == old(self)@ + bytes_seq(*data),
            final(self).consumed() == old(self).spec_consumed_after_reserve(
                bytes_seq(*data).len() as usize,
            ),
    {
        self.extend_from_slice(bytes_as_slice(data));
    }

    /// A view of the buffer that can also rewrite bytes already appended.
    pub fn tail_vec(&mut self) -> (t: WriteBufferTailVec<'_>)
        ensures
            *t.buf == *old(self),
            *final(self) == *final(t.buf),
    {
        WriteBufferTailVec { buf: self }
    }

    /// The unread bytes as a vector.
    pub fn into_vec(self) -> (v: Vec<u8>)
        requires
            self.wf(),
        ensures
            v@ == self@,
    {
        let mut this = self;
        this.compact();
        assert(this.data@.skip(0) =~= this.data@);
        this.data
    }

    /// The unread bytes as a `Bytes` handle.
    pub fn into_bytes(self) -> (b: Bytes)
        requires
            self.wf(),
        ensures
            bytes_seq(b) == self@,
    {
        bytes_from_vec(self.into_vec())
    }
}

impl Default for WriteBuffer {
    fn default() -> (r: WriteBuffer)
        ensures
            r.wf(),
            r@ == Seq::<u8>::empty(),
    {
        WriteBuffer::new()
    }
}

/// A borrowed view of a [`WriteBuffer`] for writers that go back and patch
/// what they appended, such as a frame header whose length is known only
/// once the payload is complete.
pub struct WriteBufferTailVec<'a> {
    /// The buffer that the view writes into.
    pub buf: &'a mut WriteBuffer,
}

impl<'a> View for WriteBufferTailVec<'a> {
    type V = Seq<u8>;

    open spec fn view(&self) -> Seq<u8> {
        self.buf@
    }
}

impl<'a> WriteBufferTailVec<'a> {
    /// The buffer underneath is well formed.
    pub open spec fn wf(&self) -> bool {
        self.buf.wf()
    }

    /// Size of data in the buffer.
    pub fn remaining(&self) -> (n: usize)
        requires
            self.wf(),
        ensures
            n == self@.len(),
    {
        self.buf.remaining()
    }

    /// Overwrites `data.len()` bytes starting `pos` bytes into the unread
    /// part of the buffer.
    pub fn patch_buf(&mut self, pos: usize, data: &[u8])
        requires
            old(self).wf(),
            pos + data@.len() <= old(self)@.len(),
        ensures
            final(self).wf(),
            final(self)@ == old(self)@.subrange(0, pos as int) + data@ + old(self)@.skip(
                pos + data@.len(),
            ),
            final(self).buf.consumed() == old(self).buf.consumed(),
            *final(final(self).buf) == *final(old(self).buf),
    {
        let patch_pos: usize = self.buf.position + pos;
        let mut i: usize = 0;
        while i < data.len()
            invariant
                i <= data@.len(),
                patch_pos == self.buf.position + pos,
                patch_pos + data@.len() <= self.buf.data.len(),
                self.buf.position == old(self).buf.position,
                pos + data@.len() <= old(self)@.len(),
                self.buf.data@.len() == old(self).buf.data@.len(),
                self.buf.position <= self.buf.data@.len(),
                old(self)@ == old(self).buf.data@.skip(old(self).buf.position as int),
                forall|k: int|
                    0 <= k < self.buf.data@.len() ==> self.buf.data@[k] == if patch_pos <= k
                        < patch_pos + i {
                        data@[k - patch_pos]
                    } else {
                        old(self).buf.data@[k]
                    },
                *final(self.buf) == *final(old(self).buf),
            decreases data@.len() - i,
        {
            self.buf.data[patch_pos + i] = data[i];
            i = i + 1;
        }
        assert(self@ =~= old(self)@.subrange(0, pos as int) + data@ + old(self)@.skip(
            pos + data@.len(),
        ));
    }

    /// Appends the bytes of `data`, after room was made for them as
    /// `reserve` does.
    pub fn extend_from_slice(&mut self, data: &[u8])
        requires
            old(self).wf(),
        ensures
            final(self).wf(),
            final(self)@ == old(self)@ + data@,
            final(self).buf.consumed() == old(self).buf.spec_consumed_after_reserve(data.len()),
            *final(final(self).buf) == *final(old(self).buf),
    {
        self.buf.extend_from_slice(data);
    }

    /// Makes room for `additional` more bytes. The contents do not change.
    /// Where fewer bytes are unread than the room asked for, the consumed
    /// bytes are dropped from the storage first.
    pub fn reserve(&mut self, additional: usize)
        requires
            old(self).wf(),
        ensures
            final(self).wf(),
            final(self)@ == old(self)@,
            final(self).buf.consumed() == old(self).buf.spec_consumed_after_reserve(additional),
            *final(final(self).buf) == *final(old(self).buf),
    {
        self.buf.reserve(additional);
    }

    /// Drops the consumed prefix from the underlying storage. The unread
    /// bytes stay as they are.
    pub fn compact(&mut self)
        requires
            old(self).wf(),
        ensures
            final(self).wf(),
            final(self)@ == old(self)@,
            final(self).buf.consumed() == 0,
            *final(final(self).buf) == *final(old(self).buf),
    {
        self.buf.compact();
    }
}

} // verus!
