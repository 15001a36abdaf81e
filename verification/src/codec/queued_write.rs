//! The bytes that wait for the transport, and the rule of GOAWAY: once a
//! GOAWAY frame is queued, nothing is queued behind it.

use crate::codec::write_buffer::WriteBuffer;
use crate::hpack::encoder::spec_encoder_after_block;
use crate::solicit::frame::goaway::GoawayFrame;
use crate::solicit::frame::headers::{spec_multi_frame, HeadersMultiFrame};
use crate::solicit::frame::http_frame::HttpFrame;
use crate::solicit::frame::flags::bits_set;
use vstd::prelude::*;

verus! {

/// The write queue of a connection.
pub struct QueuedWrite {
    buf: WriteBuffer,
    goaway: bool,
}

impl QueuedWrite {
    /// The buffer is well formed.
    pub closed spec fn wf(&self) -> bool {
        self.buf.wf()
    }

    /// The bytes that wait to be written, first first.
    pub closed spec fn queued(&self) -> Seq<u8> {
        self.buf@
    }

    /// Whether a GOAWAY frame was queued.
    pub closed spec fn spec_goaway_queued(&self) -> bool {
        self.goaway
    }

    /// An empty queue.
    pub fn new() -> (r: QueuedWrite)
        ensures
            r.wf(),
            r.queued() == Seq::<u8>::empty(),
            !r.spec_goaway_queued(),
    {
        QueuedWrite { buf: WriteBuffer::new(), goaway: false }
    }

    /// How many bytes wait to be written.
    pub fn queued_bytes_len(&self) -> (n: usize)
        requires
            self.wf(),
        ensures
            n == self.queued().len(),
    {
        self.buf.remaining()
    }

    /// Whether nothing waits to be written.
    pub fn queued_empty(&self) -> (r: bool)
        requires
            self.wf(),
        ensures
            r == (self.queued().len() == 0),
    {
        self.buf.remaining() == 0
    }

    /// Whether a GOAWAY frame was queued.
    pub fn goaway_queued(&self) -> (r: bool)
        ensures
            r == self.spec_goaway_queued(),
    {
        self.goaway
    }

    /// Queues a frame, unless a GOAWAY frame was queued before.
    pub fn queue_not_goaway(&mut self, frame: HttpFrame)
        requires
            old(self).wf(),
            frame@.can_serialize(),
        ensures
            final(self).wf(),
            final(self).spec_goaway_queued() == old(self).spec_goaway_queued(),
            final(self).queued() == (if old(self).spec_goaway_queued() {
                old(self).queued()
            } else {
                old(self).queued() + frame@.serialize()
            }),
    {
        if self.goaway {
            return ;
        }
        frame.serialize_into(&mut self.buf);
    }

    /// Queues a header list as its HEADERS and CONTINUATION frames, unless a
    /// GOAWAY frame was queued before; then the encoder is left alone too.
    pub fn queue_headers_not_goaway(&mut self, frame: HeadersMultiFrame<'_>)
        requires
            old(self).wf(),
            frame.encoder.wf(),
            frame.max_frame_size >= 1,
            !bits_set(frame.flags.0, 0x4),
        ensures
            final(self).wf(),
            final(self).spec_goaway_queued() == old(self).spec_goaway_queued(),
            final(frame.encoder).wf(),
            old(self).spec_goaway_queued() ==> final(self).queued() == old(self).queued()
                && final(frame.encoder)@ == old(frame.encoder)@,
            !old(self).spec_goaway_queued() ==> final(self).queued() == old(self).queued()
                + spec_multi_frame(
                frame.spec_block(),
                frame.max_frame_size as nat,
                frame.stream_id,
                frame.flags.0,
            ) && final(frame.encoder)@ == spec_encoder_after_block(
                old(frame.encoder)@,
                frame.headers@,
            ),
    {
        if self.goaway {
            return ;
        }
        frame.serialize_into(&mut self.buf);
    }

    /// Queues a GOAWAY frame and closes the queue behind it. A second GOAWAY
    /// frame is not queued.
    pub fn queue_goaway(&mut self, frame: GoawayFrame)
        requires
            old(self).wf(),
            frame@.fits_wire(),
        ensures
            final(self).wf(),
            final(self).spec_goaway_queued(),
            final(self).queued() == (if old(self).spec_goaway_queued() {
                old(self).queued()
            } else {
                old(self).queued() + frame@.serialize()
            }),
    {
        if self.goaway {
            return ;
        }
        frame.serialize_into(&mut self.buf);
        self.goaway = true;
    }

    /// The bytes that the transport is to write next.
    pub fn bytes(&self) -> (r: &[u8])
        requires
            self.wf(),
        ensures
            r@ == self.queued(),
    {
        self.buf.bytes()
    }

    /// Takes note that the transport wrote the first `cnt` bytes.
    pub fn advance(&mut self, cnt: usize)
        requires
            old(self).wf(),
            cnt <= old(self).queued().len(),
        ensures
            final(self).wf(),
            final(self).queued() == old(self).queued().skip(cnt as int),
            final(self).spec_goaway_queued() == old(self).spec_goaway_queued(),
    {
        self.buf.advance(cnt);
    }
}

} // verus!
