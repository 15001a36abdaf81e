//! The reading side of the frame codec: bytes come in as the transport hands
//! them over, in pieces of any size, and go out as frames with their header
//! blocks put together.

use crate::bytes_model::{bytes_as_slice, bytes_from_vec, bytes_seq, bytes_slice};
use crate::codec::join_continuation::{
    spec_join_step, HeadersBlockView, JoinContinuation, Joined, JoinedView,
};
use crate::error::Error;
use crate::solicit::error_code::ErrorCode;
use crate::solicit::frame::http_frame::{spec_parse_http_frame, HttpFrame};
use crate::solicit::frame::{spec_raw_frame, spec_unpack_header, RawFrame};
use crate::solicit::header::copy_bytes;
use bytes::Bytes;
use vstd::prelude::*;

verus! {

/// The bytes that wait for the rest of their frame, and the header block
/// that is open.
pub struct FrameReader {
    buf: Bytes,
    join: JoinContinuation,
}

/// What a frame reader holds.
pub ghost struct FrameReaderView {
    /// The bytes that were taken in and not read as a frame yet.
    pub pending: Seq<u8>,
    /// The header block that is open, if one is.
    pub join: Option<HeadersBlockView>,
}

impl View for FrameReader {
    type V = FrameReaderView;

    closed spec fn view(&self) -> FrameReaderView {
        FrameReaderView { pending: bytes_seq(self.buf), join: self.join@ }
    }
}

/// What reading the next frame gives: nothing while the bytes do not hold a
/// frame in full; else what the frame gives once header blocks are put
/// together, and what the reader holds afterwards. A header that announces a
/// payload of more than `max_frame_size` bytes is a frame size error, whether
/// or not the payload is there. A frame that cannot be read, and one that
/// breaks the rule of header blocks, is an error too.
pub open spec fn spec_next_joined(reader: FrameReaderView, max_frame_size: u32) -> Result<
    Option<(JoinedView, FrameReaderView)>,
    Error,
> {
    let bytes = reader.pending;
    if bytes.len() >= 9 && spec_unpack_header(bytes).payload_len > max_frame_size {
        Err(Error::CodeError(ErrorCode::FrameSizeError))
    } else {
        match spec_raw_frame(bytes) {
            None => Ok(None),
            Some(raw) => match spec_parse_http_frame(raw) {
                Err(e) => Err(Error::ParseFrameError(e)),
                Ok(frame) => match spec_join_step(reader.join, frame) {
                    Err(e) => Err(Error::ParseFrameError(e)),
                    Ok((join, joined)) => Ok(
                        Some(
                            (
                                joined,
                                FrameReaderView { pending: bytes.skip(raw.len() as int), join },
                            ),
                        ),
                    ),
                },
            },
        }
    }
}

/// Reading a frame uses up at least the nine bytes of its header.
pub proof fn lemma_next_joined_shorter(reader: FrameReaderView, max_frame_size: u32)
    ensures
        spec_next_joined(reader, max_frame_size) matches Ok(Some(next)) ==> next.1.pending.len() + 9
            <= reader.pending.len(),
{
}

impl FrameReader {
    /// A reader that has taken nothing in.
    pub fn new() -> (r: FrameReader)
        ensures
            r@ == (FrameReaderView { pending: Seq::empty(), join: None }),
    {
        FrameReader { buf: Bytes::new(), join: JoinContinuation::new() }
    }

    /// The number of bytes that were taken in and not read as a frame yet.
    pub fn pending_len(&self) -> (n: usize)
        ensures
            n == self@.pending.len(),
    {
        self.buf.len()
    }

    /// Takes in bytes that the transport read: they go behind the bytes
    /// that wait already.
    pub fn extend(&mut self, bytes: &[u8])
        ensures
            final(self)@ == (FrameReaderView {
                pending: old(self)@.pending + bytes@,
                ..old(self)@
            }),
    {
        let mut all = copy_bytes(bytes_as_slice(&self.buf));
        let ghost before = all@;
        all.extend_from_slice(bytes);
        assert(all@ =~= before + bytes@);
        self.buf = bytes_from_vec(all);
    }

    /// Reads the frame at the front of the bytes, if it is there in full,
    /// and joins it with its header block; `spec_next_joined` says what
    /// comes of it. While no frame is there in full nothing changes. After
    /// an error the connection is to end, and nothing is said of the reader.
    pub fn next_joined(&mut self, max_frame_size: u32) -> (r: Result<Option<Joined>, Error>)
        ensures
            match spec_next_joined(old(self)@, max_frame_size) {
                Err(e) => r matches Err(err) && err == e,
                Ok(None) => r matches Ok(None) && final(self)@ == old(self)@,
                Ok(Some((joined, after))) => r matches Ok(Some(j)) && j@ == joined && final(self)@
                    == after,
            },
    {
        if self.buf.len() >= 9 {
            let arrived = RawFrame { raw_content: self.buf.clone() };
            if arrived.header().payload_len > max_frame_size {
                return Err(Error::CodeError(ErrorCode::FrameSizeError));
            }
        }
        let raw_frame = match RawFrame::parse(self.buf.clone()) {
            None => {
                return Ok(None);
            },
            Some(raw_frame) => raw_frame,
        };
        let frame = match HttpFrame::from_raw(&raw_frame) {
            Err(e) => {
                return Err(Error::ParseFrameError(e));
            },
            Ok(frame) => frame,
        };
        let joined = match self.join.push(frame) {
            Err(e) => {
                return Err(Error::ParseFrameError(e));
            },
            Ok(joined) => joined,
        };
        let rest = bytes_slice(&self.buf, raw_frame.len(), self.buf.len());
        assert(bytes_seq(rest) =~= old(self)@.pending.skip(raw_frame@.len() as int));
        self.buf = rest;
        Ok(Some(joined))
    }
}

} // verus!
