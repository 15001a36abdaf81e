//! The CONTINUATION frame: the next piece of a header block that a HEADERS
//! or PUSH_PROMISE frame opened.

use crate::bytes_model::{bytes_as_slice, bytes_seq};
use crate::codec::write_buffer::WriteBuffer;
use crate::solicit::frame::flags::{bits_set, Flag, Flags};
use crate::solicit::frame::{
    lemma_pack_unpack_header, lemma_unpack_pack_header, spec_pack_header, spec_unpack_header,
    FrameHeader, ParseFrameError, RawFrame, MAX_PAYLOAD_LEN,
};
use crate::solicit::stream_id::StreamId;
use bytes::Bytes;
use vstd::prelude::*;

verus! {

/// The type byte of the CONTINUATION frame.
pub const CONTINUATION_FRAME_TYPE: u8 = 0x9;

/// The flags that a CONTINUATION frame can have.
#[derive(Clone, Copy, Debug, PartialEq, Eq, Structural)]
pub enum ContinuationFlag {
    /// The header block ends with this frame.
    EndHeaders,
}

impl Flag for ContinuationFlag {
    open spec fn mask(&self) -> u8 {
        0x4
    }

    fn bitmask(&self) -> (r: u8) {
        0x4
    }

    open spec fn all() -> Seq<ContinuationFlag> {
        seq![ContinuationFlag::EndHeaders]
    }

    fn flags() -> (r: Vec<ContinuationFlag>) {
        let mut r: Vec<ContinuationFlag> = Vec::new();
        r.push(ContinuationFlag::EndHeaders);
        assert(r@ =~= ContinuationFlag::all());
        r
    }
}

/// A CONTINUATION frame.
#[derive(Clone, Debug, PartialEq)]
pub struct ContinuationFrame {
    /// The flags byte.
    pub flags: Flags,
    /// The stream that the header block belongs to.
    pub stream_id: StreamId,
    /// The piece of the header block that the frame carries.
    pub header_fragment: Bytes,
}

/// What a CONTINUATION frame holds.
pub ghost struct ContinuationFrameView {
    /// The flags byte. Bits that the type does not define are kept.
    pub flags: u8,
    /// The stream that the header block belongs to.
    pub stream_id: StreamId,
    /// The piece of the header block that the frame carries.
    pub header_fragment: Seq<u8>,
}

impl ContinuationFrameView {
    /// Whether the header block ends with this frame.
    pub open spec fn is_headers_end(self) -> bool {
        bits_set(self.flags, 0x4)
    }

    /// The header of the frame on the wire.
    pub open spec fn header(self) -> FrameHeader {
        FrameHeader {
            payload_len: self.header_fragment.len() as u32,
            frame_type: CONTINUATION_FRAME_TYPE,
            flags: self.flags,
            stream_id: self.stream_id,
        }
    }

    /// The bytes of the frame on the wire.
    pub open spec fn serialize(self) -> Seq<u8> {
        spec_pack_header(self.header()) + self.header_fragment
    }
}

impl View for ContinuationFrame {
    type V = ContinuationFrameView;

    open spec fn view(&self) -> ContinuationFrameView {
        ContinuationFrameView {
            flags: self.flags.0,
            stream_id: self.stream_id,
            header_fragment: bytes_seq(self.header_fragment),
        }
    }
}

/// The frame that the bytes of a raw frame spell, or why they spell none.
pub open spec fn spec_parse_continuation(raw: Seq<u8>) -> Result<
    ContinuationFrameView,
    ParseFrameError,
> {
    let header = spec_unpack_header(raw);
    if raw.len() < 9 {
        Err(ParseFrameError::InternalError)
    } else if header.frame_type != CONTINUATION_FRAME_TYPE {
        Err(ParseFrameError::InternalError)
    } else if header.payload_len != raw.len() - 9 {
        Err(ParseFrameError::InternalError)
    } else if header.stream_id == 0 {
        Err(ParseFrameError::StreamIdMustBeNonZero)
    } else {
        Ok(
            ContinuationFrameView {
                flags: header.flags,
                stream_id: header.stream_id,
                header_fragment: raw.skip(9),
            },
        )
    }
}

impl ContinuationFrame {
    /// A frame with the given fragment for the given stream, with no flag
    /// set.
    pub fn new(fragment: Bytes, stream_id: StreamId) -> (r: ContinuationFrame)
        ensures
            r@ == (ContinuationFrameView {
                flags: 0,
                stream_id,
                header_fragment: bytes_seq(fragment),
            }),
    {
        ContinuationFrame { header_fragment: fragment, stream_id, flags: Flags::default() }
    }

    /// Whether the header block ends with this frame.
    pub fn is_headers_end(&self) -> (r: bool)
        ensures
            r == self@.is_headers_end(),
    {
        self.flags.is_set(ContinuationFlag::EndHeaders)
    }

    /// Sets the given flag.
    pub fn set_flag(&mut self, flag: ContinuationFlag)
        ensures
            final(self)@ == (ContinuationFrameView { flags: old(self)@.flags | 0x4, ..old(self)@ }),
    {
        self.flags.set(flag);
    }

    /// The piece of the header block that the frame carries.
    pub fn header_fragment(&self) -> (r: &[u8])
        ensures
            r@ == self@.header_fragment,
    {
        bytes_as_slice(&self.header_fragment)
    }

    /// Reads a raw frame as a CONTINUATION frame. The type must be right,
    /// the payload as long as the header says and the stream not 0.
    pub fn from_raw(raw_frame: &RawFrame) -> (r: Result<ContinuationFrame, ParseFrameError>)
        ensures
            match r {
                Ok(frame) => spec_parse_continuation(raw_frame@) == Ok::<
                    ContinuationFrameView,
                    ParseFrameError,
                >(frame@),
                Err(e) => spec_parse_continuation(raw_frame@) == Err::<
                    ContinuationFrameView,
                    ParseFrameError,
                >(e),
            },
    {
        if raw_frame.len() < 9 {
            return Err(ParseFrameError::InternalError);
        }
        let header = raw_frame.header();
        if header.frame_type != CONTINUATION_FRAME_TYPE {
            return Err(ParseFrameError::InternalError);
        }
        let payload = raw_frame.payload();
        if (header.payload_len as usize) != payload.len() {
            return Err(ParseFrameError::InternalError);
        }
        if header.stream_id == 0 {
            return Err(ParseFrameError::StreamIdMustBeNonZero);
        }
        Ok(
            ContinuationFrame {
                header_fragment: payload,
                stream_id: header.stream_id,
                flags: Flags::new(header.flags),
            },
        )
    }

    /// The flags byte of the frame.
    pub fn flags(&self) -> (r: Flags)
        ensures
            r.0 == self@.flags,
    {
        self.flags
    }

    /// The stream that the header block belongs to.
    pub fn get_stream_id(&self) -> (r: StreamId)
        ensures
            r == self@.stream_id,
    {
        self.stream_id
    }

    /// The header of the frame on the wire.
    pub fn get_header(&self) -> (h: FrameHeader)
        requires
            self@.header_fragment.len() <= MAX_PAYLOAD_LEN,
        ensures
            h == self@.header(),
    {
        FrameHeader {
            payload_len: self.header_fragment.len() as u32,
            frame_type: CONTINUATION_FRAME_TYPE,
            flags: self.flags.0,
            stream_id: self.stream_id,
        }
    }

    /// Appends the frame's bytes to `b`.
    pub fn serialize_into(self, b: &mut WriteBuffer)
        requires
            old(b).wf(),
            self@.header_fragment.len() <= MAX_PAYLOAD_LEN,
        ensures
            final(b).wf(),
            final(b)@ == old(b)@ + self@.serialize(),
    {
        b.write_header(self.get_header());
        b.extend_from_bytes_ref(&self.header_fragment);
        assert(b@ =~= old(b)@ + self@.serialize());
    }

    /// The frame's bytes.
    pub fn serialize_into_vec(self) -> (v: Vec<u8>)
        requires
            self@.header_fragment.len() <= MAX_PAYLOAD_LEN,
        ensures
            v@ == self@.serialize(),
    {
        let mut builder = WriteBuffer::new();
        let ghost bytes = self@.serialize();
        self.serialize_into(&mut builder);
        assert(builder@ =~= bytes);
        builder.into_vec()
    }
}

/// A CONTINUATION frame that was read from exactly its own bytes, with the
/// header's reserved bit clear, is written back as those bytes.
pub proof fn lemma_continuation_serialize_parsed(raw: Seq<u8>)
    requires
        raw.len() >= 9,
        raw[5] < 0x80,
        spec_parse_continuation(raw) is Ok,
    ensures
        spec_parse_continuation(raw)->Ok_0.serialize() == raw,
{
    let frame = spec_parse_continuation(raw)->Ok_0;
    let head = raw.take(9);
    assert(spec_unpack_header(head) == spec_unpack_header(raw));
    lemma_pack_unpack_header(head);
    assert(frame.serialize() =~= raw);
}

/// A CONTINUATION frame whose stream identifier is not 0 and whose fields
/// fit the wire is read back from its bytes as it was.
pub proof fn lemma_continuation_parse_serialized(frame: ContinuationFrameView)
    requires
        0 < frame.stream_id <= 0x7fff_ffff,
        frame.header_fragment.len() <= MAX_PAYLOAD_LEN,
    ensures
        spec_parse_continuation(frame.serialize()) == Ok::<ContinuationFrameView, ParseFrameError>(
            frame,
        ),
{
    let raw = frame.serialize();
    lemma_unpack_pack_header(frame.header());
    assert(spec_unpack_header(raw) == spec_unpack_header(spec_pack_header(frame.header())));
    assert(raw.skip(9) =~= frame.header_fragment);
}

} // verus!
