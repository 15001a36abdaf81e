//! The WINDOW_UPDATE frame: gives the peer more flow-control credit, for one
//! stream or for the connection.

use crate::bytes_model::bytes_as_slice;
use crate::codec::write_buffer::WriteBuffer;
use crate::solicit::frame::flags::Flags;
use crate::solicit::frame::{
    lemma_pack_unpack_header, lemma_split_be, spec_pack_header, spec_u32_from_be, spec_u32_to_be,
    spec_unpack_header, FrameHeader, ParseFrameError, RawFrame,
};
use crate::solicit::stream_id::StreamId;
use vstd::prelude::*;

verus! {

/// The type byte of the WINDOW_UPDATE frame.
pub const WINDOW_UPDATE_FRAME_TYPE: u8 = 0x8;

/// The length that the payload of a WINDOW_UPDATE frame must have.
pub const WINDOW_UPDATE_FRAME_LEN: u32 = 4;

/// A WINDOW_UPDATE frame.
#[derive(Clone, Copy, Debug, PartialEq, Eq, Structural)]
pub struct WindowUpdateFrame {
    /// The stream that gets the credit; 0 for the connection.
    pub stream_id: StreamId,
    /// The credit, in bytes: 31 bits on the wire.
    pub increment: u32,
    /// The flags byte. The type defines no flags; the byte is kept.
    pub flags: Flags,
}

/// The frame that the bytes of a raw frame spell, or why they spell none.
pub open spec fn spec_parse_window_update(raw: Seq<u8>) -> Result<
    WindowUpdateFrame,
    ParseFrameError,
> {
    let header = spec_unpack_header(raw);
    if raw.len() < 9 {
        Err(ParseFrameError::InternalError)
    } else if header.frame_type != WINDOW_UPDATE_FRAME_TYPE {
        Err(ParseFrameError::InternalError)
    } else if header.payload_len != raw.len() - 9 {
        Err(ParseFrameError::InternalError)
    } else if header.payload_len != WINDOW_UPDATE_FRAME_LEN {
        Err(ParseFrameError::IncorrectFrameLength(header.payload_len))
    } else {
        Ok(
            WindowUpdateFrame {
                stream_id: header.stream_id,
                increment: spec_u32_from_be((raw[9] % 0x80) as u8, raw[10], raw[11], raw[12]) as u32,
                flags: Flags(header.flags),
            },
        )
    }
}

impl WindowUpdateFrame {
    /// The header of the frame on the wire.
    pub open spec fn spec_header(self) -> FrameHeader {
        FrameHeader {
            payload_len: WINDOW_UPDATE_FRAME_LEN,
            frame_type: WINDOW_UPDATE_FRAME_TYPE,
            flags: self.flags.0,
            stream_id: self.stream_id,
        }
    }

    /// The bytes of the frame on the wire.
    pub open spec fn spec_serialize(self) -> Seq<u8> {
        spec_pack_header(self.spec_header()) + spec_u32_to_be(self.increment)
    }

    /// A frame that gives the connection more credit.
    pub fn for_connection(increment: u32) -> (r: WindowUpdateFrame)
        ensures
            r == (WindowUpdateFrame { stream_id: 0, increment, flags: Flags(0) }),
    {
        WindowUpdateFrame { stream_id: 0, increment, flags: Flags(0) }
    }

    /// A frame that gives one stream more credit.
    pub fn for_stream(stream_id: StreamId, increment: u32) -> (r: WindowUpdateFrame)
        ensures
            r == (WindowUpdateFrame { stream_id, increment, flags: Flags(0) }),
    {
        WindowUpdateFrame { stream_id, increment, flags: Flags(0) }
    }

    /// Reads a raw frame as a WINDOW_UPDATE frame. The type must be right
    /// and the payload four bytes, as the header says.
    pub fn from_raw(raw_frame: &RawFrame) -> (r: Result<WindowUpdateFrame, ParseFrameError>)
        ensures
            r == spec_parse_window_update(raw_frame@),
    {
        if raw_frame.len() < 9 {
            return Err(ParseFrameError::InternalError);
        }
        let header = raw_frame.header();
        if header.frame_type != WINDOW_UPDATE_FRAME_TYPE {
            return Err(ParseFrameError::InternalError);
        }
        if (header.payload_len as usize) != raw_frame.len() - 9 {
            return Err(ParseFrameError::InternalError);
        }
        if header.payload_len != WINDOW_UPDATE_FRAME_LEN {
            return Err(ParseFrameError::IncorrectFrameLength(header.payload_len));
        }
        let bytes = bytes_as_slice(&raw_frame.raw_content);
        let b0: u32 = (bytes[9] % 0x80) as u32;
        let increment: u32 = b0 * 0x100_0000 + (bytes[10] as u32) * 0x1_0000 + (bytes[11] as u32)
            * 0x100 + (bytes[12] as u32);
        Ok(WindowUpdateFrame { stream_id: header.stream_id, increment, flags: Flags(header.flags) })
    }

    /// Appends the frame's bytes to `b`.
    pub fn serialize_into(self, b: &mut WriteBuffer)
        requires
            old(b).wf(),
        ensures
            final(b).wf(),
            final(b)@ == old(b)@ + self.spec_serialize(),
    {
        b.write_header(
            FrameHeader {
                payload_len: WINDOW_UPDATE_FRAME_LEN,
                frame_type: WINDOW_UPDATE_FRAME_TYPE,
                flags: self.flags.0,
                stream_id: self.stream_id,
            },
        );
        b.write_u32(self.increment);
        assert(b@ =~= old(b)@ + self.spec_serialize());
    }

    /// The frame's bytes.
    pub fn serialize_into_vec(self) -> (v: Vec<u8>)
        ensures
            v@ == self.spec_serialize(),
    {
        let mut builder = WriteBuffer::new();
        self.serialize_into(&mut builder);
        assert(builder@ =~= self.spec_serialize());
        builder.into_vec()
    }
}

/// A WINDOW_UPDATE frame that was read from exactly its own bytes, with the
/// reserved bits of the header and of the increment clear, is written back as
/// those bytes.
pub proof fn lemma_window_update_serialize_parsed(raw: Seq<u8>)
    requires
        raw.len() >= 9,
        raw[5] < 0x80,
        spec_parse_window_update(raw) is Ok,
        raw[9] < 0x80,
    ensures
        spec_parse_window_update(raw)->Ok_0.spec_serialize() == raw,
{
    let frame = spec_parse_window_update(raw)->Ok_0;
    let head = raw.take(9);
    assert(spec_unpack_header(head) == spec_unpack_header(raw));
    lemma_pack_unpack_header(head);
    lemma_split_be(raw[9], raw[10], raw[11], raw[12]);
    assert(frame.spec_serialize() =~= raw);
}

} // verus!
