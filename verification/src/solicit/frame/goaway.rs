//! The GOAWAY frame: the sender will accept no stream above the one named.

use crate::bytes_model::{bytes_as_slice, bytes_seq, bytes_slice};
use crate::codec::write_buffer::WriteBuffer;
use crate::solicit::error_code::{ErrorCode, ErrorCodeOrUnknown};
use crate::solicit::frame::flags::Flags;
use crate::solicit::frame::{
    lemma_pack_unpack_header, lemma_split_be, spec_pack_header, spec_u32_from_be, spec_u32_to_be,
    spec_unpack_header, unpack_octets_4, FrameHeader, ParseFrameError, RawFrame, MAX_PAYLOAD_LEN,
};
use crate::solicit::stream_id::StreamId;
use bytes::Bytes;
use vstd::prelude::*;

verus! {

/// The type byte of the GOAWAY frame.
pub const GOAWAY_FRAME_TYPE: u8 = 0x7;

/// A GOAWAY frame.
#[derive(Clone, Debug, PartialEq)]
pub struct GoawayFrame {
    /// The highest stream that the sender may still act on.
    pub last_stream_id: StreamId,
    /// The error code as the wire has it.
    pub raw_error_code: u32,
    /// Opaque data for diagnosis.
    pub debug_data: Bytes,
    /// The flags byte. The type defines no flags; the byte is kept.
    pub flags: Flags,
}

/// What a GOAWAY frame holds.
pub ghost struct GoawayFrameView {
    /// The highest stream that the sender may still act on.
    pub last_stream_id: StreamId,
    /// The error code as the wire has it.
    pub raw_error_code: u32,
    /// Opaque data for diagnosis.
    pub debug_data: Seq<u8>,
    /// The flags byte.
    pub flags: u8,
}

impl GoawayFrameView {
    /// The header of the frame on the wire.
    pub open spec fn header(self) -> FrameHeader {
        FrameHeader {
            payload_len: (8 + self.debug_data.len()) as u32,
            frame_type: GOAWAY_FRAME_TYPE,
            flags: self.flags,
            stream_id: 0,
        }
    }

    /// Whether the payload's length fits the header's 24 bits.
    pub open spec fn fits_wire(self) -> bool {
        8 + self.debug_data.len() <= MAX_PAYLOAD_LEN
    }

    /// The bytes of the frame on the wire.
    pub open spec fn serialize(self) -> Seq<u8> {
        spec_pack_header(self.header()) + spec_u32_to_be(self.last_stream_id) + spec_u32_to_be(
            self.raw_error_code,
        ) + self.debug_data
    }
}

impl View for GoawayFrame {
    type V = GoawayFrameView;

    open spec fn view(&self) -> GoawayFrameView {
        GoawayFrameView {
            last_stream_id: self.last_stream_id,
            raw_error_code: self.raw_error_code,
            debug_data: bytes_seq(self.debug_data),
            flags: self.flags.0,
        }
    }
}

/// The frame that the bytes of a raw frame spell, or why they spell none.
pub open spec fn spec_parse_goaway(raw: Seq<u8>) -> Result<GoawayFrameView, ParseFrameError> {
    let header = spec_unpack_header(raw);
    if raw.len() < 9 {
        Err(ParseFrameError::InternalError)
    } else if header.frame_type != GOAWAY_FRAME_TYPE {
        Err(ParseFrameError::InternalError)
    } else if header.payload_len != raw.len() - 9 {
        Err(ParseFrameError::InternalError)
    } else if header.stream_id != 0 {
        Err(ParseFrameError::StreamIdMustBeZero)
    } else if header.payload_len < 8 {
        Err(ParseFrameError::IncorrectFrameLength(header.payload_len))
    } else {
        Ok(
            GoawayFrameView {
                last_stream_id: spec_u32_from_be(
                    (raw[9] % 0x80) as u8,
                    raw[10],
                    raw[11],
                    raw[12],
                ) as u32,
                raw_error_code: spec_u32_from_be(raw[13], raw[14], raw[15], raw[16]) as u32,
                debug_data: raw.skip(17),
                flags: header.flags,
            },
        )
    }
}

impl GoawayFrame {
    /// A frame that names the last stream and gives a known code, without
    /// debug data.
    pub fn new(last_stream_id: StreamId, error_code: ErrorCode) -> (r: GoawayFrame)
        ensures
            r@ == (GoawayFrameView {
                last_stream_id,
                raw_error_code: error_code.code(),
                debug_data: Seq::<u8>::empty(),
                flags: 0,
            }),
    {
        GoawayFrame {
            last_stream_id,
            raw_error_code: error_code.to_u32(),
            debug_data: Bytes::new(),
            flags: Flags::default(),
        }
    }

    /// The error code of the frame. A number that is no known code is read
    /// as `InternalError`.
    pub fn error_code(&self) -> (r: ErrorCode)
        ensures
            r == ErrorCodeOrUnknown(self@.raw_error_code).interpreted(),
    {
        ErrorCodeOrUnknown(self.raw_error_code).to_error_code()
    }

    /// Reads a raw frame as a GOAWAY frame. The type must be right, the
    /// payload as long as the header says and at least eight bytes, the
    /// stream 0.
    pub fn from_raw(raw_frame: &RawFrame) -> (r: Result<GoawayFrame, ParseFrameError>)
        ensures
            match r {
                Ok(frame) => spec_parse_goaway(raw_frame@) == Ok::<GoawayFrameView, ParseFrameError>(
                    frame@,
                ),
                Err(e) => spec_parse_goaway(raw_frame@) == Err::<GoawayFrameView, ParseFrameError>(e),
            },
    {
        if raw_frame.len() < 9 {
            return Err(ParseFrameError::InternalError);
        }
        let header = raw_frame.header();
        if header.frame_type != GOAWAY_FRAME_TYPE {
            return Err(ParseFrameError::InternalError);
        }
        let payload = raw_frame.payload();
        if (header.payload_len as usize) != payload.len() {
            return Err(ParseFrameError::InternalError);
        }
        if header.stream_id != 0 {
            return Err(ParseFrameError::StreamIdMustBeZero);
        }
        if header.payload_len < 8 {
            return Err(ParseFrameError::IncorrectFrameLength(header.payload_len));
        }
        let bytes = bytes_as_slice(&payload);
        let b0: u32 = (bytes[0] % 0x80) as u32;
        let last_stream_id: u32 = b0 * 0x100_0000 + (bytes[1] as u32) * 0x1_0000 + (bytes[2] as u32)
            * 0x100 + (bytes[3] as u32);
        let raw_error_code: u32 = unpack_octets_4(bytes, 4);
        let debug_data = bytes_slice(&payload, 8, payload.len());
        assert(bytes_seq(debug_data) =~= raw_frame@.skip(17));
        Ok(GoawayFrame { last_stream_id, raw_error_code, debug_data, flags: Flags::new(header.flags) })
    }

    /// Appends the frame's bytes to `b`.
    pub fn serialize_into(self, b: &mut WriteBuffer)
        requires
            old(b).wf(),
            self@.fits_wire(),
        ensures
            final(b).wf(),
            final(b)@ == old(b)@ + self@.serialize(),
    {
        let header = FrameHeader {
            payload_len: 8 + self.debug_data.len() as u32,
            frame_type: GOAWAY_FRAME_TYPE,
            flags: self.flags.0,
            stream_id: 0,
        };
        b.write_header(header);
        b.write_u32(self.last_stream_id);
        b.write_u32(self.raw_error_code);
        b.extend_from_bytes_ref(&self.debug_data);
        assert(b@ =~= old(b)@ + self@.serialize());
    }

    /// The frame's bytes.
    pub fn serialize_into_vec(self) -> (v: Vec<u8>)
        requires
            self@.fits_wire(),
        ensures
            v@ == self@.serialize(),
    {
        let mut builder = WriteBuffer::new();
        let ghost bytes = self@.serialize();
        self.serialize_into(&mut builder);
        assert(builder@ =~= bytes);
        builder.into_vec()
    }
}

/// A GOAWAY frame that was read from exactly its own bytes, with the reserved
/// bits of the header and of the last stream clear, is written back as those
/// bytes.
pub proof fn lemma_goaway_serialize_parsed(raw: Seq<u8>)
    requires
        raw.len() >= 9,
        raw[5] < 0x80,
        spec_parse_goaway(raw) is Ok,
        raw[9] < 0x80,
    ensures
        spec_parse_goaway(raw)->Ok_0.serialize() == raw,
{
    let frame = spec_parse_goaway(raw)->Ok_0;
    let head = raw.take(9);
    assert(spec_unpack_header(head) == spec_unpack_header(raw));
    lemma_pack_unpack_header(head);
    lemma_split_be(raw[9], raw[10], raw[11], raw[12]);
    lemma_split_be(raw[13], raw[14], raw[15], raw[16]);
    assert(frame.serialize() =~= raw);
}

} // verus!
