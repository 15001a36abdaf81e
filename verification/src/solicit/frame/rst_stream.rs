//! The RST_STREAM frame: ends one stream, with the reason as an error code.

use crate::bytes_model::bytes_as_slice;
use crate::codec::write_buffer::WriteBuffer;
use crate::solicit::error_code::{ErrorCode, ErrorCodeOrUnknown};
use crate::solicit::frame::flags::Flags;
use crate::solicit::frame::{
    lemma_pack_unpack_header, lemma_split_be, lemma_unpack_pack_header, spec_pack_header,
    spec_u32_from_be, spec_u32_to_be, spec_unpack_header, unpack_octets_4, FrameHeader,
    ParseFrameError, RawFrame,
};
use crate::solicit::stream_id::StreamId;
use vstd::prelude::*;

verus! {

/// The length that the payload of a RST_STREAM frame must have.
pub const RST_STREAM_FRAME_LEN: u32 = 4;

/// The type byte of the RST_STREAM frame.
pub const RST_STREAM_FRAME_TYPE: u8 = 0x3;

/// A RST_STREAM frame.
#[derive(Clone, Copy, Debug, PartialEq, Eq, Structural)]
pub struct RstStreamFrame {
    error_code: ErrorCodeOrUnknown,
    /// The stream that is reset.
    pub stream_id: StreamId,
    flags: Flags,
}

/// What a RST_STREAM frame holds.
pub ghost struct RstStreamView {
    /// The error code as the wire has it.
    pub raw_error_code: u32,
    /// The stream that is reset.
    pub stream_id: StreamId,
    /// The flags byte. The type defines no flags; the byte is kept.
    pub flags: u8,
}

impl View for RstStreamFrame {
    type V = RstStreamView;

    closed spec fn view(&self) -> RstStreamView {
        RstStreamView {
            raw_error_code: self.error_code.0,
            stream_id: self.stream_id,
            flags: self.flags.0,
        }
    }
}

/// The frame that the bytes of a raw frame spell, or why they spell none.
pub open spec fn spec_parse_rst_stream(raw: Seq<u8>) -> Result<RstStreamView, ParseFrameError> {
    let header = spec_unpack_header(raw);
    if raw.len() < 9 {
        Err(ParseFrameError::InternalError)
    } else if header.payload_len != RST_STREAM_FRAME_LEN {
        Err(ParseFrameError::InternalError)
    } else if header.frame_type != RST_STREAM_FRAME_TYPE {
        Err(ParseFrameError::InternalError)
    } else if header.stream_id == 0 {
        Err(ParseFrameError::StreamIdMustBeNonZero)
    } else if raw.len() < 13 {
        Err(ParseFrameError::InternalError)
    } else {
        Ok(
            RstStreamView {
                raw_error_code: spec_u32_from_be(raw[9], raw[10], raw[11], raw[12]) as u32,
                stream_id: header.stream_id,
                flags: header.flags,
            },
        )
    }
}

/// The header of the frame on the wire.
pub open spec fn spec_rst_stream_header(frame: RstStreamView) -> FrameHeader {
    FrameHeader {
        payload_len: RST_STREAM_FRAME_LEN,
        frame_type: RST_STREAM_FRAME_TYPE,
        flags: frame.flags,
        stream_id: frame.stream_id,
    }
}

/// The bytes of the frame on the wire.
pub open spec fn spec_serialize_rst_stream(frame: RstStreamView) -> Seq<u8> {
    spec_pack_header(spec_rst_stream_header(frame)) + spec_u32_to_be(frame.raw_error_code)
}

impl RstStreamFrame {
    /// A frame that resets `stream_id` with the given code.
    pub fn new(stream_id: StreamId, error_code: ErrorCode) -> (r: RstStreamFrame)
        ensures
            r@ == (RstStreamView { raw_error_code: error_code.code(), stream_id, flags: 0 }),
    {
        RstStreamFrame {
            error_code: ErrorCodeOrUnknown::from_error_code(error_code),
            stream_id,
            flags: Flags::default(),
        }
    }

    /// A frame that resets `stream_id` with the given number as its code,
    /// whether or not that number is a known code.
    pub fn with_raw_error_code(stream_id: StreamId, error_code: u32) -> (r: RstStreamFrame)
        ensures
            r@ == (RstStreamView { raw_error_code: error_code, stream_id, flags: 0 }),
    {
        RstStreamFrame { error_code: ErrorCodeOrUnknown(error_code), stream_id, flags: Flags::default() }
    }

    /// The error code of the frame. A number that is no known code is read
    /// as `InternalError`.
    pub fn error_code(&self) -> (r: ErrorCode)
        ensures
            r == ErrorCodeOrUnknown(self@.raw_error_code).interpreted(),
    {
        self.error_code.to_error_code()
    }

    /// The error code as the wire has it, known or not.
    pub fn raw_error_code(&self) -> (r: u32)
        ensures
            r == self@.raw_error_code,
    {
        self.error_code.0
    }

    /// Reads a raw frame as a RST_STREAM frame. The header must announce a
    /// payload of four bytes, the type must be right and the stream must not
    /// be 0; then the payload must hold the four bytes of the code.
    pub fn from_raw(raw_frame: &RawFrame) -> (r: Result<RstStreamFrame, ParseFrameError>)
        ensures
            match r {
                Ok(frame) => spec_parse_rst_stream(raw_frame@) == Ok::<
                    RstStreamView,
                    ParseFrameError,
                >(frame@),
                Err(e) => spec_parse_rst_stream(raw_frame@) == Err::<RstStreamView, ParseFrameError>(
                    e,
                ),
            },
    {
        if raw_frame.len() < 9 {
            return Err(ParseFrameError::InternalError);
        }
        let header = raw_frame.header();
        if header.payload_len != RST_STREAM_FRAME_LEN {
            return Err(ParseFrameError::InternalError);
        }
        if header.frame_type != RST_STREAM_FRAME_TYPE {
            return Err(ParseFrameError::InternalError);
        }
        if header.stream_id == 0x0 {
            return Err(ParseFrameError::StreamIdMustBeNonZero);
        }
        if raw_frame.len() < 13 {
            return Err(ParseFrameError::InternalError);
        }
        let error: u32 = unpack_octets_4(bytes_as_slice(&raw_frame.raw_content), 9);
        Ok(
            RstStreamFrame {
                error_code: ErrorCodeOrUnknown(error),
                stream_id: header.stream_id,
                flags: Flags::new(header.flags),
            },
        )
    }

    /// The flags byte of the frame.
    pub fn flags(&self) -> (r: Flags)
        ensures
            r.0 == self@.flags,
    {
        self.flags
    }

    /// The stream that is reset.
    pub fn get_stream_id(&self) -> (r: StreamId)
        ensures
            r == self@.stream_id,
    {
        self.stream_id
    }

    /// The header of the frame on the wire.
    pub fn get_header(&self) -> (h: FrameHeader)
        ensures
            h == spec_rst_stream_header(self@),
    {
        FrameHeader {
            payload_len: RST_STREAM_FRAME_LEN,
            frame_type: RST_STREAM_FRAME_TYPE,
            flags: self.flags.0,
            stream_id: self.stream_id,
        }
    }

    /// Appends the frame's bytes to `builder`.
    pub fn serialize_into(self, builder: &mut WriteBuffer)
        requires
            old(builder).wf(),
        ensures
            final(builder).wf(),
            final(builder)@ == old(builder)@ + spec_serialize_rst_stream(self@),
    {
        builder.write_header(self.get_header());
        builder.write_u32(self.error_code.0);
        assert(builder@ =~= old(builder)@ + spec_serialize_rst_stream(self@));
    }

    /// The frame's bytes.
    pub fn serialize_into_vec(self) -> (v: Vec<u8>)
        ensures
            v@ == spec_serialize_rst_stream(self@),
    {
        let mut builder = WriteBuffer::new();
        self.serialize_into(&mut builder);
        assert(builder@ =~= spec_serialize_rst_stream(self@));
        builder.into_vec()
    }
}

/// A RST_STREAM frame that was read from exactly its own bytes, with the
/// header's reserved bit clear, is written back as those bytes.
pub proof fn lemma_rst_stream_serialize_parsed(raw: Seq<u8>)
    requires
        raw.len() >= 9,
        raw.len() == 9 + spec_unpack_header(raw).payload_len,
        raw[5] < 0x80,
        spec_parse_rst_stream(raw) is Ok,
    ensures
        spec_serialize_rst_stream(spec_parse_rst_stream(raw)->Ok_0) == raw,
{
    let frame = spec_parse_rst_stream(raw)->Ok_0;
    let head = raw.take(9);
    assert(spec_unpack_header(head) == spec_unpack_header(raw));
    lemma_pack_unpack_header(head);
    lemma_split_be(raw[9], raw[10], raw[11], raw[12]);
    assert(spec_serialize_rst_stream(frame) =~= raw);
}

/// A RST_STREAM frame for a stream whose identifier is not 0 and fits the
/// wire is read back from its bytes as it was.
pub proof fn lemma_rst_stream_parse_serialized(frame: RstStreamView)
    requires
        0 < frame.stream_id <= 0x7fff_ffff,
    ensures
        spec_parse_rst_stream(spec_serialize_rst_stream(frame)) == Ok::<
            RstStreamView,
            ParseFrameError,
        >(frame),
{
    let raw = spec_serialize_rst_stream(frame);
    let header = spec_rst_stream_header(frame);
    lemma_unpack_pack_header(header);
    assert(spec_unpack_header(raw) == spec_unpack_header(spec_pack_header(header)));
    let code = frame.raw_error_code;
    assert(raw[9] == (code / 0x100_0000) as u8);
    assert(raw[10] == (code / 0x1_0000 % 0x100) as u8);
    assert(raw[11] == (code / 0x100 % 0x100) as u8);
    assert(raw[12] == (code % 0x100) as u8);
}

} // verus!
