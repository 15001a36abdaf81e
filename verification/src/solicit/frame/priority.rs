//! The PRIORITY frame: says what a stream depends on. It is read and passed
//! on; nothing here acts on it.

use crate::bytes_model::bytes_as_slice;
use crate::codec::write_buffer::WriteBuffer;
use crate::solicit::frame::flags::Flags;
use crate::solicit::frame::headers::{
    lemma_dependency_serialize_parsed, spec_parse_dependency, spec_serialize_dependency,
    StreamDependency,
};
use crate::solicit::frame::{
    lemma_pack_unpack_header, spec_pack_header, spec_unpack_header, FrameHeader,
    ParseFrameError, RawFrame,
};
use crate::solicit::stream_id::StreamId;
use vstd::prelude::*;

verus! {

/// The type byte of the PRIORITY frame.
pub const PRIORITY_FRAME_TYPE: u8 = 0x2;

/// The length that the payload of a PRIORITY frame must have.
pub const PRIORITY_FRAME_LEN: u32 = 5;

/// A PRIORITY frame.
#[derive(Clone, Copy, Debug, PartialEq, Eq, Structural)]
pub struct PriorityFrame {
    /// The flags byte. The type defines no flags; the byte is kept.
    pub flags: Flags,
    /// The stream whose dependency the frame states.
    pub stream_id: StreamId,
    /// What the stream depends on.
    pub stream_dep: StreamDependency,
}

/// The frame that the bytes of a raw frame spell, or why they spell none.
pub open spec fn spec_parse_priority(raw: Seq<u8>) -> Result<PriorityFrame, ParseFrameError> {
    let header = spec_unpack_header(raw);
    if raw.len() < 9 {
        Err(ParseFrameError::InternalError)
    } else if header.frame_type != PRIORITY_FRAME_TYPE {
        Err(ParseFrameError::InternalError)
    } else if header.payload_len != raw.len() - 9 {
        Err(ParseFrameError::InternalError)
    } else if header.payload_len != PRIORITY_FRAME_LEN {
        Err(ParseFrameError::IncorrectFrameLength(header.payload_len))
    } else if header.stream_id == 0 {
        Err(ParseFrameError::StreamIdMustBeNonZero)
    } else if spec_parse_dependency(raw.skip(9)).stream_id == header.stream_id {
        Err(ParseFrameError::StreamDependencyOnItself(header.stream_id))
    } else {
        Ok(
            PriorityFrame {
                flags: Flags(header.flags),
                stream_id: header.stream_id,
                stream_dep: spec_parse_dependency(raw.skip(9)),
            },
        )
    }
}

impl PriorityFrame {
    /// The bytes of the frame on the wire.
    pub open spec fn spec_serialize(self) -> Seq<u8> {
        spec_pack_header(
            FrameHeader {
                payload_len: PRIORITY_FRAME_LEN,
                frame_type: PRIORITY_FRAME_TYPE,
                flags: self.flags.0,
                stream_id: self.stream_id,
            },
        ) + spec_serialize_dependency(self.stream_dep)
    }

    /// A frame that states the dependency of a stream.
    pub fn new(stream_id: StreamId, stream_dep: StreamDependency) -> (r: PriorityFrame)
        ensures
            r == (PriorityFrame { flags: Flags(0), stream_id, stream_dep }),
    {
        PriorityFrame { flags: Flags(0), stream_id, stream_dep }
    }

    /// Reads a raw frame as a PRIORITY frame. The type must be right, the
    /// payload five bytes, as the header says, the stream not 0, and the
    /// dependency must not name the frame's own stream.
    pub fn from_raw(raw_frame: &RawFrame) -> (r: Result<PriorityFrame, ParseFrameError>)
        ensures
            r == spec_parse_priority(raw_frame@),
    {
        if raw_frame.len() < 9 {
            return Err(ParseFrameError::InternalError);
        }
        let header = raw_frame.header();
        if header.frame_type != PRIORITY_FRAME_TYPE {
            return Err(ParseFrameError::InternalError);
        }
        let payload = raw_frame.payload();
        if (header.payload_len as usize) != payload.len() {
            return Err(ParseFrameError::InternalError);
        }
        if header.payload_len != PRIORITY_FRAME_LEN {
            return Err(ParseFrameError::IncorrectFrameLength(header.payload_len));
        }
        if header.stream_id == 0 {
            return Err(ParseFrameError::StreamIdMustBeNonZero);
        }
        let stream_dep = StreamDependency::parse(bytes_as_slice(&payload));
        if stream_dep.stream_id == header.stream_id {
            return Err(ParseFrameError::StreamDependencyOnItself(header.stream_id));
        }
        Ok(PriorityFrame { flags: Flags(header.flags), stream_id: header.stream_id, stream_dep })
    }

    /// Appends the frame's bytes to `b`.
    pub fn serialize_into(self, b: &mut WriteBuffer)
        requires
            old(b).wf(),
        ensures
            final(b).wf(),
            final(b)@ == old(b)@ + self.spec_serialize(),
    {
        b.write_header(
            FrameHeader {
                payload_len: PRIORITY_FRAME_LEN,
                frame_type: PRIORITY_FRAME_TYPE,
                flags: self.flags.0,
                stream_id: self.stream_id,
            },
        );
        let dep = self.stream_dep.serialize();
        b.extend_from_slice(dep.as_slice());
        assert(b@ =~= old(b)@ + self.spec_serialize());
    }

    /// The frame's bytes.
    pub fn serialize_into_vec(self) -> (v: Vec<u8>)
        ensures
            v@ == self.spec_serialize(),
    {
        let mut builder = WriteBuffer::new();
        self.serialize_into(&mut builder);
        assert(builder@ =~= self.spec_serialize());
        builder.into_vec()
    }
}

/// A PRIORITY frame that was read from exactly its own bytes, with the
/// header's reserved bit clear, is written back as those bytes.
pub proof fn lemma_priority_serialize_parsed(raw: Seq<u8>)
    requires
        raw.len() >= 9,
        raw[5] < 0x80,
        spec_parse_priority(raw) is Ok,
    ensures
        spec_parse_priority(raw)->Ok_0.spec_serialize() == raw,
{
    let frame = spec_parse_priority(raw)->Ok_0;
    let head = raw.take(9);
    assert(spec_unpack_header(head) == spec_unpack_header(raw));
    lemma_pack_unpack_header(head);
    let payload = raw.skip(9);
    lemma_dependency_serialize_parsed(payload);
    assert(frame.spec_serialize() =~= raw);
}

} // verus!
