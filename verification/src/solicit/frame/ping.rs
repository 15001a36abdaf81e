//! The PING frame: eight opaque bytes that the peer sends back.

use crate::bytes_model::bytes_as_slice;
use crate::codec::write_buffer::WriteBuffer;
use crate::solicit::frame::flags::{bits_set, Flag, Flags};
use crate::solicit::frame::{
    spec_pack_header, spec_unpack_header, FrameHeader, ParseFrameError, RawFrame,
};
use vstd::prelude::*;

verus! {

/// The type byte of the PING frame.
pub const PING_FRAME_TYPE: u8 = 0x6;

/// The length that the payload of a PING frame must have.
pub const PING_FRAME_LEN: u32 = 8;

/// The flags that a PING frame can have.
#[derive(Clone, Copy, Debug, PartialEq, Eq, Structural)]
pub enum PingFlag {
    /// The frame answers a PING.
    Ack,
}

impl Flag for PingFlag {
    open spec fn mask(&self) -> u8 {
        0x1
    }

    fn bitmask(&self) -> (r: u8) {
        0x1
    }

    open spec fn all() -> Seq<PingFlag> {
        seq![PingFlag::Ack]
    }

    fn flags() -> (r: Vec<PingFlag>) {
        let mut r: Vec<PingFlag> = Vec::new();
        r.push(PingFlag::Ack);
        assert(r@ =~= PingFlag::all());
        r
    }
}

/// A PING frame.
#[derive(Clone, Copy, Debug, PartialEq, Eq)]
pub struct PingFrame {
    /// The eight opaque bytes.
    pub opaque_data: [u8; 8],
    /// The flags byte.
    pub flags: Flags,
}

/// The frame that the bytes of a raw frame spell, as its opaque bytes and
/// its flags byte, or why they spell none.
pub open spec fn spec_parse_ping(raw: Seq<u8>) -> Result<(Seq<u8>, u8), ParseFrameError> {
    let header = spec_unpack_header(raw);
    if raw.len() < 9 {
        Err(ParseFrameError::InternalError)
    } else if header.frame_type != PING_FRAME_TYPE {
        Err(ParseFrameError::InternalError)
    } else if header.payload_len != raw.len() - 9 {
        Err(ParseFrameError::InternalError)
    } else if header.stream_id != 0 {
        Err(ParseFrameError::StreamIdMustBeZero)
    } else if header.payload_len != PING_FRAME_LEN {
        Err(ParseFrameError::IncorrectFrameLength(header.payload_len))
    } else {
        Ok((raw.skip(9), header.flags))
    }
}

impl PingFrame {
    /// The bytes of the frame on the wire.
    pub open spec fn spec_serialize(self) -> Seq<u8> {
        spec_pack_header(
            FrameHeader {
                payload_len: PING_FRAME_LEN,
                frame_type: PING_FRAME_TYPE,
                flags: self.flags.0,
                stream_id: 0,
            },
        ) + self.opaque_data@
    }

    /// A PING with the given bytes.
    pub fn with_data(opaque_data: [u8; 8]) -> (r: PingFrame)
        ensures
            r.opaque_data == opaque_data,
            r.flags.0 == 0,
    {
        PingFrame { opaque_data, flags: Flags(0) }
    }

    /// The answer to a PING with the given bytes.
    pub fn new_ack(opaque_data: [u8; 8]) -> (r: PingFrame)
        ensures
            r.opaque_data == opaque_data,
            r.flags.0 == 0x1,
    {
        PingFrame { opaque_data, flags: Flags(0x1) }
    }

    /// Whether the frame answers a PING.
    pub fn is_ack(&self) -> (r: bool)
        ensures
            r == bits_set(self.flags.0, 0x1),
    {
        self.flags.is_set(PingFlag::Ack)
    }

    /// Reads a raw frame as a PING frame. The type must be right, the
    /// payload eight bytes, as the header says, and the stream 0.
    pub fn from_raw(raw_frame: &RawFrame) -> (r: Result<PingFrame, ParseFrameError>)
        ensures
            match r {
                Ok(frame) => spec_parse_ping(raw_frame@) == Ok::<(Seq<u8>, u8), ParseFrameError>(
                    (frame.opaque_data@, frame.flags.0),
                ),
                Err(e) => spec_parse_ping(raw_frame@) == Err::<(Seq<u8>, u8), ParseFrameError>(e),
            },
    {
        if raw_frame.len() < 9 {
            return Err(ParseFrameError::InternalError);
        }
        let header = raw_frame.header();
        if header.frame_type != PING_FRAME_TYPE {
            return Err(ParseFrameError::InternalError);
        }
        if (header.payload_len as usize) != raw_frame.len() - 9 {
            return Err(ParseFrameError::InternalError);
        }
        if header.stream_id != 0 {
            return Err(ParseFrameError::StreamIdMustBeZero);
        }
        if header.payload_len != PING_FRAME_LEN {
            return Err(ParseFrameError::IncorrectFrameLength(header.payload_len));
        }
        let s = bytes_as_slice(&raw_frame.raw_content);
        let opaque_data: [u8; 8] = [s[9], s[10], s[11], s[12], s[13], s[14], s[15], s[16]];
        assert(opaque_data@ =~= raw_frame@.skip(9));
        Ok(PingFrame { opaque_data, flags: Flags(header.flags) })
    }

    /// Appends the frame's bytes to `b`.
    pub fn serialize_into(self, b: &mut WriteBuffer)
        requires
            old(b).wf(),
        ensures
            final(b).wf(),
            final(b)@ == old(b)@ + self.spec_serialize(),
    {
        b.write_header(
            FrameHeader {
                payload_len: PING_FRAME_LEN,
                frame_type: PING_FRAME_TYPE,
                flags: self.flags.0,
                stream_id: 0,
            },
        );
        b.extend_from_slice(self.opaque_data.as_slice());
        assert(b@ =~= old(b)@ + self.spec_serialize());
    }

    /// The frame's bytes.
    pub fn serialize_into_vec(self) -> (v: Vec<u8>)
        ensures
            v@ == self.spec_serialize(),
    {
        let mut builder = WriteBuffer::new();
        self.serialize_into(&mut builder);
        assert(builder@ =~= self.spec_serialize());
        builder.into_vec()
    }
}

} // verus!
