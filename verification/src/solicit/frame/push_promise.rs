//! The PUSH_PROMISE frame: announces a stream that the server is going to
//! open, with the header block of the request that it answers.

use crate::bytes_model::{bytes_as_slice, bytes_seq, bytes_slice};
use crate::codec::write_buffer::WriteBuffer;
use crate::solicit::frame::data::spec_padding_is_zero;
use crate::solicit::frame::flags::{bits_set, Flag, Flags};
use crate::solicit::frame::{
    lemma_pack_unpack_header, lemma_split_be, parse_padded_payload, spec_pack_header,
    spec_parse_padded_payload, spec_u32_from_be, spec_u32_to_be, spec_unpack_header, spec_zeros,
    FrameHeader, ParseFrameError, RawFrame, MAX_PAYLOAD_LEN,
};
use crate::solicit::stream_id::StreamId;
use bytes::Bytes;
use vstd::prelude::*;

verus! {

/// The type byte of the PUSH_PROMISE frame.
pub const PUSH_PROMISE_FRAME_TYPE: u8 = 0x5;

/// The flags that a PUSH_PROMISE frame can have.
#[derive(Clone, Copy, Debug, PartialEq, Eq, Structural)]
pub enum PushPromiseFlag {
    /// The header block ends with this frame.
    EndHeaders,
    /// Padding follows the payload, and its length precedes it.
    Padded,
}

impl Flag for PushPromiseFlag {
    open spec fn mask(&self) -> u8 {
        match self {
            PushPromiseFlag::EndHeaders => 0x4,
            PushPromiseFlag::Padded => 0x8,
        }
    }

    fn bitmask(&self) -> (r: u8) {
        match self {
            PushPromiseFlag::EndHeaders => 0x4,
            PushPromiseFlag::Padded => 0x8,
        }
    }

    open spec fn all() -> Seq<PushPromiseFlag> {
        seq![PushPromiseFlag::EndHeaders, PushPromiseFlag::Padded]
    }

    fn flags() -> (r: Vec<PushPromiseFlag>) {
        let mut r: Vec<PushPromiseFlag> = Vec::new();
        r.push(PushPromiseFlag::EndHeaders);
        r.push(PushPromiseFlag::Padded);
        assert(r@ =~= PushPromiseFlag::all());
        r
    }
}

/// A PUSH_PROMISE frame.
#[derive(Clone, Debug, PartialEq)]
pub struct PushPromiseFrame {
    /// The flags byte.
    pub flags: Flags,
    /// The stream of the request that the promise belongs to.
    pub stream_id: StreamId,
    /// The stream that the server is going to open.
    pub promised_stream_id: StreamId,
    /// The piece of the header block that the frame carries.
    pub header_fragment: Bytes,
    /// How many bytes of padding follow the payload, if the frame is padded.
    pub padding_len: u8,
}

/// What a PUSH_PROMISE frame holds.
pub ghost struct PushPromiseFrameView {
    pub flags: u8,
    pub stream_id: StreamId,
    pub promised_stream_id: StreamId,
    pub header_fragment: Seq<u8>,
    pub padding_len: u8,
}

impl PushPromiseFrameView {
    /// Whether the frame carries padding.
    pub open spec fn is_padded(self) -> bool {
        bits_set(self.flags, 0x8)
    }

    /// The length of the payload.
    pub open spec fn payload_len(self) -> int {
        4 + self.header_fragment.len() + (if self.is_padded() {
            1 + self.padding_len
        } else {
            0int
        })
    }

    /// Whether the payload's length fits the header's 24 bits.
    pub open spec fn fits_wire(self) -> bool {
        self.payload_len() <= MAX_PAYLOAD_LEN
    }

    /// The bytes of the frame on the wire.
    pub open spec fn serialize(self) -> Seq<u8> {
        spec_pack_header(
            FrameHeader {
                payload_len: self.payload_len() as u32,
                frame_type: PUSH_PROMISE_FRAME_TYPE,
                flags: self.flags,
                stream_id: self.stream_id,
            },
        ) + (if self.is_padded() {
            seq![self.padding_len]
        } else {
            Seq::<u8>::empty()
        }) + spec_u32_to_be(self.promised_stream_id) + self.header_fragment + (if self.is_padded() {
            spec_zeros(self.padding_len as nat)
        } else {
            Seq::<u8>::empty()
        })
    }
}

impl View for PushPromiseFrame {
    type V = PushPromiseFrameView;

    open spec fn view(&self) -> PushPromiseFrameView {
        PushPromiseFrameView {
            flags: self.flags.0,
            stream_id: self.stream_id,
            promised_stream_id: self.promised_stream_id,
            header_fragment: bytes_seq(self.header_fragment),
            padding_len: self.padding_len,
        }
    }
}

/// The frame that the bytes of a raw frame spell, or why they spell none.
pub open spec fn spec_parse_push_promise(raw: Seq<u8>) -> Result<
    PushPromiseFrameView,
    ParseFrameError,
> {
    let header = spec_unpack_header(raw);
    if raw.len() < 9 {
        Err(ParseFrameError::InternalError)
    } else if header.frame_type != PUSH_PROMISE_FRAME_TYPE {
        Err(ParseFrameError::InternalError)
    } else if header.payload_len != raw.len() - 9 {
        Err(ParseFrameError::InternalError)
    } else if header.stream_id == 0 {
        Err(ParseFrameError::StreamIdMustBeNonZero)
    } else {
        match spec_parse_padded_payload(raw.skip(9), bits_set(header.flags, 0x8)) {
            Err(e) => Err(e),
            Ok((actual, padding_len)) => if actual.len() < 4 {
                Err(ParseFrameError::IncorrectFrameLength(header.payload_len))
            } else {
                Ok(
                    PushPromiseFrameView {
                        flags: header.flags,
                        stream_id: header.stream_id,
                        promised_stream_id: spec_u32_from_be(
                            (actual[0] % 0x80) as u8,
                            actual[1],
                            actual[2],
                            actual[3],
                        ) as u32,
                        header_fragment: actual.skip(4),
                        padding_len,
                    },
                )
            },
        }
    }
}

impl PushPromiseFrame {
    /// A frame with the given fragment that promises a stream: no padding,
    /// no flag set.
    pub fn new(stream_id: StreamId, promised_stream_id: StreamId, fragment: Bytes) -> (r:
        PushPromiseFrame)
        ensures
            r@ == (PushPromiseFrameView {
                flags: 0,
                stream_id,
                promised_stream_id,
                header_fragment: bytes_seq(fragment),
                padding_len: 0,
            }),
    {
        PushPromiseFrame {
            flags: Flags(0),
            stream_id,
            promised_stream_id,
            header_fragment: fragment,
            padding_len: 0,
        }
    }

    /// Whether the header block ends with this frame.
    pub fn is_headers_end(&self) -> (r: bool)
        ensures
            r == bits_set(self.flags.0, 0x4),
    {
        self.flags.is_set(PushPromiseFlag::EndHeaders)
    }

    /// Sets the given flag.
    pub fn set_flag(&mut self, flag: PushPromiseFlag)
        ensures
            final(self)@ == (PushPromiseFrameView {
                flags: old(self)@.flags | flag.mask(),
                ..old(self)@
            }),
    {
        self.flags.set(flag);
    }

    /// The piece of the header block that the frame carries.
    pub fn header_fragment(&self) -> (r: &[u8])
        ensures
            r@ == self@.header_fragment,
    {
        bytes_as_slice(&self.header_fragment)
    }

    /// Reads a raw frame as a PUSH_PROMISE frame. The type must be right,
    /// the payload as long as the header says and the stream not 0; padding,
    /// if announced, must fit into the payload, and the promised stream must
    /// be there in full.
    pub fn from_raw(raw_frame: &RawFrame) -> (r: Result<PushPromiseFrame, ParseFrameError>)
        ensures
            match r {
                Ok(frame) => spec_parse_push_promise(raw_frame@) == Ok::<
                    PushPromiseFrameView,
                    ParseFrameError,
                >(frame@),
                Err(e) => spec_parse_push_promise(raw_frame@) == Err::<
                    PushPromiseFrameView,
                    ParseFrameError,
                >(e),
            },
    {
        if raw_frame.len() < 9 {
            return Err(ParseFrameError::InternalError);
        }
        let header = raw_frame.header();
        if header.frame_type != PUSH_PROMISE_FRAME_TYPE {
            return Err(ParseFrameError::InternalError);
        }
        let payload = raw_frame.payload();
        if (header.payload_len as usize) != payload.len() {
            return Err(ParseFrameError::InternalError);
        }
        if header.stream_id == 0 {
            return Err(ParseFrameError::StreamIdMustBeNonZero);
        }
        let flags = Flags::new(header.flags);
        let padded: bool = flags.is_set(PushPromiseFlag::Padded);
        let (actual, padding_len) = match parse_padded_payload(payload, padded) {
            Err(e) => {
                return Err(e);
            },
            Ok(p) => p,
        };
        if actual.len() < 4 {
            return Err(ParseFrameError::IncorrectFrameLength(header.payload_len));
        }
        let bytes = bytes_as_slice(&actual);
        let b0: u32 = (bytes[0] % 0x80) as u32;
        let promised_stream_id: u32 = b0 * 0x100_0000 + (bytes[1] as u32) * 0x1_0000 + (
        bytes[2] as u32) * 0x100 + (bytes[3] as u32);
        let header_fragment = bytes_slice(&actual, 4, actual.len());
        assert(bytes_seq(header_fragment) =~= bytes_seq(actual).skip(4));
        Ok(
            PushPromiseFrame {
                flags,
                stream_id: header.stream_id,
                promised_stream_id,
                header_fragment,
                padding_len,
            },
        )
    }

    /// Appends the frame's bytes to `b`.
    pub fn serialize_into(self, b: &mut WriteBuffer)
        requires
            old(b).wf(),
            self@.fits_wire(),
        ensures
            final(b).wf(),
            final(b)@ == old(b)@ + self@.serialize(),
    {
        let padded: bool = self.flags.is_set(PushPromiseFlag::Padded);
        let padding: u32 = if padded {
            1 + self.padding_len as u32
        } else {
            0
        };
        b.write_header(
            FrameHeader {
                payload_len: 4 + self.header_fragment.len() as u32 + padding,
                frame_type: PUSH_PROMISE_FRAME_TYPE,
                flags: self.flags.0,
                stream_id: self.stream_id,
            },
        );
        if padded {
            let first: [u8; 1] = [self.padding_len];
            b.extend_from_slice(first.as_slice());
            assert(first@ =~= seq![self.padding_len]);
        }
        b.write_u32(self.promised_stream_id);
        b.extend_from_bytes_ref(&self.header_fragment);
        if padded {
            b.write_padding(self.padding_len);
        }
        assert(b@ =~= old(b)@ + self@.serialize());
    }

    /// The frame's bytes.
    pub fn serialize_into_vec(self) -> (v: Vec<u8>)
        requires
            self@.fits_wire(),
        ensures
            v@ == self@.serialize(),
    {
        let mut builder = WriteBuffer::new();
        let ghost bytes = self@.serialize();
        self.serialize_into(&mut builder);
        assert(builder@ =~= bytes);
        builder.into_vec()
    }
}

/// A PUSH_PROMISE frame that was read from exactly its own bytes, with the
/// reserved bits of the header and of the promised stream clear and zero
/// bytes for padding, is written back as those bytes.
pub proof fn lemma_push_promise_serialize_parsed(raw: Seq<u8>)
    requires
        raw.len() >= 9,
        raw[5] < 0x80,
        spec_parse_push_promise(raw) is Ok,
        spec_padding_is_zero(raw.skip(9), bits_set(spec_unpack_header(raw).flags, 0x8)),
        spec_parse_padded_payload(raw.skip(9), bits_set(spec_unpack_header(raw).flags, 0x8))->Ok_0.0[0]
            < 0x80,
    ensures
        spec_parse_push_promise(raw)->Ok_0.fits_wire(),
        spec_parse_push_promise(raw)->Ok_0.serialize() == raw,
{
    let frame = spec_parse_push_promise(raw)->Ok_0;
    let header = spec_unpack_header(raw);
    let head = raw.take(9);
    let payload = raw.skip(9);
    assert(spec_unpack_header(head) == header);
    lemma_pack_unpack_header(head);
    let actual = spec_parse_padded_payload(payload, bits_set(header.flags, 0x8))->Ok_0.0;
    lemma_split_be(actual[0], actual[1], actual[2], actual[3]);
    assert(spec_u32_to_be(frame.promised_stream_id) + frame.header_fragment =~= actual);
    let body = (if frame.is_padded() {
        seq![frame.padding_len]
    } else {
        Seq::<u8>::empty()
    }) + spec_u32_to_be(frame.promised_stream_id) + frame.header_fragment + (if frame.is_padded() {
        spec_zeros(frame.padding_len as nat)
    } else {
        Seq::<u8>::empty()
    });
    if frame.is_padded() {
        assert(body =~= seq![frame.padding_len] + actual + spec_zeros(frame.padding_len as nat));
        assert(body =~= payload);
    } else {
        assert(body =~= actual);
        assert(actual == payload);
    }
    assert(frame.payload_len() == payload.len());
    assert(frame.serialize() =~= spec_pack_header(header) + body);
    assert(frame.serialize() =~= raw);
}

} // verus!
