//! Frames: the 9-byte header that every frame starts with, the raw frame as
//! it comes off the wire, and the typed frames in the modules below.

pub mod continuation;
pub mod data;
pub mod flags;
pub mod goaway;
pub mod headers;
pub mod http_frame;
pub mod ping;
pub mod priority;
pub mod push_promise;
pub mod rst_stream;
pub mod settings;
pub mod window_update;

use crate::bytes_model::{bytes_as_slice, bytes_from_vec, bytes_seq, bytes_slice};
use crate::codec::write_buffer::WriteBuffer;
use crate::solicit::stream_id::StreamId;
use bytes::Bytes;
use vstd::prelude::*;

verus! {

/// The length of a frame header in bytes.
pub const FRAME_HEADER_LEN: usize = 9;

/// The largest payload length that the header's 24 bits can hold.
pub const MAX_PAYLOAD_LEN: u32 = 0xff_ffff;

/// The fields of a frame header.
#[derive(Clone, Copy, Debug, PartialEq, Eq, Structural)]
pub struct FrameHeader {
    /// Length of the payload: 24 bits on the wire.
    pub payload_len: u32,
    /// Type of the frame.
    pub frame_type: u8,
    /// Flags; their meaning depends on the type.
    pub flags: u8,
    /// The stream that the frame belongs to: 31 bits on the wire.
    pub stream_id: StreamId,
}

impl FrameHeader {
    /// A header with the given fields.
    pub fn new(payload_len: u32, frame_type: u8, flags: u8, stream_id: StreamId) -> (r:
        FrameHeader)
        ensures
            r == (FrameHeader { payload_len, frame_type, flags, stream_id }),
    {
        FrameHeader { payload_len, frame_type, flags, stream_id }
    }

    /// Whether every field fits the bits that the wire gives it.
    pub open spec fn fits_wire(self) -> bool {
        self.payload_len <= MAX_PAYLOAD_LEN && self.stream_id <= 0x7fff_ffff
    }
}

/// The number that four bytes spell in network order.
pub open spec fn spec_u32_from_be(b0: u8, b1: u8, b2: u8, b3: u8) -> int {
    b0 * 0x100_0000 + b1 * 0x1_0000 + b2 * 0x100 + b3
}

/// The four bytes that spell `n` in network order.
pub open spec fn spec_u32_to_be(n: u32) -> Seq<u8> {
    seq![
        (n / 0x100_0000) as u8,
        (n / 0x1_0000 % 0x100) as u8,
        (n / 0x100 % 0x100) as u8,
        (n % 0x100) as u8,
    ]
}

/// `n` zero bytes.
pub open spec fn spec_zeros(n: nat) -> Seq<u8> {
    Seq::new(n, |i: int| 0u8)
}

/// The header's nine bytes on the wire. A payload length over 24 bits loses
/// its high byte; a stream identifier is written with all its 32 bits.
pub open spec fn spec_pack_header(h: FrameHeader) -> Seq<u8> {
    seq![
        (h.payload_len / 0x1_0000 % 0x100) as u8,
        (h.payload_len / 0x100 % 0x100) as u8,
        (h.payload_len % 0x100) as u8,
        h.frame_type,
        h.flags,
        (h.stream_id / 0x100_0000) as u8,
        (h.stream_id / 0x1_0000 % 0x100) as u8,
        (h.stream_id / 0x100 % 0x100) as u8,
        (h.stream_id % 0x100) as u8,
    ]
}

/// The header that the first nine bytes of `b` spell. The reserved bit in
/// front of the stream identifier is dropped.
pub open spec fn spec_unpack_header(b: Seq<u8>) -> FrameHeader {
    FrameHeader {
        payload_len: (b[0] * 0x1_0000 + b[1] * 0x100 + b[2]) as u32,
        frame_type: b[3],
        flags: b[4],
        stream_id: spec_u32_from_be((b[5] % 0x80) as u8, b[6], b[7], b[8]) as u32,
    }
}

/// Reads four bytes in network order.
pub fn unpack_octets_4(buf: &[u8], offset: usize) -> (n: u32)
    requires
        offset + 4 <= buf@.len(),
    ensures
        n == spec_u32_from_be(
            buf@[offset as int],
            buf@[offset + 1],
            buf@[offset + 2],
            buf@[offset + 3],
        ),
{
    let b0: u32 = buf[offset] as u32;
    let b1: u32 = buf[offset + 1] as u32;
    let b2: u32 = buf[offset + 2] as u32;
    let b3: u32 = buf[offset + 3] as u32;
    b0 * 0x100_0000 + b1 * 0x1_0000 + b2 * 0x100 + b3
}

/// Writes a header as its nine bytes.
pub fn pack_header(header: &FrameHeader) -> (buf: [u8; 9])
    ensures
        buf@ == spec_pack_header(*header),
{
    let len: u32 = header.payload_len;
    let id: u32 = header.stream_id;
    let buf: [u8; 9] = [
        (len / 0x1_0000 % 0x100) as u8,
        (len / 0x100 % 0x100) as u8,
        (len % 0x100) as u8,
        header.frame_type,
        header.flags,
        (id / 0x100_0000) as u8,
        (id / 0x1_0000 % 0x100) as u8,
        (id / 0x100 % 0x100) as u8,
        (id % 0x100) as u8,
    ];
    assert(buf@ =~= spec_pack_header(*header));
    buf
}

/// Reads a header from its nine bytes.
pub fn unpack_header(buf: &[u8; 9]) -> (header: FrameHeader)
    ensures
        header == spec_unpack_header(buf@),
        header.fits_wire(),
{
    let payload_len: u32 = (buf[0] as u32) * 0x1_0000 + (buf[1] as u32) * 0x100 + (buf[2] as u32);
    let b5: u32 = (buf[5] % 0x80) as u32;
    let stream_id: u32 = b5 * 0x100_0000 + (buf[6] as u32) * 0x1_0000 + (buf[7] as u32) * 0x100 + (
    buf[8] as u32);
    FrameHeader { payload_len, frame_type: buf[3], flags: buf[4], stream_id }
}

/// A header whose fields fit the wire is read back from its bytes as it was.
pub proof fn lemma_unpack_pack_header(h: FrameHeader)
    requires
        h.fits_wire(),
    ensures
        spec_unpack_header(spec_pack_header(h)) == h,
{
}

/// Nine bytes whose reserved bit is clear are written back from their header
/// as they were.
pub proof fn lemma_pack_unpack_header(b: Seq<u8>)
    requires
        b.len() == 9,
        b[5] < 0x80,
    ensures
        spec_pack_header(spec_unpack_header(b)) == b,
{
    let h = spec_unpack_header(b);
    lemma_split_be(0, b[0], b[1], b[2]);
    lemma_split_be(b[5], b[6], b[7], b[8]);
    assert(spec_pack_header(h) =~= b);
}

/// Four bytes are read back from the number they spell in network order.
pub proof fn lemma_split_be(b0: u8, b1: u8, b2: u8, b3: u8)
    ensures
        0 <= spec_u32_from_be(b0, b1, b2, b3) <= u32::MAX,
        spec_u32_from_be(b0, b1, b2, b3) / 0x100_0000 == b0,
        spec_u32_from_be(b0, b1, b2, b3) / 0x1_0000 % 0x100 == b1,
        spec_u32_from_be(b0, b1, b2, b3) / 0x100 % 0x100 == b2,
        spec_u32_from_be(b0, b1, b2, b3) % 0x100 == b3,
{
    let n = spec_u32_from_be(b0, b1, b2, b3);
    let hi = b0 * 0x100 + b1;
    let mid = hi * 0x100 + b2;
    assert(n == mid * 0x100 + b3);
    assert(n % 0x100 == b3 && n / 0x100 == mid);
    assert(mid % 0x100 == b2 && mid / 0x100 == hi);
    assert(hi % 0x100 == b1 && hi / 0x100 == b0);
    assert(n / 0x1_0000 == hi);
    assert(n / 0x100_0000 == b0);
}

/// The frame types of the protocol.
#[derive(Clone, Copy, Debug, PartialEq, Eq, Structural)]
pub enum HttpFrameType {
    Data,
    Headers,
    Priority,
    RstStream,
    Settings,
    PushPromise,
    Ping,
    Goaway,
    WindowUpdate,
    Continuation,
    /// A type byte that the protocol does not define.
    Unknown(u8),
}

impl HttpFrameType {
    /// The type byte.
    pub open spec fn spec_frame_type(self) -> u8 {
        match self {
            HttpFrameType::Data => 0x0,
            HttpFrameType::Headers => 0x1,
            HttpFrameType::Priority => 0x2,
            HttpFrameType::RstStream => 0x3,
            HttpFrameType::Settings => 0x4,
            HttpFrameType::PushPromise => 0x5,
            HttpFrameType::Ping => 0x6,
            HttpFrameType::Goaway => 0x7,
            HttpFrameType::WindowUpdate => 0x8,
            HttpFrameType::Continuation => 0x9,
            HttpFrameType::Unknown(t) => t,
        }
    }

    /// The type byte.
    pub fn frame_type(&self) -> (t: u8)
        ensures
            t == self.spec_frame_type(),
    {
        match self {
            HttpFrameType::Data => 0x0,
            HttpFrameType::Headers => 0x1,
            HttpFrameType::Priority => 0x2,
            HttpFrameType::RstStream => 0x3,
            HttpFrameType::Settings => 0x4,
            HttpFrameType::PushPromise => 0x5,
            HttpFrameType::Ping => 0x6,
            HttpFrameType::Goaway => 0x7,
            HttpFrameType::WindowUpdate => 0x8,
            HttpFrameType::Continuation => 0x9,
            HttpFrameType::Unknown(t) => *t,
        }
    }

    /// The type that a type byte stands for.
    pub fn from_u8(t: u8) -> (r: HttpFrameType)
        ensures
            r.spec_frame_type() == t,
            r is Unknown <==> t > 0x9,
    {
        if t == 0x0 {
            HttpFrameType::Data
        } else if t == 0x1 {
            HttpFrameType::Headers
        } else if t == 0x2 {
            HttpFrameType::Priority
        } else if t == 0x3 {
            HttpFrameType::RstStream
        } else if t == 0x4 {
            HttpFrameType::Settings
        } else if t == 0x5 {
            HttpFrameType::PushPromise
        } else if t == 0x6 {
            HttpFrameType::Ping
        } else if t == 0x7 {
            HttpFrameType::Goaway
        } else if t == 0x8 {
            HttpFrameType::WindowUpdate
        } else if t == 0x9 {
            HttpFrameType::Continuation
        } else {
            HttpFrameType::Unknown(t)
        }
    }
}

/// Why a raw frame is not a frame of the type asked for.
#[derive(Clone, Copy, Debug, PartialEq, Eq, Structural)]
pub enum ParseFrameError {
    /// The frame does not have the shape of the type: wrong type byte, or a
    /// payload that is not as long as the header says.
    InternalError,
    /// The type belongs to a stream, and the frame names stream 0.
    StreamIdMustBeNonZero,
    /// The type belongs to the connection, and the frame names a stream.
    StreamIdMustBeZero,
    /// The payload length is not one that the type allows.
    IncorrectFrameLength(u32),
    /// The padding does not fit into the payload.
    BadPaddingLength,
    /// The frame makes its stream depend on itself.
    StreamDependencyOnItself(StreamId),
    /// A setting that this implementation does not know.
    UnknownSettings(u16),
    /// A header block was open, and the frame is not its continuation.
    ContinuationExpected,
}

impl ParseFrameError {
    /// The error code that the connection, or the stream, ends with where a
    /// frame from the peer fails in this way: a frame whose length is wrong
    /// is a frame size error; a frame that cannot be read for a reason of
    /// this side is an internal error; anything else breaks the protocol.
    pub open spec fn spec_error_code(self) -> crate::solicit::error_code::ErrorCode {
        match self {
            ParseFrameError::InternalError => crate::solicit::error_code::ErrorCode::InternalError,
            ParseFrameError::IncorrectFrameLength(_) =>
                crate::solicit::error_code::ErrorCode::FrameSizeError,
            _ => crate::solicit::error_code::ErrorCode::ProtocolError,
        }
    }

    /// The error code for this failure, as `spec_error_code` gives it.
    pub fn error_code(&self) -> (r: crate::solicit::error_code::ErrorCode)
        ensures
            r == self.spec_error_code(),
    {
        match self {
            ParseFrameError::InternalError => crate::solicit::error_code::ErrorCode::InternalError,
            ParseFrameError::IncorrectFrameLength(_) =>
                crate::solicit::error_code::ErrorCode::FrameSizeError,
            _ => crate::solicit::error_code::ErrorCode::ProtocolError,
        }
    }
}

/// A frame as it comes off the wire: header and payload in one buffer.
#[derive(Clone, Debug)]
pub struct RawFrame {
    /// The bytes of the frame, header first.
    pub raw_content: Bytes,
}

impl View for RawFrame {
    type V = Seq<u8>;

    open spec fn view(&self) -> Seq<u8> {
        bytes_seq(self.raw_content)
    }
}

/// The frame at the front of `buf`, if `buf` holds all of it.
pub open spec fn spec_raw_frame(buf: Seq<u8>) -> Option<Seq<u8>> {
    if buf.len() < 9 {
        None
    } else if buf.len() < 9 + spec_unpack_header(buf).payload_len {
        None
    } else {
        Some(buf.take(9 + spec_unpack_header(buf).payload_len))
    }
}

impl RawFrame {
    /// Whether the buffer holds at least a header.
    pub open spec fn has_header(&self) -> bool {
        self@.len() >= 9
    }

    /// The header that the first nine bytes spell.
    pub open spec fn spec_header(&self) -> FrameHeader {
        spec_unpack_header(self@)
    }

    /// What follows the header.
    pub open spec fn spec_payload(&self) -> Seq<u8> {
        self@.skip(9)
    }

    /// Whether the buffer holds exactly one frame: a header and as many
    /// payload bytes as the header says.
    pub open spec fn is_exact(&self) -> bool {
        self.has_header() && self@.len() == 9 + self.spec_header().payload_len
    }

    /// Takes the frame at the front of `buf`; `None` while `buf` does not
    /// hold all of it.
    pub fn parse(buf: Bytes) -> (r: Option<RawFrame>)
        ensures
            match r {
                Some(raw) => spec_raw_frame(bytes_seq(buf)) == Some(raw@) && raw.is_exact(),
                None => spec_raw_frame(bytes_seq(buf)) is None,
            },
    {
        if buf.len() < FRAME_HEADER_LEN {
            return None;
        }
        let whole = RawFrame { raw_content: buf };
        let header = whole.header();
        let payload_len: usize = header.payload_len as usize;
        if whole.raw_content.len() - FRAME_HEADER_LEN < payload_len {
            return None;
        }
        let raw = RawFrame {
            raw_content: bytes_slice(&whole.raw_content, 0, FRAME_HEADER_LEN + payload_len),
        };
        assert(raw@ =~= bytes_seq(buf).take(9 + header.payload_len));
        Some(raw)
    }

    /// Wraps bytes that are taken to be one frame. Nothing is checked.
    pub fn from_vec(raw: Vec<u8>) -> (r: RawFrame)
        ensures
            r@ == raw@,
    {
        RawFrame { raw_content: bytes_from_vec(raw) }
    }

    /// The number of bytes, header included.
    pub fn len(&self) -> (n: usize)
        ensures
            n == self@.len(),
    {
        self.raw_content.len()
    }

    /// The frame's header.
    pub fn header(&self) -> (h: FrameHeader)
        requires
            self.has_header(),
        ensures
            h == self.spec_header(),
            h.fits_wire(),
    {
        let s = bytes_as_slice(&self.raw_content);
        let buf: [u8; 9] = [s[0], s[1], s[2], s[3], s[4], s[5], s[6], s[7], s[8]];
        unpack_header(&buf)
    }

    /// The frame's type byte.
    pub fn frame_type(&self) -> (t: u8)
        requires
            self.has_header(),
        ensures
            t == self.spec_header().frame_type,
    {
        let s = bytes_as_slice(&self.raw_content);
        s[3]
    }

    /// The frame's payload: everything behind the header.
    pub fn payload(&self) -> (p: Bytes)
        requires
            self.has_header(),
        ensures
            bytes_seq(p) == self.spec_payload(),
    {
        let p = bytes_slice(&self.raw_content, FRAME_HEADER_LEN, self.raw_content.len());
        assert(bytes_seq(p) =~= self.spec_payload());
        p
    }

    /// The frame's bytes, header first.
    pub fn serialize(&self) -> (v: Vec<u8>)
        ensures
            v@ == self@,
    {
        vstd::slice::slice_to_vec(bytes_as_slice(&self.raw_content))
    }
}

impl From<Vec<u8>> for RawFrame {
    fn from(raw: Vec<u8>) -> (r: RawFrame) {
        RawFrame::from_vec(raw)
    }
}

impl vstd::std_specs::convert::FromSpecImpl<Vec<u8>> for RawFrame {
    open spec fn obeys_from_spec() -> bool {
        false
    }

    open spec fn from_spec(raw: Vec<u8>) -> RawFrame {
        arbitrary()
    }
}

/// What a payload holds once its padding is taken off: the rest and the
/// padding's length. A payload that is not padded is returned whole.
pub open spec fn spec_parse_padded_payload(payload: Seq<u8>, padded: bool) -> Result<
    (Seq<u8>, u8),
    ParseFrameError,
> {
    if !padded {
        Ok((payload, 0u8))
    } else if payload.len() == 0 {
        Err(ParseFrameError::BadPaddingLength)
    } else if payload[0] >= payload.len() {
        Err(ParseFrameError::BadPaddingLength)
    } else {
        Ok((payload.subrange(1, payload.len() - payload[0]), payload[0]))
    }
}

/// The payload of a padded frame: the padding's length, the content, and as
/// many zero bytes as the length says.
pub open spec fn spec_padded_payload(content: Seq<u8>, padding_len: u8) -> Seq<u8> {
    seq![padding_len] + content + spec_zeros(padding_len as nat)
}

/// Takes the padding off a payload. With `padded` set, the first byte is the
/// padding's length, which must be less than the payload's.
pub fn parse_padded_payload(payload: Bytes, padded: bool) -> (r: Result<(Bytes, u8), ParseFrameError>)
    ensures
        match r {
            Ok((content, padding_len)) => spec_parse_padded_payload(bytes_seq(payload), padded)
                == Ok::<(Seq<u8>, u8), ParseFrameError>((bytes_seq(content), padding_len)),
            Err(e) => spec_parse_padded_payload(bytes_seq(payload), padded) == Err::<
                (Seq<u8>, u8),
                ParseFrameError,
            >(e),
        },
{
    if !padded {
        return Ok((payload, 0));
    }
    if payload.len() == 0 {
        return Err(ParseFrameError::BadPaddingLength);
    }
    let padding_len: u8 = bytes_as_slice(&payload)[0];
    if padding_len as usize >= payload.len() {
        return Err(ParseFrameError::BadPaddingLength);
    }
    let content = bytes_slice(&payload, 1, payload.len() - padding_len as usize);
    Ok((content, padding_len))
}

/// A padded payload without its padding is the content it was built from.
pub proof fn lemma_parse_padded_payload(content: Seq<u8>, padding_len: u8)
    ensures
        spec_parse_padded_payload(spec_padded_payload(content, padding_len), true) == Ok::<
            (Seq<u8>, u8),
            ParseFrameError,
        >((content, padding_len)),
{
    let p = spec_padded_payload(content, padding_len);
    assert(p.len() == 1 + content.len() + padding_len);
    assert(p[0] == padding_len);
    assert(p.subrange(1, p.len() - p[0]) =~= content);
}

impl WriteBuffer {
    /// Appends a frame header.
    pub fn write_header(&mut self, header: FrameHeader)
        requires
            old(self).wf(),
        ensures
            final(self).wf(),
            final(self)@ == old(self)@ + spec_pack_header(header),
    {
        let buf = pack_header(&header);
        self.extend_from_slice(buf.as_slice());
    }

    /// Appends `padding_length` zero bytes.
    pub fn write_padding(&mut self, padding_length: u8)
        requires
            old(self).wf(),
        ensures
            final(self).wf(),
            final(self)@ == old(self)@ + spec_zeros(padding_length as nat),
    {
        let mut i: u8 = 0;
        while i < padding_length
            invariant
                i <= padding_length,
                self.wf(),
                self@ == old(self)@ + spec_zeros(i as nat),
            decreases padding_length - i,
        {
            let zero: [u8; 1] = [0];
            self.extend_from_slice(zero.as_slice());
            i = i + 1;
            assert(self@ =~= old(self)@ + spec_zeros(i as nat));
        }
    }

    /// Appends a number as four bytes in network order.
    pub fn write_u32(&mut self, num: u32)
        requires
            old(self).wf(),
        ensures
            final(self).wf(),
            final(self)@ == old(self)@ + spec_u32_to_be(num),
    {
        let buf: [u8; 4] = [
            (num / 0x100_0000) as u8,
            (num / 0x1_0000 % 0x100) as u8,
            (num / 0x100 % 0x100) as u8,
            (num % 0x100) as u8,
        ];
        assert(buf@ =~= spec_u32_to_be(num));
        self.extend_from_slice(buf.as_slice());
    }
}

} // verus!
