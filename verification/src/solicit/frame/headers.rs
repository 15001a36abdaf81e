//! The HEADERS frame, which opens a header block, and the stream dependency
//! that it may carry.

use crate::bytes_model::{bytes_as_slice, bytes_from_vec, bytes_seq, bytes_slice};
use crate::codec::write_buffer::WriteBuffer;
use crate::solicit::frame::flags::{bits_set, Flag, Flags};
use crate::hpack::encoder::{spec_encode_block, spec_encoder_after_block, EncodeBuf, Encoder};
use crate::solicit::frame::continuation::CONTINUATION_FRAME_TYPE;
use crate::solicit::frame::{
    lemma_pack_unpack_header, lemma_split_be, pack_header, parse_padded_payload, spec_pack_header,
    spec_parse_padded_payload, spec_u32_from_be, spec_unpack_header, spec_zeros, FrameHeader,
    HttpFrameType, ParseFrameError, RawFrame, MAX_PAYLOAD_LEN,
};
use crate::solicit::header::Headers;
use crate::solicit::stream_id::StreamId;
use bytes::Bytes;
use vstd::prelude::*;

verus! {

/// The type byte of the HEADERS frame.
pub const HEADERS_FRAME_TYPE: u8 = 0x1;

/// The flags that a HEADERS frame can have.
#[derive(Clone, Copy, Debug, PartialEq, Eq, Structural)]
pub enum HeadersFlag {
    /// The header block is the last thing that its sender puts on the stream.
    EndStream,
    /// The header block ends with this frame.
    EndHeaders,
    /// Padding follows the payload, and its length precedes it.
    Padded,
    /// A stream dependency precedes the header block.
    Priority,
}

impl Flag for HeadersFlag {
    open spec fn mask(&self) -> u8 {
        match self {
            HeadersFlag::EndStream => 0x1,
            HeadersFlag::EndHeaders => 0x4,
            HeadersFlag::Padded => 0x8,
            HeadersFlag::Priority => 0x20,
        }
    }

    fn bitmask(&self) -> (r: u8) {
        match self {
            HeadersFlag::EndStream => 0x1,
            HeadersFlag::EndHeaders => 0x4,
            HeadersFlag::Padded => 0x8,
            HeadersFlag::Priority => 0x20,
        }
    }

    open spec fn all() -> Seq<HeadersFlag> {
        seq![
            HeadersFlag::EndStream,
            HeadersFlag::EndHeaders,
            HeadersFlag::Padded,
            HeadersFlag::Priority,
        ]
    }

    fn flags() -> (r: Vec<HeadersFlag>) {
        let mut r: Vec<HeadersFlag> = Vec::new();
        r.push(HeadersFlag::EndStream);
        r.push(HeadersFlag::EndHeaders);
        r.push(HeadersFlag::Padded);
        r.push(HeadersFlag::Priority);
        assert(r@ =~= HeadersFlag::all());
        r
    }
}

/// What a stream depends on, as a HEADERS frame with the `Priority` flag or a
/// PRIORITY frame carries it.
#[derive(Clone, Copy, Debug, PartialEq, Eq, Structural)]
pub struct StreamDependency {
    /// The stream that this one depends on.
    pub stream_id: StreamId,
    /// The weight, one less than the protocol's 1 to 256, so that it fits a
    /// byte.
    pub weight: u8,
    /// Whether the dependency is exclusive.
    pub is_exclusive: bool,
}

/// The dependency that the first five bytes of `b` spell.
pub open spec fn spec_parse_dependency(b: Seq<u8>) -> StreamDependency {
    StreamDependency {
        stream_id: spec_u32_from_be((b[0] % 0x80) as u8, b[1], b[2], b[3]) as u32,
        weight: b[4],
        is_exclusive: b[0] >= 0x80,
    }
}

/// The five bytes of a dependency on the wire. The first bit is set for an
/// exclusive dependency, and also where the identifier has its 32nd bit set.
pub open spec fn spec_serialize_dependency(dep: StreamDependency) -> Seq<u8> {
    let high: int = dep.stream_id as int / 0x100_0000;
    seq![
        (if dep.is_exclusive && high < 0x80 {
            high + 0x80
        } else {
            high
        }) as u8,
        (dep.stream_id / 0x1_0000 % 0x100) as u8,
        (dep.stream_id / 0x100 % 0x100) as u8,
        (dep.stream_id % 0x100) as u8,
        dep.weight,
    ]
}

impl StreamDependency {
    /// A dependency with the given fields.
    pub fn new(stream_id: StreamId, weight: u8, is_exclusive: bool) -> (r: StreamDependency)
        ensures
            r == (StreamDependency { stream_id, weight, is_exclusive }),
    {
        StreamDependency { stream_id, weight, is_exclusive }
    }

    /// Reads the first five bytes of `buf` as a dependency. Any five bytes
    /// spell one.
    pub fn parse(buf: &[u8]) -> (r: StreamDependency)
        requires
            buf@.len() >= 5,
        ensures
            r == spec_parse_dependency(buf@),
            r.stream_id <= 0x7fff_ffff,
    {
        let is_exclusive: bool = buf[0] >= 0x80;
        let b0: u32 = (buf[0] % 0x80) as u32;
        let stream_id: u32 = b0 * 0x100_0000 + (buf[1] as u32) * 0x1_0000 + (buf[2] as u32) * 0x100
            + (buf[3] as u32);
        StreamDependency { stream_id, weight: buf[4], is_exclusive }
    }

    /// The five bytes of the dependency on the wire.
    pub fn serialize(&self) -> (r: [u8; 5])
        ensures
            r@ == spec_serialize_dependency(*self),
    {
        let high: u8 = (self.stream_id / 0x100_0000) as u8;
        let first: u8 = if self.is_exclusive && high < 0x80 {
            high + 0x80
        } else {
            high
        };
        let r: [u8; 5] = [
            first,
            (self.stream_id / 0x1_0000 % 0x100) as u8,
            (self.stream_id / 0x100 % 0x100) as u8,
            (self.stream_id % 0x100) as u8,
            self.weight,
        ];
        assert(r@ =~= spec_serialize_dependency(*self));
        r
    }
}

/// A dependency on a stream whose identifier fits the wire is read back from
/// its bytes as it was.
pub proof fn lemma_dependency_parse_serialized(dep: StreamDependency)
    requires
        dep.stream_id <= 0x7fff_ffff,
    ensures
        spec_parse_dependency(spec_serialize_dependency(dep)) == dep,
{
}

/// Five bytes are written back from the dependency they spell as they were.
pub proof fn lemma_dependency_serialize_parsed(b: Seq<u8>)
    requires
        b.len() == 5,
    ensures
        spec_serialize_dependency(spec_parse_dependency(b)) == b,
{
    lemma_split_be((b[0] % 0x80) as u8, b[1], b[2], b[3]);
    assert(spec_serialize_dependency(spec_parse_dependency(b)) =~= b);
}

/// A HEADERS frame.
#[derive(Clone, Debug, PartialEq)]
pub struct HeadersFrame {
    /// The flags byte.
    pub flags: Flags,
    /// The stream that the header block belongs to.
    pub stream_id: StreamId,
    /// The piece of the header block that the frame carries.
    pub header_fragment: Bytes,
    /// The stream dependency, if the frame carries one.
    pub stream_dep: Option<StreamDependency>,
    /// How many bytes of padding follow the payload, if the frame is padded.
    pub padding_len: u8,
}

/// What a HEADERS frame holds.
pub ghost struct HeadersFrameView {
    /// The flags byte. Bits that the type does not define are kept.
    pub flags: u8,
    /// The stream that the header block belongs to.
    pub stream_id: StreamId,
    /// The piece of the header block that the frame carries.
    pub header_fragment: Seq<u8>,
    /// The stream dependency, if the frame carries one.
    pub stream_dep: Option<StreamDependency>,
    /// How many bytes of padding follow the payload, if the frame is padded.
    pub padding_len: u8,
}

impl HeadersFrameView {
    /// Whether the frame carries padding.
    pub open spec fn is_padded(self) -> bool {
        bits_set(self.flags, 0x8)
    }

    /// Whether the frame announces a stream dependency.
    pub open spec fn has_priority(self) -> bool {
        bits_set(self.flags, 0x20)
    }

    /// Whether the header block ends with this frame.
    pub open spec fn is_headers_end(self) -> bool {
        bits_set(self.flags, 0x4)
    }

    /// Whether the header block is the last thing on the stream.
    pub open spec fn is_end_of_stream(self) -> bool {
        bits_set(self.flags, 0x1)
    }

    /// The length of the payload: the fragment, the dependency if announced,
    /// the padding and its length byte if padded.
    pub open spec fn payload_len(self) -> int {
        self.header_fragment.len() + (if self.has_priority() {
            5int
        } else {
            0int
        }) + (if self.is_padded() {
            1 + self.padding_len
        } else {
            0int
        })
    }

    /// Whether the frame can be written: its payload fits the header's 24
    /// bits, and a dependency is there if the flags announce one.
    pub open spec fn can_serialize(self) -> bool {
        self.payload_len() <= MAX_PAYLOAD_LEN && (self.has_priority() ==> self.stream_dep is Some)
    }

    /// The header of the frame on the wire.
    pub open spec fn header(self) -> FrameHeader {
        FrameHeader {
            payload_len: self.payload_len() as u32,
            frame_type: HEADERS_FRAME_TYPE,
            flags: self.flags,
            stream_id: self.stream_id,
        }
    }

    /// The payload of the frame on the wire.
    pub open spec fn payload(self) -> Seq<u8> {
        (if self.is_padded() {
            seq![self.padding_len]
        } else {
            Seq::<u8>::empty()
        }) + (if self.has_priority() {
            spec_serialize_dependency(self.stream_dep->Some_0)
        } else {
            Seq::<u8>::empty()
        }) + self.header_fragment + (if self.is_padded() {
            spec_zeros(self.padding_len as nat)
        } else {
            Seq::<u8>::empty()
        })
    }

    /// The bytes of the frame on the wire.
    pub open spec fn serialize(self) -> Seq<u8> {
        spec_pack_header(self.header()) + self.payload()
    }
}

impl View for HeadersFrame {
    type V = HeadersFrameView;

    open spec fn view(&self) -> HeadersFrameView {
        HeadersFrameView {
            flags: self.flags.0,
            stream_id: self.stream_id,
            header_fragment: bytes_seq(self.header_fragment),
            stream_dep: self.stream_dep,
            padding_len: self.padding_len,
        }
    }
}

/// The frame that the bytes of a raw frame spell, or why they spell none.
pub open spec fn spec_parse_headers(raw: Seq<u8>) -> Result<HeadersFrameView, ParseFrameError> {
    let header = spec_unpack_header(raw);
    if raw.len() < 9 {
        Err(ParseFrameError::InternalError)
    } else if header.frame_type != HEADERS_FRAME_TYPE {
        Err(ParseFrameError::InternalError)
    } else if header.payload_len != raw.len() - 9 {
        Err(ParseFrameError::InternalError)
    } else if header.stream_id == 0 {
        Err(ParseFrameError::StreamIdMustBeNonZero)
    } else {
        match spec_parse_padded_payload(raw.skip(9), bits_set(header.flags, 0x8)) {
            Err(e) => Err(e),
            Ok((actual, padding_len)) => if !bits_set(header.flags, 0x20) {
                Ok(
                    HeadersFrameView {
                        flags: header.flags,
                        stream_id: header.stream_id,
                        header_fragment: actual,
                        stream_dep: None,
                        padding_len,
                    },
                )
            } else if actual.len() < 5 {
                Err(ParseFrameError::IncorrectFrameLength(header.payload_len))
            } else if spec_parse_dependency(actual).stream_id == header.stream_id {
                Err(ParseFrameError::StreamDependencyOnItself(header.stream_id))
            } else {
                Ok(
                    HeadersFrameView {
                        flags: header.flags,
                        stream_id: header.stream_id,
                        header_fragment: actual.skip(5),
                        stream_dep: Some(spec_parse_dependency(actual)),
                        padding_len,
                    },
                )
            },
        }
    }
}

impl HeadersFrame {
    /// A frame with the given fragment for the given stream: no padding, no
    /// dependency, no flag set.
    pub fn new(fragment: Bytes, stream_id: StreamId) -> (r: HeadersFrame)
        ensures
            r@ == (HeadersFrameView {
                flags: 0,
                stream_id,
                header_fragment: bytes_seq(fragment),
                stream_dep: None,
                padding_len: 0,
            }),
    {
        HeadersFrame {
            header_fragment: fragment,
            stream_id,
            stream_dep: None,
            padding_len: 0,
            flags: Flags::default(),
        }
    }

    /// As `new`, from a vector.
    pub fn new_conv(fragment: Vec<u8>, stream_id: StreamId) -> (r: HeadersFrame)
        ensures
            r@ == (HeadersFrameView {
                flags: 0,
                stream_id,
                header_fragment: fragment@,
                stream_dep: None,
                padding_len: 0,
            }),
    {
        HeadersFrame::new(bytes_from_vec(fragment), stream_id)
    }

    /// A frame with the given fragment and dependency for the given stream:
    /// no padding, and only the `Priority` flag set.
    pub fn with_dependency(fragment: Vec<u8>, stream_id: StreamId, stream_dep: StreamDependency) -> (r:
        HeadersFrame)
        ensures
            r@ == (HeadersFrameView {
                flags: 0x20,
                stream_id,
                header_fragment: fragment@,
                stream_dep: Some(stream_dep),
                padding_len: 0,
            }),
    {
        HeadersFrame {
            header_fragment: bytes_from_vec(fragment),
            stream_id,
            stream_dep: Some(stream_dep),
            padding_len: 0,
            flags: Flags::new(HeadersFlag::Priority.bitmask()),
        }
    }

    /// Whether the header block ends with this frame. If not, CONTINUATION
    /// frames with the rest of it must follow.
    pub fn is_headers_end(&self) -> (r: bool)
        ensures
            r == self@.is_headers_end(),
    {
        self.flags.is_set(HeadersFlag::EndHeaders)
    }

    /// Whether the header block is the last thing on the stream.
    pub fn is_end_of_stream(&self) -> (r: bool)
        ensures
            r == self@.is_end_of_stream(),
    {
        self.flags.is_set(HeadersFlag::EndStream)
    }

    /// Pads the frame with `padding_len` bytes and sets the flag that says
    /// so.
    pub fn set_padding(&mut self, padding_len: u8)
        ensures
            final(self)@ == (HeadersFrameView {
                flags: old(self)@.flags | 0x8,
                padding_len,
                ..old(self)@
            }),
    {
        self.set_flag(HeadersFlag::Padded);
        self.padding_len = padding_len;
    }

    fn payload_len(&self) -> (r: u32)
        requires
            self@.payload_len() <= MAX_PAYLOAD_LEN,
        ensures
            r == self@.payload_len(),
    {
        let padding: u32 = if self.flags.is_set(HeadersFlag::Padded) {
            1 + self.padding_len as u32
        } else {
            0
        };
        let priority: u32 = if self.flags.is_set(HeadersFlag::Priority) {
            5
        } else {
            0
        };
        self.header_fragment.len() as u32 + priority + padding
    }

    /// The piece of the header block that the frame carries.
    pub fn header_fragment(&self) -> (r: &[u8])
        ensures
            r@ == self@.header_fragment,
    {
        bytes_as_slice(&self.header_fragment)
    }

    /// Sets the given flag.
    pub fn set_flag(&mut self, flag: HeadersFlag)
        ensures
            final(self)@ == (HeadersFrameView { flags: old(self)@.flags | flag.mask(), ..old(self)@ }),
    {
        self.flags.set(flag);
    }

    /// Reads a raw frame as a HEADERS frame. The type must be right, the
    /// payload as long as the header says and the stream not 0; padding, if
    /// announced, must fit into the payload; a dependency, if announced, must
    /// be there in full and must not name the frame's own stream.
    pub fn from_raw(raw_frame: &RawFrame) -> (r: Result<HeadersFrame, ParseFrameError>)
        ensures
            match r {
                Ok(frame) => spec_parse_headers(raw_frame@) == Ok::<
                    HeadersFrameView,
                    ParseFrameError,
                >(frame@),
                Err(e) => spec_parse_headers(raw_frame@) == Err::<HeadersFrameView, ParseFrameError>(
                    e,
                ),
            },
    {
        if raw_frame.len() < 9 {
            return Err(ParseFrameError::InternalError);
        }
        let header = raw_frame.header();
        if header.frame_type != HEADERS_FRAME_TYPE {
            return Err(ParseFrameError::InternalError);
        }
        let payload = raw_frame.payload();
        if (header.payload_len as usize) != payload.len() {
            return Err(ParseFrameError::InternalError);
        }
        if header.stream_id == 0 {
            return Err(ParseFrameError::StreamIdMustBeNonZero);
        }
        let flags = Flags::new(header.flags);
        let padded: bool = flags.is_set(HeadersFlag::Padded);
        let (actual, pad_len) = match parse_padded_payload(payload, padded) {
            Err(e) => {
                return Err(e);
            },
            Ok(p) => p,
        };
        let priority: bool = flags.is_set(HeadersFlag::Priority);
        if !priority {
            return Ok(
                HeadersFrame {
                    header_fragment: actual,
                    stream_id: header.stream_id,
                    stream_dep: None,
                    padding_len: pad_len,
                    flags,
                },
            );
        }
        if actual.len() < 5 {
            return Err(ParseFrameError::IncorrectFrameLength(header.payload_len));
        }
        let dep = StreamDependency::parse(bytes_as_slice(&actual));
        if dep.stream_id == header.stream_id {
            return Err(ParseFrameError::StreamDependencyOnItself(header.stream_id));
        }
        let data = bytes_slice(&actual, 5, actual.len());
        assert(bytes_seq(data) =~= bytes_seq(actual).skip(5));
        Ok(
            HeadersFrame {
                header_fragment: data,
                stream_id: header.stream_id,
                stream_dep: Some(dep),
                padding_len: pad_len,
                flags,
            },
        )
    }

    /// The flags byte of the frame.
    pub fn flags(&self) -> (r: Flags)
        ensures
            r.0 == self@.flags,
    {
        self.flags
    }

    /// The stream that the header block belongs to.
    pub fn get_stream_id(&self) -> (r: StreamId)
        ensures
            r == self@.stream_id,
    {
        self.stream_id
    }

    /// The header of the frame on the wire.
    pub fn get_header(&self) -> (h: FrameHeader)
        requires
            self@.payload_len() <= MAX_PAYLOAD_LEN,
        ensures
            h == self@.header(),
    {
        FrameHeader {
            payload_len: self.payload_len(),
            frame_type: HEADERS_FRAME_TYPE,
            flags: self.flags.0,
            stream_id: self.stream_id,
        }
    }

    /// Appends the frame's bytes to `b`.
    pub fn serialize_into(self, b: &mut WriteBuffer)
        requires
            old(b).wf(),
            self@.can_serialize(),
        ensures
            final(b).wf(),
            final(b)@ == old(b)@ + self@.serialize(),
    {
        b.write_header(self.get_header());
        let padded: bool = self.flags.is_set(HeadersFlag::Padded);
        if padded {
            let first: [u8; 1] = [self.padding_len];
            b.extend_from_slice(first.as_slice());
            assert(first@ =~= seq![self.padding_len]);
        }
        if self.flags.is_set(HeadersFlag::Priority) {
            match self.stream_dep {
                Some(ref dep) => {
                    let dep_buf = dep.serialize();
                    b.extend_from_slice(dep_buf.as_slice());
                },
                None => {},
            }
        }
        b.extend_from_bytes_ref(&self.header_fragment);
        if padded {
            b.write_padding(self.padding_len);
        }
        assert(b@ =~= old(b)@ + self@.serialize());
    }

    /// The frame's bytes.
    pub fn serialize_into_vec(self) -> (v: Vec<u8>)
        requires
            self@.can_serialize(),
        ensures
            v@ == self@.serialize(),
    {
        let mut builder = WriteBuffer::new();
        let ghost bytes = self@.serialize();
        self.serialize_into(&mut builder);
        assert(builder@ =~= bytes);
        builder.into_vec()
    }
}

/// A HEADERS frame that was read from exactly its own bytes, with the
/// header's reserved bit clear and zero bytes for padding, is written back as
/// those bytes.
pub proof fn lemma_headers_serialize_parsed(raw: Seq<u8>)
    requires
        raw.len() >= 9,
        raw[5] < 0x80,
        spec_parse_headers(raw) is Ok,
        crate::solicit::frame::data::spec_padding_is_zero(
            raw.skip(9),
            bits_set(spec_unpack_header(raw).flags, 0x8),
        ),
    ensures
        spec_parse_headers(raw)->Ok_0.can_serialize(),
        spec_parse_headers(raw)->Ok_0.serialize() == raw,
{
    let frame = spec_parse_headers(raw)->Ok_0;
    let header = spec_unpack_header(raw);
    let head = raw.take(9);
    let payload = raw.skip(9);
    assert(spec_unpack_header(head) == header);
    lemma_pack_unpack_header(head);
    let actual = spec_parse_padded_payload(payload, bits_set(header.flags, 0x8))->Ok_0.0;
    if frame.has_priority() {
        lemma_dependency_serialize_parsed(actual.take(5));
        assert(spec_parse_dependency(actual.take(5)) == spec_parse_dependency(actual));
        assert(spec_serialize_dependency(frame.stream_dep->Some_0) + frame.header_fragment
            =~= actual);
    }
    assert(frame.header() == header);
    assert(frame.payload() =~= payload);
    assert(frame.serialize() =~= raw);
}

/// A header block as a HEADERS frame and its CONTINUATION frames carried it,
/// decoded into the header list.
#[derive(Clone, Debug)]
pub struct HeadersDecodedFrame {
    /// The flags byte of the HEADERS frame.
    pub flags: Flags,
    /// The stream that the headers belong to.
    pub stream_id: StreamId,
    /// The decoded header list.
    pub headers: Headers,
    /// The stream dependency, if the frame carried one.
    pub stream_dep: Option<StreamDependency>,
    /// How many bytes of padding the frame carried.
    pub padding_len: u8,
}

impl HeadersDecodedFrame {
    /// Whether the headers are the last thing on the stream.
    pub fn is_end_of_stream(&self) -> (r: bool)
        ensures
            r == bits_set(self.flags.0, 0x1),
    {
        self.flags.is_set(HeadersFlag::EndStream)
    }

    /// The stream that the headers belong to.
    pub fn get_stream_id(&self) -> (r: StreamId)
        ensures
            r == self.stream_id,
    {
        self.stream_id
    }
}

/// A header block cut into fragments of at most `max` bytes: every fragment
/// but the last is full, and an empty block is one empty fragment.
pub open spec fn spec_split_block(block: Seq<u8>, max: nat) -> Seq<Seq<u8>>
    decreases block.len(),
{
    if max == 0 || block.len() <= max {
        seq![block]
    } else {
        seq![block.take(max as int)] + spec_split_block(block.skip(max as int), max)
    }
}

/// Fragments put together again, in order.
pub open spec fn spec_join(fragments: Seq<Seq<u8>>) -> Seq<u8>
    decreases fragments.len(),
{
    if fragments.len() == 0 {
        Seq::empty()
    } else {
        spec_join(fragments.drop_last()) + fragments.last()
    }
}

/// The flags of one frame of a header block: the first frame, a HEADERS
/// frame, has the block's flags; the last frame has END_HEADERS.
pub open spec fn spec_make_flags(first: bool, header_flags: u8, last: bool) -> u8 {
    if first {
        if last {
            header_flags | 0x4
        } else {
            header_flags
        }
    } else {
        if last {
            0x4
        } else {
            0
        }
    }
}

/// The bytes of one frame of a header block: a HEADERS frame for the first
/// fragment, a CONTINUATION frame for any other.
pub open spec fn spec_fragment_frame(
    stream_id: StreamId,
    header_flags: u8,
    first: bool,
    last: bool,
    fragment: Seq<u8>,
) -> Seq<u8> {
    spec_pack_header(
        FrameHeader {
            payload_len: fragment.len() as u32,
            frame_type: if first {
                HEADERS_FRAME_TYPE
            } else {
                CONTINUATION_FRAME_TYPE
            },
            flags: spec_make_flags(first, header_flags, last),
            stream_id,
        },
    ) + fragment
}

/// The bytes of the frames that carry the given fragments, in order. With
/// `closed`, the last frame has END_HEADERS.
pub open spec fn spec_fragment_frames(
    fragments: Seq<Seq<u8>>,
    stream_id: StreamId,
    header_flags: u8,
    closed: bool,
) -> Seq<u8>
    decreases fragments.len(),
{
    if fragments.len() == 0 {
        Seq::empty()
    } else {
        spec_fragment_frames(fragments.drop_last(), stream_id, header_flags, false)
            + spec_fragment_frame(
            stream_id,
            header_flags,
            fragments.len() == 1,
            closed,
            fragments.last(),
        )
    }
}

/// The bytes of a header block on the wire: one HEADERS frame and as many
/// CONTINUATION frames as it takes with at most `max` bytes in each.
pub open spec fn spec_multi_frame(
    block: Seq<u8>,
    max: nat,
    stream_id: StreamId,
    header_flags: u8,
) -> Seq<u8> {
    spec_fragment_frames(spec_split_block(block, max), stream_id, header_flags, true)
}

/// Putting a fragment in front of others puts it in front of what they join
/// to.
pub proof fn lemma_join_front(first: Seq<u8>, rest: Seq<Seq<u8>>)
    ensures
        spec_join(seq![first] + rest) == first + spec_join(rest),
    decreases rest.len(),
{
    let all = seq![first] + rest;
    if rest.len() == 0 {
        assert(all.drop_last() =~= Seq::<Seq<u8>>::empty());
        assert(spec_join(all.drop_last()) =~= Seq::<u8>::empty());
        assert(spec_join(rest) =~= Seq::<u8>::empty());
        assert(spec_join(all) =~= first + spec_join(rest));
    } else {
        assert(all.drop_last() =~= seq![first] + rest.drop_last());
        assert(all.last() == rest.last());
        lemma_join_front(first, rest.drop_last());
        assert(spec_join(all) =~= first + spec_join(rest));
    }
}

/// A header block cut into fragments and put together again is the block it
/// was, and no fragment is longer than the limit.
pub proof fn lemma_split_join(block: Seq<u8>, max: nat)
    requires
        max > 0,
    ensures
        spec_join(spec_split_block(block, max)) == block,
        spec_split_block(block, max).len() >= 1,
        forall|i: int|
            0 <= i < spec_split_block(block, max).len() ==> (#[trigger] spec_split_block(
                block,
                max,
            )[i]).len() <= max,
        forall|i: int|
            0 <= i < spec_split_block(block, max).len() - 1 ==> (#[trigger] spec_split_block(
                block,
                max,
            )[i]).len() == max,
    decreases block.len(),
{
    if block.len() <= max {
        let one = seq![block];
        assert(one.drop_last() =~= Seq::<Seq<u8>>::empty());
        assert(spec_join(one.drop_last()) =~= Seq::<u8>::empty());
        assert(spec_join(one) =~= block);
    } else {
        let head = block.take(max as int);
        let tail = block.skip(max as int);
        lemma_split_join(tail, max);
        lemma_join_front(head, spec_split_block(tail, max));
        assert(head + tail =~= block);
    }
}

/// Full fragments followed by one that is not empty, or one fragment alone,
/// are what their joined bytes are cut into.
pub proof fn lemma_split_of_joined(finished: Seq<Seq<u8>>, current: Seq<u8>, max: nat)
    requires
        max > 0,
        forall|i: int| 0 <= i < finished.len() ==> (#[trigger] finished[i]).len() == max,
        current.len() <= max,
        finished.len() == 0 || current.len() > 0,
    ensures
        spec_split_block(spec_join(finished) + current, max) == finished.push(current),
    decreases finished.len(),
{
    if finished.len() == 0 {
        assert(spec_join(finished) + current =~= current);
        assert(finished.push(current) =~= seq![current]);
    } else {
        let first = finished[0];
        let rest = finished.skip(1);
        assert(finished =~= seq![first] + rest);
        lemma_join_front(first, rest);
        let block = spec_join(finished) + current;
        assert(block =~= first + (spec_join(rest) + current));
        assert(block.take(max as int) =~= first);
        assert(block.skip(max as int) =~= spec_join(rest) + current);
        assert forall|i: int| 0 <= i < rest.len() implies (#[trigger] rest[i]).len() == max by {
            assert(rest[i] == finished[i + 1]);
        }
        lemma_split_of_joined(rest, current, max);
        assert(finished.push(current) =~= seq![first] + rest.push(current));
    }
}

/// The bytes of CONTINUATION frames that carry the given fragments, in
/// order. With `closed`, the last frame has END_HEADERS.
pub open spec fn spec_continuation_frames(fragments: Seq<Seq<u8>>, stream_id: StreamId, closed: bool) -> Seq<
    u8,
>
    decreases fragments.len(),
{
    if fragments.len() == 0 {
        Seq::empty()
    } else {
        spec_fragment_frame(stream_id, 0, false, closed && fragments.len() == 1, fragments[0])
            + spec_continuation_frames(fragments.skip(1), stream_id, closed)
    }
}

/// One more CONTINUATION frame at the end: the frames before it do not end
/// the block.
pub proof fn lemma_continuation_frames_push(
    fragments: Seq<Seq<u8>>,
    last: Seq<u8>,
    stream_id: StreamId,
    closed: bool,
)
    ensures
        spec_continuation_frames(fragments.push(last), stream_id, closed)
            == spec_continuation_frames(fragments, stream_id, false) + spec_fragment_frame(
            stream_id,
            0,
            false,
            closed,
            last,
        ),
    decreases fragments.len(),
{
    let all = fragments.push(last);
    if fragments.len() == 0 {
        assert(all.skip(1) =~= Seq::<Seq<u8>>::empty());
        assert(spec_continuation_frames(all.skip(1), stream_id, closed) =~= Seq::<u8>::empty());
        assert(spec_continuation_frames(all, stream_id, closed) =~= spec_fragment_frame(
            stream_id,
            0,
            false,
            closed,
            last,
        ));
        assert(spec_continuation_frames(fragments, stream_id, false) =~= Seq::<u8>::empty());
    } else {
        assert(all.skip(1) =~= fragments.skip(1).push(last));
        assert(all[0] == fragments[0]);
        lemma_continuation_frames_push(fragments.skip(1), last, stream_id, closed);
        assert(spec_continuation_frames(all, stream_id, closed) =~= spec_continuation_frames(
            fragments,
            stream_id,
            false,
        ) + spec_fragment_frame(stream_id, 0, false, closed, last));
    }
}

/// The frames of a header block are a HEADERS frame with the first fragment
/// and CONTINUATION frames with the others.
pub proof fn lemma_fragment_frames_front(
    fragments: Seq<Seq<u8>>,
    stream_id: StreamId,
    header_flags: u8,
    closed: bool,
)
    requires
        fragments.len() > 0,
    ensures
        spec_fragment_frames(fragments, stream_id, header_flags, closed) == spec_fragment_frame(
            stream_id,
            header_flags,
            true,
            closed && fragments.len() == 1,
            fragments[0],
        ) + spec_continuation_frames(fragments.skip(1), stream_id, closed),
    decreases fragments.len(),
{
    if fragments.len() == 1 {
        assert(fragments.drop_last() =~= Seq::<Seq<u8>>::empty());
        assert(fragments.skip(1) =~= Seq::<Seq<u8>>::empty());
        assert(spec_fragment_frames(fragments.drop_last(), stream_id, header_flags, false)
            =~= Seq::<u8>::empty());
        assert(spec_continuation_frames(fragments.skip(1), stream_id, closed) =~= Seq::<u8>::empty());
        assert(fragments.last() == fragments[0]);
        assert(spec_fragment_frames(fragments, stream_id, header_flags, closed)
            =~= spec_fragment_frame(stream_id, header_flags, true, closed, fragments[0]));
    } else {
        let front = fragments.drop_last();
        lemma_fragment_frames_front(front, stream_id, header_flags, false);
        assert(front[0] == fragments[0]);
        assert(front.skip(1).push(fragments.last()) =~= fragments.skip(1));
        lemma_continuation_frames_push(front.skip(1), fragments.last(), stream_id, closed);
        assert(spec_fragment_frame(stream_id, header_flags, false, closed, fragments.last())
            == spec_fragment_frame(stream_id, 0, false, closed, fragments.last()));
        assert(spec_fragment_frames(fragments, stream_id, header_flags, closed)
            =~= spec_fragment_frame(stream_id, header_flags, true, false, fragments[0])
            + spec_continuation_frames(fragments.skip(1), stream_id, closed));
    }
}

/// A header list to be written as one HEADERS frame and as many CONTINUATION
/// frames as the peer's frame size limit asks for. The header block is
/// encoded straight into the write buffer.
pub struct HeadersMultiFrame<'a> {
    /// The flags of the HEADERS frame. END_HEADERS must not be set: it is
    /// put on the last frame.
    pub flags: Flags,
    /// The stream that the headers belong to.
    pub stream_id: StreamId,
    /// The header list.
    pub headers: Headers,
    /// The stream dependency. It is not written.
    pub stream_dep: Option<StreamDependency>,
    /// The length of the padding. It is not written.
    pub padding_len: u8,
    /// The encoder of the connection.
    pub encoder: &'a mut Encoder,
    /// The largest payload that the peer accepts in one frame.
    pub max_frame_size: u32,
}

enum HeadersFrameType {
    Headers,
    Continuation,
}

impl HeadersFrameType {
    fn frame_type(&self) -> (r: HttpFrameType)
        ensures
            r == (match self {
                HeadersFrameType::Headers => HttpFrameType::Headers,
                HeadersFrameType::Continuation => HttpFrameType::Continuation,
            }),
    {
        match self {
            HeadersFrameType::Headers => HttpFrameType::Headers,
            HeadersFrameType::Continuation => HttpFrameType::Continuation,
        }
    }

    /// The flags of a frame of this type, made from the flags of the block.
    fn make_flags(&self, header_flags: Flags, last: bool) -> (r: u8)
        requires
            !bits_set(header_flags.0, 0x4),
        ensures
            r == spec_make_flags(self is Headers, header_flags.0, last),
    {
        match self {
            HeadersFrameType::Headers => {
                if last {
                    header_flags.with(HeadersFlag::EndHeaders).0
                } else {
                    header_flags.0
                }
            },
            HeadersFrameType::Continuation => {
                if last {
                    0x4
                } else {
                    0
                }
            },
        }
    }
}

/// What stays fixed while a header block is written into frames.
pub ghost struct MultiFrameParams {
    /// What the buffer held before the first frame.
    pub base: Seq<u8>,
    /// The stream of the header block.
    pub stream_id: StreamId,
    /// The flags of the header block.
    pub flags: u8,
    /// The largest payload of one frame.
    pub max_frame_size: u32,
}

/// The sink that cuts a header block into frames while the encoder writes
/// it. It holds the write buffer for as long as the block is being written.
struct EncodeBufForHeadersMultiFrame {
    current_frame_type: HeadersFrameType,
    current_frame_offset: usize,
    stream_id: StreamId,
    flags: Flags,
    builder: WriteBuffer,
    max_frame_size: u32,
    base: Ghost<Seq<u8>>,
    finished: Ghost<Seq<Seq<u8>>>,
    current: Ghost<Seq<u8>>,
}

impl EncodeBufForHeadersMultiFrame {
    /// What holds of the sink at all times.
    spec fn common(&self) -> bool {
        &&& self.builder.wf()
        &&& self.max_frame_size >= 1
        &&& !bits_set(self.flags.0, 0x4)
        &&& forall|i: int|
            0 <= i < self.finished@.len() ==> (#[trigger] self.finished@[i]).len()
                == self.max_frame_size
    }

    /// The bytes of the frames that are complete.
    spec fn done(&self) -> Seq<u8> {
        spec_fragment_frames(self.finished@, self.stream_id, self.flags.0, false)
    }

    /// A frame is open: its header is reserved and its payload so far
    /// follows.
    spec fn opened(&self) -> bool {
        &&& self.common()
        &&& self.builder@ == self.base@ + self.done() + spec_zeros(9) + self.current@
        &&& self.current_frame_offset == self.base@.len() + self.done().len()
        &&& self.current@.len() <= self.max_frame_size
        &&& (self.current_frame_type is Headers <==> self.finished@.len() == 0)
    }

    fn open_frame(&mut self)
        requires
            old(self).common(),
            old(self).builder@ == old(self).base@ + old(self).done(),
        ensures
            final(self).common(),
            final(self).builder@ == old(self).builder@ + spec_zeros(9),
            final(self).current_frame_offset == old(self).builder@.len(),
            final(self).current@ == Seq::<u8>::empty(),
            final(self).finished@ == old(self).finished@,
            final(self).base@ == old(self).base@,
            final(self).stream_id == old(self).stream_id,
            final(self).flags == old(self).flags,
            final(self).max_frame_size == old(self).max_frame_size,
            final(self).current_frame_type == old(self).current_frame_type,
    {
        self.current_frame_offset = self.builder.remaining();
        // The length is not known yet: an empty header is written here and
        // patched in `finish_frame`.
        let empty = pack_header(
            &FrameHeader { payload_len: 0, frame_type: 0, flags: 0, stream_id: 0 },
        );
        let mut tail = self.builder.tail_vec();
        tail.extend_from_slice(empty.as_slice());
        self.current = Ghost(Seq::empty());
        assert(empty@ =~= spec_zeros(9));
    }

    fn finish_frame(&mut self, last: bool)
        requires
            old(self).opened(),
        ensures
            final(self).builder.wf(),
            final(self).builder@ == old(self).base@ + spec_fragment_frames(
                old(self).finished@.push(old(self).current@),
                old(self).stream_id,
                old(self).flags.0,
                last,
            ),
            final(self).finished@ == old(self).finished@.push(old(self).current@),
            final(self).base@ == old(self).base@,
            final(self).stream_id == old(self).stream_id,
            final(self).flags == old(self).flags,
            final(self).max_frame_size == old(self).max_frame_size,
            final(self).current_frame_type == old(self).current_frame_type,
    {
        let frame_length: usize = self.builder.remaining() - self.current_frame_offset;
        let length: u32 = (frame_length - 9) as u32;
        let header = pack_header(
            &FrameHeader {
                payload_len: length,
                frame_type: self.current_frame_type.frame_type().frame_type(),
                flags: self.current_frame_type.make_flags(self.flags, last),
                stream_id: self.stream_id,
            },
        );
        let ghost before = self.builder@;
        let mut tail = self.builder.tail_vec();
        tail.patch_buf(self.current_frame_offset, header.as_slice());
        proof {
            let fragments = self.finished@.push(self.current@);
            assert(fragments.drop_last() =~= self.finished@);
            assert(fragments.last() == self.current@);
            assert(before.subrange(0, self.current_frame_offset as int) =~= self.base@
                + self.done());
            assert(before.skip(self.current_frame_offset + 9) =~= self.current@);
            assert(self.builder@ =~= self.base@ + spec_fragment_frames(
                fragments,
                self.stream_id,
                self.flags.0,
                last,
            ));
        }
        self.finished = Ghost(self.finished@.push(self.current@));
    }

    /// How much payload can still be written into the current frame.
    fn rem_in_current_frame(&self) -> (r: usize)
        requires
            self.opened(),
        ensures
            r == self.max_frame_size - self.current@.len(),
    {
        let current_frame_len: usize = self.builder.remaining() - self.current_frame_offset;
        let current_frame_payload_len: usize = current_frame_len - 9;
        self.max_frame_size as usize - current_frame_payload_len
    }
}

impl EncodeBuf for EncodeBufForHeadersMultiFrame {
    type Params = MultiFrameParams;

    closed spec fn params(&self) -> MultiFrameParams {
        MultiFrameParams {
            base: self.base@,
            stream_id: self.stream_id,
            flags: self.flags.0,
            max_frame_size: self.max_frame_size,
        }
    }

    closed spec fn inv(&self) -> bool {
        self.opened() && (self.finished@.len() == 0 || self.current@.len() > 0)
    }

    closed spec fn written(&self) -> Seq<u8> {
        spec_join(self.finished@) + self.current@
    }

    fn write_all(&mut self, bytes: &[u8]) {
        let mut pos: usize = 0;
        loop
            invariant
                self.opened(),
                self.finished@.len() == 0 || self.current@.len() > 0 || pos < bytes@.len(),
                self.params() == old(self).params(),
                pos <= bytes@.len(),
                self.written() == old(self).written() + bytes@.take(pos as int),
            ensures
                self.inv(),
                self.params() == old(self).params(),
                self.written() == old(self).written() + bytes@,
            decreases bytes@.len() - pos, self.current@.len(),
        {
            let left: usize = bytes.len() - pos;
            let room: usize = self.rem_in_current_frame();
            let copy_here: usize = if left < room {
                left
            } else {
                room
            };
            let piece = vstd::slice::slice_subrange(bytes, pos, pos + copy_here);
            let ghost before_current = self.current@;
            let ghost before_finished = self.finished@;
            let ghost before_written = self.written();
            let ghost before_builder = self.builder@;
            let mut tail = self.builder.tail_vec();
            tail.extend_from_slice(piece);
            self.current = Ghost(self.current@ + piece@);
            pos = pos + copy_here;
            proof {
                assert(self.builder@ == before_builder + piece@);
                assert(self.finished@ == before_finished);
                assert(self.current@ == before_current + piece@);
                assert(before_written == spec_join(before_finished) + before_current);
                assert(bytes@.take(pos as int) =~= bytes@.take(pos - copy_here) + piece@);
                assert(self.written() =~= before_written + piece@);
                assert(self.written() =~= old(self).written() + bytes@.take(pos as int));
                assert(self.builder@ =~= self.base@ + self.done() + spec_zeros(9) + self.current@);
            }
            if pos == bytes.len() {
                assert(bytes@.take(pos as int) =~= bytes@);
                break ;
            }
            let ghost joined = self.written();
            let ghost full = self.current@;
            let ghost earlier = self.finished@;
            assert(full.len() == self.max_frame_size);
            self.finish_frame(false);
            proof {
                let fragments = self.finished@;
                assert(fragments.drop_last() =~= earlier);
                assert(fragments.last() == full);
                assert(spec_join(fragments) =~= joined);
            }
            self.open_frame();
            self.current_frame_type = HeadersFrameType::Continuation;
            proof {
                assert(self.written() =~= joined);
                assert(self.builder@ =~= self.base@ + self.done() + spec_zeros(9) + self.current@);
            }
        }
    }

    fn reserve(&mut self, additional: usize) {
        let mut tail = self.builder.tail_vec();
        tail.reserve(additional);
    }
}

impl<'a> HeadersMultiFrame<'a> {
    /// The header block, as the encoder will write it.
    pub open spec fn spec_block(&self) -> Seq<u8> {
        spec_encode_block(self.encoder@, self.headers@)
    }

    /// Encodes the header list and appends it to `builder` as one HEADERS
    /// frame followed by the CONTINUATION frames that the block needs. The
    /// encoder moves on as the block says.
    pub fn serialize_into(self, builder: &mut WriteBuffer)
        requires
            old(builder).wf(),
            self.encoder.wf(),
            self.max_frame_size >= 1,
            !bits_set(self.flags.0, 0x4),
        ensures
            final(builder).wf(),
            final(builder)@ == old(builder)@ + spec_multi_frame(
                self.spec_block(),
                self.max_frame_size as nat,
                self.stream_id,
                self.flags.0,
            ),
            final(self.encoder).wf(),
            final(self.encoder)@ == spec_encoder_after_block(old(self.encoder)@, self.headers@),
    {
        let mut taken = WriteBuffer::new();
        std::mem::swap(builder, &mut taken);
        let start: usize = taken.remaining();
        let mut buf = EncodeBufForHeadersMultiFrame {
            flags: self.flags,
            stream_id: self.stream_id,
            current_frame_type: HeadersFrameType::Headers,
            current_frame_offset: start,
            builder: taken,
            max_frame_size: self.max_frame_size,
            base: Ghost(old(builder)@),
            finished: Ghost(Seq::empty()),
            current: Ghost(Seq::empty()),
        };
        assert(buf.done() =~= Seq::<u8>::empty());
        assert(buf.builder@ =~= buf.base@ + buf.done());
        buf.open_frame();
        assert(buf.builder@ =~= buf.base@ + buf.done() + spec_zeros(9) + buf.current@);
        assert(buf.written() =~= Seq::<u8>::empty());
        let ghost block = self.spec_block();
        self.encoder.encode_into(&self.headers, &mut buf);
        assert(buf.written() =~= block);
        proof {
            lemma_split_of_joined(buf.finished@, buf.current@, self.max_frame_size as nat);
        }
        buf.finish_frame(true);
        *builder = buf.builder;
    }

    /// The frames of the header list, as a vector.
    pub fn serialize_into_vec(self) -> (v: Vec<u8>)
        requires
            self.encoder.wf(),
            self.max_frame_size >= 1,
            !bits_set(self.flags.0, 0x4),
        ensures
            v@ == spec_multi_frame(
                self.spec_block(),
                self.max_frame_size as nat,
                self.stream_id,
                self.flags.0,
            ),
            final(self.encoder).wf(),
            final(self.encoder)@ == spec_encoder_after_block(old(self.encoder)@, self.headers@),
    {
        let mut builder = WriteBuffer::new();
        let ghost bytes = spec_multi_frame(
            self.spec_block(),
            self.max_frame_size as nat,
            self.stream_id,
            self.flags.0,
        );
        self.serialize_into(&mut builder);
        assert(builder@ =~= bytes);
        builder.into_vec()
    }
}

} // verus!
