//! The DATA frame: a piece of a stream's body.

use crate::bytes_model::bytes_seq;
use crate::codec::write_buffer::WriteBuffer;
use crate::solicit::frame::flags::{bits_set, Flag, Flags};
use crate::solicit::frame::{
    lemma_pack_unpack_header, lemma_parse_padded_payload, lemma_unpack_pack_header,
    parse_padded_payload, spec_pack_header, spec_padded_payload, spec_parse_padded_payload,
    spec_unpack_header, FrameHeader, ParseFrameError, RawFrame, MAX_PAYLOAD_LEN,
};
use crate::solicit::stream_id::StreamId;
use bytes::Bytes;
use vstd::prelude::*;

verus! {

/// The type byte of the DATA frame.
pub const DATA_FRAME_TYPE: u8 = 0x0;

/// The flags that a DATA frame can have.
#[derive(Clone, Copy, Debug, PartialEq, Eq, Structural)]
pub enum DataFlag {
    /// The frame is the last that its sender puts on the stream.
    EndStream,
    /// Padding follows the data, and its length precedes it.
    Padded,
}

impl Flag for DataFlag {
    open spec fn mask(&self) -> u8 {
        match self {
            DataFlag::EndStream => 0x1,
            DataFlag::Padded => 0x8,
        }
    }

    fn bitmask(&self) -> (r: u8) {
        match self {
            DataFlag::EndStream => 0x1,
            DataFlag::Padded => 0x8,
        }
    }

    open spec fn all() -> Seq<DataFlag> {
        seq![DataFlag::EndStream, DataFlag::Padded]
    }

    fn flags() -> (r: Vec<DataFlag>) {
        let mut r: Vec<DataFlag> = Vec::new();
        r.push(DataFlag::EndStream);
        r.push(DataFlag::Padded);
        assert(r@ =~= DataFlag::all());
        r
    }
}

/// A DATA frame.
#[derive(Clone, Debug, PartialEq)]
pub struct DataFrame {
    flags: Flags,
    /// The stream that the data belongs to.
    pub stream_id: StreamId,
    /// The data itself, without any padding.
    pub data: Bytes,
    padding_len: u8,
}

/// What a DATA frame holds.
pub ghost struct DataFrameView {
    /// The flags byte. Bits that the type does not define are kept.
    pub flags: u8,
    /// The stream that the data belongs to.
    pub stream_id: StreamId,
    /// The data, without any padding.
    pub data: Seq<u8>,
    /// How many bytes of padding follow the data, if the frame is padded.
    pub padding_len: u8,
}

impl DataFrameView {
    /// Whether the frame carries padding.
    pub open spec fn is_padded(self) -> bool {
        bits_set(self.flags, 0x8)
    }

    /// Whether the frame is the last that its sender puts on the stream.
    pub open spec fn is_end_of_stream(self) -> bool {
        bits_set(self.flags, 0x1)
    }

    /// The length of the payload, padding and its length byte included.
    pub open spec fn payload_len(self) -> int {
        if self.is_padded() {
            1 + self.data.len() + self.padding_len
        } else {
            self.data.len() as int
        }
    }

    /// What the frame counts for in flow control: the length of its payload,
    /// padding included, and no more than the largest payload.
    pub open spec fn flow_controlled_len(self) -> u32 {
        if self.payload_len() <= MAX_PAYLOAD_LEN {
            self.payload_len() as u32
        } else {
            MAX_PAYLOAD_LEN
        }
    }

    /// Whether the payload's length fits the header's 24 bits.
    pub open spec fn fits_wire(self) -> bool {
        self.payload_len() <= MAX_PAYLOAD_LEN
    }

    /// The header of the frame on the wire.
    pub open spec fn header(self) -> FrameHeader {
        FrameHeader {
            payload_len: self.payload_len() as u32,
            frame_type: DATA_FRAME_TYPE,
            flags: self.flags,
            stream_id: self.stream_id,
        }
    }

    /// The payload of the frame on the wire.
    pub open spec fn payload(self) -> Seq<u8> {
        if self.is_padded() {
            spec_padded_payload(self.data, self.padding_len)
        } else {
            self.data
        }
    }

    /// The bytes of the frame on the wire.
    pub open spec fn serialize(self) -> Seq<u8> {
        spec_pack_header(self.header()) + self.payload()
    }
}

impl View for DataFrame {
    type V = DataFrameView;

    closed spec fn view(&self) -> DataFrameView {
        DataFrameView {
            flags: self.flags.0,
            stream_id: self.stream_id,
            data: bytes_seq(self.data),
            padding_len: self.padding_len,
        }
    }
}

/// The frame that the bytes of a raw frame spell, or why they spell none.
pub open spec fn spec_parse_data(raw: Seq<u8>) -> Result<DataFrameView, ParseFrameError> {
    let header = spec_unpack_header(raw);
    if raw.len() < 9 {
        Err(ParseFrameError::InternalError)
    } else if header.frame_type != DATA_FRAME_TYPE {
        Err(ParseFrameError::InternalError)
    } else if header.payload_len != raw.len() - 9 {
        Err(ParseFrameError::InternalError)
    } else if header.stream_id == 0 {
        Err(ParseFrameError::StreamIdMustBeNonZero)
    } else {
        match spec_parse_padded_payload(raw.skip(9), bits_set(header.flags, 0x8)) {
            Err(e) => Err(e),
            Ok((data, padding_len)) => Ok(
                DataFrameView { flags: header.flags, stream_id: header.stream_id, data, padding_len },
            ),
        }
    }
}

impl DataFrame {
    /// An empty frame for the given stream, with no flag set.
    pub fn new(stream_id: StreamId) -> (r: DataFrame)
        ensures
            r@ == (DataFrameView { flags: 0, stream_id, data: Seq::<u8>::empty(), padding_len: 0 }),
    {
        DataFrame { stream_id, flags: Flags::default(), data: Bytes::new(), padding_len: 0 }
    }

    /// A frame with the given data for the given stream, with no flag set.
    pub fn with_data(stream_id: StreamId, data: Bytes) -> (r: DataFrame)
        ensures
            r@ == (DataFrameView { flags: 0, stream_id, data: bytes_seq(data), padding_len: 0 }),
    {
        DataFrame { stream_id, flags: Flags::default(), data, padding_len: 0 }
    }

    /// Whether the frame carries padding.
    pub fn is_padded(&self) -> (r: bool)
        ensures
            r == self@.is_padded(),
    {
        self.flags.is_set(DataFlag::Padded)
    }

    /// Whether the frame is the last that its sender puts on the stream.
    pub fn is_end_of_stream(&self) -> (r: bool)
        ensures
            r == self@.is_end_of_stream(),
    {
        self.flags.is_set(DataFlag::EndStream)
    }

    /// Pads the frame with `pad_len` bytes and sets the flag that says so.
    pub fn set_padding(&mut self, pad_len: u8)
        ensures
            final(self)@ == (DataFrameView {
                flags: old(self)@.flags | 0x8,
                padding_len: pad_len,
                ..old(self)@
            }),
    {
        self.set_flag(DataFlag::Padded);
        self.padding_len = pad_len;
    }

    /// The length of the payload, padding and its length byte included.
    pub fn payload_len(&self) -> (r: u32)
        requires
            self@.fits_wire(),
        ensures
            r == self@.payload_len(),
    {
        if self.is_padded() {
            1 + (self.data.len() as u32) + (self.padding_len as u32)
        } else {
            self.data.len() as u32
        }
    }

    /// What the frame counts for in flow control: the length of its payload,
    /// padding included, and no more than the largest payload.
    pub fn flow_controlled_len(&self) -> (r: u32)
        ensures
            r == self@.flow_controlled_len(),
    {
        let len: usize = self.data.len();
        let extra: usize = if self.is_padded() {
            1 + self.padding_len as usize
        } else {
            0
        };
        if len > MAX_PAYLOAD_LEN as usize - extra {
            MAX_PAYLOAD_LEN
        } else {
            (len + extra) as u32
        }
    }

    /// The data of the frame.
    pub fn into_data(self) -> (r: Bytes)
        ensures
            bytes_seq(r) == self@.data,
    {
        self.data
    }

    fn parse_payload(payload: Bytes, padded: bool) -> (r: Result<(Bytes, u8), ParseFrameError>)
        ensures
            match r {
                Ok((content, padding_len)) => spec_parse_padded_payload(bytes_seq(payload), padded)
                    == Ok::<(Seq<u8>, u8), ParseFrameError>((bytes_seq(content), padding_len)),
                Err(e) => spec_parse_padded_payload(bytes_seq(payload), padded) == Err::<
                    (Seq<u8>, u8),
                    ParseFrameError,
                >(e),
            },
    {
        parse_padded_payload(payload, padded)
    }

    /// Sets the given flag.
    pub fn set_flag(&mut self, flag: DataFlag)
        ensures
            final(self)@ == (DataFrameView { flags: old(self)@.flags | flag.mask(), ..old(self)@ }),
    {
        self.flags.0 = self.flags.0 | flag.bitmask();
    }

    /// Reads a raw frame as a DATA frame. The type must be right, the
    /// payload as long as the header says, the stream not 0, and the padding,
    /// if the frame is padded, must fit into the payload.
    pub fn from_raw(raw_frame: &RawFrame) -> (r: Result<DataFrame, ParseFrameError>)
        ensures
            match r {
                Ok(frame) => spec_parse_data(raw_frame@) == Ok::<DataFrameView, ParseFrameError>(
                    frame@,
                ),
                Err(e) => spec_parse_data(raw_frame@) == Err::<DataFrameView, ParseFrameError>(e),
            },
    {
        if raw_frame.len() < 9 {
            return Err(ParseFrameError::InternalError);
        }
        let header = raw_frame.header();
        if header.frame_type != DATA_FRAME_TYPE {
            return Err(ParseFrameError::InternalError);
        }
        let payload = raw_frame.payload();
        if (header.payload_len as usize) != payload.len() {
            return Err(ParseFrameError::InternalError);
        }
        if header.stream_id == 0x0 {
            return Err(ParseFrameError::StreamIdMustBeNonZero);
        }
        let padded: bool = (header.flags & DataFlag::Padded.bitmask()) != 0;
        match DataFrame::parse_payload(payload, padded) {
            Err(e) => Err(e),
            Ok((data, padding_len)) => Ok(
                DataFrame { stream_id: header.stream_id, flags: Flags::new(header.flags), data, padding_len },
            ),
        }
    }

    /// The flags byte of the frame.
    pub fn flags(&self) -> (r: Flags)
        ensures
            r.0 == self@.flags,
    {
        self.flags
    }

    /// The stream that the data belongs to.
    pub fn get_stream_id(&self) -> (r: StreamId)
        ensures
            r == self@.stream_id,
    {
        self.stream_id
    }

    /// The header of the frame on the wire.
    pub fn get_header(&self) -> (h: FrameHeader)
        requires
            self@.fits_wire(),
        ensures
            h == self@.header(),
    {
        FrameHeader {
            payload_len: self.payload_len(),
            frame_type: DATA_FRAME_TYPE,
            flags: self.flags.0,
            stream_id: self.stream_id,
        }
    }

    /// Appends the frame's bytes to `b`.
    pub fn serialize_into(self, b: &mut WriteBuffer)
        requires
            old(b).wf(),
            self@.fits_wire(),
        ensures
            final(b).wf(),
            final(b)@ == old(b)@ + self@.serialize(),
    {
        b.write_header(self.get_header());
        if self.is_padded() {
            let pad_len: u8 = self.padding_len;
            let first: [u8; 1] = [pad_len];
            b.extend_from_slice(first.as_slice());
            b.extend_from_bytes(self.data);
            b.write_padding(pad_len);
            assert(first@ =~= seq![pad_len]);
            assert(b@ =~= old(b)@ + self@.serialize());
        } else {
            b.extend_from_bytes(self.data);
            assert(b@ =~= old(b)@ + self@.serialize());
        }
    }

    /// The frame's bytes.
    pub fn serialize_into_vec(self) -> (v: Vec<u8>)
        requires
            self@.fits_wire(),
        ensures
            v@ == self@.serialize(),
    {
        let mut builder = WriteBuffer::new();
        let ghost bytes = self@.serialize();
        self.serialize_into(&mut builder);
        assert(builder@ =~= bytes);
        builder.into_vec()
    }
}

/// Whether the padding of a padded payload is made of zero bytes; true of a
/// payload that is not padded.
pub open spec fn spec_padding_is_zero(payload: Seq<u8>, padded: bool) -> bool {
    padded && payload.len() > 0 ==> forall|i: int|
        payload.len() - payload[0] <= i < payload.len() ==> payload[i] == 0
}

/// A DATA frame that was read from exactly its own bytes, with the header's
/// reserved bit clear and zero bytes for padding, is written back as those
/// bytes.
pub proof fn lemma_data_serialize_parsed(raw: Seq<u8>)
    requires
        raw.len() >= 9,
        raw[5] < 0x80,
        spec_parse_data(raw) is Ok,
        spec_padding_is_zero(raw.skip(9), bits_set(spec_unpack_header(raw).flags, 0x8)),
    ensures
        spec_parse_data(raw)->Ok_0.fits_wire(),
        spec_parse_data(raw)->Ok_0.serialize() == raw,
{
    let frame = spec_parse_data(raw)->Ok_0;
    let header = spec_unpack_header(raw);
    let head = raw.take(9);
    let payload = raw.skip(9);
    assert(spec_unpack_header(head) == header);
    lemma_pack_unpack_header(head);
    assert(frame.header() == header);
    assert(frame.payload() =~= payload);
    assert(frame.serialize() =~= raw);
}

/// A DATA frame whose stream identifier is not 0 and whose fields fit the
/// wire is read back from its bytes as it was.
pub proof fn lemma_data_parse_serialized(frame: DataFrameView)
    requires
        0 < frame.stream_id <= 0x7fff_ffff,
        frame.fits_wire(),
        !frame.is_padded() ==> frame.padding_len == 0,
    ensures
        spec_parse_data(frame.serialize()) == Ok::<DataFrameView, ParseFrameError>(frame),
{
    let raw = frame.serialize();
    lemma_unpack_pack_header(frame.header());
    assert(spec_unpack_header(raw) == spec_unpack_header(spec_pack_header(frame.header())));
    assert(raw.skip(9) =~= frame.payload());
    if frame.is_padded() {
        lemma_parse_padded_payload(frame.data, frame.padding_len);
    }
}

} // verus!
