use httpbis::solicit::error_code::ErrorCode;
use httpbis::solicit::frame::rst_stream::RstStreamFrame;
use httpbis::solicit::frame::{pack_header, FrameHeader, ParseFrameError, RawFrame};

/// The serialized form of the given header followed by the given payload.
fn prepare_frame_bytes(header: FrameHeader, payload: Vec<u8>) -> Vec<u8> {
    let mut buf = Vec::new();
    buf.extend(pack_header(&header).to_vec());
    buf.extend(payload);
    buf
}

#[test]
fn test_parse_valid() {
    let raw = prepare_frame_bytes(FrameHeader::new(4, 0x3, 0, 1), vec![0, 0, 0, 1]);
    let rst = RstStreamFrame::from_raw(&raw.into()).expect("Valid frame expected");
    assert_eq!(rst.error_code(), ErrorCode::ProtocolError);
    assert_eq!(rst.get_stream_id(), 1);
}

#[test]
fn test_parse_valid_with_unknown_flags() {
    let raw = prepare_frame_bytes(FrameHeader::new(4, 0x3, 0x80, 1), vec![0, 0, 0, 1]);
    let rst = RstStreamFrame::from_raw(&raw.into()).expect("Valid frame expected");
    assert_eq!(rst.error_code(), ErrorCode::ProtocolError);
    assert_eq!(rst.get_stream_id(), 1);
    // The raw flag set is correctly reported from the header, but the parsed frame itself does
    // not know how to interpret them.
    assert_eq!(rst.get_header().flags, 0x80);
}

#[test]
fn test_parse_unknown_error_code() {
    let raw = prepare_frame_bytes(FrameHeader::new(4, 0x3, 0x80, 1), vec![1, 0, 0, 1]);
    let rst = RstStreamFrame::from_raw(&raw.into()).expect("Valid frame expected");
    // Unknown error codes are considered equivalent to an internal error.
    assert_eq!(rst.error_code(), ErrorCode::InternalError);
    // ...but the frame still surfaces the raw code as it came, so that clients can handle that,
    // if they so choose.
    assert_eq!(rst.raw_error_code(), 0x01000001);
}

#[test]
fn test_parse_invalid_stream_id() {
    let raw = prepare_frame_bytes(FrameHeader::new(4, 0x3, 0x80, 0), vec![0, 0, 0, 1]);
    assert!(RstStreamFrame::from_raw(&raw.into()).is_err());
}

#[test]
fn test_parse_invalid_payload_size() {
    let raw = prepare_frame_bytes(FrameHeader::new(5, 0x3, 0x00, 2), vec![0, 0, 0, 1, 0]);
    assert!(RstStreamFrame::from_raw(&raw.into()).is_err());
}

#[test]
fn test_parse_invalid_id() {
    let raw = prepare_frame_bytes(FrameHeader::new(4, 0x1, 0x00, 2), vec![0, 0, 0, 1, 0]);
    assert!(RstStreamFrame::from_raw(&raw.into()).is_err());
}

#[test]
fn test_serialize_protocol_error() {
    let frame = RstStreamFrame::new(1, ErrorCode::ProtocolError);
    let raw = frame.serialize_into_vec();
    assert_eq!(
        raw,
        prepare_frame_bytes(FrameHeader::new(4, 0x3, 0, 1), vec![0, 0, 0, 1])
    );
}

#[test]
fn test_serialize_stream_closed() {
    let frame = RstStreamFrame::new(2, ErrorCode::StreamClosed);
    let raw = frame.serialize_into_vec();
    assert_eq!(
        raw,
        prepare_frame_bytes(FrameHeader::new(4, 0x3, 0, 2), vec![0, 0, 0, 0x5])
    );
}

#[test]
fn test_serialize_raw_error_code() {
    let frame = RstStreamFrame::with_raw_error_code(3, 1024);
    let raw = frame.serialize_into_vec();
    assert_eq!(
        raw,
        prepare_frame_bytes(FrameHeader::new(4, 0x3, 0, 3), vec![0, 0, 0x04, 0])
    );
}

#[test]
fn test_partial_eq() {
    let frame1 = RstStreamFrame::with_raw_error_code(3, 1);
    let frame2 = RstStreamFrame::new(3, ErrorCode::ProtocolError);
    assert_eq!(frame1, frame2);
}

#[test]
fn rst_stream_errors_are_told_apart() {
    let short = RawFrame::from(vec![0, 0, 4, 3, 0]);
    assert_eq!(Err(ParseFrameError::InternalError), RstStreamFrame::from_raw(&short));
    let stream_zero = prepare_frame_bytes(FrameHeader::new(4, 0x3, 0, 0), vec![0, 0, 0, 1]);
    assert_eq!(
        Err(ParseFrameError::StreamIdMustBeNonZero),
        RstStreamFrame::from_raw(&stream_zero.into())
    );
    let truncated = prepare_frame_bytes(FrameHeader::new(4, 0x3, 0, 1), vec![0, 0]);
    assert_eq!(
        Err(ParseFrameError::InternalError),
        RstStreamFrame::from_raw(&truncated.into())
    );
}

#[test]
fn rst_stream_round_trip_keeps_bytes() {
    let raw = prepare_frame_bytes(FrameHeader::new(4, 0x3, 0x55, 77), vec![9, 8, 7, 6]);
    let frame = RstStreamFrame::from_raw(&raw.clone().into()).unwrap();
    assert_eq!(0x09080706, frame.raw_error_code());
    assert_eq!(raw, frame.serialize_into_vec());
}

#[test]
fn frame_header_pack_and_unpack() {
    let header = FrameHeader::new(0x010203, 0x9, 0x5, 0x7fff_ffff);
    let packed = pack_header(&header);
    assert_eq!([1, 2, 3, 9, 5, 0x7f, 0xff, 0xff, 0xff], packed);
    assert_eq!(header, httpbis::solicit::frame::unpack_header(&packed));
    // The reserved bit in front of the stream identifier is dropped.
    let with_reserved = [0, 0, 0, 0, 0, 0x80, 0, 0, 1];
    assert_eq!(1, httpbis::solicit::frame::unpack_header(&with_reserved).stream_id);
}

#[test]
fn raw_frame_parse_takes_one_frame() {
    let mut bytes = prepare_frame_bytes(FrameHeader::new(2, 0x0, 0, 1), vec![7, 8]);
    bytes.extend(vec![1, 2, 3]);
    let raw = RawFrame::parse(bytes::Bytes::from(bytes)).unwrap();
    assert_eq!(11, raw.len());
    assert_eq!(&[7, 8][..], &raw.payload()[..]);
    assert!(RawFrame::parse(bytes::Bytes::from(vec![0, 0, 5, 0, 0, 0, 0, 0, 1, 1])).is_none());
    assert!(RawFrame::parse(bytes::Bytes::from(vec![0, 0, 5])).is_none());
}
