use bytes::Bytes;
use httpbis::solicit::frame::data::{DataFlag, DataFrame};
use httpbis::solicit::frame::{pack_header, FrameHeader, ParseFrameError, RawFrame};

fn raw_frame_from_parts(header: FrameHeader, payload: Vec<u8>) -> RawFrame {
    let mut buf = Vec::new();
    buf.extend(pack_header(&header).to_vec());
    buf.extend(payload);
    buf.into()
}

/// A padded frame payload: the padding length, the data, the padding.
fn build_padded_frame_payload(data: &[u8], pad_len: u8) -> Vec<u8> {
    let mut payload = Vec::new();
    payload.push(pad_len);
    payload.extend(data.to_vec());
    for _ in 0..pad_len {
        payload.push(0);
    }
    payload
}

/// Tests that the `DataFrame` struct correctly interprets a DATA frame
/// with no padding set.
#[test]
fn test_data_frame_parse_no_padding() {
    let data = b"asdf";
    let payload = data.to_vec();
    // A header with the flag indicating no padding
    let header = FrameHeader::new(payload.len() as u32, 0u8, 0u8, 1u32);

    let raw = raw_frame_from_parts(header.clone(), payload.to_vec());
    let frame: DataFrame = DataFrame::from_raw(&raw).unwrap();

    // The frame correctly returns the data?
    assert_eq!(&frame.data[..], &data[..]);
    // ...and the headers?
    assert_eq!(frame.get_header(), header);
}

/// Tests that the `DataFrame` struct correctly knows when it represents the end of the
/// corresponding stream.
#[test]
fn test_data_frame_is_end_of_stream() {
    let mut frame = DataFrame::new(1);
    assert!(!frame.is_end_of_stream());
    frame.set_flag(DataFlag::EndStream);
    assert!(frame.is_end_of_stream());
}

/// Tests that the `DataFrame` struct correctly interprets a DATA frame
/// with a number of padding bytes set.
#[test]
fn test_data_frame_padded() {
    let data = b"asdf";
    let payload = build_padded_frame_payload(data, 5);
    // A header with the flag indicating padding
    let header = FrameHeader::new(payload.len() as u32, 0u8, 8u8, 1u32);

    let raw = raw_frame_from_parts(header.clone(), payload.to_vec());
    let frame: DataFrame = DataFrame::from_raw(&raw).unwrap();

    // The frame correctly returns the data?
    assert_eq!(&frame.data[..], &data[..]);
    // ...and the headers?
    assert_eq!(frame.get_header(), header);
}

/// Tests that a DATA frame with a zero-length payload is still considered
/// valid.
#[test]
fn test_data_frame_zero_len_payload() {
    let data = b"";
    let payload = data.to_vec();
    // A header with the flag indicating no padding
    let header = FrameHeader::new(payload.len() as u32, 0u8, 0u8, 1u32);

    let raw = raw_frame_from_parts(header.clone(), payload.to_vec());
    let frame: DataFrame = DataFrame::from_raw(&raw).unwrap();

    // The frame correctly returns the data?
    assert_eq!(&frame.data[..], &data[..]);
    // ...and the headers?
    assert_eq!(frame.get_header(), header);
}

/// Tests that the `DataFrame` struct correctly handles the case where the
/// padding is invalid: the size of the padding given is greater than or
/// equal to the total size of the frame.
#[test]
fn test_data_frame_padding_invalid() {
    let payload = vec![5, b'a', b's', b'd', b'f'];
    // A header with the flag indicating padding
    let header = FrameHeader::new(payload.len() as u32, 0u8, 8u8, 1u32);

    let raw = raw_frame_from_parts(header, payload);
    let frame = DataFrame::from_raw(&raw);

    // The frame was not even created since the raw bytes are invalid
    assert!(frame.is_err())
}

/// Tests that if a frame that should be parsed has a stream ID of 0, it is
/// not considered a valid DATA frame.
#[test]
fn test_data_frame_stream_zero() {
    let data = b"asdf";
    let payload = data.to_vec();
    // Stream 0
    let header = FrameHeader::new(payload.len() as u32, 0u8, 0u8, 0u32);

    let raw = raw_frame_from_parts(header, payload.to_vec());
    let frame = DataFrame::from_raw(&raw);

    // The frame is not valid.
    assert!(frame.is_err());
}

/// Tests that the `DataFrame` struct correctly interprets a DATA frame
/// with no padding and no data.
#[test]
fn test_data_frame_no_padding_empty() {
    let payload = [];
    let header = FrameHeader::new(payload.len() as u32, 0u8, 0u8, 1u32);

    let raw = raw_frame_from_parts(header.clone(), payload.to_vec());
    let frame: DataFrame = DataFrame::from_raw(&raw).unwrap();

    // The frame correctly returns the data -- i.e. an empty array?
    assert_eq!(&frame.data[..], &[][..]);
    // ...and the headers?
    assert_eq!(frame.get_header(), header);
}

/// Tests that the `DataFrame` struct correctly interprets a DATA frame
/// with padding, but an empty payload.
#[test]
fn test_data_frame_padding_empty_payload() {
    let payload = vec![];
    let header = FrameHeader::new(payload.len() as u32, 0u8, 8u8, 1u32);

    let raw = raw_frame_from_parts(header, payload);
    let frame = DataFrame::from_raw(&raw);

    // In this case, we cannot receive a frame, since the payload did not
    // contain even the first byte, necessary to find the padding length.
    assert!(frame.is_err());
}

/// Tests that the `DataFrame` struct correctly interprets a DATA frame
/// with padding of size 0.
#[test]
fn test_data_frame_null_padding() {
    let data = b"test string";
    let payload = build_padded_frame_payload(data, 0);
    // A header with the flag indicating padding
    let header = FrameHeader::new(payload.len() as u32, 0u8, 8u8, 1u32);

    let raw = raw_frame_from_parts(header.clone(), payload.to_vec());
    let frame: DataFrame = DataFrame::from_raw(&raw).unwrap();

    // The frame correctly returns the data?
    assert_eq!(&frame.data[..], &data[..]);
    // ...and the headers?
    assert_eq!(frame.get_header(), header);
}

/// Tests that the `DataFrame` struct correctly handles the situation
/// where the header does not contain a frame type corresponding to the
/// DATA frame type.
#[test]
fn test_data_frame_invalid_type() {
    let data = b"dummy";
    let payload = build_padded_frame_payload(data, 0);
    // The header has an invalid type (0x1 instead of 0x0).
    let header = FrameHeader::new(payload.len() as u32, 1u8, 8u8, 1u32);

    let raw = raw_frame_from_parts(header, payload);
    let frame = DataFrame::from_raw(&raw);

    assert!(frame.is_err());
}

/// Tests that `DataFrame`s get correctly serialized when created with no
/// padding and with no data.
#[test]
fn test_data_frame_serialize_no_padding_empty() {
    let frame = DataFrame::new(1);
    let expected = {
        let headers = pack_header(&FrameHeader::new(0, 0, 0, 1));
        let mut res: Vec<u8> = Vec::new();
        res.extend(headers.to_vec());

        res
    };

    let serialized = frame.serialize_into_vec();

    assert_eq!(serialized, expected);
}

/// Tests that `DataFrame`s get correctly serialized when created with no
/// padding and with some amount of data.
#[test]
fn test_data_frame_serialize_no_padding() {
    let data = vec![1, 2, 3, 4, 5, 100];
    let frame = DataFrame::with_data(1, Bytes::copy_from_slice(&data[..]));
    let expected = {
        let headers = pack_header(&FrameHeader::new(6, 0, 0, 1));
        let mut res: Vec<u8> = Vec::new();
        res.extend(headers.to_vec());
        res.extend(data.clone());

        res
    };

    let serialized = frame.serialize_into_vec();

    assert_eq!(serialized, expected);
}

/// Tests that `DataFrame`s get correctly serialized when created with
/// some amount of padding and some data.
#[test]
fn test_data_frame_serialize_padding() {
    let data = vec![1, 2, 3, 4, 5, 100];
    let mut frame = DataFrame::with_data(1, Bytes::copy_from_slice(&data[..]));
    frame.set_padding(5);
    let expected = {
        let headers = pack_header(&FrameHeader::new(6 + 1 + 5, 0, 8, 1));
        let mut res: Vec<u8> = Vec::new();
        // Headers
        res.extend(headers.to_vec());
        // Padding len
        res.push(5);
        // Data
        res.extend(data.clone());
        // Actual padding
        for _ in 0..5 {
            res.push(0);
        }

        res
    };

    let serialized = frame.serialize_into_vec();

    assert_eq!(serialized, expected);
}

/// Tests that `DataFrame`s get correctly serialized when created with
/// 0 padding. This is a distinct case from having *no padding*.
#[test]
fn test_data_frame_serialize_null_padding() {
    let data = vec![1, 2, 3, 4, 5, 100];
    let cloned = data.clone();
    let mut frame = DataFrame::with_data(1, Bytes::from(data));
    frame.set_flag(DataFlag::Padded);
    let expected = {
        let headers = pack_header(&FrameHeader::new(6 + 1, 0, 8, 1));
        let mut res: Vec<u8> = Vec::new();
        // Headers
        res.extend(headers.to_vec());
        // Padding len
        res.push(0);
        // Data
        res.extend(cloned);

        res
    };

    let serialized = frame.serialize_into_vec();

    assert_eq!(serialized, expected);
}

#[test]
fn data_frame_errors_are_told_apart() {
    let wrong_len = raw_frame_from_parts(FrameHeader::new(3, 0, 0, 1), vec![1, 2]);
    assert_eq!(Some(ParseFrameError::InternalError), DataFrame::from_raw(&wrong_len).err());
    let stream_zero = raw_frame_from_parts(FrameHeader::new(1, 0, 0, 0), vec![1]);
    assert_eq!(
        Some(ParseFrameError::StreamIdMustBeNonZero),
        DataFrame::from_raw(&stream_zero).err()
    );
    let bad_padding = raw_frame_from_parts(FrameHeader::new(2, 0, 8, 1), vec![2, 1]);
    assert_eq!(Some(ParseFrameError::BadPaddingLength), DataFrame::from_raw(&bad_padding).err());
    // All of the payload but the length byte may be padding.
    let all_padding = raw_frame_from_parts(FrameHeader::new(3, 0, 8, 1), vec![2, 0, 0]);
    let frame = DataFrame::from_raw(&all_padding).unwrap();
    assert_eq!(0, frame.data.len());
    assert!(frame.is_padded());
    assert_eq!(3, frame.payload_len());
}

#[test]
fn data_frame_round_trip_keeps_bytes() {
    let payload = build_padded_frame_payload(b"body", 3);
    let header = FrameHeader::new(payload.len() as u32, 0, 0x8 | 0x1 | 0x40, 5);
    let mut bytes = pack_header(&header).to_vec();
    bytes.extend(payload);
    let frame = DataFrame::from_raw(&RawFrame::from(bytes.clone())).unwrap();
    assert!(frame.is_end_of_stream());
    assert_eq!(5, frame.get_stream_id());
    assert_eq!(0x49, frame.flags().0);
    assert_eq!(bytes, frame.serialize_into_vec());
}
