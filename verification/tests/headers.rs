use httpbis::hpack::encoder::Encoder;
use httpbis::solicit::frame::continuation::ContinuationFlag;
use httpbis::solicit::frame::flags::Flags;
use httpbis::solicit::frame::headers::{
    HeadersDecodedFrame, HeadersFlag, HeadersFrame, HeadersMultiFrame, StreamDependency,
};
use httpbis::solicit::frame::http_frame::{unpack_frames, HttpFrame};
use httpbis::solicit::frame::{pack_header, FrameHeader, ParseFrameError, RawFrame};
use httpbis::solicit::header::Headers;

fn raw_frame_from_parts(header: FrameHeader, payload: Vec<u8>) -> RawFrame {
    let mut buf = Vec::new();
    buf.extend(pack_header(&header).to_vec());
    buf.extend(payload);
    buf.into()
}

/// A padded frame payload: the padding length, the data, the padding.
fn build_padded_frame_payload(data: &[u8], pad_len: u8) -> Vec<u8> {
    let mut payload = Vec::new();
    payload.push(pad_len);
    payload.extend(data.to_vec());
    for _ in 0..pad_len {
        payload.push(0);
    }
    payload
}

/// Tests that a stream dependency structure can be correctly parsed by the
/// `StreamDependency::parse` method.
#[test]
fn test_parse_stream_dependency() {
    {
        let buf = [0, 0, 0, 1, 5];

        let dep = StreamDependency::parse(&buf);

        assert_eq!(dep.stream_id, 1);
        assert_eq!(dep.weight, 5);
        // This one was not exclusive!
        assert!(!dep.is_exclusive)
    }
    {
        // Most significant bit set => is exclusive!
        let buf = [128, 0, 0, 1, 5];

        let dep = StreamDependency::parse(&buf);

        assert_eq!(dep.stream_id, 1);
        assert_eq!(dep.weight, 5);
        // This one was indeed exclusive!
        assert!(dep.is_exclusive)
    }
    {
        // Most significant bit set => is exclusive!
        let buf = [255, 255, 255, 255, 5];

        let dep = StreamDependency::parse(&buf);

        assert_eq!(dep.stream_id, (1 << 31) - 1);
        assert_eq!(dep.weight, 5);
        // This one was indeed exclusive!
        assert!(dep.is_exclusive);
    }
    {
        let buf = [127, 255, 255, 255, 5];

        let dep = StreamDependency::parse(&buf);

        assert_eq!(dep.stream_id, (1 << 31) - 1);
        assert_eq!(dep.weight, 5);
        // This one was not exclusive!
        assert!(!dep.is_exclusive);
    }
}

/// Tests that a stream dependency structure can be correctly serialized by
/// the `StreamDependency::serialize` method.
#[test]
fn test_serialize_stream_dependency() {
    {
        let buf = [0, 0, 0, 1, 5];
        let dep = StreamDependency::new(1, 5, false);

        assert_eq!(buf, dep.serialize());
    }
    {
        // Most significant bit set => is exclusive!
        let buf = [128, 0, 0, 1, 5];
        let dep = StreamDependency::new(1, 5, true);

        assert_eq!(buf, dep.serialize());
    }
    {
        // Most significant bit set => is exclusive!
        let buf = [255, 255, 255, 255, 5];
        let dep = StreamDependency::new((1 << 31) - 1, 5, true);

        assert_eq!(buf, dep.serialize());
    }
    {
        let buf = [127, 255, 255, 255, 5];
        let dep = StreamDependency::new((1 << 31) - 1, 5, false);

        assert_eq!(buf, dep.serialize());
    }
}

/// Tests that a simple HEADERS frame is correctly parsed. The frame does
/// not contain any padding nor priority information.
#[test]
fn test_headers_frame_parse_simple() {
    let data = b"123";
    let payload = data.to_vec();
    let header = FrameHeader::new(payload.len() as u32, 0x1, 0, 1);

    let raw = raw_frame_from_parts(header.clone(), payload.to_vec());
    let frame: HeadersFrame = HeadersFrame::from_raw(&raw).unwrap();

    assert_eq!(frame.header_fragment(), &data[..]);
    assert_eq!(frame.flags.0, 0);
    assert_eq!(frame.get_stream_id(), 1);
    assert!(frame.stream_dep.is_none());
    assert_eq!(0, frame.padding_len);
}

/// Tests that a HEADERS frame with padding is correctly parsed.
#[test]
fn test_headers_frame_parse_with_padding() {
    let data = b"123";
    let payload = build_padded_frame_payload(data, 6);
    let header = FrameHeader::new(payload.len() as u32, 0x1, 0x08, 1);

    let raw = raw_frame_from_parts(header.clone(), payload.to_vec());
    let frame: HeadersFrame = HeadersFrame::from_raw(&raw).unwrap();

    assert_eq!(frame.header_fragment(), &data[..]);
    assert_eq!(frame.flags.0, 8);
    assert_eq!(frame.get_stream_id(), 1);
    assert!(frame.stream_dep.is_none());
    assert_eq!(6, frame.padding_len);
}

/// Tests that a HEADERS frame with the priority flag (and necessary fields)
/// is correctly parsed.
#[test]
fn test_headers_frame_parse_with_priority() {
    let data = b"123";
    let dep = StreamDependency::new(0, 5, true);
    let payload = {
        let mut buf: Vec<u8> = Vec::new();
        buf.extend(dep.serialize().to_vec().into_iter());
        buf.extend(data.to_vec().into_iter());

        buf
    };
    let header = FrameHeader::new(payload.len() as u32, 0x1, 0x20, 1);

    let raw = raw_frame_from_parts(header.clone(), payload.to_vec());
    let frame: HeadersFrame = HeadersFrame::from_raw(&raw).unwrap();

    assert_eq!(frame.header_fragment(), &data[..]);
    assert_eq!(frame.flags.0, 0x20);
    assert_eq!(frame.get_stream_id(), 1);
    assert_eq!(frame.stream_dep.unwrap(), dep);
    assert_eq!(0, frame.padding_len);
}

/// Tests that a HEADERS frame with both padding and priority gets
/// correctly parsed.
#[test]
fn test_headers_frame_parse_padding_and_priority() {
    let data = b"123";
    let dep = StreamDependency::new(0, 5, true);
    let full = {
        let mut buf: Vec<u8> = Vec::new();
        buf.extend(dep.serialize().to_vec().into_iter());
        buf.extend(data.to_vec().into_iter());

        buf
    };
    let payload = build_padded_frame_payload(&full, 4);
    let header = FrameHeader::new(payload.len() as u32, 0x1, 0x20 | 0x8, 1);

    let raw = raw_frame_from_parts(header.clone(), payload.to_vec());
    let frame: HeadersFrame = HeadersFrame::from_raw(&raw).unwrap();

    assert_eq!(frame.header_fragment(), &data[..]);
    assert_eq!(frame.flags.0, 0x20 | 0x8);
    assert_eq!(frame.get_stream_id(), 1);
    assert_eq!(frame.stream_dep.unwrap(), dep);
    assert_eq!(4, frame.padding_len);
}

/// Tests that a HEADERS with stream ID 0 is considered invalid.
#[test]
fn test_headers_frame_parse_invalid_stream_id() {
    let data = b"123";
    let payload = data.to_vec();
    let header = FrameHeader::new(payload.len() as u32, 0x1, 0, 0);

    let raw = raw_frame_from_parts(header, payload);
    let frame = HeadersFrame::from_raw(&raw);

    assert!(frame.is_err());
}

/// Tests that the `HeadersFrame::parse` method considers any frame with
/// a frame ID other than 1 in the frame header invalid.
#[test]
fn test_headers_frame_parse_invalid_type() {
    let data = b"123";
    let payload = data.to_vec();
    let header = FrameHeader::new(payload.len() as u32, 0x2, 0, 1);

    let raw = raw_frame_from_parts(header, payload);
    let frame = HeadersFrame::from_raw(&raw);

    assert!(frame.is_err());
}

/// Tests that a simple HEADERS frame (no padding, no priority) gets
/// correctly serialized.
#[test]
fn test_headers_frame_serialize_simple() {
    let data = b"123";
    let payload = data.to_vec();
    let header = FrameHeader::new(payload.len() as u32, 0x1, 0, 1);
    let expected = {
        let headers = pack_header(&header);
        let mut res: Vec<u8> = Vec::new();
        res.extend(headers.to_vec().into_iter());
        res.extend(payload.into_iter());

        res
    };
    let frame = HeadersFrame::new_conv(data.to_vec(), 1);

    let actual = frame.serialize_into_vec();

    assert_eq!(expected, actual);
}

/// Tests that a HEADERS frame with padding is correctly serialized.
#[test]
fn test_headers_frame_serialize_with_padding() {
    let data = b"123";
    let payload = build_padded_frame_payload(data, 6);
    let header = FrameHeader::new(payload.len() as u32, 0x1, 0x08, 1);
    let expected = {
        let headers = pack_header(&header);
        let mut res: Vec<u8> = Vec::new();
        res.extend(headers.to_vec().into_iter());
        res.extend(payload.into_iter());

        res
    };
    let mut frame = HeadersFrame::new_conv(data.to_vec(), 1);
    frame.set_padding(6);

    let actual = frame.serialize_into_vec();

    assert_eq!(expected, actual);
}

/// Tests that a HEADERS frame with priority gets correctly serialized.
#[test]
fn test_headers_frame_serialize_with_priority() {
    let data = b"123";
    let dep = StreamDependency::new(0, 5, true);
    let payload = {
        let mut buf: Vec<u8> = Vec::new();
        buf.extend(dep.serialize().to_vec().into_iter());
        buf.extend(data.to_vec().into_iter());

        buf
    };
    let header = FrameHeader::new(payload.len() as u32, 0x1, 0x20, 1);
    let expected = {
        let headers = pack_header(&header);
        let mut res: Vec<u8> = Vec::new();
        res.extend(headers.to_vec().into_iter());
        res.extend(payload.into_iter());

        res
    };
    let frame = HeadersFrame::with_dependency(data.to_vec(), 1, dep.clone());

    let actual = frame.serialize_into_vec();

    assert_eq!(expected, actual);
}

/// Tests that a HEADERS frame with both padding and a priority gets correctly
/// serialized.
#[test]
fn test_headers_frame_serialize_padding_and_priority() {
    let data = b"123";
    let dep = StreamDependency::new(0, 5, true);
    let full = {
        let mut buf: Vec<u8> = Vec::new();
        buf.extend(dep.serialize().to_vec().into_iter());
        buf.extend(data.to_vec().into_iter());

        buf
    };
    let payload = build_padded_frame_payload(&full, 4);
    let header = FrameHeader::new(payload.len() as u32, 0x1, 0x20 | 0x8, 1);
    let expected = {
        let headers = pack_header(&header);
        let mut res: Vec<u8> = Vec::new();
        res.extend(headers.to_vec().into_iter());
        res.extend(payload.into_iter());

        res
    };
    let mut frame = HeadersFrame::with_dependency(data.to_vec(), 1, dep.clone());
    frame.set_padding(4);

    let actual = frame.serialize_into_vec();

    assert_eq!(expected, actual);
}

/// Tests that the `HeadersFrame::is_headers_end` method returns the correct
/// value depending on the `EndHeaders` flag being set or not.
#[test]
fn test_headers_frame_is_headers_end() {
    let mut frame = HeadersFrame::new_conv(Vec::new(), 1);
    assert!(!frame.is_headers_end());

    frame.set_flag(HeadersFlag::EndHeaders);
    assert!(frame.is_headers_end());
}

#[test]
fn test_headers_multi_frame() {
    let mut encoder = Encoder::new();

    let mut headers = Headers::ok_200();
    for i in 0..1000 {
        headers.add(&format!("h-{}", i), &format!("v-{}", i))
    }

    let max_frame_size = 1000;

    let serialized = HeadersMultiFrame {
        flags: Flags::new(0).with(HeadersFlag::EndStream),
        stream_id: 2,
        headers,
        stream_dep: None,
        padding_len: 0,
        encoder: &mut encoder,
        max_frame_size,
    }
    .serialize_into_vec();

    let frames = unpack_frames(&serialized).unwrap();
    assert!(frames.len() > 2);
    for (i, f) in frames.iter().enumerate() {
        match f {
            HttpFrame::Headers(h) => {
                assert_eq!(0, i);
                assert_eq!(max_frame_size as usize, h.header_fragment.len());
                assert_eq!(Flags::new(0).with(HeadersFlag::EndStream), h.flags);
            }
            HttpFrame::Continuation(h) => {
                assert_ne!(0, i);
                let last = i == frames.len() - 1;
                if !last {
                    assert_eq!(max_frame_size as usize, h.header_fragment.len());
                    assert_eq!(Flags::new(0), h.flags);
                } else {
                    assert_eq!(Flags::new(0).with(ContinuationFlag::EndHeaders), h.flags);
                }
            }
            _ => panic!("wrong frame type"),
        }
    }
}

#[test]
fn headers_multi_frame_reassembles_to_the_encoded_block() {
    let mut headers = Headers::ok_200();
    for i in 0..40 {
        headers.add(&format!("name-{}", i), &format!("value-{}", i));
    }
    let block = Encoder::new().encode(&headers);
    assert!(block.len() > 64);

    let mut encoder = Encoder::new();
    let serialized = HeadersMultiFrame {
        flags: Flags::new(0),
        stream_id: 7,
        headers,
        stream_dep: None,
        padding_len: 0,
        encoder: &mut encoder,
        max_frame_size: 64,
    }
    .serialize_into_vec();
    let frames = unpack_frames(&serialized).unwrap();
    assert_eq!((block.len() + 63) / 64, frames.len());
    let mut joined: Vec<u8> = Vec::new();
    for f in frames.iter() {
        match f {
            HttpFrame::Headers(h) => joined.extend(h.header_fragment().to_vec()),
            HttpFrame::Continuation(h) => joined.extend(h.header_fragment().to_vec()),
            _ => panic!("wrong frame type"),
        }
    }
    assert_eq!(block, joined);
}

#[test]
fn headers_multi_frame_with_block_that_fits_one_frame() {
    let mut encoder = Encoder::new();
    let serialized = HeadersMultiFrame {
        flags: Flags::new(0).with(HeadersFlag::EndStream),
        stream_id: 1,
        headers: Headers::ok_200(),
        stream_dep: None,
        padding_len: 0,
        encoder: &mut encoder,
        max_frame_size: 16384,
    }
    .serialize_into_vec();
    // ":status: 200" stands in the static table at index 8.
    assert_eq!(vec![0, 0, 1, 0x1, 0x5, 0, 0, 0, 1, 0x88], serialized);
}

#[test]
fn headers_frame_errors_are_told_apart() {
    let on_itself = raw_frame_from_parts(
        FrameHeader::new(5, 0x1, 0x20, 3),
        StreamDependency::new(3, 1, false).serialize().to_vec(),
    );
    assert_eq!(
        Some(ParseFrameError::StreamDependencyOnItself(3)),
        HeadersFrame::from_raw(&on_itself).err()
    );
    let short_dependency = raw_frame_from_parts(FrameHeader::new(2, 0x1, 0x20, 3), vec![0, 0]);
    assert_eq!(
        Some(ParseFrameError::IncorrectFrameLength(2)),
        HeadersFrame::from_raw(&short_dependency).err()
    );
    let bad_padding = raw_frame_from_parts(FrameHeader::new(1, 0x1, 0x8, 3), vec![1]);
    assert_eq!(Some(ParseFrameError::BadPaddingLength), HeadersFrame::from_raw(&bad_padding).err());
}

#[test]
fn headers_decoded_frame_getters() {
    let frame = HeadersDecodedFrame {
        flags: Flags::new(0x1),
        stream_id: 9,
        headers: Headers::ok_200(),
        stream_dep: None,
        padding_len: 0,
    };
    assert!(frame.is_end_of_stream());
    assert_eq!(9, frame.get_stream_id());
}
