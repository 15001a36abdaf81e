use bytes::Bytes;
use httpbis::solicit::frame::headers::StreamDependency;
use httpbis::solicit::frame::priority::PriorityFrame;
use httpbis::solicit::frame::push_promise::{PushPromiseFlag, PushPromiseFrame};
use httpbis::solicit::preface::{check_preface, client_handshake_bytes, preface, PrefaceCheck};
use httpbis::codec::frame_reader::FrameReader;
use httpbis::codec::join_continuation::{JoinContinuation, Joined};
use httpbis::error::Error;
use httpbis::solicit::error_code::{ErrorCode, ErrorCodeOrUnknown};
use httpbis::solicit::frame::continuation::{ContinuationFlag, ContinuationFrame};
use httpbis::solicit::frame::flags::{Flag, Flags};
use httpbis::solicit::frame::goaway::GoawayFrame;
use httpbis::solicit::frame::headers::{HeadersFlag, HeadersFrame};
use httpbis::solicit::frame::http_frame::{unpack_frames, HttpFrame};
use httpbis::solicit::frame::ping::PingFrame;
use httpbis::solicit::frame::settings::{HttpSetting, HttpSettings, SettingsFrame};
use httpbis::solicit::frame::window_update::WindowUpdateFrame;
use httpbis::solicit::frame::{
    pack_header, parse_padded_payload, FrameHeader, HttpFrameType, ParseFrameError, RawFrame,
};

fn raw(header: FrameHeader, payload: Vec<u8>) -> RawFrame {
    let mut buf = pack_header(&header).to_vec();
    buf.extend(payload);
    RawFrame::from(buf)
}

#[test]
fn error_codes_map_to_wire_numbers() {
    assert_eq!(0x0, ErrorCode::NoError.to_u32());
    assert_eq!(0x8, ErrorCode::Cancel.to_u32());
    assert_eq!(0xd, ErrorCode::Http11Required.to_u32());
    assert_eq!(Some(ErrorCode::FlowControlError), ErrorCode::from_u32(3));
    assert_eq!(None, ErrorCode::from_u32(14));
    assert_eq!(ErrorCode::InternalError, ErrorCodeOrUnknown(99).to_error_code());
    assert_eq!(ErrorCodeOrUnknown(7), ErrorCodeOrUnknown::from_error_code(ErrorCode::RefusedStream));
}

#[test]
fn flags_set_and_clear() {
    let mut flags = Flags::new(0);
    assert!(!flags.is_set(HeadersFlag::Padded));
    flags.set(HeadersFlag::Padded);
    flags.set(HeadersFlag::EndStream);
    assert_eq!(0x9, flags.0);
    flags.clear(HeadersFlag::Padded);
    assert_eq!(Flags::new(0x1), flags);
    assert_eq!(
        0x25,
        Flags::default()
            .with(HeadersFlag::Priority)
            .with(HeadersFlag::EndHeaders)
            .with(HeadersFlag::EndStream)
            .0
    );
    assert_eq!(
        vec![HeadersFlag::EndStream, HeadersFlag::EndHeaders, HeadersFlag::Padded, HeadersFlag::Priority],
        HeadersFlag::flags()
    );
    assert_eq!(0x4, ContinuationFlag::EndHeaders.bitmask());
}

#[test]
fn frame_types_map_to_type_bytes() {
    assert_eq!(0x0, HttpFrameType::Data.frame_type());
    assert_eq!(0x9, HttpFrameType::Continuation.frame_type());
    assert_eq!(HttpFrameType::Goaway, HttpFrameType::from_u8(7));
    assert_eq!(HttpFrameType::Unknown(0x20), HttpFrameType::from_u8(0x20));
    assert_eq!(0x20, HttpFrameType::Unknown(0x20).frame_type());
}

#[test]
fn parse_errors_are_classified() {
    assert_eq!(ErrorCode::ProtocolError, ParseFrameError::ContinuationExpected.error_code());
    assert_eq!(ErrorCode::FrameSizeError, ParseFrameError::IncorrectFrameLength(3).error_code());
    assert_eq!(ErrorCode::InternalError, ParseFrameError::InternalError.error_code());
    assert_eq!(ErrorCode::ProtocolError, ParseFrameError::StreamIdMustBeZero.error_code());
}

#[test]
fn padded_payload_is_unpadded() {
    let (content, pad) = parse_padded_payload(Bytes::from(vec![2, 7, 8, 0, 0]), true).unwrap();
    assert_eq!(&[7, 8][..], &content[..]);
    assert_eq!(2, pad);
    let (content, pad) = parse_padded_payload(Bytes::from(vec![2, 7, 8]), false).unwrap();
    assert_eq!(&[2, 7, 8][..], &content[..]);
    assert_eq!(0, pad);
    assert_eq!(
        Some(ParseFrameError::BadPaddingLength),
        parse_padded_payload(Bytes::from(vec![3, 7, 8]), true).err()
    );
    assert_eq!(
        Some(ParseFrameError::BadPaddingLength),
        parse_padded_payload(Bytes::new(), true).err()
    );
}

#[test]
fn settings_frame_round_trip() {
    let frame = SettingsFrame::from_settings(vec![
        HttpSetting::HeaderTableSize(4096),
        HttpSetting::EnablePush(false),
        HttpSetting::MaxConcurrentStreams(100),
        HttpSetting::InitialWindowSize(0x01020304),
        HttpSetting::MaxFrameSize(16384),
        HttpSetting::MaxHeaderListSize(7),
    ]);
    let bytes = frame.serialize_into_vec();
    assert_eq!(9 + 36, bytes.len());
    assert_eq!(&[0, 0, 36, 4, 0, 0, 0, 0, 0][..], &bytes[..9]);
    assert_eq!(&[0, 4, 1, 2, 3, 4][..], &bytes[9 + 18..9 + 24]);
    let parsed = SettingsFrame::from_raw(&RawFrame::from(bytes.clone())).unwrap();
    assert!(!parsed.is_ack());
    assert_eq!(6, parsed.settings.len());
    assert_eq!(HttpSetting::InitialWindowSize(0x01020304), parsed.settings[3]);
    assert_eq!(bytes, parsed.serialize_into_vec());
}

#[test]
fn settings_frame_ack_and_errors() {
    let ack = SettingsFrame::new_ack();
    assert!(ack.is_ack());
    assert_eq!(vec![0, 0, 0, 4, 1, 0, 0, 0, 0], ack.serialize_into_vec());
    assert_eq!(
        Some(ParseFrameError::StreamIdMustBeZero),
        SettingsFrame::from_raw(&raw(FrameHeader::new(0, 4, 0, 1), vec![])).err()
    );
    assert_eq!(
        Some(ParseFrameError::IncorrectFrameLength(6)),
        SettingsFrame::from_raw(&raw(FrameHeader::new(6, 4, 1, 0), vec![0, 1, 0, 0, 0, 0])).err()
    );
    assert_eq!(
        Some(ParseFrameError::IncorrectFrameLength(5)),
        SettingsFrame::from_raw(&raw(FrameHeader::new(5, 4, 0, 0), vec![0, 1, 0, 0, 0])).err()
    );
    // Unknown settings are passed over.
    let unknown = raw(FrameHeader::new(12, 4, 0, 0), vec![0, 99, 0, 0, 0, 1, 0, 3, 0, 0, 0, 9]);
    let parsed = SettingsFrame::from_raw(&unknown).unwrap();
    assert_eq!(vec![HttpSetting::MaxConcurrentStreams(9)], parsed.settings);
    let mut added = SettingsFrame::new();
    added.add_setting(HttpSetting::EnablePush(true));
    assert_eq!(vec![0, 0, 6, 4, 0, 0, 0, 0, 0, 0, 2, 0, 0, 0, 1], added.serialize_into_vec());
    assert_eq!(2, HttpSetting::EnablePush(true).get_id());
    assert_eq!(None, HttpSetting::from_id(2, 2));
}

#[test]
fn settings_apply_in_order() {
    let mut settings = HttpSettings::default_settings();
    assert_eq!(65535, settings.initial_window_size);
    assert_eq!(16384, settings.max_frame_size);
    assert_eq!(4096, settings.header_table_size);
    assert!(settings.enable_push);
    let frame = SettingsFrame::from_settings(vec![
        HttpSetting::InitialWindowSize(10),
        HttpSetting::InitialWindowSize(20),
        HttpSetting::EnablePush(false),
    ]);
    settings.apply_from_frame(&frame);
    assert_eq!(20, settings.initial_window_size);
    assert!(!settings.enable_push);
    settings.apply(HttpSetting::MaxFrameSize(20000));
    assert_eq!(20000, settings.max_frame_size);
}

#[test]
fn goaway_frame_round_trip() {
    let frame = GoawayFrame::new(5, ErrorCode::ProtocolError);
    let bytes = frame.serialize_into_vec();
    assert_eq!(vec![0, 0, 8, 7, 0, 0, 0, 0, 0, 0, 0, 0, 5, 0, 0, 0, 1], bytes);
    let mut with_debug = bytes.clone();
    with_debug[2] = 10;
    with_debug.extend_from_slice(b"hi");
    let parsed = GoawayFrame::from_raw(&RawFrame::from(with_debug.clone())).unwrap();
    assert_eq!(5, parsed.last_stream_id);
    assert_eq!(ErrorCode::ProtocolError, parsed.error_code());
    assert_eq!(&b"hi"[..], &parsed.debug_data[..]);
    assert_eq!(with_debug, parsed.serialize_into_vec());
    assert_eq!(
        Some(ParseFrameError::IncorrectFrameLength(4)),
        GoawayFrame::from_raw(&raw(FrameHeader::new(4, 7, 0, 0), vec![0; 4])).err()
    );
    assert_eq!(
        Some(ParseFrameError::StreamIdMustBeZero),
        GoawayFrame::from_raw(&raw(FrameHeader::new(8, 7, 0, 3), vec![0; 8])).err()
    );
}

#[test]
fn window_update_frame_round_trip() {
    let frame = WindowUpdateFrame::for_stream(3, 0x01020304);
    let bytes = frame.serialize_into_vec();
    assert_eq!(vec![0, 0, 4, 8, 0, 0, 0, 0, 3, 1, 2, 3, 4], bytes);
    assert_eq!(Ok(frame), WindowUpdateFrame::from_raw(&RawFrame::from(bytes)));
    assert_eq!(0, WindowUpdateFrame::for_connection(7).stream_id);
    // The reserved bit of the increment is dropped.
    let reserved = raw(FrameHeader::new(4, 8, 0, 0), vec![0x80, 0, 0, 1]);
    assert_eq!(1, WindowUpdateFrame::from_raw(&reserved).unwrap().increment);
    assert_eq!(
        Err(ParseFrameError::IncorrectFrameLength(3)),
        WindowUpdateFrame::from_raw(&raw(FrameHeader::new(3, 8, 0, 0), vec![0, 0, 1]))
    );
}

#[test]
fn ping_frame_round_trip() {
    let frame = PingFrame::with_data([1, 2, 3, 4, 5, 6, 7, 8]);
    assert!(!frame.is_ack());
    let bytes = frame.serialize_into_vec();
    assert_eq!(vec![0, 0, 8, 6, 0, 0, 0, 0, 0, 1, 2, 3, 4, 5, 6, 7, 8], bytes);
    assert_eq!(Ok(frame), PingFrame::from_raw(&RawFrame::from(bytes)));
    let ack = PingFrame::new_ack([9; 8]);
    assert!(ack.is_ack());
    assert_eq!(
        Err(ParseFrameError::IncorrectFrameLength(7)),
        PingFrame::from_raw(&raw(FrameHeader::new(7, 6, 0, 0), vec![0; 7]))
    );
    assert_eq!(
        Err(ParseFrameError::StreamIdMustBeZero),
        PingFrame::from_raw(&raw(FrameHeader::new(8, 6, 0, 1), vec![0; 8]))
    );
}

#[test]
fn continuation_frame_round_trip() {
    let mut frame = ContinuationFrame::new(Bytes::from(vec![1, 2, 3]), 5);
    assert!(!frame.is_headers_end());
    frame.set_flag(ContinuationFlag::EndHeaders);
    assert!(frame.is_headers_end());
    let bytes = frame.serialize_into_vec();
    assert_eq!(vec![0, 0, 3, 9, 4, 0, 0, 0, 5, 1, 2, 3], bytes);
    let parsed = ContinuationFrame::from_raw(&RawFrame::from(bytes.clone())).unwrap();
    assert_eq!(5, parsed.get_stream_id());
    assert_eq!(&[1, 2, 3][..], parsed.header_fragment());
    assert_eq!(bytes, parsed.serialize_into_vec());
    assert_eq!(
        Some(ParseFrameError::StreamIdMustBeNonZero),
        ContinuationFrame::from_raw(&raw(FrameHeader::new(0, 9, 0, 0), vec![])).err()
    );
}

#[test]
fn unpack_frames_reads_a_stream_of_frames() {
    let mut bytes = PingFrame::with_data([0; 8]).serialize_into_vec();
    bytes.extend(WindowUpdateFrame::for_connection(1).serialize_into_vec());
    bytes.extend(vec![0, 0, 1, 0x77, 0, 0, 0, 0, 1, 9]);
    let frames = unpack_frames(&bytes).unwrap();
    assert_eq!(3, frames.len());
    assert!(matches!(frames[0], HttpFrame::Ping(_)));
    assert!(matches!(frames[1], HttpFrame::WindowUpdate(_)));
    assert!(matches!(frames[2], HttpFrame::Unknown(_)));
    assert_eq!(1, frames[2].get_stream_id());
    // A stream that ends in the middle of a frame.
    bytes.extend(vec![0, 0, 5, 0, 0]);
    assert_eq!(Some(ParseFrameError::InternalError), unpack_frames(&bytes).err());
    assert_eq!(0, unpack_frames(&[]).unwrap().len());
}

#[test]
fn join_continuation_puts_a_block_together() {
    let mut join = JoinContinuation::new();
    let first = HeadersFrame::new_conv(vec![1, 2], 3);
    assert!(matches!(join.push(HttpFrame::Headers(first)), Ok(Joined::Partial)));
    assert!(join.is_pending());
    let middle = ContinuationFrame::new(Bytes::from(vec![3]), 3);
    assert!(matches!(join.push(HttpFrame::Continuation(middle)), Ok(Joined::Partial)));
    let mut last = ContinuationFrame::new(Bytes::from(vec![4, 5]), 3);
    last.set_flag(ContinuationFlag::EndHeaders);
    match join.push(HttpFrame::Continuation(last)) {
        Ok(Joined::Headers(block)) => {
            assert_eq!(vec![1, 2, 3, 4, 5], block.block);
            assert_eq!(3, block.stream_id);
            assert_eq!(0x4, block.flags.0);
        }
        other => panic!("unexpected: {:?}", other),
    }
    assert!(!join.is_pending());
    // Other frames pass through while no block is open.
    let ping = HttpFrame::Ping(PingFrame::with_data([0; 8]));
    assert!(matches!(join.push(ping), Ok(Joined::Frame(HttpFrame::Ping(_)))));
    // A single frame with END_HEADERS is a block at once.
    let mut whole = HeadersFrame::new_conv(vec![9], 5);
    whole.set_flag(HeadersFlag::EndHeaders);
    assert!(matches!(join.push(HttpFrame::Headers(whole)), Ok(Joined::Headers(_))));
}

#[test]
fn join_continuation_refuses_interleaving() {
    let mut join = JoinContinuation::new();
    let stray = ContinuationFrame::new(Bytes::new(), 3);
    assert_eq!(
        Some(ParseFrameError::ContinuationExpected),
        join.push(HttpFrame::Continuation(stray)).err()
    );
    let first = HeadersFrame::new_conv(vec![1, 2], 3);
    assert!(join.push(HttpFrame::Headers(first)).is_ok());
    let ping = HttpFrame::Ping(PingFrame::with_data([0; 8]));
    assert_eq!(Some(ParseFrameError::ContinuationExpected), join.push(ping).err());
    assert!(!join.is_pending());
}

#[test]
fn priority_frame_round_trip() {
    let frame = PriorityFrame::new(5, StreamDependency::new(3, 9, true));
    let bytes = frame.serialize_into_vec();
    assert_eq!(vec![0, 0, 5, 2, 0, 0, 0, 0, 5, 0x80, 0, 0, 3, 9], bytes);
    assert_eq!(Ok(frame), PriorityFrame::from_raw(&RawFrame::from(bytes.clone())));
    match &unpack_frames(&bytes).unwrap()[0] {
        HttpFrame::Priority(p) => assert_eq!(3, p.stream_dep.stream_id),
        other => panic!("unexpected: {:?}", other),
    }
    assert_eq!(
        Err(ParseFrameError::StreamDependencyOnItself(3)),
        PriorityFrame::from_raw(&raw(FrameHeader::new(5, 2, 0, 3), vec![0, 0, 0, 3, 0]))
    );
    assert_eq!(
        Err(ParseFrameError::IncorrectFrameLength(4)),
        PriorityFrame::from_raw(&raw(FrameHeader::new(4, 2, 0, 3), vec![0, 0, 0, 1]))
    );
    assert_eq!(
        Err(ParseFrameError::StreamIdMustBeNonZero),
        PriorityFrame::from_raw(&raw(FrameHeader::new(5, 2, 0, 0), vec![0, 0, 0, 1, 0]))
    );
}

#[test]
fn push_promise_frame_round_trip() {
    let mut frame = PushPromiseFrame::new(1, 2, Bytes::from(vec![0x82]));
    assert!(!frame.is_headers_end());
    frame.set_flag(PushPromiseFlag::EndHeaders);
    assert!(frame.is_headers_end());
    let bytes = frame.clone().serialize_into_vec();
    assert_eq!(vec![0, 0, 5, 5, 4, 0, 0, 0, 1, 0, 0, 0, 2, 0x82], bytes);
    assert_eq!(Ok(frame), PushPromiseFrame::from_raw(&RawFrame::from(bytes)));
    // With padding.
    let padded = raw(FrameHeader::new(8, 5, 0x8, 1), vec![2, 0, 0, 0, 4, 0x82, 0, 0]);
    let parsed = PushPromiseFrame::from_raw(&padded).unwrap();
    assert_eq!(4, parsed.promised_stream_id);
    assert_eq!(&[0x82][..], parsed.header_fragment());
    assert_eq!(2, parsed.padding_len);
    assert_eq!(
        vec![0, 0, 8, 5, 8, 0, 0, 0, 1, 2, 0, 0, 0, 4, 0x82, 0, 0],
        parsed.serialize_into_vec()
    );
    assert_eq!(
        Some(ParseFrameError::IncorrectFrameLength(3)),
        PushPromiseFrame::from_raw(&raw(FrameHeader::new(3, 5, 0, 1), vec![0, 0, 0])).err()
    );
    assert_eq!(
        Some(ParseFrameError::StreamIdMustBeNonZero),
        PushPromiseFrame::from_raw(&raw(FrameHeader::new(4, 5, 0, 0), vec![0, 0, 0, 2])).err()
    );
    assert_eq!(
        Some(ParseFrameError::BadPaddingLength),
        PushPromiseFrame::from_raw(&raw(FrameHeader::new(2, 5, 8, 1), vec![5, 0])).err()
    );
}

#[test]
fn join_continuation_takes_push_promise() {
    let mut join = JoinContinuation::new();
    let promise = PushPromiseFrame::new(1, 2, Bytes::from(vec![1]));
    assert!(matches!(join.push(HttpFrame::PushPromise(promise)), Ok(Joined::Partial)));
    let mut last = ContinuationFrame::new(Bytes::from(vec![2]), 1);
    last.set_flag(ContinuationFlag::EndHeaders);
    match join.push(HttpFrame::Continuation(last)) {
        Ok(Joined::Headers(block)) => {
            assert_eq!(vec![1, 2], block.block);
            assert_eq!(Some(2), block.promised_stream_id);
        }
        other => panic!("unexpected: {:?}", other),
    }
}

#[test]
fn preface_is_checked_byte_by_byte() {
    assert_eq!(b"PRI * HTTP/2.0\r\n\r\nSM\r\n\r\n", &preface());
    assert_eq!(PrefaceCheck::Incomplete, check_preface(b""));
    assert_eq!(PrefaceCheck::Incomplete, check_preface(b"PRI * HTTP"));
    assert_eq!(PrefaceCheck::Mismatch, check_preface(b"PRI * HTTP/1.1"));
    assert_eq!(PrefaceCheck::Complete, check_preface(b"PRI * HTTP/2.0\r\n\r\nSM\r\n\r\nrest"));
    assert_eq!(PrefaceCheck::Mismatch, check_preface(b"PRI * HTTP/2.0\r\n\r\nSM\r\n\r\r"));
    let bytes = client_handshake_bytes(SettingsFrame::from_settings(vec![HttpSetting::EnablePush(
        false,
    )]));
    assert_eq!(&preface()[..], &bytes[..24]);
    assert_eq!(&[0, 0, 6, 4, 0, 0, 0, 0, 0, 0, 2, 0, 0, 0, 0][..], &bytes[24..]);
}

#[test]
fn frame_reader_waits_for_whole_frames() {
    let mut reader = FrameReader::new();
    assert_eq!(0, reader.pending_len());
    assert!(matches!(reader.next_joined(16384), Ok(None)));
    let ping = PingFrame::with_data([1, 2, 3, 4, 5, 6, 7, 8]).serialize_into_vec();
    reader.extend(&ping[..5]);
    assert!(matches!(reader.next_joined(16384), Ok(None)));
    reader.extend(&ping[5..16]);
    assert!(matches!(reader.next_joined(16384), Ok(None)));
    assert_eq!(16, reader.pending_len());
    // The last byte of the frame comes with the first bytes of the next.
    reader.extend(&ping[16..]);
    reader.extend(&[0, 0, 4]);
    match reader.next_joined(16384) {
        Ok(Some(Joined::Frame(HttpFrame::Ping(frame)))) => {
            assert_eq!([1, 2, 3, 4, 5, 6, 7, 8], frame.opaque_data);
        }
        other => panic!("unexpected: {:?}", other),
    }
    assert_eq!(3, reader.pending_len());
    assert!(matches!(reader.next_joined(16384), Ok(None)));
    assert_eq!(3, reader.pending_len());
}

#[test]
fn frame_reader_joins_header_blocks() {
    let mut reader = FrameReader::new();
    // HEADERS without END_HEADERS, then CONTINUATION with it, then DATA.
    reader.extend(&[0, 0, 2, 1, 1, 0, 0, 0, 3, 0x82, 0x84]);
    reader.extend(&[0, 0, 1, 9, 4, 0, 0, 0, 3, 0x86]);
    reader.extend(&[0, 0, 1, 0, 0, 0, 0, 0, 3, b'x']);
    assert!(matches!(reader.next_joined(16384), Ok(Some(Joined::Partial))));
    match reader.next_joined(16384) {
        Ok(Some(Joined::Headers(block))) => {
            assert_eq!(vec![0x82, 0x84, 0x86], block.block);
            assert_eq!(3, block.stream_id);
            assert_eq!(0x5, block.flags.0);
        }
        other => panic!("unexpected: {:?}", other),
    }
    assert!(matches!(reader.next_joined(16384), Ok(Some(Joined::Frame(HttpFrame::Data(_))))));
    assert!(matches!(reader.next_joined(16384), Ok(None)));
    assert_eq!(0, reader.pending_len());
}

#[test]
fn frame_reader_reports_errors() {
    // A header that announces more than is accepted, before the payload is there.
    let mut reader = FrameReader::new();
    reader.extend(&[0, 0x40, 1, 0, 0, 0, 0, 0, 1]);
    assert_eq!(
        Some(Error::CodeError(ErrorCode::FrameSizeError)),
        reader.next_joined(16384).err()
    );
    // The same header is accepted with a larger limit, and waits for its payload.
    let mut reader = FrameReader::new();
    reader.extend(&[0, 0x40, 1, 0, 0, 0, 0, 0, 1]);
    assert!(matches!(reader.next_joined(16385), Ok(None)));
    // A frame that cannot be read.
    let mut reader = FrameReader::new();
    reader.extend(&[0, 0, 3, 3, 0, 0, 0, 0, 1, 0, 0, 0]);
    assert_eq!(
        Some(Error::ParseFrameError(ParseFrameError::InternalError)),
        reader.next_joined(16384).err()
    );
    // Another frame while a header block is open.
    let mut reader = FrameReader::new();
    reader.extend(&[0, 0, 1, 1, 0, 0, 0, 0, 1, 0x82]);
    reader.extend(&[0, 0, 8, 6, 0, 0, 0, 0, 0, 1, 2, 3, 4, 5, 6, 7, 8]);
    assert!(matches!(reader.next_joined(16384), Ok(Some(Joined::Partial))));
    assert_eq!(
        Some(Error::ParseFrameError(ParseFrameError::ContinuationExpected)),
        reader.next_joined(16384).err()
    );
}
