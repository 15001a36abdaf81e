use bytes::Bytes;
use httpbis::client::conn::ClientReader;
use httpbis::client::conn::{
    client_initial_settings, ClientConnCallbacks, ClientConnData, ClientStartRequestMessage,
    ClientStreamData, ClientToWriteMessage, StartRequestMessage,
};
use httpbis::client::increase_in_window::ClientIncreaseInWindow;
use httpbis::client::req::ClientRequest;
use httpbis::client::stream_handler::{
    ClientStreamCreatedHandler, ClientStreamHandler, ClientStreamHandlerHolder,
};
use httpbis::codec::join_continuation::JoinContinuation;
use httpbis::common::conn::{Conn, ConnRole};
use httpbis::common::conn_read::Inbound;
use httpbis::common::conn_write::{CommonToWriteMessage, WriteAction, WRITE_BUFFER_CAPACITY};
use httpbis::common::iteration_exit::IterationExit;
use httpbis::common::stream::{InMessageStage, StreamState};
use httpbis::data_or_headers::DataOrHeaders;
use httpbis::data_or_headers_with_flag::DataOrHeadersWithFlag;
use httpbis::error::Error;
use httpbis::hpack::decoder::Decoder;
use httpbis::solicit::end_stream::EndStream;
use httpbis::solicit::error_code::ErrorCode;
use httpbis::solicit::frame::continuation::ContinuationFrame;
use httpbis::solicit::frame::headers::HeadersFrame;
use httpbis::solicit::frame::http_frame::{unpack_frames, HttpFrame};
use httpbis::solicit::frame::ping::PingFrame;
use httpbis::solicit::frame::settings::{HttpSetting, SettingsFrame};
use httpbis::solicit::frame::ParseFrameError;
use httpbis::solicit::header::Headers;
use std::cell::RefCell;
use std::rc::Rc;

type Log = Rc<RefCell<Vec<String>>>;

struct Recorder {
    log: Log,
}

impl ClientStreamHandler for Recorder {
    fn headers(&mut self, headers: Headers, end_stream: bool) -> Result<(), Error> {
        let first = &headers.headers[0];
        self.log.borrow_mut().push(format!(
            "headers {}={} {}",
            String::from_utf8_lossy(first.name()),
            String::from_utf8_lossy(first.value()),
            end_stream
        ));
        Ok(())
    }

    fn data_frame(&mut self, data: Bytes, end_stream: bool) -> Result<(), Error> {
        self.log
            .borrow_mut()
            .push(format!("data {} {}", String::from_utf8_lossy(&data), end_stream));
        Ok(())
    }

    fn trailers(&mut self, trailers: Headers) -> Result<(), Error> {
        self.log.borrow_mut().push(format!("trailers {}", trailers.len()));
        Ok(())
    }

    fn rst(&mut self, error_code: ErrorCode) -> Result<(), Error> {
        self.log.borrow_mut().push(format!("rst {:?}", error_code));
        Ok(())
    }

    fn error(&mut self, error: Error) -> Result<(), Error> {
        self.log.borrow_mut().push(format!("error {:?}", error));
        Ok(())
    }
}

struct Created {
    log: Log,
    accept: bool,
}

impl ClientStreamCreatedHandler for Created {
    type Handler = Recorder;

    fn request_created(
        &mut self,
        req: ClientRequest,
        increase_in_window: ClientIncreaseInWindow,
    ) -> Result<Recorder, Error> {
        self.log.borrow_mut().push(format!(
            "created {} {} {}",
            req.stream_id, req.out_window_size, increase_in_window.0.in_window_size
        ));
        if self.accept {
            Ok(Recorder { log: self.log.clone() })
        } else {
            Err(Error::Other("no"))
        }
    }
}

type ClientConn = Conn<ClientStreamHandlerHolder<Recorder>>;

fn get_headers() -> Headers {
    let mut headers = Headers::new();
    headers.add(":method", "GET");
    headers.add(":scheme", "http");
    headers.add(":path", "/hi");
    headers.add(":authority", "localhost");
    headers
}

fn start(
    conn: &mut ClientConn,
    log: &Log,
    body: Option<Bytes>,
    end_stream: bool,
) -> Result<(), Error> {
    conn.process_start(ClientStartRequestMessage {
        start: StartRequestMessage {
            headers: get_headers(),
            body,
            trailers: None,
            end_stream,
            stream_handler: Created { log: log.clone(), accept: true },
        },
    })
}

/// Takes everything that waits for the transport.
fn take_queued(conn: &mut ClientConn) -> Vec<u8> {
    let bytes = conn.queued_write.bytes().to_vec();
    conn.queued_write.advance(bytes.len());
    bytes
}

#[test]
fn client_get_without_body_receives_response() {
    let log: Log = Rc::new(RefCell::new(Vec::new()));
    let mut conn = ClientConn::new(ConnRole::Client);
    start(&mut conn, &log, None, true).unwrap();
    assert_eq!(1, conn.last_local_stream_id);

    // One HEADERS frame went out, with END_STREAM and END_HEADERS.
    let frames = unpack_frames(&take_queued(&mut conn)).unwrap();
    assert_eq!(1, frames.len());
    match &frames[0] {
        HttpFrame::Headers(h) => {
            assert_eq!(1, h.stream_id);
            assert_eq!(0x1 | 0x4, h.flags.0);
            let decoded = Decoder::new().decode(h.header_fragment()).unwrap();
            assert_eq!(4, decoded.len());
            assert_eq!(b":path", decoded.headers[2].name());
            assert_eq!(b"/hi", decoded.headers[2].value());
        }
        other => panic!("unexpected: {:?}", other),
    }
    assert_eq!(StreamState::HalfClosedLocal, conn.streams.get(1).unwrap().state);

    assert_eq!(Ok(Some(1)), conn.process_headers(1, EndStream::No, Headers::ok_200()));
    assert_eq!(
        InMessageStage::AfterInitialHeaders,
        conn.streams.get(1).unwrap().in_message_stage
    );
    assert_eq!(
        Ok(Inbound::Delivered { end_stream: true }),
        conn.process_data(1, Bytes::from_static(b"hello"), 5, true)
    );
    assert!(conn.streams.get(1).is_none());
    assert_eq!(
        vec!["created 1 65535 65535", "headers :status=200 false", "data hello true"],
        *log.borrow()
    );
    assert_eq!(65530, conn.in_window_size.0);
}

#[test]
fn client_stream_ids_are_odd_and_increase() {
    let log: Log = Rc::new(RefCell::new(Vec::new()));
    let mut conn = ClientConn::new(ConnRole::Client);
    let mut previous = 0;
    for _ in 0..5 {
        start(&mut conn, &log, None, false).unwrap();
        let id = conn.last_local_stream_id;
        assert_eq!(1, id % 2);
        assert_eq!(previous + if previous == 0 { 1 } else { 2 }, id);
        previous = id;
    }
    assert_eq!(9, previous);
    assert_eq!(5, conn.streams.len());

    let mut server: Conn<ClientStreamHandlerHolder<Recorder>> = Conn::new(ConnRole::Server);
    assert_eq!(Ok(2), server.next_local_stream_id());
    assert_eq!(Ok(4), server.next_local_stream_id());
    server.last_local_stream_id = 0x7fff_fffe;
    assert_eq!(
        Err(Error::Other("stream identifiers are used up")),
        server.next_local_stream_id()
    );
    assert_eq!(0x7fff_fffe, server.last_local_stream_id);
}

#[test]
fn cancelled_request_is_reset() {
    let log: Log = Rc::new(RefCell::new(Vec::new()));
    let mut conn = ClientConn::new(ConnRole::Client);
    conn.process_start(ClientStartRequestMessage {
        start: StartRequestMessage {
            headers: get_headers(),
            body: Some(Bytes::from_static(b"body")),
            trailers: None,
            end_stream: true,
            stream_handler: Created { log: log.clone(), accept: false },
        },
    })
    .unwrap();
    let frames = unpack_frames(&take_queued(&mut conn)).unwrap();
    assert_eq!(1, frames.len());
    match &frames[0] {
        HttpFrame::RstStream(rst) => {
            assert_eq!(1, rst.get_stream_id());
            assert_eq!(ErrorCode::InternalError, rst.error_code());
        }
        other => panic!("unexpected: {:?}", other),
    }
    assert!(conn.streams.is_empty());
}

#[test]
fn large_body_is_sent_as_windows_allow() {
    let log: Log = Rc::new(RefCell::new(Vec::new()));
    let mut conn = ClientConn::new(ConnRole::Client);
    let body: Vec<u8> = (0..200 * 1024).map(|i| (i % 251) as u8).collect();
    start(&mut conn, &log, Some(Bytes::from(body.clone())), true).unwrap();

    let mut received: Vec<u8> = Vec::new();
    let mut ended = false;
    let mut updates = 0;
    let mut headers_seen = 0;
    for _ in 0..1000 {
        let queued = take_queued(&mut conn);
        for frame in unpack_frames(&queued).unwrap() {
            match frame {
                HttpFrame::Headers(_) => headers_seen += 1,
                HttpFrame::Data(data) => {
                    assert!(!ended);
                    assert!(data.data.len() <= 16384);
                    assert_eq!(1, data.stream_id);
                    received.extend_from_slice(&data.data);
                    ended = data.is_end_of_stream();
                }
                other => panic!("unexpected: {:?}", other),
            }
        }
        if ended {
            break;
        }
        if !conn.buffer_outg_conn().unwrap() {
            // The windows are used up: the peer gives new credit.
            assert_eq!(0, received.len() % 65535);
            assert!(updates < 3);
            updates += 1;
            assert_eq!(
                Ok(Inbound::Delivered { end_stream: false }),
                conn.process_window_update(0, 65535)
            );
            assert_eq!(
                Ok(Inbound::Delivered { end_stream: false }),
                conn.process_window_update(1, 65535)
            );
            assert!(conn.buffer_outg_conn().unwrap());
        }
    }
    assert!(ended);
    assert_eq!(3, updates);
    assert_eq!(1, headers_seen);
    assert_eq!(body, received);
    assert_eq!(StreamState::HalfClosedLocal, conn.streams.get(1).unwrap().state);
}

#[test]
fn buffering_pass_holds_back_at_the_watermark() {
    let log: Log = Rc::new(RefCell::new(Vec::new()));
    let mut conn = ClientConn::new(ConnRole::Client);
    start(&mut conn, &log, Some(Bytes::from(vec![7u8; 40000])), false).unwrap();
    // The body was taken while the buffer was below the watermark, and was
    // written whole: three frames.
    let frames = unpack_frames(conn.queued_write.bytes()).unwrap();
    assert_eq!(4, frames.len());
    let queued = conn.queued_write.queued_bytes_len();
    assert!(queued >= WRITE_BUFFER_CAPACITY);
    // While the transport takes nothing, nothing more is taken from a stream.
    conn.process_common_message(CommonToWriteMessage::StreamEnqueue(
        1,
        DataOrHeadersWithFlag {
            content: DataOrHeaders::Data(Bytes::from(vec![1u8; 1000])),
            last: false,
        },
    ))
    .unwrap();
    assert_eq!(Ok(false), conn.buffer_outg_conn());
    assert_eq!(queued, conn.queued_write.queued_bytes_len());
    assert_eq!(65535 - 40000, conn.out_window_size.0);
    let snapshot = conn.dump_state();
    assert_eq!(queued, snapshot.queued_bytes_len);
    assert_eq!(1, snapshot.streams.len());
    assert_eq!(1, snapshot.single_stream(1).unwrap().queued_out_parts);
    assert!(snapshot.single_stream(3).is_none());
    // One byte below the watermark is enough for the next part.
    conn.queued_write.advance(queued - (WRITE_BUFFER_CAPACITY - 1));
    assert_eq!(Ok(true), conn.buffer_outg_conn());
    assert_eq!(WRITE_BUFFER_CAPACITY - 1 + 9 + 1000, conn.queued_write.queued_bytes_len());
    assert_eq!(65535 - 41000, conn.out_window_size.0);
    assert_eq!(Ok(false), conn.buffer_outg_conn());
}

#[test]
fn rst_stream_is_delivered_and_stream_removed() {
    let log: Log = Rc::new(RefCell::new(Vec::new()));
    let mut conn = ClientConn::new(ConnRole::Client);
    start(&mut conn, &log, None, false).unwrap();
    log.borrow_mut().clear();
    assert_eq!(
        Ok(Inbound::Delivered { end_stream: true }),
        conn.process_rst_stream(1, ErrorCode::Cancel.to_u32())
    );
    assert!(conn.streams.is_empty());
    assert_eq!(vec!["rst Cancel"], *log.borrow());
    // No further events: late frames on the closed stream are passed over.
    assert_eq!(Ok(Inbound::Ignored), conn.process_data(1, Bytes::from_static(b"x"), 1, false));
    assert_eq!(Ok(Inbound::Ignored), conn.process_rst_stream(1, 8));
    assert_eq!(Ok(None), conn.process_headers(1, EndStream::No, Headers::ok_200()));
    assert_eq!(vec!["rst Cancel"], *log.borrow());
    // A stream that was never opened breaks the protocol.
    assert_eq!(
        Err(Error::CodeError(ErrorCode::ProtocolError)),
        conn.process_rst_stream(3, 8)
    );
    assert_eq!(
        Err(Error::CodeError(ErrorCode::ProtocolError)),
        conn.process_headers(5, EndStream::No, Headers::ok_200())
    );
}

#[test]
fn settings_change_rescales_open_streams() {
    let log: Log = Rc::new(RefCell::new(Vec::new()));
    let mut conn = ClientConn::new(ConnRole::Client);
    start(&mut conn, &log, None, false).unwrap();
    start(&mut conn, &log, None, false).unwrap();
    take_queued(&mut conn);
    assert_eq!(65535, conn.streams.get(1).unwrap().out_window_size.0);
    assert_eq!(65535, conn.streams.get(3).unwrap().out_window_size.0);

    let frame = SettingsFrame::from_settings(vec![HttpSetting::InitialWindowSize(64535)]);
    assert_eq!(Ok(()), conn.process_settings(&frame));
    assert_eq!(64535, conn.streams.get(1).unwrap().out_window_size.0);
    assert_eq!(64535, conn.streams.get(3).unwrap().out_window_size.0);
    assert_eq!(64535, conn.peer_settings.initial_window_size);
    // The connection's window does not move.
    assert_eq!(65535, conn.out_window_size.0);
    // The settings were acknowledged.
    assert_eq!(vec![0, 0, 0, 4, 1, 0, 0, 0, 0], take_queued(&mut conn));

    // Subsequent sends are accounted against the new value.
    conn.process_common_message(CommonToWriteMessage::StreamEnqueue(
        1,
        DataOrHeadersWithFlag {
            content: DataOrHeaders::Data(Bytes::from(vec![1u8; 1000])),
            last: false,
        },
    ))
    .unwrap();
    assert_eq!(Ok(true), conn.buffer_outg_conn());
    assert_eq!(63535, conn.streams.get(1).unwrap().out_window_size.0);
    assert_eq!(64535, conn.out_window_size.0);
    // New streams start with the new window.
    start(&mut conn, &log, None, false).unwrap();
    assert_eq!(64535, conn.streams.get(5).unwrap().out_window_size.0);
}

#[test]
fn settings_errors_change_nothing() {
    let mut conn = ClientConn::new(ConnRole::Client);
    let too_large = SettingsFrame::from_settings(vec![HttpSetting::InitialWindowSize(0x8000_0000)]);
    assert_eq!(
        Err(Error::CodeError(ErrorCode::FlowControlError)),
        conn.process_settings(&too_large)
    );
    let small_frame = SettingsFrame::from_settings(vec![HttpSetting::MaxFrameSize(100)]);
    assert_eq!(
        Err(Error::CodeError(ErrorCode::ProtocolError)),
        conn.process_settings(&small_frame)
    );
    assert_eq!(16384, conn.peer_settings.max_frame_size);
    assert_eq!(0, conn.queued_write.queued_bytes_len());
    // An acknowledgement puts the sent settings in force.
    let (_, settings) = client_initial_settings();
    conn.our_settings_sent = Some(settings);
    assert_eq!(Ok(()), conn.process_settings(&SettingsFrame::new_ack()));
    assert!(!conn.our_settings_ack.enable_push);
    assert!(conn.our_settings_sent.is_none());
}

#[test]
fn content_length_mismatch_resets_stream() {
    let log: Log = Rc::new(RefCell::new(Vec::new()));
    let mut conn = ClientConn::new(ConnRole::Client);
    start(&mut conn, &log, None, true).unwrap();
    take_queued(&mut conn);
    log.borrow_mut().clear();
    let mut headers = Headers::ok_200();
    headers.add("content-length", "5");
    assert_eq!(Ok(Some(1)), conn.process_headers(1, EndStream::No, headers));
    assert_eq!(Some(5), conn.streams.get(1).unwrap().in_rem_content_length);
    assert_eq!(
        Ok(Inbound::Delivered { end_stream: false }),
        conn.process_data(1, Bytes::from_static(b"abcd"), 4, false)
    );
    assert_eq!(Some(1), conn.streams.get(1).unwrap().in_rem_content_length);
    assert_eq!(
        Ok(Inbound::Reset(ErrorCode::ProtocolError)),
        conn.process_data(1, Bytes::from_static(b"efg"), 3, true)
    );
    assert!(conn.streams.is_empty());
    let frames = unpack_frames(&take_queued(&mut conn)).unwrap();
    assert_eq!(1, frames.len());
    match &frames[0] {
        HttpFrame::RstStream(rst) => {
            assert_eq!(1, rst.get_stream_id());
            assert_eq!(ErrorCode::ProtocolError, rst.error_code());
        }
        other => panic!("unexpected: {:?}", other),
    }
    assert_eq!(
        vec![
            "headers :status=200 false".to_owned(),
            "data abcd false".to_owned(),
            format!("error {:?}", Error::CodeError(ErrorCode::ProtocolError)),
        ],
        *log.borrow()
    );
}

#[test]
fn short_body_at_end_of_stream_resets_stream() {
    let log: Log = Rc::new(RefCell::new(Vec::new()));
    let mut conn = ClientConn::new(ConnRole::Client);
    start(&mut conn, &log, None, true).unwrap();
    let mut headers = Headers::ok_200();
    headers.add("content-length", "5");
    conn.process_headers(1, EndStream::No, headers).unwrap();
    assert_eq!(
        Ok(Inbound::Reset(ErrorCode::ProtocolError)),
        conn.process_data(1, Bytes::from_static(b"abc"), 3, true)
    );
}

#[test]
fn in_window_never_goes_negative() {
    let log: Log = Rc::new(RefCell::new(Vec::new()));
    let mut conn = ClientConn::new(ConnRole::Client);
    start(&mut conn, &log, None, false).unwrap();
    start(&mut conn, &log, None, false).unwrap();
    take_queued(&mut conn);
    assert_eq!(
        Ok(Inbound::Delivered { end_stream: false }),
        conn.process_data(1, Bytes::from(vec![0u8; 65535]), 65535, false)
    );
    assert_eq!(0, conn.streams.get(1).unwrap().in_window_size.0);
    // The connection's window was used up and is filled up again.
    assert_eq!(65535, conn.in_window_size.0);
    assert_eq!(vec![0, 0, 4, 8, 0, 0, 0, 0, 0, 0, 0, 0xff, 0xff], take_queued(&mut conn));
    // With nothing left on the connection, one more byte fails the connection.
    conn.in_window_size.0 = 0;
    assert_eq!(
        Err(Error::CodeError(ErrorCode::FlowControlError)),
        conn.process_data(3, Bytes::from_static(b"x"), 1, false)
    );
    assert_eq!(0, conn.in_window_size.0);
    assert_eq!(65535, conn.streams.get(3).unwrap().in_window_size.0);
    assert!(take_queued(&mut conn).is_empty());
    // With room on the connection, the stream's own window decides.
    conn.in_window_size.0 = 40000;
    assert_eq!(
        Ok(Inbound::Reset(ErrorCode::FlowControlError)),
        conn.process_data(1, Bytes::from_static(b"x"), 1, false)
    );
    assert_eq!(39999, conn.in_window_size.0);
    assert!(conn.streams.get(1).is_none());
    assert_eq!(vec![0, 0, 4, 3, 0, 0, 0, 0, 1, 0, 0, 0, 3], take_queued(&mut conn));
    assert_eq!(
        Ok(()),
        conn.increase_in_window(3, 10).map(|_| ())
    );
    assert_eq!(
        Err(Error::Other("failed to increase window size")),
        conn.increase_in_window(3, 0x7fff_ffff)
    );
    assert_eq!(65545, conn.streams.get(3).unwrap().in_window_size.0);
}

#[test]
fn connection_window_is_filled_up_below_half() {
    let log: Log = Rc::new(RefCell::new(Vec::new()));
    let mut conn = ClientConn::new(ConnRole::Client);
    start(&mut conn, &log, None, false).unwrap();
    take_queued(&mut conn);
    // Half the window is left: the peer gets no new credit yet.
    assert_eq!(
        Ok(Inbound::Delivered { end_stream: false }),
        conn.process_data(1, Bytes::from(vec![0u8; 32768]), 32768, false)
    );
    assert_eq!(32767, conn.in_window_size.0);
    assert!(take_queued(&mut conn).is_empty());
    // One byte less than half is left: the window is filled up by 32769.
    assert_eq!(
        Ok(Inbound::Delivered { end_stream: false }),
        conn.process_data(1, Bytes::from_static(b"x"), 1, false)
    );
    assert_eq!(65535, conn.in_window_size.0);
    assert_eq!(32766, conn.streams.get(1).unwrap().in_window_size.0);
    assert_eq!(vec![0, 0, 4, 8, 0, 0, 0, 0, 0, 0, 0, 0x80, 0x01], take_queued(&mut conn));
    // The payload of a frame for a stream that was closed before counts too.
    conn.in_window_size.0 = 10;
    conn.last_local_stream_id = 5;
    assert_eq!(Ok(Inbound::Ignored), conn.process_data(3, Bytes::from_static(b"late"), 4, false));
    assert_eq!(65535, conn.in_window_size.0);
    assert_eq!(vec![0, 0, 4, 8, 0, 0, 0, 0, 0, 0, 0, 0xff, 0xf9], take_queued(&mut conn));
}

#[test]
fn window_update_rules() {
    let log: Log = Rc::new(RefCell::new(Vec::new()));
    let mut conn = ClientConn::new(ConnRole::Client);
    start(&mut conn, &log, None, false).unwrap();
    start(&mut conn, &log, None, false).unwrap();
    take_queued(&mut conn);
    assert_eq!(
        Err(Error::CodeError(ErrorCode::FlowControlError)),
        conn.process_window_update(0, 0)
    );
    assert_eq!(
        Err(Error::CodeError(ErrorCode::FlowControlError)),
        conn.process_window_update(0, 0x7fff_ffff)
    );
    assert_eq!(65535, conn.out_window_size.0);
    assert_eq!(Ok(Inbound::Reset(ErrorCode::ProtocolError)), conn.process_window_update(1, 0));
    assert_eq!(
        Ok(Inbound::Reset(ErrorCode::FlowControlError)),
        conn.process_window_update(3, 0x7fff_ffff)
    );
    assert!(conn.streams.is_empty());
    assert_eq!(2, unpack_frames(&take_queued(&mut conn)).unwrap().len());
    assert_eq!(Ok(Inbound::Ignored), conn.process_window_update(1, 5));
    assert_eq!(
        Err(Error::CodeError(ErrorCode::ProtocolError)),
        conn.process_window_update(7, 5)
    );
}

#[test]
fn response_headers_rules() {
    let log: Log = Rc::new(RefCell::new(Vec::new()));
    let mut conn = ClientConn::new(ConnRole::Client);
    for _ in 0..4 {
        start(&mut conn, &log, None, true).unwrap();
    }
    take_queued(&mut conn);
    log.borrow_mut().clear();

    // Informational headers are not delivered and leave the stage.
    let mut informational = Headers::new();
    informational.add(":status", "100");
    assert_eq!(Ok(Some(1)), conn.process_headers(1, EndStream::No, informational));
    assert_eq!(InMessageStage::Initial, conn.streams.get(1).unwrap().in_message_stage);
    assert!(log.borrow().is_empty());
    // Informational headers must not end the stream.
    let mut informational = Headers::new();
    informational.add(":status", "101");
    assert_eq!(Ok(None), conn.process_headers(1, EndStream::Yes, informational));
    assert!(conn.streams.get(1).is_none());

    // Trailers must end the stream.
    assert_eq!(Ok(Some(3)), conn.process_headers(3, EndStream::No, Headers::ok_200()));
    let mut trailers = Headers::new();
    trailers.add("x-sum", "1");
    assert_eq!(Ok(None), conn.process_headers(3, EndStream::No, trailers));
    assert!(conn.streams.get(3).is_none());

    // Headers, then trailers with END_STREAM, then nothing more.
    assert_eq!(Ok(Some(5)), conn.process_headers(5, EndStream::No, Headers::ok_200()));
    let mut trailers = Headers::new();
    trailers.add("x-sum", "1");
    assert_eq!(Ok(Some(5)), conn.process_headers(5, EndStream::Yes, trailers));
    assert_eq!(
        InMessageStage::AfterTrailingHeaders,
        conn.streams.get(5).unwrap().in_message_stage
    );
    assert_eq!(
        Err(Error::InternalError("closed stream must be handled before")),
        conn.process_headers(5, EndStream::Yes, Headers::new())
    );
    conn.close_remote(5);
    assert!(conn.streams.get(5).is_none());

    // Headers that are not valid reset the stream.
    assert_eq!(Ok(None), conn.process_headers(7, EndStream::No, Headers::new()));
    assert!(conn.streams.is_empty());
    assert_eq!(vec!["headers :status=200 false", "headers :status=200 false", "trailers 1"], *log.borrow());
    let frames = unpack_frames(&take_queued(&mut conn)).unwrap();
    assert_eq!(3, frames.len());
}

#[test]
fn continuation_on_another_stream_ends_the_connection() {
    let mut conn = ClientConn::new(ConnRole::Server);
    conn.last_peer_stream_id = 1;
    let mut join = JoinContinuation::new();
    let mut headers = HeadersFrame::new_conv(vec![0x82], 1);
    headers.set_flag(httpbis::solicit::frame::headers::HeadersFlag::EndStream);
    assert!(join.push(HttpFrame::Headers(headers)).is_ok());
    let other = ContinuationFrame::new(Bytes::new(), 3);
    let error = join.push(HttpFrame::Continuation(other)).err().unwrap();
    assert_eq!(ParseFrameError::ContinuationExpected, error);
    assert_eq!(ErrorCode::ProtocolError, error.error_code());

    assert_eq!(Ok(IterationExit::Continue), conn.process_goaway_state());
    conn.send_goaway(error.error_code()).unwrap();
    assert_eq!(Ok(IterationExit::NotReady), conn.process_goaway_state());
    let queued = take_queued(&mut conn);
    assert_eq!(vec![0, 0, 8, 7, 0, 0, 0, 0, 0, 0, 0, 0, 1, 0, 0, 0, 1], queued);
    // The frame is out: the connection is closed.
    assert_eq!(Ok(IterationExit::ExitEarly), conn.process_goaway_state());
    // Nothing is queued behind the GOAWAY frame.
    conn.send_ack_settings().unwrap();
    conn.process_ping(PingFrame::with_data([1; 8])).unwrap();
    conn.send_goaway(ErrorCode::NoError).unwrap();
    assert_eq!(0, conn.queued_write.queued_bytes_len());
    assert!(conn.queued_write.goaway_queued());
}

#[test]
fn each_error_ends_the_connection_with_its_code() {
    assert_eq!(
        ErrorCode::FlowControlError,
        Error::CodeError(ErrorCode::FlowControlError).goaway_code()
    );
    assert_eq!(
        ErrorCode::ProtocolError,
        Error::ParseFrameError(ParseFrameError::ContinuationExpected).goaway_code()
    );
    assert_eq!(
        ErrorCode::FrameSizeError,
        Error::ParseFrameError(ParseFrameError::IncorrectFrameLength(3)).goaway_code()
    );
    assert_eq!(
        ErrorCode::InternalError,
        Error::ParseFrameError(ParseFrameError::InternalError).goaway_code()
    );
    assert_eq!(ErrorCode::InternalError, Error::PullStreamDied.goaway_code());
    assert_eq!(ErrorCode::InternalError, Error::RstStreamReceived(ErrorCode::Cancel).goaway_code());
    assert_eq!(ErrorCode::InternalError, Error::Other("x").goaway_code());
}

#[test]
fn goaway_from_peer_ends_streams_above_the_last() {
    let log: Log = Rc::new(RefCell::new(Vec::new()));
    let mut conn = ClientConn::new(ConnRole::Client);
    for _ in 0..3 {
        start(&mut conn, &log, None, false).unwrap();
    }
    log.borrow_mut().clear();
    assert_eq!(Ok(()), conn.process_goaway(1, 11));
    assert_eq!(Some((1, 11)), conn.goaway_received);
    assert_eq!(1, conn.streams.len());
    assert!(conn.streams.get(1).is_some());
    assert_eq!(
        vec![format!("error {:?}", Error::GoawayReceived); 2],
        *log.borrow()
    );
}

#[test]
fn common_messages() {
    let log: Log = Rc::new(RefCell::new(Vec::new()));
    let mut conn = ClientConn::new(ConnRole::Client);
    start(&mut conn, &log, None, false).unwrap();
    take_queued(&mut conn);
    assert_eq!(
        Ok(WriteAction::SpawnPump(1)),
        conn.process_common_message(CommonToWriteMessage::Pull(1))
    );
    assert_eq!(
        Ok(WriteAction::Nothing),
        conn.process_common_message(CommonToWriteMessage::IncreaseInWindow(1, 5))
    );
    assert_eq!(vec![0, 0, 4, 8, 0, 0, 0, 0, 1, 0, 0, 0, 5], take_queued(&mut conn));
    match conn.process_common_message(CommonToWriteMessage::DumpState) {
        Ok(WriteAction::ReplyState(state)) => {
            assert_eq!(65540, state.single_stream(1).unwrap().in_window_size);
            assert_eq!(65535, state.out_window_size);
        }
        other => panic!("unexpected: {:?}", other),
    }
    // Data for a stream that is gone gives its credit back to the producer.
    let part = DataOrHeadersWithFlag {
        content: DataOrHeaders::Data(Bytes::from(vec![0u8; 10])),
        last: true,
    };
    conn.process_common_message(CommonToWriteMessage::StreamEnqueue(9, part)).unwrap();
    assert_eq!(10, conn.pump_out_window_size);
    // The handler finished the stream: the reset goes out with the next pass.
    conn.process_common_message(CommonToWriteMessage::StreamEnd(1, ErrorCode::Cancel)).unwrap();
    assert_eq!(Some(ErrorCode::Cancel), conn.streams.get(1).unwrap().outgoing_end);
    assert_eq!(Ok(true), conn.buffer_outg_conn());
    assert!(conn.streams.is_empty());
    assert_eq!(vec![0, 0, 4, 3, 0, 0, 0, 0, 1, 0, 0, 0, 8], take_queued(&mut conn));
    assert_eq!(
        Ok(WriteAction::ReplyHandshake),
        conn.process_message::<Created>(ClientToWriteMessage::WaitForHandshake)
    );
    assert_eq!(
        Ok(WriteAction::Nothing),
        conn.process_message(ClientToWriteMessage::Start(ClientStartRequestMessage {
            start: StartRequestMessage {
                headers: get_headers(),
                body: None,
                trailers: Some(Headers::new()),
                end_stream: true,
                stream_handler: Created { log: log.clone(), accept: true },
            },
        }))
    );
    assert_eq!(
        Ok(WriteAction::Nothing),
        conn.process_message::<Created>(ClientToWriteMessage::Common(
            CommonToWriteMessage::StreamEnd(3, ErrorCode::NoError)
        ))
    );
}

#[test]
fn ping_is_answered_with_the_same_bytes() {
    let mut conn = ClientConn::new(ConnRole::Client);
    conn.process_ping(PingFrame::with_data([1, 2, 3, 4, 5, 6, 7, 8])).unwrap();
    assert_eq!(
        vec![0, 0, 8, 6, 1, 0, 0, 0, 0, 1, 2, 3, 4, 5, 6, 7, 8],
        take_queued(&mut conn)
    );
    conn.process_ping(PingFrame::new_ack([0; 8])).unwrap();
    assert_eq!(0, conn.queued_write.queued_bytes_len());
}

#[test]
fn client_initial_settings_refuse_push() {
    let (frame, settings) = client_initial_settings();
    assert_eq!(vec![HttpSetting::EnablePush(false)], frame.settings);
    assert!(!settings.enable_push);
    assert_eq!(65535, settings.initial_window_size);
}

struct Callbacks {
    log: Log,
}

impl ClientConnCallbacks for Callbacks {
    fn goaway(&self, stream_id: u32, raw_error_code: u32) {
        self.log.borrow_mut().push(format!("goaway {} {}", stream_id, raw_error_code));
    }
}

#[test]
fn client_conn_data_forwards_goaway() {
    let log: Log = Rc::new(RefCell::new(Vec::new()));
    let data = ClientConnData::new(Callbacks { log: log.clone() });
    data.goaway(5, 2);
    assert_eq!(vec!["goaway 5 2"], *log.borrow());
    assert_eq!(ClientStreamData {}, ClientStreamData {});
}

fn response_bytes(stream_id: u32) -> Vec<u8> {
    let mut encoder = httpbis::hpack::encoder::Encoder::new();
    let mut headers = Headers::ok_200();
    headers.add("content-length", "5");
    let mut bytes = httpbis::solicit::frame::headers::HeadersMultiFrame {
        flags: httpbis::solicit::frame::flags::Flags::new(0),
        stream_id,
        headers,
        stream_dep: None,
        padding_len: 0,
        encoder: &mut encoder,
        max_frame_size: 4,
    }
    .serialize_into_vec();
    let mut data = httpbis::solicit::frame::data::DataFrame::with_data(
        stream_id,
        Bytes::from_static(b"hello"),
    );
    data.set_flag(httpbis::solicit::frame::data::DataFlag::EndStream);
    data.set_padding(3);
    bytes.extend(data.serialize_into_vec());
    bytes
}

#[test]
fn reader_takes_bytes_in_any_pieces() {
    for piece in [1usize, 2, 7, 1000] {
        let log: Log = Rc::new(RefCell::new(Vec::new()));
        let mut conn = ClientConn::new(ConnRole::Client);
        start(&mut conn, &log, None, true).unwrap();
        log.borrow_mut().clear();
        let mut reader = ClientReader::new();
        let bytes = response_bytes(1);
        let mut frames = 0;
        for chunk in bytes.chunks(piece) {
            frames += reader.feed(&mut conn, chunk).unwrap();
        }
        // The header block took several frames: more than two frames came.
        assert!(frames > 2);
        assert_eq!(vec!["headers :status=200 false", "data hello true"], *log.borrow());
        assert!(conn.streams.is_empty());
        // The padding counts for flow control: 1 + 5 + 3 bytes.
        assert_eq!(65535 - 9, conn.in_window_size.0);
    }
}

#[test]
fn reader_reports_errors() {
    let mut conn = ClientConn::new(ConnRole::Client);
    let mut reader = ClientReader::new();
    // A frame that is larger than this side accepts.
    assert_eq!(
        Err(Error::CodeError(ErrorCode::FrameSizeError)),
        reader.feed(&mut conn, &[0, 0x40, 1, 0, 0, 0, 0, 0, 1])
    );
    // A header block that cannot be decoded.
    let mut reader = ClientReader::new();
    assert_eq!(
        Err(Error::CodeError(ErrorCode::CompressionError)),
        reader.feed(&mut conn, &[0, 0, 1, 1, 4, 0, 0, 0, 1, 0x80])
    );
    // A CONTINUATION frame without a block.
    let mut reader = ClientReader::new();
    assert_eq!(
        Err(Error::ParseFrameError(ParseFrameError::ContinuationExpected)),
        reader.feed(&mut conn, &[0, 0, 0, 9, 4, 0, 0, 0, 1])
    );
    // A frame that cannot be read.
    let mut reader = ClientReader::new();
    assert_eq!(
        Err(Error::ParseFrameError(ParseFrameError::StreamIdMustBeNonZero)),
        reader.feed(&mut conn, &[0, 0, 0, 0, 0, 0, 0, 0, 0])
    );
    // Frames of unknown type and PRIORITY frames are passed over.
    let mut reader = ClientReader::new();
    assert_eq!(
        Ok(2),
        reader.feed(
            &mut conn,
            &[0, 0, 1, 0x55, 0, 0, 0, 0, 1, 9, 0, 0, 5, 2, 0, 0, 0, 0, 1, 0, 0, 0, 3, 7, 0, 0]
        )
    );
}

#[test]
fn push_promise_rules() {
    let mut conn = ClientConn::new(ConnRole::Client);
    assert_eq!(Ok(()), conn.process_push_promise(2, None));
    assert_eq!(2, conn.last_peer_stream_id);
    assert_eq!(StreamState::ReservedRemote, conn.streams.get(2).unwrap().state);
    // Promised streams must be even and go up.
    for bad in [0u32, 2, 3, 0x8000_0000] {
        assert_eq!(
            Err(Error::CodeError(ErrorCode::ProtocolError)),
            conn.process_push_promise(bad, None)
        );
    }
    assert_eq!(Ok(()), conn.process_push_promise(8, None));
    assert_eq!(8, conn.last_peer_stream_id);
    assert_eq!(2, conn.streams.len());
    let mut server = ClientConn::new(ConnRole::Server);
    assert_eq!(
        Err(Error::CodeError(ErrorCode::ProtocolError)),
        server.process_push_promise(2, None)
    );
}

#[test]
fn common_message_becomes_client_message() {
    let message: ClientToWriteMessage<Created> =
        ClientToWriteMessage::from(CommonToWriteMessage::StreamEnd(7, ErrorCode::Cancel));
    match message {
        ClientToWriteMessage::Common(CommonToWriteMessage::StreamEnd(id, code)) => {
            assert_eq!(7, id);
            assert_eq!(ErrorCode::Cancel, code);
        }
        _ => panic!("unexpected message"),
    }
    let mut conn = ClientConn::new(ConnRole::Client);
    let pull: ClientToWriteMessage<Created> = CommonToWriteMessage::Pull(3).into();
    assert_eq!(Ok(WriteAction::SpawnPump(3)), conn.process_message(pull));
}

#[test]
fn peer_table_limit_reaches_the_encoder() {
    let log: Log = Rc::new(RefCell::new(Vec::new()));
    let mut conn = ClientConn::new(ConnRole::Client);
    let frame = SettingsFrame::from_settings(vec![HttpSetting::HeaderTableSize(0)]);
    assert_eq!(Ok(()), conn.process_settings(&frame));
    assert_eq!(0, conn.peer_settings.header_table_size);
    take_queued(&mut conn);
    // The first header block begins with the change of the limit.
    start(&mut conn, &log, None, true).unwrap();
    let queued = take_queued(&mut conn);
    assert_eq!(1, queued[3]);
    assert_eq!(0x20, queued[9]);
    // A decoder in step reads the block, and keeps nothing in its table.
    let mut decoder = Decoder::new();
    let length = queued[2] as usize;
    let headers = decoder.decode(&queued[9..9 + length]).unwrap();
    assert_eq!(get_headers().len(), headers.len());
    assert!(decoder.decode(&[0x80 | 62]).is_err());
    // The next block has no change before it.
    start(&mut conn, &log, None, true).unwrap();
    assert_ne!(0x20, take_queued(&mut conn)[9] & 0xe0);
}

#[test]
fn reader_allows_the_table_limit_of_this_side() {
    let mut conn = ClientConn::new(ConnRole::Client);
    let mut reader = ClientReader::new();
    // A header block that asks for a table of 8192 bytes, and gives no field.
    let block = [0, 0, 3, 1, 4, 0, 0, 0, 1, 0x3f, 0xe1, 0x3f];
    assert_eq!(Err(Error::CodeError(ErrorCode::CompressionError)), reader.feed(&mut conn, &block));
    // Once this side's settings allow it, the change is taken.
    let mut conn = ClientConn::new(ConnRole::Client);
    let mut reader = ClientReader::new();
    let mut settings = conn.our_settings_ack;
    settings.header_table_size = 8192;
    conn.our_settings_sent = Some(settings);
    assert_eq!(Ok(1), reader.feed(&mut conn, &[0, 0, 0, 4, 1, 0, 0, 0, 0]));
    assert_eq!(8192, conn.our_settings_ack.header_table_size);
    // The stream is not known: the headers break the protocol, after the block was decoded.
    assert_eq!(Err(Error::CodeError(ErrorCode::ProtocolError)), reader.feed(&mut conn, &block));
}
