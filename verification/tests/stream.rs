use bytes::Bytes;
use httpbis::codec::join_continuation::JoinContinuation;
use httpbis::hpack::decoder::Decoder;
use futures::Stream;
use httpbis::client::stream_handler::ClientStreamHandler;
use httpbis::client_conn::{
    closed_remote, data_chunk_event, headers_event, new_data_chunk, reset_event, rst,
    BodyChunkMessage, ClientInner, ClientToWriteMessage, EndRequestMessage, ResultOrEof,
    StartRequestMessage,
};
use httpbis::common::conn_write::CommonToWriteMessage;
use httpbis::common::increase_in_window::IncreaseInWindow;
use httpbis::common::stream::{HttpStreamCommand, HttpStreamCommon, InMessageStage, StreamState};
use httpbis::common::stream_from_network::StreamFromNetwork;
use httpbis::common::stream_map::StreamMap;
use httpbis::common::stream_queue_sync::{stream_queue_sync, Async, QueuePolled};
use httpbis::common::window_size::WindowSize;
use httpbis::data_or_headers::DataOrHeaders;
use httpbis::data_or_headers_with_flag::DataOrHeadersWithFlag;
use httpbis::error::Error;
use httpbis::solicit::end_stream::EndStream;
use httpbis::solicit::error_code::ErrorCode;
use httpbis::solicit::frame::http_frame::{unpack_frames, HttpFrame};
use httpbis::solicit::header::Headers;

fn stream(id: u32, out_window: u32) -> HttpStreamCommon<()> {
    HttpStreamCommon::new(id, 65535, out_window, None, InMessageStage::Initial, None)
}

#[test]
fn window_size_arithmetic() {
    let mut w = WindowSize::new(10);
    assert_eq!(Ok(()), w.try_increase(5));
    assert_eq!(15, w.size());
    assert_eq!(Err(()), w.try_increase(0x7fff_ffff));
    assert_eq!(15, w.size());
    assert_eq!(Ok(()), w.try_decrease(20));
    assert_eq!(-5, w.size());
    assert_eq!(Err(()), w.try_decrease(i32::MAX));
    assert_eq!(Err(()), w.try_decrease_to_positive(1));
    assert_eq!(Ok(()), w.try_increase(10));
    assert_eq!(Err(()), w.try_decrease_to_positive(-1));
    assert_eq!(Err(()), w.try_decrease_to_positive(6));
    assert_eq!(Ok(()), w.try_decrease_to_positive(5));
    assert_eq!(0, w.size());
}

#[test]
fn stream_state_transitions() {
    assert_eq!(StreamState::HalfClosedLocal, StreamState::Open.close_local());
    assert_eq!(StreamState::HalfClosedRemote, StreamState::Open.close_remote());
    assert_eq!(StreamState::Closed, StreamState::HalfClosedLocal.close_remote());
    assert_eq!(StreamState::Closed, StreamState::HalfClosedRemote.close_local());
    assert_eq!(StreamState::Closed, StreamState::Closed.close_local());
    assert!(StreamState::HalfClosedLocal.is_closed_local());
    assert!(!StreamState::HalfClosedLocal.is_closed_remote());
    assert!(StreamState::Closed.is_closed());
    assert!(!StreamState::Open.is_closed());
    assert_eq!(EndStream::Yes, EndStream::from_bool(true));
    assert!(!EndStream::No.to_bool());
}

#[test]
fn pop_outg_respects_both_windows() {
    let mut s = stream(1, 10);
    let mut conn = WindowSize::new(4);
    s.push_back(DataOrHeaders::Headers(Headers::ok_200()));
    s.push_back(DataOrHeaders::Data(Bytes::from_static(b"0123456789abc")));
    s.close_outgoing(ErrorCode::NoError);
    assert!(s.is_writable());
    // Headers go out whatever the windows are.
    match s.pop_outg(&mut conn) {
        Some(HttpStreamCommand::Headers(_, EndStream::No)) => {}
        other => panic!("unexpected: {:?}", other),
    }
    // Data is cut to the smaller window.
    match s.pop_outg(&mut conn) {
        Some(HttpStreamCommand::Data(data, EndStream::No)) => assert_eq!(&b"0123"[..], &data[..]),
        other => panic!("unexpected: {:?}", other),
    }
    assert_eq!(0, conn.size());
    assert_eq!(6, s.out_window_size.size());
    assert!(s.pop_outg(&mut conn).is_none());
    conn = WindowSize::new(100);
    match s.pop_outg(&mut conn) {
        Some(HttpStreamCommand::Data(data, EndStream::No)) => assert_eq!(&b"456789"[..], &data[..]),
        other => panic!("unexpected: {:?}", other),
    }
    assert_eq!(94, conn.size());
    assert_eq!(0, s.out_window_size.size());
    assert!(!s.is_writable());
    assert!(s.pop_outg(&mut conn).is_none());
    s.out_window_size = WindowSize::new(50);
    match s.pop_outg(&mut conn) {
        Some(HttpStreamCommand::Data(data, EndStream::Yes)) => assert_eq!(&b"abc"[..], &data[..]),
        other => panic!("unexpected: {:?}", other),
    }
    assert_eq!(StreamState::HalfClosedLocal, s.state);
    assert!(s.pop_outg(&mut conn).is_none());
    assert!(!s.is_writable());
}

#[test]
fn pop_outg_announces_the_end() {
    let mut conn = WindowSize::new(0);
    let mut s = stream(1, 0);
    s.close_outgoing(ErrorCode::NoError);
    match s.pop_outg(&mut conn) {
        Some(HttpStreamCommand::Data(data, EndStream::Yes)) => assert!(data.is_empty()),
        other => panic!("unexpected: {:?}", other),
    }
    let mut s = stream(3, 0);
    s.push_back(DataOrHeaders::Data(Bytes::from_static(b"lost")));
    s.close_outgoing(ErrorCode::Cancel);
    // The first end stands.
    s.close_outgoing(ErrorCode::NoError);
    s.push_back(DataOrHeaders::Data(Bytes::from_static(b"late")));
    match s.pop_outg(&mut conn) {
        Some(HttpStreamCommand::Rst(ErrorCode::Cancel)) => {}
        other => panic!("unexpected: {:?}", other),
    }
    assert_eq!(StreamState::Closed, s.state);
    let mut s = stream(5, 0);
    s.push_back_part(DataOrHeadersWithFlag::last_headers(Headers::ok_200()));
    match s.pop_outg(&mut conn) {
        Some(HttpStreamCommand::Headers(_, EndStream::Yes)) => {}
        other => panic!("unexpected: {:?}", other),
    }
    s.close_remote();
    assert_eq!(StreamState::Closed, s.state);
}

#[test]
fn stream_map_keeps_order() {
    let mut map: StreamMap<()> = StreamMap::new();
    assert!(map.is_empty());
    map.insert(stream(5, 1));
    map.insert(stream(1, 0));
    map.insert(stream(3, 1));
    assert_eq!(3, map.len());
    let ids: Vec<u32> = map.streams.iter().map(|s| s.stream_id).collect();
    assert_eq!(vec![1, 3, 5], ids);
    assert_eq!(Some(1), map.find(3));
    assert_eq!(None, map.find(4));
    assert_eq!(5, map.get(5).unwrap().stream_id);
    map.streams[0].push_back(DataOrHeaders::Data(Bytes::from_static(b"x")));
    map.streams[1].push_back(DataOrHeaders::Data(Bytes::from_static(b"x")));
    map.streams[2].push_back(DataOrHeaders::Headers(Headers::new()));
    // Stream 1 has data but no window.
    assert_eq!(vec![3, 5], map.writable_stream_ids());
    assert_eq!(3, map.remove(3).unwrap().stream_id);
    assert!(map.remove(3).is_none());
    assert_eq!(1, map.remove_at(0).stream_id);
    assert_eq!(vec![5], map.writable_stream_ids());
}

#[test]
fn stream_queue_delivers_one_terminal_event() {
    let (mut tx, mut rx) = stream_queue_sync();
    assert!(!rx.eof_received());
    assert_eq!(Ok(()), tx.headers(Headers::ok_200(), false));
    assert_eq!(Ok(()), tx.data_frame(Bytes::from_static(b"hello"), true));
    // Whatever follows the last part is not handed on.
    assert_eq!(Ok(()), tx.rst(ErrorCode::Cancel));

    let mut outputs = Vec::new();
    for _ in 0..4 {
        let polled = if rx.eof_received() {
            QueuePolled::NotReady
        } else {
            match rx.receiver.poll() {
                Ok(futures::Async::Ready(Some(item))) => QueuePolled::Item(item),
                Ok(futures::Async::Ready(None)) => QueuePolled::Closed,
                _ => QueuePolled::NotReady,
            }
        };
        outputs.push(match rx.poll(polled) {
            Ok(Async::Ready(Some(part))) => match part.content {
                DataOrHeaders::Headers(h) => format!("headers {} {}", h.len(), part.last),
                DataOrHeaders::Data(d) => format!("data {} {}", d.len(), part.last),
            },
            Ok(Async::Ready(None)) => "end".to_owned(),
            Ok(Async::NotReady) => "not ready".to_owned(),
            Err(e) => format!("{:?}", e),
        });
    }
    assert_eq!(vec!["headers 1 false", "data 5 true", "end", "end"], outputs);
    assert!(rx.eof_received());
}

#[test]
fn stream_queue_receiver_decisions() {
    let (tx, mut rx) = stream_queue_sync();
    assert!(matches!(rx.poll(QueuePolled::NotReady), Ok(Async::NotReady)));
    assert_eq!(
        Some(Error::InternalError("internal error: unexpected EOF")),
        rx.poll(QueuePolled::Closed).err()
    );
    assert!(!rx.eof_received());
    assert_eq!(
        Some(Error::RstStreamReceived(ErrorCode::Cancel)),
        rx.poll(QueuePolled::Item(Err(Error::RstStreamReceived(ErrorCode::Cancel)))).err()
    );
    assert!(rx.eof_received());
    assert!(matches!(rx.poll(QueuePolled::Closed), Ok(Async::Ready(None))));
    // A sender whose receiver is gone reports that the consumer died.
    let mut tx = tx;
    drop(rx);
    assert_eq!(Err(Error::PullStreamDied), tx.trailers(Headers::new()));
    assert_eq!(Err(Error::PullStreamDied), tx.error(Error::ClientDied));
    assert_eq!(Err(Error::PullStreamDied), tx.send(Err(Error::ClientDied)));
}

#[test]
fn stream_from_network_returns_credit() {
    let mut stream = StreamFromNetwork {
        increase_in_window: IncreaseInWindow { stream_id: 7, in_window_size: 65535 },
    };
    let headers = DataOrHeadersWithFlag::intermediate_headers(Headers::ok_200());
    assert!(matches!(stream.poll(&headers), Ok(None)));
    let data = DataOrHeadersWithFlag::intermediate_data(Bytes::from(vec![0u8; 32768]));
    // 32767 bytes are left, which is not below the edge.
    assert!(matches!(stream.poll(&data), Ok(None)));
    assert_eq!(32767, stream.increase_in_window.in_window_size());
    let one = DataOrHeadersWithFlag::last_data(Bytes::from_static(b"x"));
    match stream.poll(&one) {
        Ok(Some(CommonToWriteMessage::IncreaseInWindow(7, 32769))) => {}
        other => panic!("unexpected: {:?}", other),
    }
    assert_eq!(65535, stream.increase_in_window.in_window_size());
    let too_much = DataOrHeadersWithFlag::last_data(Bytes::from(vec![0u8; 65536]));
    assert_eq!(
        Some(Error::CodeError(ErrorCode::FlowControlError)),
        stream.poll(&too_much).err()
    );
    assert_eq!(65535, stream.increase_in_window.in_window_size());
}

#[test]
fn increase_in_window_accounting() {
    let mut w = IncreaseInWindow { stream_id: 1, in_window_size: 10 };
    assert_eq!(Ok(()), w.data_frame_processed(10));
    assert_eq!(Err(Error::CodeError(ErrorCode::FlowControlError)), w.data_frame_processed(1));
    assert_eq!(0, w.in_window_size());
    assert!(matches!(w.increase_window(5), Ok(CommonToWriteMessage::IncreaseInWindow(1, 5))));
    assert_eq!(
        Some(Error::CodeError(ErrorCode::FlowControlError)),
        w.increase_window(0x7fff_ffff).err()
    );
    assert_eq!(5, w.in_window_size());
}

fn drain(
    rx: &mut futures::sync::mpsc::UnboundedReceiver<ResultOrEof<DataOrHeadersWithFlag, Error>>,
) -> Vec<String> {
    let mut out = Vec::new();
    loop {
        match rx.poll() {
            Ok(futures::Async::Ready(Some(item))) => out.push(match item {
                ResultOrEof::Item(part) => match part.content {
                    DataOrHeaders::Headers(h) => format!("headers {} {}", h.len(), part.last),
                    DataOrHeaders::Data(d) => format!("data {} {}", d.len(), part.last),
                },
                ResultOrEof::Error(e) => format!("{:?}", e),
                ResultOrEof::Eof => "eof".to_owned(),
            }),
            _ => return out,
        }
    }
}

#[test]
fn queue_client_request_and_response() {
    let (tx, mut rx) = futures::sync::mpsc::unbounded();
    let mut inner = ClientInner::new();
    let mut headers = Headers::new();
    headers.add(":method", "POST");
    let id = inner
        .process_message(ClientToWriteMessage::Start(StartRequestMessage { headers, resp_tx: tx }))
        .unwrap();
    assert_eq!(Some(1), id);
    assert_eq!(3, inner.session_state.next_stream_id);
    assert_eq!(
        Ok(None),
        inner.process_message(ClientToWriteMessage::BodyChunk(BodyChunkMessage {
            stream_id: 1,
            chunk: Bytes::from_static(b"body"),
        }))
    );
    assert_eq!(
        Ok(None),
        inner.process_message(ClientToWriteMessage::End(EndRequestMessage { stream_id: 1 }))
    );
    let frames = unpack_frames(inner.common.queued_write.bytes()).unwrap();
    assert_eq!(3, frames.len());
    assert!(matches!(frames[0], HttpFrame::Headers(_)));
    match (&frames[1], &frames[2]) {
        (HttpFrame::Data(body), HttpFrame::Data(end)) => {
            assert_eq!(&b"body"[..], &body.data[..]);
            assert!(!body.is_end_of_stream());
            assert!(end.data.is_empty());
            assert!(end.is_end_of_stream());
        }
        other => panic!("unexpected: {:?}", other),
    }
    assert_eq!(
        Err(Error::InternalError("stream not found")),
        inner.process_body_chunk(BodyChunkMessage { stream_id: 9, chunk: Bytes::new() })
    );
    assert_eq!(
        Err(Error::InternalError("stream not found")),
        inner.process_end(EndRequestMessage { stream_id: 9 })
    );

    // The response goes into the queue of the request.
    assert!(inner.process_headers(1, EndStream::No, Headers::ok_200()));
    assert!(!inner.process_headers(1, EndStream::No, Headers::new()));
    assert!(!inner.process_headers(9, EndStream::No, Headers::ok_200()));
    let stream = &mut inner.common.streams.streams[0];
    assert!(new_data_chunk(stream, Bytes::from_static(b"hello"), true));
    assert!(rst(stream, ErrorCode::Cancel));
    assert!(closed_remote(stream));
    // The queue is let go: nothing more reaches it.
    assert!(!closed_remote(stream));
    assert!(!new_data_chunk(stream, Bytes::new(), false));
    assert_eq!(
        vec![
            "headers 1 false".to_owned(),
            "data 5 true".to_owned(),
            format!("{:?}", Error::CodeError(ErrorCode::Cancel)),
            "eof".to_owned(),
        ],
        drain(&mut rx)
    );
}

#[test]
fn queue_client_ids_go_up_by_two() {
    let mut inner = ClientInner::new();
    for expected in [1u32, 3, 5] {
        let (tx, _rx) = futures::sync::mpsc::unbounded();
        assert_eq!(Ok(expected), inner.insert_stream(Headers::new(), tx));
    }
    assert_eq!(7, inner.session_state.next_stream_id);
    assert_eq!(3, inner.common.streams.len());
}

#[test]
fn queue_client_reads_response_frames() {
    let (tx, mut rx) = futures::sync::mpsc::unbounded();
    let mut inner = ClientInner::new();
    inner.process_start(StartRequestMessage { headers: Headers::new(), resp_tx: tx }).unwrap();
    inner.process_end(EndRequestMessage { stream_id: 1 }).unwrap();
    let mut join = JoinContinuation::new();
    let mut decoder = Decoder::new();
    let mut bytes = vec![0, 0, 1, 1, 4, 0, 0, 0, 1, 0x88];
    bytes.extend(vec![0, 0, 2, 0, 1, 0, 0, 0, 1, b'h', b'i']);
    for frame in unpack_frames(&bytes).unwrap() {
        let joined = join.push(frame).unwrap();
        inner.process_joined(joined, &mut decoder).unwrap();
    }
    assert_eq!(vec!["headers 1 false", "data 2 true", "eof"], drain(&mut rx));
    assert!(inner.common.streams.is_empty());
    // A promise of a pushed stream is refused.
    let promise = unpack_frames(&[0, 0, 5, 5, 4, 0, 0, 0, 1, 0, 0, 0, 2, 0x88]).unwrap();
    for frame in promise {
        let joined = join.push(frame).unwrap();
        assert_eq!(
            Err(Error::CodeError(ErrorCode::ProtocolError)),
            inner.process_joined(joined, &mut decoder)
        );
    }
}

#[test]
fn queue_events_hold_what_came() {
    match data_chunk_event(Bytes::from_static(b"abc"), true) {
        ResultOrEof::Item(DataOrHeadersWithFlag { content: DataOrHeaders::Data(data), last }) => {
            assert_eq!(&b"abc"[..], &data[..]);
            assert!(last);
        }
        other => panic!("unexpected: {:?}", other),
    }
    let mut headers = Headers::new();
    headers.add(":status", "204");
    match headers_event(headers, EndStream::No) {
        ResultOrEof::Item(DataOrHeadersWithFlag {
            content: DataOrHeaders::Headers(headers),
            last,
        }) => {
            assert_eq!(1, headers.len());
            assert_eq!(Some(204), headers.status());
            assert!(!last);
        }
        other => panic!("unexpected: {:?}", other),
    }
    match headers_event(Headers::new(), EndStream::Yes) {
        ResultOrEof::Item(part) => assert!(part.last),
        other => panic!("unexpected: {:?}", other),
    }
    match reset_event(ErrorCode::Cancel) {
        ResultOrEof::Error(e) => assert_eq!(Error::CodeError(ErrorCode::Cancel), e),
        other => panic!("unexpected: {:?}", other),
    }
}
