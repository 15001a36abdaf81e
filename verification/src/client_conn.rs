//! A client connection whose responses are read from a queue: each event of
//! a response is put into the queue of its request as an item, an error, or
//! the end.

use crate::bytes_model::bytes_seq;
use crate::codec::join_continuation::{HeadersBlock, Joined, JoinedView};
use crate::common::conn::{Conn, ConnRole};
use crate::hpack::decoder::{spec_decode_headers, Decoder};
use crate::hpack::dynamic_table::DynamicTableView;
use crate::solicit::frame::flags::bits_set;
use crate::solicit::frame::http_frame::{HttpFrame, HttpFrameView};
use crate::common::conn_write::{spec_buffer_outg, WriterView};
use crate::common::stream::{HttpStreamCommon, InMessageStage, StreamState, StreamView};
use crate::common::stream_map::{spec_index_of, spec_insert_pos};
use crate::common::window_size::WindowSize;
use crate::data_or_headers::{DataOrHeaders, PartView};
use crate::data_or_headers_with_flag::DataOrHeadersWithFlag;
use crate::error::Error;
use crate::queue_model::queue_send;
use crate::solicit::end_stream::EndStream;
use crate::solicit::error_code::ErrorCode;
use crate::solicit::header::Headers;
use crate::solicit::stream_id::StreamId;
use bytes::Bytes;
use futures::sync::mpsc::UnboundedSender;
use vstd::prelude::*;

verus! {

/// What the queue of a response holds: a part of the response, an error, or
/// the end of the response.
#[derive(Debug)]
pub enum ResultOrEof<T, E> {
    Item(T),
    Error(E),
    Eof,
}

/// The state of a client's stream: the common state, with the sending side
/// of the response's queue as the handler.
pub type ClientStream = HttpStreamCommon<UnboundedSender<ResultOrEof<DataOrHeadersWithFlag, Error>>>;

/// What the queue of a response is given, as contracts see it.
pub ghost enum QueuedView {
    /// A part of the response, and whether it is the last.
    Item(PartView, bool),
    /// An error.
    Error(Error),
    /// The end of the response.
    Eof,
}

impl View for ResultOrEof<DataOrHeadersWithFlag, Error> {
    type V = QueuedView;

    open spec fn view(&self) -> QueuedView {
        match self {
            ResultOrEof::Item(part) => QueuedView::Item(part.content@, part.last),
            ResultOrEof::Error(e) => QueuedView::Error(*e),
            ResultOrEof::Eof => QueuedView::Eof,
        }
    }
}

/// What stands in the queue for a piece of the response's body.
pub fn data_chunk_event(data: Bytes, last: bool) -> (r: ResultOrEof<DataOrHeadersWithFlag, Error>)
    ensures
        r@ == QueuedView::Item(PartView::Data(bytes_seq(data)), last),
{
    ResultOrEof::Item(DataOrHeadersWithFlag { content: DataOrHeaders::Data(data), last })
}

/// What stands in the queue for the headers of a response.
pub fn headers_event(headers: Headers, end_stream: EndStream) -> (r: ResultOrEof<
    DataOrHeadersWithFlag,
    Error,
>)
    ensures
        r@ == QueuedView::Item(PartView::Headers(headers@), end_stream == EndStream::Yes),
{
    ResultOrEof::Item(
        DataOrHeadersWithFlag {
            content: DataOrHeaders::Headers(headers),
            last: end_stream.to_bool(),
        },
    )
}

/// What stands in the queue for a reset by the peer: the error with the
/// peer's code.
pub fn reset_event(error_code: ErrorCode) -> (r: ResultOrEof<DataOrHeadersWithFlag, Error>)
    ensures
        r@ == QueuedView::Error(Error::CodeError(error_code)),
{
    ResultOrEof::Error(Error::CodeError(error_code))
}

/// Puts a piece of the response's body into the queue, as `data_chunk_event`
/// makes it, if the stream still has its queue. The result says whether an
/// item was put in and taken: never where the stream has let its queue go.
pub fn new_data_chunk(stream: &mut ClientStream, data: Bytes, last: bool) -> (sent: bool)
    ensures
        *final(stream) == *old(stream),
        sent ==> old(stream).peer_tx is Some,
{
    match &stream.peer_tx {
        Some(response_handler) => queue_send(response_handler, data_chunk_event(data, last)),
        None => false,
    }
}

/// Puts the peer's reset into the queue, as `reset_event` makes it, if the
/// stream still has its queue. The result says whether it was put in and
/// taken: never where the stream has let its queue go.
pub fn rst(stream: &mut ClientStream, error_code: ErrorCode) -> (sent: bool)
    ensures
        *final(stream) == *old(stream),
        sent ==> old(stream).peer_tx is Some,
{
    match &stream.peer_tx {
        Some(response_handler) => queue_send(response_handler, reset_event(error_code)),
        None => false,
    }
}

/// Puts the end of the response into the queue and lets the queue go: no
/// later event of the stream reaches it.
pub fn closed_remote(stream: &mut ClientStream) -> (sent: bool)
    ensures
        final(stream)@ == (StreamView { has_peer_tx: false, ..old(stream)@ }),
        sent ==> old(stream).peer_tx is Some,
{
    let mut taken: Option<UnboundedSender<ResultOrEof<DataOrHeadersWithFlag, Error>>> = None;
    std::mem::swap(&mut stream.peer_tx, &mut taken);
    match taken {
        Some(response_handler) => queue_send(&response_handler, ResultOrEof::Eof),
        None => false,
    }
}

/// A request to be started: its headers, and the queue for its response.
/// The body follows as messages of its own.
pub struct StartRequestMessage {
    /// The request's headers.
    pub headers: Headers,
    /// The sending side of the queue for the response.
    pub resp_tx: UnboundedSender<ResultOrEof<DataOrHeadersWithFlag, Error>>,
}

/// A piece of a request's body.
pub struct BodyChunkMessage {
    pub stream_id: StreamId,
    pub chunk: Bytes,
}

/// The end of a request's body.
pub struct EndRequestMessage {
    pub stream_id: StreamId,
}

/// A message for the writer of the connection.
pub enum ClientToWriteMessage {
    Start(StartRequestMessage),
    BodyChunk(BodyChunkMessage),
    End(EndRequestMessage),
}

/// What the client remembers between requests.
#[derive(Clone, Copy, Debug, PartialEq, Eq, Structural)]
pub struct ClientSessionState {
    /// The identifier that the next request gets.
    pub next_stream_id: StreamId,
}

/// The state of the connection.
pub struct ClientInner {
    /// The state that clients and servers share.
    pub common: Conn<UnboundedSender<ResultOrEof<DataOrHeadersWithFlag, Error>>>,
    /// What the client remembers between requests.
    pub session_state: ClientSessionState,
}

impl ClientInner {
    /// The connection is well formed, it is a client's, and the identifier
    /// for the next request is the next that the connection would give out.
    pub open spec fn wf(&self) -> bool {
        &&& self.common.wf()
        &&& self.common.role == ConnRole::Client
        &&& self.session_state.next_stream_id == self.common.spec_next_local_stream_id()
    }

    /// A client connection at its start: the first request gets identifier 1.
    pub fn new() -> (r: ClientInner)
        ensures
            r.wf(),
            r.session_state.next_stream_id == 1,
            r.common.streams@ == Seq::<StreamView>::empty(),
    {
        ClientInner {
            common: Conn::new(ConnRole::Client),
            session_state: ClientSessionState { next_stream_id: 1 },
        }
    }

    /// Gives a new stream the next identifier and puts it into the map: the
    /// stream is open, has the queue of its response as its handler, and has
    /// the request's headers queued. The identifiers are odd and go up by two.
    /// Fails, and changes nothing, once the identifiers are used up.
    pub fn insert_stream(
        &mut self,
        headers: Headers,
        resp_tx: UnboundedSender<ResultOrEof<DataOrHeadersWithFlag, Error>>,
    ) -> (r: Result<StreamId, Error>)
        requires
            old(self).wf(),
        ensures
            final(self).wf(),
            match r {
                Ok(id) => {
                    &&& id == old(self).session_state.next_stream_id
                    &&& id % 2 == 1
                    &&& id <= 0x7fff_ffff
                    &&& final(self).session_state.next_stream_id == id + 2
                    &&& final(self).common.streams.contains(id)
                    &&& final(self).common == (Conn {
                        streams: final(self).common.streams,
                        last_local_stream_id: id,
                        ..old(self).common
                    })
                    &&& final(self).common.streams@ == old(self).common.streams@.insert(
                        spec_insert_pos(old(self).common.streams@, id),
                        StreamView {
                            stream_id: id,
                            state: StreamState::Open,
                            in_window_size: WindowSize(
                                old(self).common.our_settings_ack.initial_window_size as i32,
                            ),
                            out_window_size: WindowSize(
                                old(self).common.peer_settings.initial_window_size as i32,
                            ),
                            in_rem_content_length: None,
                            in_message_stage: InMessageStage::Initial,
                            outgoing: seq![PartView::Headers(headers@)],
                            outgoing_end: None,
                            has_peer_tx: true,
                        },
                    )
                },
                Err(e) => {
                    &&& old(self).session_state.next_stream_id > 0x7fff_ffff
                    &&& e == Error::Other("stream identifiers are used up")
                    &&& *final(self) == *old(self)
                },
            },
    {
        let id: StreamId = match self.common.next_local_stream_id() {
            Ok(id) => id,
            Err(e) => {
                return Err(e);
            },
        };
        self.common.new_stream_data(id, None, InMessageStage::Initial, Some(resp_tx));
        let ghost inserted = self.common.streams@;
        let ghost mid = self.common;
        let ghost pos = spec_insert_pos(old(self).common.streams@, id);
        let i: usize = match self.common.streams.find(id) {
            Some(i) => i,
            None => {
                return Err(Error::InternalError("stream is not in the map"));
            },
        };
        self.common.streams.streams[i].push_back(DataOrHeaders::Headers(headers));
        proof {
            assert(inserted[pos].wf());
            self.common.lemma_stream_updated(&mid, pos);
            assert(self.common.streams@[pos].outgoing =~= seq![PartView::Headers(headers@)]);
            assert(self.common.streams@ =~= old(self).common.streams@.insert(
                pos,
                self.common.streams@[pos],
            ));
            crate::common::stream_map::lemma_index_of_sorted(self.common.streams@, pos);
        }
        self.session_state.next_stream_id = id + 2;
        Ok(id)
    }

    /// Puts the headers of a response into the queue of its request, as
    /// `headers_event` makes them. Nothing happens for a stream that is not
    /// in the map, for an empty header list, or for a stream that has let its
    /// queue go. The state does not change. The result says whether the
    /// headers were put in and taken.
    pub fn process_headers(&mut self, stream_id: StreamId, end_stream: EndStream, headers: Headers) -> (sent:
        bool)
        requires
            old(self).wf(),
        ensures
            *final(self) == *old(self),
            sent ==> headers@.len() != 0 && (spec_index_of(old(self).common.streams@, stream_id)
                matches Some(i) && old(self).common.streams@[i].has_peer_tx),
    {
        let i: usize = match self.common.streams.find(stream_id) {
            // The headers belong to no request of this client.
            None => {
                return false;
            },
            Some(i) => i,
        };
        if headers.len() == 0 {
            return false;
        }
        match &self.common.streams.streams[i].peer_tx {
            Some(response_handler) => queue_send(
                response_handler,
                headers_event(headers, end_stream),
            ),
            None => false,
        }
    }

    /// The stream of a request that was just started: open, with the
    /// request's headers queued and the queue of the response as its handler.
    pub open spec fn spec_request_stream(
        &self,
        id: StreamId,
        headers: Seq<(Seq<u8>, Seq<u8>)>,
    ) -> StreamView {
        StreamView {
            stream_id: id,
            state: StreamState::Open,
            in_window_size: WindowSize(self.common.our_settings_ack.initial_window_size as i32),
            out_window_size: WindowSize(self.common.peer_settings.initial_window_size as i32),
            in_rem_content_length: None,
            in_message_stage: InMessageStage::Initial,
            outgoing: seq![PartView::Headers(headers)],
            outgoing_end: None,
            has_peer_tx: true,
        }
    }

    /// Whether `after` is this connection with nothing changed but what the
    /// writer works on and, where `id` is given, the last identifier that
    /// this side gave out.
    pub open spec fn same_but_writer(&self, after: &ClientInner, id: Option<StreamId>) -> bool {
        &&& after.common.role == self.common.role
        &&& after.common.peer_settings == self.common.peer_settings
        &&& after.common.our_settings_ack == self.common.our_settings_ack
        &&& after.common.our_settings_sent == self.common.our_settings_sent
        &&& after.common.last_peer_stream_id == self.common.last_peer_stream_id
        &&& after.common.in_window_size == self.common.in_window_size
        &&& after.common.pump_out_window_size == self.common.pump_out_window_size
        &&& after.common.goaway_received == self.common.goaway_received
        &&& match id {
            Some(id) => after.common.last_local_stream_id == id
                && after.session_state.next_stream_id == id + 2,
            None => after.common.last_local_stream_id == self.common.last_local_stream_id
                && after.session_state == self.session_state,
        }
    }

    /// Whether `after` is this connection after a request with the given
    /// headers was started with result `r`.
    pub open spec fn started(
        &self,
        after: &ClientInner,
        r: Result<StreamId, Error>,
        headers: Seq<(Seq<u8>, Seq<u8>)>,
    ) -> bool {
        match r {
            Ok(id) => {
                &&& id == self.session_state.next_stream_id
                &&& id <= 0x7fff_ffff
                &&& self.same_but_writer(after, Some(id))
                &&& after.common.writer_view() == spec_buffer_outg(
                    WriterView {
                        streams: self.common.streams@.insert(
                            spec_insert_pos(self.common.streams@, id),
                            self.spec_request_stream(id, headers),
                        ),
                        ..self.common.writer_view()
                    },
                ).writer
            },
            Err(e) => {
                &&& self.session_state.next_stream_id > 0x7fff_ffff
                &&& e == Error::Other("stream identifiers are used up")
                &&& *after == *self
            },
        }
    }

    /// Whether `after` is this connection after the stream's queue of
    /// outgoing parts was changed to `changed` and a buffering pass was made,
    /// with result `r`; where the stream is not in the map, nothing changes.
    pub open spec fn stream_sent(
        &self,
        after: &ClientInner,
        r: Result<(), Error>,
        stream_id: StreamId,
        changed: spec_fn(StreamView) -> StreamView,
    ) -> bool {
        match spec_index_of(self.common.streams@, stream_id) {
            None => r == Err::<(), Error>(Error::InternalError("stream not found")) && *after
                == *self,
            Some(i) => {
                &&& r is Ok
                &&& self.same_but_writer(after, None)
                &&& after.common.writer_view() == spec_buffer_outg(
                    WriterView {
                        streams: self.common.streams@.update(i, changed(self.common.streams@[i])),
                        ..self.common.writer_view()
                    },
                ).writer
            },
        }
    }

    /// Starts a request: its stream gets the next identifier, the headers
    /// are queued on it, and a buffering pass is made. The result is the
    /// stream's identifier, under which the body is to follow. Fails, and
    /// changes nothing, once the identifiers are used up.
    pub fn process_start(&mut self, start: StartRequestMessage) -> (r: Result<StreamId, Error>)
        requires
            old(self).wf(),
        ensures
            final(self).wf(),
            old(self).started(final(self), r, start.headers@),
    {
        let StartRequestMessage { headers, resp_tx } = start;
        let stream_id: StreamId = match self.insert_stream(headers, resp_tx) {
            Ok(id) => id,
            Err(e) => {
                return Err(e);
            },
        };
        let _ = self.common.buffer_outg_conn();
        Ok(stream_id)
    }

    /// Queues a piece of a request's body on its stream and makes a
    /// buffering pass. Fails, and changes nothing, where the stream is not in
    /// the map.
    pub fn process_body_chunk(&mut self, body_chunk: BodyChunkMessage) -> (r: Result<(), Error>)
        requires
            old(self).wf(),
        ensures
            final(self).wf(),
            old(self).stream_sent(
                final(self),
                r,
                body_chunk.stream_id,
                |stream: StreamView| stream.push_back(PartView::Data(bytes_seq(body_chunk.chunk))),
            ),
    {
        let BodyChunkMessage { stream_id, chunk } = body_chunk;
        let i: usize = match self.common.streams.find(stream_id) {
            None => {
                return Err(Error::InternalError("stream not found"));
            },
            Some(i) => i,
        };
        proof {
            assert(old(self).common.streams@[i as int].wf());
        }
        self.common.streams.streams[i].push_back(DataOrHeaders::Data(chunk));
        proof {
            self.common.lemma_stream_updated(&old(self).common, i as int);
        }
        let _ = self.common.buffer_outg_conn();
        Ok(())
    }

    /// Ends a request regularly and makes a buffering pass. Fails, and
    /// changes nothing, where the stream is not in the map.
    pub fn process_end(&mut self, end: EndRequestMessage) -> (r: Result<(), Error>)
        requires
            old(self).wf(),
        ensures
            final(self).wf(),
            old(self).stream_sent(
                final(self),
                r,
                end.stream_id,
                |stream: StreamView| stream.close_outgoing(ErrorCode::NoError),
            ),
    {
        let EndRequestMessage { stream_id } = end;
        let i: usize = match self.common.streams.find(stream_id) {
            None => {
                return Err(Error::InternalError("stream not found"));
            },
            Some(i) => i,
        };
        proof {
            assert(old(self).common.streams@[i as int].wf());
        }
        self.common.streams.streams[i].close_outgoing(ErrorCode::NoError);
        proof {
            self.common.lemma_stream_updated(&old(self).common, i as int);
        }
        let _ = self.common.buffer_outg_conn();
        Ok(())
    }

    /// Processes a message for the writer: a request is started, a piece of
    /// a request's body is queued, or a request is ended, each as its own
    /// operation says. The result names the stream of a request that was
    /// started, so that the caller can send its body after.
    pub fn process_message(&mut self, message: ClientToWriteMessage) -> (r: Result<
        Option<StreamId>,
        Error,
    >)
        requires
            old(self).wf(),
        ensures
            final(self).wf(),
            match message {
                ClientToWriteMessage::Start(start) => {
                    &&& r matches Ok(started) ==> started is Some
                    &&& old(self).started(
                        final(self),
                        match r {
                            Ok(started) => Ok(started->Some_0),
                            Err(e) => Err(e),
                        },
                        start.headers@,
                    )
                },
                ClientToWriteMessage::BodyChunk(body_chunk) => {
                    &&& r matches Ok(started) ==> started is None
                    &&& old(self).stream_sent(
                        final(self),
                        match r {
                            Ok(_) => Ok(()),
                            Err(e) => Err(e),
                        },
                        body_chunk.stream_id,
                        |stream: StreamView|
                            stream.push_back(PartView::Data(bytes_seq(body_chunk.chunk))),
                    )
                },
                ClientToWriteMessage::End(end) => {
                    &&& r matches Ok(started) ==> started is None
                    &&& old(self).stream_sent(
                        final(self),
                        match r {
                            Ok(_) => Ok(()),
                            Err(e) => Err(e),
                        },
                        end.stream_id,
                        |stream: StreamView| stream.close_outgoing(ErrorCode::NoError),
                    )
                },
            },
    {
        match message {
            ClientToWriteMessage::Start(start) => match self.process_start(start) {
                Ok(id) => Ok(Some(id)),
                Err(e) => Err(e),
            },
            ClientToWriteMessage::BodyChunk(body_chunk) => match self.process_body_chunk(body_chunk) {
                Ok(_) => Ok(None),
                Err(e) => Err(e),
            },
            ClientToWriteMessage::End(end) => match self.process_end(end) {
                Ok(_) => Ok(None),
                Err(e) => Err(e),
            },
        }
    }

    /// Whether `after` is this connection with nothing changed but the
    /// streams, which are `streams` now.
    pub open spec fn only_streams(&self, after: &ClientInner, streams: Seq<StreamView>) -> bool {
        &&& after.session_state == self.session_state
        &&& after.common == (Conn { streams: after.common.streams, ..self.common })
        &&& after.common.streams@ == streams
    }

    /// The streams once the peer's side of a stream was closed: the stream
    /// has let its queue go, and leaves the map if it is closed then. Nothing
    /// changes for a stream that is not in the map.
    pub open spec fn spec_closed_remote(streams: Seq<StreamView>, stream_id: StreamId) -> Seq<
        StreamView,
    > {
        match spec_index_of(streams, stream_id) {
            None => streams,
            Some(i) => if streams[i].state.spec_close_remote() == StreamState::Closed {
                streams.remove(i)
            } else {
                streams.update(
                    i,
                    StreamView {
                        state: streams[i].state.spec_close_remote(),
                        has_peer_tx: false,
                        ..streams[i]
                    },
                )
            },
        }
    }

    /// The streams once a stream was reset by the peer: the stream leaves the
    /// map.
    pub open spec fn spec_reset(streams: Seq<StreamView>, stream_id: StreamId) -> Seq<StreamView> {
        match spec_index_of(streams, stream_id) {
            None => streams,
            Some(i) => streams.remove(i),
        }
    }

    /// Closes the peer's side of a stream: the end is put into the queue of
    /// the response, the queue is let go, and a stream that is closed then
    /// leaves the map. Nothing happens for a stream that is not in the map.
    pub fn stream_closed_remote(&mut self, stream_id: StreamId)
        requires
            old(self).wf(),
        ensures
            final(self).wf(),
            old(self).only_streams(
                final(self),
                Self::spec_closed_remote(old(self).common.streams@, stream_id),
            ),
    {
        let i: usize = match self.common.streams.find(stream_id) {
            Some(i) => i,
            None => {
                return ;
            },
        };
        proof {
            assert(old(self).common.streams@[i as int].wf());
        }
        let stream = &mut self.common.streams.streams[i];
        let _ = closed_remote(stream);
        stream.close_remote();
        let closed: bool = stream.state.is_closed();
        proof {
            self.common.lemma_stream_updated(&old(self).common, i as int);
        }
        if closed {
            let _gone = self.common.remove_stream_at(i);
            proof {
                assert(self.common.streams@ =~= old(self).common.streams@.remove(i as int));
            }
        }
    }

    /// Whether `after` and `table_after` are this connection and the
    /// decoder's table after `joined` was processed with result `r`, where the
    /// decoder's table was `table` before.
    pub open spec fn joined_done(
        &self,
        after: &ClientInner,
        r: Result<(), Error>,
        joined: JoinedView,
        table: DynamicTableView,
        max_allowed: nat,
        table_after: DynamicTableView,
    ) -> bool {
        let streams = self.common.streams@;
        match joined {
            JoinedView::Partial => r is Ok && *after == *self && table_after == table,
            JoinedView::Headers(block) => match spec_decode_headers(
                block.block,
                table,
                max_allowed,
            ) {
                Err(_) => r == Err::<(), Error>(Error::CodeError(ErrorCode::CompressionError))
                    && *after == *self,
                Ok((headers, decoded_table)) => table_after == decoded_table && (
                if block.promised_stream_id is Some {
                    r == Err::<(), Error>(Error::CodeError(ErrorCode::ProtocolError)) && *after
                        == *self
                } else {
                    r is Ok && self.only_streams(
                        after,
                        if bits_set(block.flags, 0x1) {
                            Self::spec_closed_remote(streams, block.stream_id)
                        } else {
                            streams
                        },
                    )
                }),
            },
            JoinedView::Frame(frame) => table_after == table && (match frame {
                HttpFrameView::Data(data) => r is Ok && self.only_streams(
                    after,
                    if data.is_end_of_stream() {
                        Self::spec_closed_remote(streams, data.stream_id)
                    } else {
                        streams
                    },
                ),
                HttpFrameView::RstStream(rst) => r is Ok && self.only_streams(
                    after,
                    Self::spec_reset(streams, rst.stream_id),
                ),
                HttpFrameView::Settings(list, flags) => after.session_state == self.session_state
                    && self.common.settings_done(&after.common, r, list, flags),
                HttpFrameView::Ping(opaque_data, flags) => after.session_state
                    == self.session_state && self.common.ping_done(
                    &after.common,
                    r,
                    opaque_data,
                    flags,
                ),
                _ => r is Ok && *after == *self,
            }),
        }
    }

    /// Takes in what a frame gave once header blocks were put together;
    /// `joined_done` says what happens. The headers of a response, the pieces
    /// of its body and a reset go into the queue of the request; what ends
    /// the stream closes the peer's side of it, and a reset takes the stream
    /// out of the map. Settings and PING are answered. A header block that
    /// cannot be decoded is a compression error of the connection, and a
    /// promise of a pushed stream breaks the protocol: this client accepts
    /// none. Frames of other types are passed over.
    pub fn process_joined(&mut self, joined: Joined, decoder: &mut Decoder) -> (r: Result<(), Error>)
        requires
            old(self).wf(),
            old(decoder).wf(),
        ensures
            final(self).wf(),
            final(decoder).wf(),
            final(decoder).max_allowed() == old(decoder).max_allowed(),
            old(self).joined_done(
                final(self),
                r,
                joined@,
                old(decoder)@,
                old(decoder).max_allowed(),
                final(decoder)@,
            ),
    {
        match joined {
            Joined::Partial => Ok(()),
            Joined::Headers(block) => {
                let HeadersBlock { flags, stream_id, block, stream_dep, padding_len, promised_stream_id } =
                    block;
                let headers = match decoder.decode(block.as_slice()) {
                    Err(_) => {
                        return Err(Error::CodeError(ErrorCode::CompressionError));
                    },
                    Ok(headers) => headers,
                };
                if promised_stream_id.is_some() {
                    return Err(Error::CodeError(ErrorCode::ProtocolError));
                }
                let ends: bool = flags.is_set(crate::solicit::frame::headers::HeadersFlag::EndStream);
                let _ = self.process_headers(stream_id, EndStream::from_bool(ends), headers);
                if ends {
                    self.stream_closed_remote(stream_id);
                }
                Ok(())
            },
            Joined::Frame(frame) => match frame {
                HttpFrame::Data(data) => {
                    let ends: bool = data.is_end_of_stream();
                    let stream_id: StreamId = data.get_stream_id();
                    match self.common.streams.find(stream_id) {
                        Some(i) => {
                            let _ = new_data_chunk(
                                &mut self.common.streams.streams[i],
                                data.into_data(),
                                ends,
                            );
                            proof {
                                assert(old(self).common.streams@[i as int].wf());
                                self.common.lemma_stream_updated(&old(self).common, i as int);
                                assert(self.common.streams@ =~= old(self).common.streams@);
                            }
                        },
                        None => {},
                    }
                    assert(old(self).only_streams(self, old(self).common.streams@));
                    if ends {
                        self.stream_closed_remote(stream_id);
                    }
                    Ok(())
                },
                HttpFrame::RstStream(frame) => {
                    match self.common.streams.find(frame.get_stream_id()) {
                        Some(i) => {
                            let _ = rst(&mut self.common.streams.streams[i], frame.error_code());
                            proof {
                                assert(old(self).common.streams@[i as int].wf());
                                self.common.lemma_stream_updated(&old(self).common, i as int);
                                assert(self.common.streams@ =~= old(self).common.streams@);
                            }
                            let _gone = self.common.remove_stream_at(i);
                        },
                        None => {},
                    }
                    assert(old(self).only_streams(
                        self,
                        Self::spec_reset(old(self).common.streams@, frame@.stream_id),
                    ));
                    Ok(())
                },
                HttpFrame::Settings(settings) => self.common.process_settings(&settings),
                HttpFrame::Ping(ping) => self.common.process_ping(ping),
                _ => Ok(()),
            },
        }
    }
}

} // verus!
