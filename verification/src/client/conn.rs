//! One client connection: how a request is started and how the headers of a
//! response are taken in.

use crate::bytes_model::bytes_seq;
use crate::client::increase_in_window::ClientIncreaseInWindow;
use crate::client::req::ClientRequest;
use crate::client::stream_handler::{
    ClientStreamCreatedHandler, ClientStreamHandler, ClientStreamHandlerHolder,
};
use crate::codec::frame_reader::{
    lemma_next_joined_shorter, spec_next_joined, FrameReader, FrameReaderView,
};
use crate::codec::join_continuation::{HeadersBlock, Joined, JoinedView};
use crate::common::conn_read::Inbound;
use crate::hpack::decoder::spec_decode_headers;
use crate::hpack::dynamic_table::DynamicTableView;
use crate::solicit::frame::flags::bits_set;
use crate::solicit::frame::http_frame::HttpFrameView;
use crate::common::conn::Conn;
use crate::common::conn_write::{spec_buffer_outg, CommonToWriteMessage, WriteAction, WriterView};
use crate::common::increase_in_window::IncreaseInWindow;
use crate::common::stream::{InMessageStage, StreamState, StreamView};
use crate::common::stream_handler::StreamHandlerInternal;
use crate::common::stream_map::{spec_index_of, spec_insert_pos};
use crate::common::window_size::WindowSize;
use crate::data_or_headers::{DataOrHeaders, PartView};
use crate::error::Error;
use crate::hpack::decoder::Decoder;
use crate::solicit::end_stream::EndStream;
use crate::solicit::error_code::ErrorCode;
use crate::solicit::frame::http_frame::HttpFrame;
use crate::solicit::frame::settings::{
    spec_apply_settings, spec_default_settings, HttpSetting, HttpSettings, SettingsFrame,
};
use crate::solicit::header::{
    spec_get, spec_parse_decimal, spec_validate, Headers, HeadersPlace,
    RequestOrResponse,
};
use crate::solicit::stream_id::StreamId;
use bytes::Bytes;
use vstd::prelude::*;
use vstd::std_specs::convert::FromSpecImpl;
use vstd::string::StringSliceAdditionalSpecFns;

verus! {

/// What a client keeps for each of its streams beyond the common state.
#[derive(Clone, Copy, Debug, PartialEq, Eq, Structural)]
pub struct ClientStreamData {
}

/// Told, at most once, that the server is going away.
pub trait ClientConnCallbacks {
    /// The server sent GOAWAY with this last stream and this code.
    fn goaway(&self, stream_id: StreamId, raw_error_code: u32);
}

/// What a client keeps for its connection beyond the common state.
pub struct ClientConnData<C: ClientConnCallbacks> {
    _callbacks: C,
}

impl<C: ClientConnCallbacks> ClientConnData<C> {
    /// The callbacks that are told of the connection's events.
    pub closed spec fn callbacks(&self) -> C {
        self._callbacks
    }

    /// Wraps the callbacks of a connection: they are the ones that are told
    /// from now on.
    pub fn new(callbacks: C) -> (r: ClientConnData<C>)
        ensures
            r.callbacks() == callbacks,
    {
        ClientConnData { _callbacks: callbacks }
    }

    /// Tells the callbacks that the server is going away.
    pub fn goaway(&self, stream_id: StreamId, raw_error_code: u32) {
        self._callbacks.goaway(stream_id, raw_error_code);
    }
}

/// A request to be started.
pub struct StartRequestMessage<S: ClientStreamCreatedHandler> {
    /// The request's headers.
    pub headers: Headers,
    /// The request's body, if it is at hand.
    pub body: Option<Bytes>,
    /// The request's trailers, if it has any.
    pub trailers: Option<Headers>,
    /// Whether the request ends with what is given here.
    pub end_stream: bool,
    /// Told of the stream once it is created.
    pub stream_handler: S,
}

/// A request to be started, as it travels to the writer.
pub struct ClientStartRequestMessage<S: ClientStreamCreatedHandler> {
    /// The request.
    pub start: StartRequestMessage<S>,
}

/// A message for the writer of a client connection.
pub enum ClientToWriteMessage<S: ClientStreamCreatedHandler> {
    /// Start a request.
    Start(ClientStartRequestMessage<S>),
    /// Say when the handshake is done.
    WaitForHandshake,
    /// A message that clients and servers share.
    Common(CommonToWriteMessage),
}

impl<S: ClientStreamCreatedHandler> From<CommonToWriteMessage> for ClientToWriteMessage<S> {
    /// A message that clients and servers share, as a message for the
    /// writer of a client connection.
    fn from(m: CommonToWriteMessage) -> (r: ClientToWriteMessage<S>) {
        ClientToWriteMessage::Common(m)
    }
}

impl<S: ClientStreamCreatedHandler> FromSpecImpl<CommonToWriteMessage> for ClientToWriteMessage<S> {
    open spec fn obeys_from_spec() -> bool {
        true
    }

    open spec fn from_spec(m: CommonToWriteMessage) -> ClientToWriteMessage<S> {
        ClientToWriteMessage::Common(m)
    }
}

/// The settings that a client announces: the defaults, with push refused.
pub fn client_initial_settings() -> (r: (SettingsFrame, HttpSettings))
    ensures
        r.0.settings@ == seq![HttpSetting::EnablePush(false)],
        r.0.flags.0 == 0,
        r.1 == (HttpSettings { enable_push: false, ..spec_default_settings() }),
{
    let mut list: Vec<HttpSetting> = Vec::new();
    list.push(HttpSetting::EnablePush(false));
    let settings_frame = SettingsFrame::from_settings(list);
    let mut settings = HttpSettings::default_settings();
    settings.apply_from_frame(&settings_frame);
    proof {
        let one = seq![HttpSetting::EnablePush(false)];
        assert(settings_frame.settings@ =~= one);
        assert(one.drop_last() =~= Seq::<HttpSetting>::empty());
        assert(spec_apply_settings(spec_default_settings(), one.drop_last())
            == spec_default_settings());
    }
    (settings_frame, settings)
}

/// What the client makes of the headers of a response.
pub ghost enum HeadersDecision {
    /// The stream has had its trailers: the engine is at fault.
    AfterTrailers,
    /// The headers break the protocol: the stream is reset.
    Reset,
    /// The headers are taken in. `deliver` says whether the handler is told:
    /// informational headers are not delivered.
    Accept { stage: InMessageStage, content_length: Option<u64>, place: HeadersPlace, deliver: bool },
}

/// The status that response headers announce, if it is a number.
pub open spec fn spec_status(headers: Seq<(Seq<u8>, Seq<u8>)>) -> Option<u32> {
    match spec_get(headers, ":status".spec_bytes()) {
        Some(value) => match spec_parse_decimal(value) {
            Some(n) => if n <= u32::MAX {
                Some(n as u32)
            } else {
                None
            },
            None => None,
        },
        None => None,
    }
}

/// The body length that headers announce, if it is a number.
pub open spec fn spec_content_length(headers: Seq<(Seq<u8>, Seq<u8>)>) -> Option<u64> {
    match spec_get(headers, "content-length".spec_bytes()) {
        Some(value) => match spec_parse_decimal(value) {
            Some(n) => if n <= u64::MAX {
                Some(n as u64)
            } else {
                None
            },
            None => None,
        },
        None => None,
    }
}

/// What the client makes of response headers on a stream at the given
/// stage. The first headers are the message's headers, later ones are
/// trailers. Headers that are not valid for their place reset the stream;
/// so do informational headers that end the stream, and trailers that do
/// not. Informational headers leave the stage as it is.
pub open spec fn spec_headers_decision(
    stage: InMessageStage,
    headers: Seq<(Seq<u8>, Seq<u8>)>,
    end_stream: bool,
) -> HeadersDecision {
    match stage {
        InMessageStage::AfterTrailingHeaders => HeadersDecision::AfterTrailers,
        InMessageStage::Initial => {
            if spec_validate(headers, RequestOrResponse::Response, HeadersPlace::Initial) is Err {
                HeadersDecision::Reset
            } else {
                let status_1xx = spec_status(headers) matches Some(status) && 100 <= status <= 199;
                if status_1xx && end_stream {
                    HeadersDecision::Reset
                } else {
                    HeadersDecision::Accept {
                        stage: if status_1xx {
                            InMessageStage::Initial
                        } else {
                            InMessageStage::AfterInitialHeaders
                        },
                        content_length: spec_content_length(headers),
                        place: HeadersPlace::Initial,
                        deliver: !status_1xx,
                    }
                }
            }
        },
        InMessageStage::AfterInitialHeaders => {
            if spec_validate(headers, RequestOrResponse::Response, HeadersPlace::Trailing) is Err {
                HeadersDecision::Reset
            } else if !end_stream {
                HeadersDecision::Reset
            } else {
                HeadersDecision::Accept {
                    stage: InMessageStage::AfterTrailingHeaders,
                    content_length: spec_content_length(headers),
                    place: HeadersPlace::Trailing,
                    deliver: true,
                }
            }
        },
    }
}

/// What an optional body holds.
pub open spec fn spec_body_view(body: Option<Bytes>) -> Option<Seq<u8>> {
    match body {
        Some(data) => Some(bytes_seq(data)),
        None => None,
    }
}

/// What optional trailers hold.
pub open spec fn spec_trailers_view(trailers: Option<Headers>) -> Option<Seq<(Seq<u8>, Seq<u8>)>> {
    match trailers {
        Some(t) => Some(t@),
        None => None,
    }
}

/// The stream of a request after the request's parts were queued on it.
pub open spec fn spec_started_stream(
    stream: StreamView,
    headers: Seq<(Seq<u8>, Seq<u8>)>,
    body: Option<Seq<u8>>,
    trailers: Option<Seq<(Seq<u8>, Seq<u8>)>>,
    end_stream: bool,
) -> StreamView {
    let with_headers = StreamView { has_peer_tx: true, ..stream }.push_back(
        PartView::Headers(headers),
    );
    let with_body = match body {
        Some(data) => with_headers.push_back(PartView::Data(data)),
        None => with_headers,
    };
    let with_trailers = match trailers {
        Some(t) => with_body.push_back(PartView::Headers(t)),
        None => with_body,
    };
    if end_stream {
        with_trailers.close_outgoing(ErrorCode::NoError)
    } else {
        with_trailers
    }
}

impl<X: ClientStreamHandler> Conn<ClientStreamHandlerHolder<X>> {
    /// Finishes the start of a request once the request's handler has
    /// answered. With a handler, the handler is attached to the stream and
    /// the request's parts are queued: headers, body, trailers, and the end
    /// if the request ends here. With an error, the request is cancelled:
    /// the stream is marked for a reset with `InternalError`.
    pub fn process_start_created(
        &mut self,
        stream_id: StreamId,
        created: Result<X, Error>,
        headers: Headers,
        body: Option<Bytes>,
        trailers: Option<Headers>,
        end_stream: bool,
    )
        requires
            old(self).wf(),
            old(self).streams.contains(stream_id),
        ensures
            final(self).wf(),
            old(self).same_but_writer(final(self)),
            final(self).writer_view() == (WriterView {
                streams: old(self).streams@.update(
                    spec_index_of(old(self).streams@, stream_id)->Some_0,
                    match created {
                        Err(_) => old(self).streams@[spec_index_of(
                            old(self).streams@,
                            stream_id,
                        )->Some_0].close_outgoing(ErrorCode::InternalError),
                        Ok(_) => spec_started_stream(
                            old(self).streams@[spec_index_of(
                                old(self).streams@,
                                stream_id,
                            )->Some_0],
                            headers@,
                            spec_body_view(body),
                            spec_trailers_view(trailers),
                            end_stream,
                        ),
                    },
                ),
                ..old(self).writer_view()
            }),
    {
        let i: usize = match self.streams.find(stream_id) {
            Some(i) => i,
            None => {
                return ;
            },
        };
        proof {
            assert(old(self).streams@[i as int].wf());
        }
        match created {
            Err(_) => {
                // The request is cancelled before it went out.
                self.streams.streams[i].close_outgoing(ErrorCode::InternalError);
            },
            Ok(handler) => {
                let stream = &mut self.streams.streams[i];
                stream.peer_tx = Some(ClientStreamHandlerHolder(handler));
                stream.push_back(DataOrHeaders::Headers(headers));
                match body {
                    Some(body) => {
                        stream.push_back(DataOrHeaders::Data(body));
                    },
                    None => {},
                }
                match trailers {
                    Some(trailers) => {
                        stream.push_back(DataOrHeaders::Headers(trailers));
                    },
                    None => {},
                }
                if end_stream {
                    stream.close_outgoing(ErrorCode::NoError);
                }
            },
        }
        proof {
            self.lemma_stream_updated(old(self), i as int);
        }
    }

    /// What the writer holds once a request was given its stream and queued
    /// on it, before the buffering pass. `accepted` says whether the
    /// request's handler gave a handler for the response.
    pub open spec fn spec_request_queued(
        &self,
        accepted: bool,
        headers: Seq<(Seq<u8>, Seq<u8>)>,
        body: Option<Seq<u8>>,
        trailers: Option<Seq<(Seq<u8>, Seq<u8>)>>,
        end_stream: bool,
    ) -> WriterView {
        let stream_id = self.spec_next_local_stream_id() as StreamId;
        let fresh = StreamView {
            stream_id,
            state: StreamState::Open,
            in_window_size: WindowSize(self.our_settings_ack.initial_window_size as i32),
            out_window_size: WindowSize(self.peer_settings.initial_window_size as i32),
            in_rem_content_length: None,
            in_message_stage: InMessageStage::Initial,
            outgoing: Seq::empty(),
            outgoing_end: None,
            has_peer_tx: false,
        };
        WriterView {
            streams: self.streams@.insert(
                spec_insert_pos(self.streams@, stream_id),
                if accepted {
                    spec_started_stream(fresh, headers, body, trailers, end_stream)
                } else {
                    fresh.close_outgoing(ErrorCode::InternalError)
                },
            ),
            ..self.writer_view()
        }
    }

    /// Whether `after` is this connection after a request with the given
    /// parts was started with result `r`.
    pub open spec fn start_done(
        &self,
        after: &Conn<ClientStreamHandlerHolder<X>>,
        r: Result<(), Error>,
        headers: Seq<(Seq<u8>, Seq<u8>)>,
        body: Option<Seq<u8>>,
        trailers: Option<Seq<(Seq<u8>, Seq<u8>)>>,
        end_stream: bool,
    ) -> bool {
        match r {
            Ok(_) => {
                &&& self.spec_next_local_stream_id() <= 0x7fff_ffff
                &&& after.last_local_stream_id == self.spec_next_local_stream_id()
                &&& after.last_peer_stream_id == self.last_peer_stream_id
                &&& after.role == self.role
                &&& after.peer_settings == self.peer_settings
                &&& after.our_settings_ack == self.our_settings_ack
                &&& after.our_settings_sent == self.our_settings_sent
                &&& after.in_window_size == self.in_window_size
                &&& after.goaway_received == self.goaway_received
                &&& exists|accepted: bool|
                    after.writer_view() == spec_buffer_outg(
                        #[trigger] self.spec_request_queued(
                            accepted,
                            headers,
                            body,
                            trailers,
                            end_stream,
                        ),
                    ).writer
            },
            Err(e) => {
                &&& self.spec_next_local_stream_id() > 0x7fff_ffff
                &&& e == Error::Other("stream identifiers are used up")
                &&& *after == *self
            },
        }
    }

    /// Starts a request: gives it the next identifier of this side, creates
    /// its stream, asks the request's handler for the handler of the
    /// response, queues the request as `process_start_created` says, and
    /// makes a buffering pass. Fails, and changes nothing, once the
    /// identifiers are used up.
    pub fn process_start<S: ClientStreamCreatedHandler<Handler = X>>(
        &mut self,
        start: ClientStartRequestMessage<S>,
    ) -> (r: Result<(), Error>)
        requires
            old(self).wf(),
        ensures
            final(self).wf(),
            old(self).start_done(
                final(self),
                r,
                start.start.headers@,
                spec_body_view(start.start.body),
                spec_trailers_view(start.start.trailers),
                start.start.end_stream,
            ),
    {
        let ghost queued_headers = start.start.headers@;
        let ghost queued_body = spec_body_view(start.start.body);
        let ghost queued_trailers = spec_trailers_view(start.start.trailers);
        let ClientStartRequestMessage { start: request } = start;
        let StartRequestMessage { headers, body, trailers, end_stream, stream_handler } = request;
        let mut stream_handler = stream_handler;
        let stream_id: StreamId = match self.next_local_stream_id() {
            Ok(id) => id,
            Err(e) => {
                return Err(e);
            },
        };
        self.new_stream_data(stream_id, None, InMessageStage::Initial, None);
        let in_window_size: u32 = self.our_settings_ack.initial_window_size;
        let increase_in_window = ClientIncreaseInWindow(
            IncreaseInWindow { stream_id, in_window_size },
        );
        let req = ClientRequest {
            stream_id,
            out_window_size: self.peer_settings.initial_window_size,
        };
        let created = stream_handler.request_created(req, increase_in_window);
        let ghost accepted = created is Ok;
        let ghost inserted = self.streams@;
        self.process_start_created(stream_id, created, headers, body, trailers, end_stream);
        proof {
            let pos = spec_insert_pos(old(self).streams@, stream_id);
            let expected = old(self).spec_request_queued(
                accepted,
                queued_headers,
                queued_body,
                queued_trailers,
                end_stream,
            );
            assert(self.writer_view().streams =~= expected.streams);
            assert(self.writer_view() == expected);
        }
        // Also opens the latch if necessary.
        match self.buffer_outg_conn() {
            Ok(_) => Ok(()),
            Err(e) => Err(e),
        }
    }

    /// Whether `after` is this connection after the headers of a response
    /// were taken in with result `r`.
    pub open spec fn headers_done(
        &self,
        after: &Conn<ClientStreamHandlerHolder<X>>,
        r: Result<Option<StreamId>, Error>,
        stream_id: StreamId,
        end_stream: bool,
        headers: Seq<(Seq<u8>, Seq<u8>)>,
    ) -> bool {
        &&& match spec_index_of(self.streams@, stream_id) {
            None => {
                &&& *after == *self
                &&& r == (if self.spec_is_closed_stream(stream_id) {
                    Ok::<Option<StreamId>, Error>(None)
                } else {
                    Err::<Option<StreamId>, Error>(Error::CodeError(ErrorCode::ProtocolError))
                })
            },
            Some(i) => match spec_headers_decision(
                self.streams@[i].in_message_stage,
                headers,
                end_stream,
            ) {
                HeadersDecision::AfterTrailers => {
                    &&& *after == *self
                    &&& r == Err::<Option<StreamId>, Error>(
                        Error::InternalError("closed stream must be handled before"),
                    )
                },
                HeadersDecision::Reset => {
                    &&& r == Ok::<Option<StreamId>, Error>(None)
                    &&& self.same_but_writer(after)
                    &&& after.writer_view() == (WriterView {
                        streams: self.streams@.remove(i),
                        queued: if self.queued_write.spec_goaway_queued() {
                            self.queued_write.queued()
                        } else {
                            self.queued_write.queued()
                                + crate::common::conn_write::spec_rst_frame(
                                stream_id,
                                ErrorCode::ProtocolError,
                            )
                        },
                        ..self.writer_view()
                    })
                },
                HeadersDecision::Accept { stage, content_length, place, deliver } => {
                    &&& r == Ok::<Option<StreamId>, Error>(Some(stream_id))
                    &&& self.same_but_writer(after)
                    &&& after.writer_view() == (WriterView {
                        streams: self.streams@.update(
                            i,
                            StreamView {
                                in_message_stage: stage,
                                in_rem_content_length: match content_length {
                                    Some(n) => Some(n),
                                    None => self.streams@[i].in_rem_content_length,
                                },
                                ..self.streams@[i]
                            },
                        ),
                        ..self.writer_view()
                    })
                },
            },
        }
    }

    /// Takes in the headers of a response. Headers for a stream that was
    /// closed before are passed over; headers for a stream that was never
    /// opened break the protocol. For a stream of the map,
    /// `spec_headers_decision` says what happens: the stream is reset with
    /// `ProtocolError`; or the stream's stage and announced body length are
    /// set and, unless the headers are informational, its handler is told.
    /// The result names the stream where the headers were taken in.
    pub fn process_headers(&mut self, stream_id: StreamId, end_stream: EndStream, headers: Headers) -> (r:
        Result<Option<StreamId>, Error>)
        requires
            old(self).wf(),
        ensures
            final(self).wf(),
            old(self).headers_done(
                final(self),
                r,
                stream_id,
                end_stream == EndStream::Yes,
                headers@,
            ),
    {
        let i: usize = match self.get_stream_for_headers_maybe_send_error(stream_id) {
            Err(e) => {
                return Err(e);
            },
            Ok(None) => {
                return Ok(None);
            },
            Ok(Some(i)) => i,
        };
        let ends: bool = end_stream.to_bool();
        let in_message_stage = self.streams.streams[i].in_message_stage;
        let headers_place = match in_message_stage {
            InMessageStage::Initial => HeadersPlace::Initial,
            InMessageStage::AfterInitialHeaders => HeadersPlace::Trailing,
            InMessageStage::AfterTrailingHeaders => {
                return Err(Error::InternalError("closed stream must be handled before"));
            },
        };
        match headers.validate(RequestOrResponse::Response, headers_place) {
            Err(_) => {
                let _ = self.send_rst_stream(stream_id, ErrorCode::ProtocolError);
                return Ok(None);
            },
            Ok(_) => {},
        }
        let status_1xx: bool = match headers_place {
            HeadersPlace::Initial => {
                let status_1xx: bool = match headers.status() {
                    Some(status) => status >= 100 && status <= 199,
                    None => false,
                };
                if status_1xx && ends {
                    let _ = self.send_rst_stream(stream_id, ErrorCode::ProtocolError);
                    return Ok(None);
                }
                status_1xx
            },
            HeadersPlace::Trailing => {
                if !ends {
                    let _ = self.send_rst_stream(stream_id, ErrorCode::ProtocolError);
                    return Ok(None);
                }
                false
            },
        };
        proof {
            assert(old(self).streams@[i as int].wf());
        }
        let stream = &mut self.streams.streams[i];
        match headers.content_length() {
            Some(in_rem_content_length) => {
                stream.in_rem_content_length = Some(in_rem_content_length);
            },
            None => {},
        }
        stream.in_message_stage = match headers_place {
            HeadersPlace::Initial => if status_1xx {
                InMessageStage::Initial
            } else {
                InMessageStage::AfterInitialHeaders
            },
            HeadersPlace::Trailing => InMessageStage::AfterTrailingHeaders,
        };
        // Informational headers are not delivered.
        if !status_1xx {
            match &mut stream.peer_tx {
                Some(response_handler) => {
                    let _ = match headers_place {
                        HeadersPlace::Initial => response_handler.0.headers(headers, ends),
                        HeadersPlace::Trailing => response_handler.trailers(headers),
                    };
                },
                None => {},
            }
        }
        proof {
            self.lemma_stream_updated(old(self), i as int);
        }
        Ok(Some(stream_id))
    }

    /// Processes a message for the writer of a client connection, and says
    /// what is left for the caller to do. A request is started as
    /// `process_start` says, with nothing left to do; the one who waits for
    /// the handshake is to be answered; a message that clients and servers
    /// share is processed as `process_common_message` says.
    pub fn process_message<S: ClientStreamCreatedHandler<Handler = X>>(
        &mut self,
        message: ClientToWriteMessage<S>,
    ) -> (r: Result<WriteAction, Error>)
        requires
            old(self).wf(),
        ensures
            final(self).wf(),
            match message {
                ClientToWriteMessage::Start(start) => {
                    &&& r matches Ok(action) ==> action == WriteAction::Nothing
                    &&& old(self).start_done(
                        final(self),
                        match r {
                            Ok(_) => Ok(()),
                            Err(e) => Err(e),
                        },
                        start.start.headers@,
                        spec_body_view(start.start.body),
                        spec_trailers_view(start.start.trailers),
                        start.start.end_stream,
                    )
                },
                ClientToWriteMessage::WaitForHandshake => {
                    &&& r == Ok::<WriteAction, Error>(WriteAction::ReplyHandshake)
                    &&& *final(self) == *old(self)
                },
                ClientToWriteMessage::Common(common) => old(self).common_done(
                    final(self),
                    r,
                    common,
                ),
            },
    {
        match message {
            ClientToWriteMessage::Start(start) => match self.process_start(start) {
                Ok(_) => Ok(WriteAction::Nothing),
                Err(e) => Err(e),
            },
            ClientToWriteMessage::Common(common) => self.process_common_message(common),
            ClientToWriteMessage::WaitForHandshake => Ok(WriteAction::ReplyHandshake),
        }
    }

    /// The result for the one who hears only whether the connection goes on.
    pub open spec fn spec_goes_on(inner: Result<Inbound, Error>) -> Result<(), Error> {
        match inner {
            Ok(_) => Ok(()),
            Err(e) => Err(e),
        }
    }

    /// Whether `after` is this connection after a decoded header block of a
    /// response was taken in with result `r`: the headers are processed, and
    /// where they were taken in and end the stream, the peer's side of the
    /// stream is closed afterwards.
    pub open spec fn headers_joined(
        &self,
        after: &Conn<ClientStreamHandlerHolder<X>>,
        r: Result<(), Error>,
        stream_id: StreamId,
        end_stream: bool,
        headers: Seq<(Seq<u8>, Seq<u8>)>,
    ) -> bool {
        exists|mid: Conn<ClientStreamHandlerHolder<X>>, inner: Result<Option<StreamId>, Error>|
            {
                &&& #[trigger] self.headers_done(&mid, inner, stream_id, end_stream, headers)
                &&& mid.wf()
                &&& match inner {
                    Err(e) => r == Err::<(), Error>(e) && *after == mid,
                    Ok(None) => r is Ok && *after == mid,
                    Ok(Some(id)) => r is Ok && (if end_stream {
                        mid.remote_closed(after, id)
                    } else {
                        *after == mid
                    }),
                }
            }
    }

    fn process_headers_block(&mut self, stream_id: StreamId, end_stream: bool, headers: Headers) -> (r:
        Result<(), Error>)
        requires
            old(self).wf(),
        ensures
            final(self).wf(),
            old(self).headers_joined(final(self), r, stream_id, end_stream, headers@),
    {
        let inner = self.process_headers(stream_id, EndStream::from_bool(end_stream), headers);
        let ghost mid = *self;
        let r = match inner {
            Err(e) => Err(e),
            Ok(None) => Ok(()),
            Ok(Some(id)) => {
                if end_stream {
                    self.close_remote(id);
                }
                Ok(())
            },
        };
        proof {
            assert(old(self).headers_done(&mid, inner, stream_id, end_stream, headers@));
        }
        r
    }

    /// Whether `after` is this connection after a DATA frame was processed
    /// with result `r`.
    pub open spec fn data_joined(
        &self,
        after: &Conn<ClientStreamHandlerHolder<X>>,
        r: Result<(), Error>,
        data: crate::solicit::frame::data::DataFrameView,
    ) -> bool {
        exists|inner: Result<Inbound, Error>|
            #[trigger] self.data_done(
                after,
                inner,
                data.stream_id,
                data.data,
                data.flow_controlled_len(),
                data.is_end_of_stream(),
            ) && r == Self::spec_goes_on(inner)
    }

    /// Whether `after` is this connection after a RST_STREAM frame was
    /// processed with result `r`.
    pub open spec fn rst_stream_joined(
        &self,
        after: &Conn<ClientStreamHandlerHolder<X>>,
        r: Result<(), Error>,
        stream_id: StreamId,
    ) -> bool {
        exists|inner: Result<Inbound, Error>|
            #[trigger] self.rst_stream_done(after, inner, stream_id) && r == Self::spec_goes_on(
                inner,
            )
    }

    /// Whether `after` is this connection after a WINDOW_UPDATE frame was
    /// processed with result `r`.
    pub open spec fn window_update_joined(
        &self,
        after: &Conn<ClientStreamHandlerHolder<X>>,
        r: Result<(), Error>,
        stream_id: StreamId,
        increment: u32,
    ) -> bool {
        exists|inner: Result<Inbound, Error>|
            #[trigger] self.window_update_done(after, inner, stream_id, increment) && r
                == Self::spec_goes_on(inner)
    }

    /// Whether `after` is this connection after a frame that is no part of
    /// a header block was processed with result `r`.
    pub open spec fn frame_done(
        &self,
        after: &Conn<ClientStreamHandlerHolder<X>>,
        r: Result<(), Error>,
        frame: HttpFrameView,
    ) -> bool {
        match frame {
            HttpFrameView::Data(data) => self.data_joined(after, r, data),
            HttpFrameView::RstStream(rst) => self.rst_stream_joined(after, r, rst.stream_id),
            HttpFrameView::Settings(list, flags) => self.settings_done(after, r, list, flags),
            HttpFrameView::Ping(opaque_data, flags) => self.ping_done(after, r, opaque_data, flags),
            HttpFrameView::Goaway(goaway) => self.goaway_done(
                after,
                r,
                goaway.last_stream_id,
                goaway.raw_error_code,
            ),
            HttpFrameView::WindowUpdate(update) => self.window_update_joined(
                after,
                r,
                update.stream_id,
                update.increment,
            ),
            HttpFrameView::Priority(_) => r is Ok && *after == *self,
            HttpFrameView::Unknown(_) => r is Ok && *after == *self,
            _ => r == Err::<(), Error>(Error::InternalError("header block frame was not joined"))
                && *after == *self,
        }
    }

    /// Whether `after` and `table_after` are this connection and the
    /// decoder's table after `joined` was processed with result `r`, where the
    /// decoder's table was `table` before.
    pub open spec fn joined_done(
        &self,
        after: &Conn<ClientStreamHandlerHolder<X>>,
        r: Result<(), Error>,
        joined: JoinedView,
        table: DynamicTableView,
        max_allowed: nat,
        table_after: DynamicTableView,
    ) -> bool {
        match joined {
            JoinedView::Partial => r is Ok && *after == *self && table_after == table,
            JoinedView::Headers(block) => match spec_decode_headers(
                block.block,
                table,
                max_allowed,
            ) {
                Err(_) => r == Err::<(), Error>(Error::CodeError(ErrorCode::CompressionError))
                    && *after == *self,
                Ok((headers, decoded_table)) => table_after == decoded_table && (
                match block.promised_stream_id {
                    Some(promised) => self.push_promise_done(after, r, promised, false),
                    None => self.headers_joined(
                        after,
                        r,
                        block.stream_id,
                        bits_set(block.flags, 0x1),
                        headers,
                    ),
                }),
            },
            JoinedView::Frame(frame) => table_after == table && self.frame_done(after, r, frame),
        }
    }

    /// Takes in what a frame gave once header blocks were put together, and
    /// passes it to the operation for its kind; `joined_done` says what
    /// happens. A header block is decoded first; one that cannot be decoded
    /// is a compression error of the connection. Headers that end the stream
    /// close the peer's side of the stream after they were taken in. A
    /// PRIORITY frame and a frame of a type that the protocol does not define
    /// are passed over. An error means that the connection is to end with a
    /// GOAWAY frame.
    pub fn process_joined(&mut self, joined: Joined, decoder: &mut Decoder) -> (r: Result<(), Error>)
        requires
            old(self).wf(),
            old(decoder).wf(),
        ensures
            final(self).wf(),
            final(decoder).wf(),
            final(decoder).max_allowed() == old(decoder).max_allowed(),
            old(self).joined_done(
                final(self),
                r,
                joined@,
                old(decoder)@,
                old(decoder).max_allowed(),
                final(decoder)@,
            ),
    {
        let ghost view = joined@;
        let ghost table = decoder@;
        let ghost max_allowed = decoder.max_allowed();
        match joined {
            Joined::Partial => Ok(()),
            Joined::Headers(block) => {
                let HeadersBlock { flags, stream_id, block, stream_dep, padding_len, promised_stream_id } =
                    block;
                let headers = match decoder.decode(block.as_slice()) {
                    Err(_) => {
                        return Err(Error::CodeError(ErrorCode::CompressionError));
                    },
                    Ok(headers) => headers,
                };
                match promised_stream_id {
                    Some(promised) => self.process_push_promise(promised, None),
                    None => {
                        let ends: bool = flags.is_set(
                            crate::solicit::frame::headers::HeadersFlag::EndStream,
                        );
                        self.process_headers_block(stream_id, ends, headers)
                    },
                }
            },
            Joined::Frame(frame) => match frame {
                HttpFrame::Data(data) => {
                    let ends: bool = data.is_end_of_stream();
                    let stream_id: StreamId = data.get_stream_id();
                    let flow_len: u32 = data.flow_controlled_len();
                    let ghost frame = data@;
                    let inner = self.process_data(stream_id, data.into_data(), flow_len, ends);
                    let r = match inner {
                        Ok(_) => Ok(()),
                        Err(e) => Err(e),
                    };
                    proof {
                        assert(old(self).data_done(
                            self,
                            inner,
                            frame.stream_id,
                            frame.data,
                            frame.flow_controlled_len(),
                            frame.is_end_of_stream(),
                        ));
                        assert(r == Self::spec_goes_on(inner));
                        assert(old(self).data_joined(self, r, frame));
                    }
                    r
                },
                HttpFrame::RstStream(rst) => {
                    let inner = self.process_rst_stream(rst.get_stream_id(), rst.raw_error_code());
                    let r = match inner {
                        Ok(_) => Ok(()),
                        Err(e) => Err(e),
                    };
                    proof {
                        assert(old(self).rst_stream_done(self, inner, rst@.stream_id));
                        assert(old(self).rst_stream_joined(self, r, rst@.stream_id));
                    }
                    r
                },
                HttpFrame::Settings(settings) => self.process_settings(&settings),
                HttpFrame::Ping(ping) => self.process_ping(ping),
                HttpFrame::Goaway(goaway) => self.process_goaway(
                    goaway.last_stream_id,
                    goaway.raw_error_code,
                ),
                HttpFrame::WindowUpdate(update) => {
                    let inner = self.process_window_update(update.stream_id, update.increment);
                    let r = match inner {
                        Ok(_) => Ok(()),
                        Err(e) => Err(e),
                    };
                    proof {
                        assert(old(self).window_update_done(
                            self,
                            inner,
                            update.stream_id,
                            update.increment,
                        ));
                        assert(old(self).window_update_joined(
                            self,
                            r,
                            update.stream_id,
                            update.increment,
                        ));
                    }
                    r
                },
                HttpFrame::Priority(_) => Ok(()),
                HttpFrame::Unknown(_) => Ok(()),
                HttpFrame::Headers(_) => Err(
                    Error::InternalError("header block frame was not joined"),
                ),
                HttpFrame::Continuation(_) => Err(
                    Error::InternalError("header block frame was not joined"),
                ),
                HttpFrame::PushPromise(_) => Err(
                    Error::InternalError("header block frame was not joined"),
                ),
            },
        }
    }

    /// Whether `after` and `reader_after` are this connection and its reader
    /// once the reader, which held `reader`, worked through the bytes that
    /// wait in it, with result `r`; `done` is the number of frames that were
    /// processed before. The frames at the front of the bytes are taken one
    /// by one, as `spec_next_joined` says, with the largest payload that this
    /// side accepts at that moment; each is processed as `joined_done` says,
    /// on the connection as the frame before left it, with a decoder that
    /// allows the table limit of this side's settings. The run ends with the
    /// first error, or with the number of frames when the bytes hold no
    /// further frame in full; the bytes that are left stay in the reader.
    /// After an error nothing is said of the reader.
    #[verifier::opaque]
    pub open spec fn fed(
        &self,
        after: &Conn<ClientStreamHandlerHolder<X>>,
        reader: ReaderView,
        reader_after: ReaderView,
        done: nat,
        r: Result<usize, Error>,
    ) -> bool
        decreases reader.frames.pending.len(),
    {
        match spec_next_joined(reader.frames, self.our_settings_ack.max_frame_size) {
            Err(e) => r == Err::<usize, Error>(e) && *after == *self,
            Ok(None) => r == Ok::<usize, Error>(done as usize) && *after == *self && reader_after
                == reader,
            Ok(Some((joined, frames))) => exists|
                mid: Conn<ClientStreamHandlerHolder<X>>,
                table: DynamicTableView,
                step: Result<(), Error>,
            |
                {
                    &&& #[trigger] self.joined_done(
                        &mid,
                        step,
                        joined,
                        reader.table,
                        self.our_settings_ack.header_table_size as nat,
                        table,
                    )
                    &&& mid.wf()
                    &&& match step {
                        Err(e) => r == Err::<usize, Error>(e) && *after == mid,
                        Ok(_) => mid.fed(
                            after,
                            ReaderView { frames, table },
                            reader_after,
                            done + 1,
                            r,
                        ),
                    }
                },
        }
    }
}

/// The reading side of a client connection: the frame reader, and the
/// decoder of the header blocks that the server sends.
pub struct ClientReader {
    frames: FrameReader,
    decoder: Decoder,
}

/// What the reading side of a client connection holds.
pub ghost struct ReaderView {
    /// What the frame reader holds.
    pub frames: FrameReaderView,
    /// The dynamic table of the decoder.
    pub table: DynamicTableView,
}

impl View for ClientReader {
    type V = ReaderView;

    closed spec fn view(&self) -> ReaderView {
        ReaderView { frames: self.frames@, table: self.decoder@ }
    }
}

impl ClientReader {
    /// The decoder is consistent.
    pub closed spec fn wf(&self) -> bool {
        self.decoder.wf()
    }

    /// A reader that has read nothing: no bytes wait, no header block is
    /// open, and the decoder's table is empty with the default limit.
    pub fn new() -> (r: ClientReader)
        ensures
            r.wf(),
            r@ == (ReaderView {
                frames: FrameReaderView { pending: Seq::empty(), join: None },
                table: DynamicTableView { entries: Seq::empty(), max_size: 4096 },
            }),
    {
        ClientReader { frames: FrameReader::new(), decoder: Decoder::new() }
    }

    /// What the reader holds once the bytes were taken in.
    pub open spec fn spec_extended(reader: ReaderView, bytes: Seq<u8>) -> ReaderView {
        ReaderView {
            frames: FrameReaderView { pending: reader.frames.pending + bytes, ..reader.frames },
            ..reader
        }
    }

    /// Takes in bytes that the transport read. Every frame that is complete
    /// with them is read, joined with its header block and processed on the
    /// connection, in the order of the wire, as `fed` says; the bytes of a
    /// frame that is not complete yet are kept for the next call. The result
    /// is the number of frames that were processed. A frame whose payload is
    /// larger than this side accepts is a frame size error; a frame that
    /// cannot be read, and an error of its processing, are handed on. After
    /// an error the connection is to end.
    pub fn feed<X: ClientStreamHandler>(
        &mut self,
        conn: &mut Conn<ClientStreamHandlerHolder<X>>,
        bytes: &[u8],
    ) -> (r: Result<usize, Error>)
        requires
            old(self).wf(),
            old(conn).wf(),
        ensures
            final(self).wf(),
            final(conn).wf(),
            old(conn).fed(
                final(conn),
                Self::spec_extended(old(self)@, bytes@),
                final(self)@,
                0,
                r,
            ),
    {
        let ghost start = Self::spec_extended(old(self)@, bytes@);
        self.frames.extend(bytes);
        let mut frames: usize = 0;
        let total: usize = self.frames.pending_len();
        loop
            invariant
                self.wf(),
                conn.wf(),
                frames + self@.frames.pending.len() <= total,
                start == Self::spec_extended(old(self)@, bytes@),
                forall|
                    after: Conn<ClientStreamHandlerHolder<X>>,
                    reader_after: ReaderView,
                    r: Result<usize, Error>,
                |
                    #[trigger] conn.fed(&after, self@, reader_after, frames as nat, r) ==> old(
                        conn,
                    ).fed(&after, start, reader_after, 0, r),
            ensures
                self.wf(),
                conn.wf(),
                start == Self::spec_extended(old(self)@, bytes@),
                old(conn).fed(&*conn, start, self@, 0, Ok::<usize, Error>(frames)),
            decreases self@.frames.pending.len(),
        {
            let ghost here = self@;
            let ghost conn_here = *conn;
            let next = self.frames.next_joined(conn.our_settings_ack.max_frame_size);
            proof {
                lemma_next_joined_shorter(here.frames, conn.our_settings_ack.max_frame_size);
            }
            let joined = match next {
                Err(e) => {
                    proof {
                        let r = Err::<usize, Error>(e);
                        assert(conn_here.fed(&conn_here, here, self@, frames as nat, r)) by {
                            reveal(Conn::<_>::fed);
                        }
                    }
                    return Err(e);
                },
                Ok(None) => {
                    proof {
                        let r = Ok::<usize, Error>(frames);
                        assert(conn_here.fed(&conn_here, here, here, frames as nat, r)) by {
                            reveal(Conn::<_>::fed);
                        }
                    }
                    break ;
                },
                Ok(Some(joined)) => joined,
            };
            let ghost joined_view = joined@;
            self.decoder.set_max_allowed_table_size(
                conn.our_settings_ack.header_table_size as usize,
            );
            let step = conn.process_joined(joined, &mut self.decoder);
            proof {
                assert(conn_here.joined_done(
                    &*conn,
                    step,
                    joined_view,
                    here.table,
                    conn_here.our_settings_ack.header_table_size as nat,
                    self.decoder@,
                ));
            }
            match step {
                Err(e) => {
                    proof {
                        let r = Err::<usize, Error>(e);
                        assert(conn_here.fed(&*conn, here, self@, frames as nat, r)) by {
                            reveal(Conn::<_>::fed);
                        }
                    }
                    return Err(e);
                },
                Ok(_) => {},
            }
            let ghost frames_here = frames;
            frames = frames + 1;
            proof {
                assert forall|
                    after: Conn<ClientStreamHandlerHolder<X>>,
                    reader_after: ReaderView,
                    r: Result<usize, Error>,
                | #[trigger] conn.fed(&after, self@, reader_after, frames as nat, r) implies old(
                    conn,
                ).fed(&after, start, reader_after, 0, r) by {
                    assert(conn.fed(&after, self@, reader_after, frames_here as nat + 1, r));
                    assert(conn_here.fed(&after, here, reader_after, frames_here as nat, r)) by {
                        reveal(Conn::<_>::fed);
                    }
                }
            }
        }
        Ok(frames)
    }
}

} // verus!
