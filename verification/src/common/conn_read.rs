//! The reader's side of a connection: what an inbound frame does to the
//! windows, to the streams and to the write queue, and what the stream's
//! handler is told.

use crate::bytes_model::bytes_seq;
use crate::common::conn::Conn;
use crate::common::conn_write::{lemma_index_of_update, spec_rst_frame, WriterView};
use crate::common::stream::{StreamState, StreamView};
use crate::common::stream_from_network::DEFAULT_INITIAL_WINDOW_SIZE;
use crate::common::stream_handler::StreamHandlerInternal;
use crate::common::stream_map::{lemma_index_of, spec_index_of, spec_sorted};
use crate::common::window_size::WindowSize;
use crate::error::Error;
use crate::hpack::encoder::spec_encoder_resized;
use crate::solicit::error_code::{ErrorCode, ErrorCodeOrUnknown};
use crate::solicit::frame::flags::{bits_set, Flags};
use crate::solicit::frame::http_frame::{HttpFrame, HttpFrameView};
use crate::solicit::frame::ping::PingFrame;
use crate::solicit::frame::rst_stream::RstStreamFrame;
use crate::solicit::frame::settings::{
    spec_apply_settings, HttpSetting, HttpSettings, SettingsFrame,
};
use crate::solicit::frame::window_update::WindowUpdateFrame;
use crate::solicit::frame::MAX_PAYLOAD_LEN;
use crate::solicit::stream_id::StreamId;
use bytes::Bytes;
use vstd::prelude::*;

verus! {

/// What became of an inbound frame that names a stream.
#[derive(Clone, Copy, Debug, PartialEq, Eq, Structural)]
pub enum Inbound {
    /// The stream was closed before: the frame is passed over.
    Ignored,
    /// The frame was taken in and the stream's handler told, if it has one.
    /// `end_stream` says that this was the peer's last word on the stream.
    Delivered { end_stream: bool },
    /// The frame broke the rules of its stream: the stream is reset with
    /// this code and its handler is told of the error.
    Reset(ErrorCode),
}

/// What the reader makes of a DATA frame.
pub ghost enum DataDecision {
    /// The connection fails with this code, and nothing changes.
    ConnError(ErrorCode),
    /// The frame is for a stream that was closed before.
    Ignored,
    /// The stream is reset with this code.
    Reset(ErrorCode),
    /// The data is taken in; `rem` is what is still to come of a body whose
    /// length was announced.
    Deliver { rem: Option<u64> },
}

/// What the reader makes of a DATA frame with `data_len` bytes of data and a
/// payload of `flow_len` bytes. The payload is charged to the connection's
/// in-window and to the stream's; a payload larger than either is a
/// flow-control error, of the connection or of the stream. Data on a stream
/// that the peer has finished is a stream error. Where the body's length was
/// announced, more data than announced, or less at the end of the stream,
/// is a protocol error of the stream.
pub open spec fn spec_data_decision(
    conn_in_window: WindowSize,
    stream: Option<StreamView>,
    was_closed: bool,
    data_len: nat,
    flow_len: u32,
    end_stream: bool,
) -> DataDecision {
    if flow_len > conn_in_window.0 {
        DataDecision::ConnError(ErrorCode::FlowControlError)
    } else {
        match stream {
            None => if was_closed {
                DataDecision::Ignored
            } else {
                DataDecision::ConnError(ErrorCode::ProtocolError)
            },
            Some(s) => if flow_len > s.in_window_size.0 {
                DataDecision::Reset(ErrorCode::FlowControlError)
            } else if s.state.spec_is_closed_remote() {
                DataDecision::Reset(ErrorCode::StreamClosed)
            } else {
                match s.in_rem_content_length {
                    None => DataDecision::Deliver { rem: None },
                    Some(rem) => if data_len > rem {
                        DataDecision::Reset(ErrorCode::ProtocolError)
                    } else if end_stream && data_len != rem {
                        DataDecision::Reset(ErrorCode::ProtocolError)
                    } else {
                        DataDecision::Deliver { rem: Some((rem - data_len) as u64) }
                    },
                }
            },
        }
    }
}

/// The connection's in-window after a payload of `flow_len` bytes was
/// charged to it, and the credit that the peer is given for the connection
/// then, if any: where less than half the initial window is left, the window
/// is filled up to the initial window again.
pub open spec fn spec_conn_charged(window: WindowSize, flow_len: u32) -> (WindowSize, Option<u32>) {
    let left = window.0 - flow_len;
    if left < DEFAULT_INITIAL_WINDOW_SIZE / 2 {
        (
            WindowSize(DEFAULT_INITIAL_WINDOW_SIZE as i32),
            Some((DEFAULT_INITIAL_WINDOW_SIZE - left) as u32),
        )
    } else {
        (WindowSize(left as i32), None)
    }
}

/// The stream after a DATA frame was taken in.
pub open spec fn spec_data_taken(
    s: StreamView,
    flow_len: u32,
    rem: Option<u64>,
    end_stream: bool,
) -> StreamView {
    StreamView {
        in_window_size: WindowSize((s.in_window_size.0 - flow_len) as i32),
        in_rem_content_length: rem,
        state: if end_stream {
            s.state.spec_close_remote()
        } else {
            s.state
        },
        has_peer_tx: s.has_peer_tx && !end_stream,
        ..s
    }
}

/// Whether the settings are ones that a peer may announce: the initial
/// window is no larger than flow control allows, and the frame size lies
/// between the protocol's smallest and largest.
pub open spec fn spec_settings_valid(settings: HttpSettings) -> bool {
    &&& settings.initial_window_size <= 0x7fff_ffff
    &&& 16384 <= settings.max_frame_size <= MAX_PAYLOAD_LEN
}

/// The out-window of a stream after the peer changed the initial window.
pub open spec fn spec_rescaled(window: WindowSize, old_initial: u32, new_initial: u32) -> int {
    window.0 + new_initial - old_initial
}

/// Whether every stream's out-window stays a window that the protocol allows
/// when the peer changes the initial window.
pub open spec fn spec_rescale_fits(streams: Seq<StreamView>, old_initial: u32, new_initial: u32) -> bool {
    forall|i: int|
        0 <= i < streams.len() ==> i32::MIN <= spec_rescaled(
            (#[trigger] streams[i]).out_window_size,
            old_initial,
            new_initial,
        ) <= 0x7fff_ffff
}

/// The streams after the peer changed the initial window: each out-window
/// moves by the difference.
pub open spec fn spec_rescale_streams(streams: Seq<StreamView>, old_initial: u32, new_initial: u32) -> Seq<
    StreamView,
> {
    Seq::new(
        streams.len(),
        |i: int|
            StreamView {
                out_window_size: WindowSize(
                    spec_rescaled(streams[i].out_window_size, old_initial, new_initial) as i32,
                ),
                ..streams[i]
            },
    )
}

/// The streams that go on after the peer said which stream is the last it
/// will act on: the peer's own streams, and this side's streams up to that
/// one.
pub open spec fn spec_after_goaway(
    streams: Seq<StreamView>,
    role: crate::common::conn::ConnRole,
    last_stream_id: StreamId,
) -> Seq<StreamView>
    decreases streams.len(),
{
    if streams.len() == 0 {
        Seq::empty()
    } else {
        let front = spec_after_goaway(streams.drop_last(), role, last_stream_id);
        if role.spec_is_init_locally(streams.last().stream_id) && streams.last().stream_id
            > last_stream_id {
            front
        } else {
            front.push(streams.last())
        }
    }
}

impl<H: StreamHandlerInternal> Conn<H> {
    /// Whether `after` is this connection after a GOAWAY frame that names
    /// `last_stream_id` and gives `raw_error_code` was taken in with result
    /// `r`.
    pub open spec fn goaway_done(
        &self,
        after: &Conn<H>,
        r: Result<(), Error>,
        last_stream_id: StreamId,
        raw_error_code: u32,
    ) -> bool {
        &&& r is Ok
        &&& after.streams@ == spec_after_goaway(
            self.streams@,
            self.role,
            last_stream_id,
        )
        &&& *after == (Conn {
            streams: after.streams,
            goaway_received: Some((last_stream_id, raw_error_code)),
            ..*self
        })
    }

    /// Takes in a GOAWAY frame: the last stream that the peer will act on is
    /// put on record with the peer's code; this side's streams above it
    /// leave the map, and their handlers are told that the peer went away.
    /// The other streams go on.
    pub fn process_goaway(&mut self, last_stream_id: StreamId, raw_error_code: u32) -> (r: Result<
        (),
        Error,
    >)
        requires
            old(self).wf(),
        ensures
            final(self).wf(),
            old(self).goaway_done(final(self), r, last_stream_id, raw_error_code),
    {
        self.goaway_received = Some((last_stream_id, raw_error_code));
        let ghost before = old(self).streams@;
        let ghost role = self.role;
        let mut i: usize = 0;
        let ghost mut k: int = 0;
        proof {
            assert(before.take(0) =~= Seq::<StreamView>::empty());
            assert(before.skip(0) =~= before);
            assert(self.streams@ =~= Seq::<StreamView>::empty() + before);
        }
        while i < self.streams.streams.len()
            invariant
                self.wf(),
                role == self.role,
                before == old(self).streams@,
                0 <= k <= before.len(),
                i == spec_after_goaway(before.take(k), role, last_stream_id).len(),
                self.streams@ == spec_after_goaway(before.take(k), role, last_stream_id)
                    + before.skip(k),
                *self == (Conn {
                    streams: self.streams,
                    goaway_received: Some((last_stream_id, raw_error_code)),
                    ..*old(self)
                }),
            decreases before.len() - k,
        {
            let ghost kept = spec_after_goaway(before.take(k), role, last_stream_id);
            proof {
                assert(self.streams@[i as int] == before.skip(k)[0]);
                assert(before.take(k + 1).drop_last() =~= before.take(k));
                assert(before.take(k + 1).last() == before[k]);
                assert(before.skip(k).skip(1) =~= before.skip(k + 1));
            }
            let id: StreamId = self.streams.streams[i].stream_id;
            if self.role.is_init_locally(id) && id > last_stream_id {
                let gone = self.remove_stream_at(i);
                match gone.peer_tx {
                    Some(handler) => {
                        let _ = handler.error(Error::GoawayReceived);
                    },
                    None => {},
                }
                proof {
                    assert(self.streams@ =~= kept + before.skip(k + 1));
                }
            } else {
                proof {
                    assert(self.streams@ =~= kept.push(before[k]) + before.skip(k + 1));
                }
                i = i + 1;
            }
            proof {
                k = k + 1;
            }
        }
        proof {
            assert(before.skip(k).len() == 0);
            assert(k == before.len());
            assert(before.take(k) =~= before);
            assert(self.streams@ =~= spec_after_goaway(before, role, last_stream_id));
        }
        Ok(())
    }

    /// Whether `after` is this connection after a PUSH_PROMISE frame for
    /// `promised_stream_id` was taken in with result `r`.
    pub open spec fn push_promise_done(
        &self,
        after: &Conn<H>,
        r: Result<(), Error>,
        promised_stream_id: StreamId,
        has_peer_tx: bool,
    ) -> bool {
        &&& if self.role == crate::common::conn::ConnRole::Client && promised_stream_id != 0
            && promised_stream_id % 2 == 0 && promised_stream_id > self.last_peer_stream_id
            && promised_stream_id <= 0x7fff_ffff {
            &&& r is Ok
            &&& after.last_peer_stream_id == promised_stream_id
            &&& after.streams@ == self.streams@.insert(
                crate::common::stream_map::spec_insert_pos(
                    self.streams@,
                    promised_stream_id,
                ),
                StreamView {
                    stream_id: promised_stream_id,
                    state: StreamState::ReservedRemote,
                    in_window_size: WindowSize(
                        self.our_settings_ack.initial_window_size as i32,
                    ),
                    out_window_size: WindowSize(
                        self.peer_settings.initial_window_size as i32,
                    ),
                    in_rem_content_length: None,
                    in_message_stage: crate::common::stream::InMessageStage::Initial,
                    outgoing: Seq::empty(),
                    outgoing_end: None,
                    has_peer_tx: has_peer_tx,
                },
            )
            &&& *after == (Conn {
                streams: after.streams,
                last_peer_stream_id: promised_stream_id,
                ..*self
            })
        } else {
            &&& r == Err::<(), Error>(Error::CodeError(ErrorCode::ProtocolError))
            &&& *after == *self
        }
    }

    /// Takes in a PUSH_PROMISE frame. A server does not accept one. A client
    /// accepts a promise whose stream is one of the server's, even and not
    /// 0, and above every stream that the server opened before: the promised
    /// stream enters the map as reserved by the peer, and becomes the last
    /// stream of the peer. Anything else breaks the protocol, and changes
    /// nothing.
    pub fn process_push_promise(&mut self, promised_stream_id: StreamId, peer_tx: Option<H>) -> (r:
        Result<(), Error>)
        requires
            old(self).wf(),
        ensures
            final(self).wf(),
            old(self).push_promise_done(final(self), r, promised_stream_id, peer_tx is Some),
    {
        match self.role {
            crate::common::conn::ConnRole::Server => {
                return Err(Error::CodeError(ErrorCode::ProtocolError));
            },
            crate::common::conn::ConnRole::Client => {},
        }
        if promised_stream_id == 0 || promised_stream_id % 2 != 0 || promised_stream_id
            <= self.last_peer_stream_id || promised_stream_id > 0x7fff_ffff {
            return Err(Error::CodeError(ErrorCode::ProtocolError));
        }
        proof {
            lemma_index_of(self.streams@, promised_stream_id);
            assert forall|k: int| 0 <= k < self.streams@.len() implies {
                let id = (#[trigger] self.streams@[k]).stream_id;
                if self.role.spec_is_init_locally(id) {
                    id <= self.last_local_stream_id
                } else {
                    id <= promised_stream_id
                }
            } by {}
        }
        self.last_peer_stream_id = promised_stream_id;
        self.new_stream_data(
            promised_stream_id,
            None,
            crate::common::stream::InMessageStage::Initial,
            peer_tx,
        );
        let ghost mid = *self;
        let i: usize = match self.streams.find(promised_stream_id) {
            Some(i) => i,
            None => {
                return Ok(());
            },
        };
        self.streams.streams[i].state = StreamState::ReservedRemote;
        proof {
            assert(mid.streams@[i as int].wf());
            self.lemma_stream_updated(&mid, i as int);
            assert(self.streams@ =~= old(self).streams@.insert(i as int, self.streams@[i as int]));
        }
        Ok(())
    }

    /// Whether `after` is this connection after a DATA frame was taken in
    /// with result `r`.
    pub open spec fn data_done(
        &self,
        after: &Conn<H>,
        r: Result<Inbound, Error>,
        stream_id: StreamId,
        data: Seq<u8>,
        flow_len: u32,
        end_stream: bool,
    ) -> bool {
        &&& after.in_window_size.0 >= 0
        &&& forall|k: int|
            0 <= k < after.streams@.len() ==> (#[trigger] after.streams@[k]).in_window_size.0 >= 0
        &&& match spec_data_decision(
            self.in_window_size,
            match spec_index_of(self.streams@, stream_id) {
                Some(i) => Some(self.streams@[i]),
                None => None,
            },
            self.spec_is_closed_stream(stream_id),
            data.len(),
            flow_len,
            end_stream,
        ) {
            DataDecision::ConnError(code) => {
                &&& r == Err::<Inbound, Error>(Error::CodeError(code))
                &&& *after == *self
            },
            DataDecision::Ignored => {
                &&& r == Ok::<Inbound, Error>(Inbound::Ignored)
                &&& self.same_session(after)
                &&& after.in_window_size == spec_conn_charged(self.in_window_size, flow_len).0
                &&& after.writer_view() == (WriterView {
                    queued: self.spec_charged_queue(flow_len),
                    ..self.writer_view()
                })
            },
            DataDecision::Reset(code) => {
                &&& r == Ok::<Inbound, Error>(Inbound::Reset(code))
                &&& self.same_session(after)
                &&& after.in_window_size == spec_conn_charged(self.in_window_size, flow_len).0
                &&& after.writer_view() == (WriterView {
                    streams: self.streams@.remove(
                        spec_index_of(self.streams@, stream_id)->Some_0,
                    ),
                    queued: if self.queued_write.spec_goaway_queued() {
                        self.queued_write.queued()
                    } else {
                        self.spec_charged_queue(flow_len) + spec_rst_frame(stream_id, code)
                    },
                    ..self.writer_view()
                })
            },
            DataDecision::Deliver { rem } => {
                let i = spec_index_of(self.streams@, stream_id)->Some_0;
                let taken = spec_data_taken(self.streams@[i], flow_len, rem, end_stream);
                &&& r == Ok::<Inbound, Error>(Inbound::Delivered { end_stream })
                &&& self.same_session(after)
                &&& after.in_window_size == spec_conn_charged(self.in_window_size, flow_len).0
                &&& after.writer_view() == (WriterView {
                    streams: if taken.state == StreamState::Closed {
                        self.streams@.remove(i)
                    } else {
                        self.streams@.update(i, taken)
                    },
                    queued: self.spec_charged_queue(flow_len),
                    ..self.writer_view()
                })
            },
        }
    }

    /// What waits for the transport once a payload of `flow_len` bytes was
    /// charged to the connection's in-window: where the peer is given new
    /// credit, a WINDOW_UPDATE frame for the connection is queued.
    pub open spec fn spec_charged_queue(&self, flow_len: u32) -> Seq<u8> {
        match spec_conn_charged(self.in_window_size, flow_len).1 {
            Some(increment) if !self.queued_write.spec_goaway_queued() => self.queued_write.queued()
                + (WindowUpdateFrame { stream_id: 0, increment, flags: Flags(0) }).spec_serialize(),
            _ => self.queued_write.queued(),
        }
    }

    fn charge_in_window(&mut self, flow_len: u32)
        requires
            old(self).wf(),
            flow_len <= old(self).in_window_size.0,
        ensures
            final(self).wf(),
            old(self).same_session(final(self)),
            final(self).in_window_size == spec_conn_charged(old(self).in_window_size, flow_len).0,
            final(self).streams == old(self).streams,
            final(self).writer_view() == (WriterView {
                queued: old(self).spec_charged_queue(flow_len),
                ..old(self).writer_view()
            }),
    {
        self.in_window_size.0 = self.in_window_size.0 - flow_len as i32;
        if self.in_window_size.0 < (DEFAULT_INITIAL_WINDOW_SIZE / 2) as i32 {
            let increment: u32 = DEFAULT_INITIAL_WINDOW_SIZE - self.in_window_size.0 as u32;
            self.in_window_size.0 = DEFAULT_INITIAL_WINDOW_SIZE as i32;
            self.send_frame_and_notify(
                HttpFrame::WindowUpdate(WindowUpdateFrame::for_connection(increment)),
            );
        }
    }

    /// Takes in a DATA frame for `stream_id` with the given data, a payload
    /// of `flow_len` bytes and the END_STREAM flag as given;
    /// `spec_data_decision` says what happens. A connection error changes
    /// nothing. Otherwise the payload is charged to the connection's
    /// in-window. For a reset, the stream leaves the map, a RST_STREAM frame
    /// is queued and the handler is told of the error. Data that is taken in
    /// is charged to the stream's in-window and handed to the handler; with
    /// END_STREAM the peer's side of the stream is closed, the handler is
    /// let go, and a stream that is closed then leaves the map. Where the
    /// connection's in-window has less than half the initial window left
    /// after the charge, it is filled up again and a WINDOW_UPDATE frame for
    /// the connection is queued. No in-window is ever negative afterwards.
    pub fn process_data(&mut self, stream_id: StreamId, data: Bytes, flow_len: u32, end_stream: bool) -> (r:
        Result<Inbound, Error>)
        requires
            old(self).wf(),
        ensures
            final(self).wf(),
            old(self).data_done(final(self), r, stream_id, bytes_seq(data), flow_len, end_stream),
    {
        proof {
            lemma_index_of(self.streams@, stream_id);
        }
        if flow_len > 0x7fff_ffff || flow_len as i32 > self.in_window_size.size() {
            return Err(Error::CodeError(ErrorCode::FlowControlError));
        }
        let found = self.streams.find(stream_id);
        let i: usize = match found {
            Some(i) => i,
            None => {
                let known: bool = if self.role.is_init_locally(stream_id) {
                    stream_id <= self.last_local_stream_id
                } else {
                    stream_id <= self.last_peer_stream_id
                };
                if stream_id != 0 && known {
                    self.charge_in_window(flow_len);
                    return Ok(Inbound::Ignored);
                } else {
                    return Err(Error::CodeError(ErrorCode::ProtocolError));
                }
            },
        };
        self.charge_in_window(flow_len);
        let ghost charged = *self;
        proof {
            assert(old(self).streams@[i as int].wf());
        }
        let data_len: usize = data.len();
        let stream = &self.streams.streams[i];
        let fault: Option<ErrorCode> = if flow_len as i32 > stream.in_window_size.size() {
            Some(ErrorCode::FlowControlError)
        } else if stream.state.is_closed_remote() {
            Some(ErrorCode::StreamClosed)
        } else {
            match stream.in_rem_content_length {
                None => None,
                Some(rem) => if data_len as u64 > rem || data_len > usize::MAX {
                    Some(ErrorCode::ProtocolError)
                } else if end_stream && data_len as u64 != rem {
                    Some(ErrorCode::ProtocolError)
                } else {
                    None
                },
            }
        };
        match fault {
            Some(code) => {
                let gone = self.remove_stream_at(i);
                self.send_frame_and_notify(
                    HttpFrame::RstStream(RstStreamFrame::new(stream_id, code)),
                );
                match gone.peer_tx {
                    Some(handler) => {
                        let _ = handler.error(Error::CodeError(code));
                    },
                    None => {},
                }
                return Ok(Inbound::Reset(code));
            },
            None => {},
        }
        let stream = &mut self.streams.streams[i];
        stream.in_window_size.0 = stream.in_window_size.0 - flow_len as i32;
        match stream.in_rem_content_length {
            Some(rem) => {
                stream.in_rem_content_length = Some(rem - data_len as u64);
            },
            None => {},
        }
        match &mut stream.peer_tx {
            Some(handler) => {
                let _ = handler.data_frame(data, end_stream);
            },
            None => {},
        }
        if end_stream {
            stream.close_remote();
            stream.peer_tx = None;
        }
        let closed: bool = stream.state.is_closed();
        proof {
            self.lemma_stream_updated(&charged, i as int);
        }
        if closed {
            let _gone = self.remove_stream_at(i);
            proof {
                assert(self.streams@ =~= old(self).streams@.remove(i as int));
            }
        }
        Ok(Inbound::Delivered { end_stream })
    }

    /// Whether `after` is this connection after a RST_STREAM frame for
    /// `stream_id` was taken in with result `r`.
    pub open spec fn rst_stream_done(
        &self,
        after: &Conn<H>,
        r: Result<Inbound, Error>,
        stream_id: StreamId,
    ) -> bool {
        &&& match spec_index_of(self.streams@, stream_id) {
            Some(i) => {
                &&& r == Ok::<Inbound, Error>(Inbound::Delivered { end_stream: true })
                &&& after.streams@ == self.streams@.remove(i)
                &&& !after.streams.contains(stream_id)
                &&& *after == (Conn { streams: after.streams, ..*self })
            },
            None => {
                &&& *after == *self
                &&& r == (if self.spec_is_closed_stream(stream_id) {
                    Ok::<Inbound, Error>(Inbound::Ignored)
                } else {
                    Err::<Inbound, Error>(Error::CodeError(ErrorCode::ProtocolError))
                })
            },
        }
    }

    /// Takes in a RST_STREAM frame: the stream leaves the map and its
    /// handler is told of the reset. A frame for a stream that was closed
    /// before is passed over; a frame for a stream that was never opened
    /// breaks the protocol, and changes nothing.
    pub fn process_rst_stream(&mut self, stream_id: StreamId, raw_error_code: u32) -> (r: Result<
        Inbound,
        Error,
    >)
        requires
            old(self).wf(),
        ensures
            final(self).wf(),
            old(self).rst_stream_done(final(self), r, stream_id),
    {
        match self.get_stream_for_headers_maybe_send_error(stream_id) {
            Err(e) => Err(e),
            Ok(None) => Ok(Inbound::Ignored),
            Ok(Some(i)) => {
                let gone = self.remove_stream_at(i);
                match gone.peer_tx {
                    Some(handler) => {
                        let _ = handler.rst(ErrorCodeOrUnknown(raw_error_code).to_error_code());
                    },
                    None => {},
                }
                Ok(Inbound::Delivered { end_stream: true })
            },
        }
    }

    /// Whether `after` is this connection after the peer's side of `stream_id`
    /// was closed.
    pub open spec fn remote_closed(&self, after: &Conn<H>, stream_id: StreamId) -> bool {
        &&& *after == (Conn { streams: after.streams, ..*self })
        &&& after.streams@ == (match spec_index_of(self.streams@, stream_id) {
            None => self.streams@,
            Some(i) => if self.streams@[i].state.spec_close_remote()
                == StreamState::Closed {
                self.streams@.remove(i)
            } else {
                self.streams@.update(
                    i,
                    StreamView {
                        state: self.streams@[i].state.spec_close_remote(),
                        has_peer_tx: false,
                        ..self.streams@[i]
                    },
                )
            },
        })
    }

    /// Closes the peer's side of a stream after headers that carried
    /// END_STREAM: the handler is let go, and a stream that is closed then
    /// leaves the map. Nothing happens for a stream that is not in the map.
    pub fn close_remote(&mut self, stream_id: StreamId)
        requires
            old(self).wf(),
        ensures
            final(self).wf(),
            old(self).remote_closed(final(self), stream_id),
    {
        let i: usize = match self.streams.find(stream_id) {
            Some(i) => i,
            None => {
                return ;
            },
        };
        proof {
            assert(old(self).streams@[i as int].wf());
        }
        let stream = &mut self.streams.streams[i];
        stream.close_remote();
        stream.peer_tx = None;
        let closed: bool = stream.state.is_closed();
        proof {
            self.lemma_stream_updated(old(self), i as int);
        }
        if closed {
            let _gone = self.remove_stream_at(i);
            proof {
                assert(self.streams@ =~= old(self).streams@.remove(i as int));
            }
        }
    }

    /// Whether `after` is this connection after a WINDOW_UPDATE frame was
    /// taken in with result `r`.
    pub open spec fn window_update_done(
        &self,
        after: &Conn<H>,
        r: Result<Inbound, Error>,
        stream_id: StreamId,
        increment: u32,
    ) -> bool {
        &&& stream_id == 0 ==> (if increment == 0 || self.out_window_size.0 + increment
            > 0x7fff_ffff {
            &&& r == Err::<Inbound, Error>(Error::CodeError(ErrorCode::FlowControlError))
            &&& *after == *self
        } else {
            &&& r == Ok::<Inbound, Error>(Inbound::Delivered { end_stream: false })
            &&& *after == (Conn {
                out_window_size: WindowSize((self.out_window_size.0 + increment) as i32),
                ..*self
            })
        })
        &&& stream_id != 0 ==> (match spec_index_of(self.streams@, stream_id) {
            None => {
                &&& *after == *self
                &&& r == (if self.spec_is_closed_stream(stream_id) {
                    Ok::<Inbound, Error>(Inbound::Ignored)
                } else {
                    Err::<Inbound, Error>(Error::CodeError(ErrorCode::ProtocolError))
                })
            },
            Some(i) => if increment == 0 || self.streams@[i].out_window_size.0 + increment
                > 0x7fff_ffff {
                let code = if increment == 0 {
                    ErrorCode::ProtocolError
                } else {
                    ErrorCode::FlowControlError
                };
                &&& r == Ok::<Inbound, Error>(Inbound::Reset(code))
                &&& self.same_but_writer(after)
                &&& after.writer_view() == (WriterView {
                    streams: self.streams@.remove(i),
                    queued: if self.queued_write.spec_goaway_queued() {
                        self.queued_write.queued()
                    } else {
                        self.queued_write.queued() + spec_rst_frame(stream_id, code)
                    },
                    ..self.writer_view()
                })
            } else {
                &&& r == Ok::<Inbound, Error>(Inbound::Delivered { end_stream: false })
                &&& self.same_but_writer(after)
                &&& after.writer_view() == (WriterView {
                    streams: self.streams@.update(
                        i,
                        StreamView {
                            out_window_size: WindowSize(
                                (self.streams@[i].out_window_size.0 + increment) as i32,
                            ),
                            ..self.streams@[i]
                        },
                    ),
                    ..self.writer_view()
                })
            },
        })
    }

    /// Takes in a WINDOW_UPDATE frame. For the connection, an increment of 0
    /// or one that takes the out-window over the largest window is a
    /// flow-control error of the connection, and changes nothing. For a
    /// stream, an increment of 0 resets the stream with `ProtocolError`, and
    /// one that takes the stream's out-window over the largest window resets
    /// it with `FlowControlError`. A frame for a stream that was closed before
    /// is passed over; one for a stream that was never opened breaks the
    /// protocol.
    pub fn process_window_update(&mut self, stream_id: StreamId, increment: u32) -> (r: Result<
        Inbound,
        Error,
    >)
        requires
            old(self).wf(),
        ensures
            final(self).wf(),
            old(self).window_update_done(final(self), r, stream_id, increment),
    {
        if stream_id == 0 {
            if increment == 0 {
                return Err(Error::CodeError(ErrorCode::FlowControlError));
            }
            return match self.out_window_size.try_increase(increment) {
                Err(_) => Err(Error::CodeError(ErrorCode::FlowControlError)),
                Ok(_) => Ok(Inbound::Delivered { end_stream: false }),
            };
        }
        let i: usize = match self.get_stream_for_headers_maybe_send_error(stream_id) {
            Err(e) => {
                return Err(e);
            },
            Ok(None) => {
                return Ok(Inbound::Ignored);
            },
            Ok(Some(i)) => i,
        };
        proof {
            assert(old(self).streams@[i as int].wf());
        }
        let fault: Option<ErrorCode> = if increment == 0 {
            Some(ErrorCode::ProtocolError)
        } else {
            match self.streams.streams[i].out_window_size.try_increase(increment) {
                Err(_) => Some(ErrorCode::FlowControlError),
                Ok(_) => None,
            }
        };
        proof {
            self.lemma_stream_updated(old(self), i as int);
        }
        match fault {
            Some(code) => {
                let gone = self.remove_stream_at(i);
                self.send_frame_and_notify(
                    HttpFrame::RstStream(RstStreamFrame::new(stream_id, code)),
                );
                match gone.peer_tx {
                    Some(handler) => {
                        let _ = handler.error(Error::CodeError(code));
                    },
                    None => {},
                }
                proof {
                    assert(self.streams@ =~= old(self).streams@.remove(i as int));
                }
                Ok(Inbound::Reset(code))
            },
            None => Ok(Inbound::Delivered { end_stream: false }),
        }
    }

    /// Whether the connection holds a handler for the stream.
    pub open spec fn spec_has_handler(&self, stream_id: StreamId) -> bool {
        spec_index_of(self.streams@, stream_id) matches Some(i) && self.streams@[i].has_peer_tx
    }

    /// A handler hears the peer's last word on its stream once: after a DATA
    /// frame that ended the stream, a RST_STREAM frame, or a frame for which
    /// the stream was reset, the connection holds no handler for the stream,
    /// so that no later frame reaches one.
    pub proof fn lemma_last_word_lets_handler_go(
        &self,
        after: &Conn<H>,
        r: Result<Inbound, Error>,
        stream_id: StreamId,
        data: Seq<u8>,
        flow_len: u32,
        end_stream: bool,
        increment: u32,
    )
        requires
            self.wf(),
            r == Ok::<Inbound, Error>(Inbound::Delivered { end_stream: true }) || (r matches Ok(
                Inbound::Reset(_),
            )),
            self.data_done(after, r, stream_id, data, flow_len, end_stream) || self.rst_stream_done(
                after,
                r,
                stream_id,
            ) || self.window_update_done(after, r, stream_id, increment),
        ensures
            !after.spec_has_handler(stream_id),
    {
        lemma_index_of(self.streams@, stream_id);
        if spec_index_of(self.streams@, stream_id) is Some {
            let i = spec_index_of(self.streams@, stream_id)->Some_0;
            lemma_gone_after_remove(self.streams@, i);
            if after.streams@ == self.streams@.update(i, after.streams@[i]) {
                lemma_index_of_update(self.streams@, i, after.streams@[i], stream_id);
            }
        }
    }

    /// Once the peer's side of a stream was closed, the connection holds no
    /// handler for the stream.
    pub proof fn lemma_remote_closed_lets_handler_go(&self, after: &Conn<H>, stream_id: StreamId)
        requires
            self.wf(),
            self.remote_closed(after, stream_id),
        ensures
            !after.spec_has_handler(stream_id),
    {
        lemma_index_of(self.streams@, stream_id);
        if spec_index_of(self.streams@, stream_id) is Some {
            let i = spec_index_of(self.streams@, stream_id)->Some_0;
            lemma_gone_after_remove(self.streams@, i);
            if after.streams@ == self.streams@.update(i, after.streams@[i]) {
                lemma_index_of_update(self.streams@, i, after.streams@[i], stream_id);
            }
        }
    }
}

/// A stream that was taken out of an ordered map is not found in it.
pub proof fn lemma_gone_after_remove(streams: Seq<StreamView>, i: int)
    requires
        spec_sorted(streams),
        0 <= i < streams.len(),
    ensures
        spec_index_of(streams.remove(i), streams[i].stream_id) is None,
{
    let after = streams.remove(i);
    let id = streams[i].stream_id;
    lemma_index_of(after, id);
    if spec_index_of(after, id) is Some {
        let q = spec_index_of(after, id)->Some_0;
        if q < i {
            assert(after[q] == streams[q]);
        } else {
            assert(after[q] == streams[q + 1]);
        }
    }
}

impl<H> Conn<H> {
    /// Whether `after` is this connection after a PING frame was taken in
    /// with result `r`.
    pub open spec fn ping_done(
        &self,
        after: &Conn<H>,
        r: Result<(), Error>,
        opaque_data: Seq<u8>,
        flags: u8,
    ) -> bool {
        &&& r is Ok
        &&& self.same_but_writer(after)
        &&& after.writer_view() == (WriterView {
            queued: if bits_set(flags, 0x1) || self.queued_write.spec_goaway_queued() {
                self.queued_write.queued()
            } else {
                self.queued_write.queued() + HttpFrameView::Ping(
                    opaque_data,
                    0x1,
                ).serialize()
            },
            ..self.writer_view()
        })
    }

    /// Takes in a PING frame: a PING that is no answer is answered with the
    /// same bytes.
    pub fn process_ping(&mut self, frame: PingFrame) -> (r: Result<(), Error>)
        requires
            old(self).wf(),
        ensures
            final(self).wf(),
            old(self).ping_done(final(self), r, frame.opaque_data@, frame.flags.0),
    {
        if frame.is_ack() {
            return Ok(());
        }
        self.send_frame_and_notify(HttpFrame::Ping(PingFrame::new_ack(frame.opaque_data)));
        Ok(())
    }

    fn rescale_fits(&self, new_initial: u32) -> (r: bool)
        requires
            self.wf(),
        ensures
            r == spec_rescale_fits(
                self.streams@,
                self.peer_settings.initial_window_size,
                new_initial,
            ),
    {
        let old_initial: u32 = self.peer_settings.initial_window_size;
        let delta: i64 = new_initial as i64 - old_initial as i64;
        let mut i: usize = 0;
        while i < self.streams.streams.len()
            invariant
                i <= self.streams@.len(),
                old_initial == self.peer_settings.initial_window_size,
                delta == new_initial - old_initial,
                forall|k: int|
                    0 <= k < i ==> i32::MIN <= spec_rescaled(
                        (#[trigger] self.streams@[k]).out_window_size,
                        old_initial,
                        new_initial,
                    ) <= 0x7fff_ffff,
            decreases self.streams@.len() - i,
        {
            let moved: i64 = self.streams.streams[i].out_window_size.size() as i64 + delta;
            if moved < i32::MIN as i64 || moved > 0x7fff_ffff {
                assert(!(i32::MIN <= spec_rescaled(
                    self.streams@[i as int].out_window_size,
                    old_initial,
                    new_initial,
                ) <= 0x7fff_ffff));
                return false;
            }
            i = i + 1;
        }
        true
    }

    /// Whether `after` is this connection after a SETTINGS frame was taken in
    /// with result `r`.
    pub open spec fn settings_done(
        &self,
        after: &Conn<H>,
        r: Result<(), Error>,
        list: Seq<HttpSetting>,
        flags: u8,
    ) -> bool {
        &&& bits_set(flags, 0x1) ==> {
            &&& r is Ok
            &&& *after == (match self.our_settings_sent {
                Some(sent) => if sent.initial_window_size <= 0x7fff_ffff {
                    Conn { our_settings_ack: sent, our_settings_sent: None, ..*self }
                } else {
                    *self
                },
                None => *self,
            })
        }
        &&& !bits_set(flags, 0x1) ==> {
            let settings = spec_apply_settings(self.peer_settings, list);
            if !spec_settings_valid(settings) {
                &&& r == Err::<(), Error>(
                    Error::CodeError(
                        if settings.initial_window_size > 0x7fff_ffff {
                            ErrorCode::FlowControlError
                        } else {
                            ErrorCode::ProtocolError
                        },
                    ),
                )
                &&& *after == *self
            } else if !spec_rescale_fits(
                self.streams@,
                self.peer_settings.initial_window_size,
                settings.initial_window_size,
            ) {
                &&& r == Err::<(), Error>(Error::CodeError(ErrorCode::FlowControlError))
                &&& *after == *self
            } else {
                &&& r is Ok
                &&& after.peer_settings == settings
                &&& after.streams@ == spec_rescale_streams(
                    self.streams@,
                    self.peer_settings.initial_window_size,
                    settings.initial_window_size,
                )
                &&& after.queued_write.queued() == (if self.queued_write.spec_goaway_queued() {
                    self.queued_write.queued()
                } else {
                    self.queued_write.queued() + HttpFrameView::Settings(
                        Seq::empty(),
                        0x1,
                    ).serialize()
                })
                &&& after.queued_write.spec_goaway_queued() == self.queued_write.spec_goaway_queued()
                &&& after.encoder@ == spec_encoder_resized(
                    self.encoder@,
                    settings.header_table_size as nat,
                )
                &&& *after == (Conn {
                    peer_settings: settings,
                    streams: after.streams,
                    queued_write: after.queued_write,
                    encoder: after.encoder,
                    ..*self
                })
            }
        }
    }

    /// Takes in a SETTINGS frame. An acknowledgement makes the settings that
    /// this side sent the ones in force. Any other frame is applied to the
    /// peer's settings, every stream's out-window moves by the change of the
    /// initial window, the encoder's table gets the limit that the peer
    /// allows, and an acknowledgement is queued. Settings that a peer
    /// may not announce break the protocol, and an initial window that would
    /// take a stream's out-window over the largest window is a flow-control
    /// error; either changes nothing.
    pub fn process_settings(&mut self, frame: &SettingsFrame) -> (r: Result<(), Error>)
        requires
            old(self).wf(),
        ensures
            final(self).wf(),
            old(self).settings_done(final(self), r, frame.settings@, frame.flags.0),
    {
        if frame.is_ack() {
            match self.our_settings_sent {
                Some(sent) => {
                    if sent.initial_window_size <= 0x7fff_ffff {
                        self.our_settings_ack = sent;
                        self.our_settings_sent = None;
                    }
                },
                None => {},
            }
            return Ok(());
        }
        let mut settings = self.peer_settings;
        settings.apply_from_frame(frame);
        if settings.initial_window_size > 0x7fff_ffff {
            return Err(Error::CodeError(ErrorCode::FlowControlError));
        }
        if settings.max_frame_size < 16384 || settings.max_frame_size > MAX_PAYLOAD_LEN {
            return Err(Error::CodeError(ErrorCode::ProtocolError));
        }
        if !self.rescale_fits(settings.initial_window_size) {
            return Err(Error::CodeError(ErrorCode::FlowControlError));
        }
        let old_initial: u32 = self.peer_settings.initial_window_size;
        let new_initial: u32 = settings.initial_window_size;
        let delta: i64 = new_initial as i64 - old_initial as i64;
        let ghost before = self.streams@;
        let mut i: usize = 0;
        while i < self.streams.streams.len()
            invariant
                i <= before.len(),
                before == old(self).streams@,
                self.streams@.len() == before.len(),
                delta == new_initial - old_initial,
                *self == (Conn { streams: self.streams, ..*old(self) }),
                spec_rescale_fits(before, old_initial, new_initial),
                forall|k: int|
                    0 <= k < i ==> (#[trigger] self.streams@[k]) == (StreamView {
                        out_window_size: WindowSize(
                            spec_rescaled(before[k].out_window_size, old_initial, new_initial) as i32,
                        ),
                        ..before[k]
                    }),
                forall|k: int| i <= k < before.len() ==> (#[trigger] self.streams@[k]) == before[k],
            decreases before.len() - i,
        {
            assert(self.streams@[i as int] == before[i as int]);
            assert(i32::MIN <= spec_rescaled(before[i as int].out_window_size, old_initial, new_initial)
                <= 0x7fff_ffff);
            let ghost prev = self.streams@;
            let stream = &mut self.streams.streams[i];
            let moved: i64 = stream.out_window_size.size() as i64 + delta;
            stream.out_window_size = WindowSize(moved as i32);
            proof {
                assert(self.streams@.len() == prev.len());
                assert forall|k: int| 0 <= k < before.len() && k != i implies #[trigger] self.streams@[k]
                    == prev[k] by {}
                assert(self.streams@[i as int].outgoing =~= prev[i as int].outgoing);
                assert(self.streams@[i as int] == (StreamView {
                    out_window_size: WindowSize(
                        spec_rescaled(before[i as int].out_window_size, old_initial, new_initial) as i32,
                    ),
                    ..before[i as int]
                }));
            }
            i = i + 1;
        }
        self.peer_settings = settings;
        self.encoder.set_max_table_size(settings.header_table_size as usize);
        proof {
            let after = self.streams@;
            assert(after =~= spec_rescale_streams(before, old_initial, new_initial));
            assert forall|a: int, b: int| 0 <= a < b < after.len() implies (#[trigger] after[a]).stream_id
                < (#[trigger] after[b]).stream_id by {
                assert(before[a].stream_id < before[b].stream_id);
            }
            assert forall|k: int| 0 <= k < after.len() implies (#[trigger] after[k]).wf() by {
                assert(before[k].wf());
            }
            assert forall|k: int| 0 <= k < after.len() implies {
                let id = (#[trigger] after[k]).stream_id;
                if self.role.spec_is_init_locally(id) {
                    id <= self.last_local_stream_id
                } else {
                    id <= self.last_peer_stream_id
                }
            } by {
                assert(after[k].stream_id == before[k].stream_id);
            }
        }
        self.send_frame_and_notify(HttpFrame::Settings(SettingsFrame::new_ack()));
        Ok(())
    }
}

} // verus!
