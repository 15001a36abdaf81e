//! The state of one stream: its place in the stream lifecycle, its windows,
//! and what is queued to be sent on it.

use crate::bytes_model::{bytes_seq, bytes_slice};
use crate::common::window_size::WindowSize;
use crate::data_or_headers::{DataOrHeaders, PartView};
use crate::data_or_headers_with_flag::DataOrHeadersWithFlag;
use crate::solicit::end_stream::EndStream;
use crate::solicit::error_code::ErrorCode;
use crate::solicit::header::Headers;
use crate::solicit::stream_id::StreamId;
use bytes::Bytes;
use std::collections::VecDeque;
use vstd::prelude::*;

verus! {

/// Where a stream is in its lifecycle.
#[derive(Clone, Copy, Debug, PartialEq, Eq, Structural)]
pub enum StreamState {
    Idle,
    ReservedLocal,
    ReservedRemote,
    Open,
    HalfClosedRemote,
    HalfClosedLocal,
    Closed,
}

impl StreamState {
    /// Whether this side has finished sending.
    pub open spec fn spec_is_closed_local(self) -> bool {
        self == StreamState::HalfClosedLocal || self == StreamState::Closed
    }

    /// Whether the peer has finished sending.
    pub open spec fn spec_is_closed_remote(self) -> bool {
        self == StreamState::HalfClosedRemote || self == StreamState::Closed
    }

    /// The state after this side finished sending.
    pub open spec fn spec_close_local(self) -> StreamState {
        if self == StreamState::Closed || self == StreamState::HalfClosedRemote {
            StreamState::Closed
        } else {
            StreamState::HalfClosedLocal
        }
    }

    /// The state after the peer finished sending.
    pub open spec fn spec_close_remote(self) -> StreamState {
        if self == StreamState::Closed || self == StreamState::HalfClosedLocal {
            StreamState::Closed
        } else {
            StreamState::HalfClosedRemote
        }
    }

    /// Whether this side has finished sending.
    pub fn is_closed_local(&self) -> (r: bool)
        ensures
            r == self.spec_is_closed_local(),
    {
        match self {
            StreamState::HalfClosedLocal | StreamState::Closed => true,
            _ => false,
        }
    }

    /// Whether the peer has finished sending.
    pub fn is_closed_remote(&self) -> (r: bool)
        ensures
            r == self.spec_is_closed_remote(),
    {
        match self {
            StreamState::HalfClosedRemote | StreamState::Closed => true,
            _ => false,
        }
    }

    /// Whether both sides have finished.
    pub fn is_closed(&self) -> (r: bool)
        ensures
            r == (*self == StreamState::Closed),
    {
        match self {
            StreamState::Closed => true,
            _ => false,
        }
    }

    /// The state after this side finished sending.
    pub fn close_local(self) -> (r: StreamState)
        ensures
            r == self.spec_close_local(),
    {
        match self {
            StreamState::Closed | StreamState::HalfClosedRemote => StreamState::Closed,
            _ => StreamState::HalfClosedLocal,
        }
    }

    /// The state after the peer finished sending.
    pub fn close_remote(self) -> (r: StreamState)
        ensures
            r == self.spec_close_remote(),
    {
        match self {
            StreamState::Closed | StreamState::HalfClosedLocal => StreamState::Closed,
            _ => StreamState::HalfClosedRemote,
        }
    }
}

/// Which headers the next inbound HEADERS frame of a stream would be.
#[derive(Clone, Copy, Debug, PartialEq, Eq, Structural)]
pub enum InMessageStage {
    /// No headers came yet: the next are the message's headers.
    Initial,
    /// The headers came: the next are trailers.
    AfterInitialHeaders,
    /// The trailers came: no more headers may come.
    AfterTrailingHeaders,
}

/// What the writer is to put on the wire for a stream.
#[derive(Debug)]
pub enum HttpStreamCommand {
    Headers(Headers, EndStream),
    Data(Bytes, EndStream),
    Rst(ErrorCode),
}

/// What a command for the writer holds.
pub ghost enum CommandView {
    Headers(Seq<(Seq<u8>, Seq<u8>)>, bool),
    Data(Seq<u8>, bool),
    Rst(ErrorCode),
}

impl View for HttpStreamCommand {
    type V = CommandView;

    open spec fn view(&self) -> CommandView {
        match self {
            HttpStreamCommand::Headers(headers, end) => CommandView::Headers(
                headers@,
                *end == EndStream::Yes,
            ),
            HttpStreamCommand::Data(data, end) => CommandView::Data(
                bytes_seq(*data),
                *end == EndStream::Yes,
            ),
            HttpStreamCommand::Rst(code) => CommandView::Rst(*code),
        }
    }
}

/// The state of one stream. `H` is the handler that inbound events of the
/// stream are delivered to.
pub struct HttpStreamCommon<H> {
    /// The stream's identifier.
    pub stream_id: StreamId,
    /// Where the stream is in its lifecycle.
    pub state: StreamState,
    /// How many bytes the peer may still send on the stream.
    pub in_window_size: WindowSize,
    /// How many bytes this side may still send on the stream.
    pub out_window_size: WindowSize,
    /// How many body bytes are still to come, where the peer announced the
    /// body's length.
    pub in_rem_content_length: Option<u64>,
    /// Which headers the next inbound HEADERS frame would be.
    pub in_message_stage: InMessageStage,
    /// The parts that wait to be sent, first first.
    pub outgoing: VecDeque<DataOrHeaders>,
    /// Set once nothing more will be queued: `NoError` for a regular end,
    /// any other code for a reset.
    pub outgoing_end: Option<ErrorCode>,
    /// The handler of the stream's inbound events.
    pub peer_tx: Option<H>,
}

/// What the state of a stream holds, without its handler.
pub ghost struct StreamView {
    pub stream_id: StreamId,
    pub state: StreamState,
    pub in_window_size: WindowSize,
    pub out_window_size: WindowSize,
    pub in_rem_content_length: Option<u64>,
    pub in_message_stage: InMessageStage,
    pub outgoing: Seq<PartView>,
    pub outgoing_end: Option<ErrorCode>,
    pub has_peer_tx: bool,
}

impl<H> View for HttpStreamCommon<H> {
    type V = StreamView;

    open spec fn view(&self) -> StreamView {
        StreamView {
            stream_id: self.stream_id,
            state: self.state,
            in_window_size: self.in_window_size,
            out_window_size: self.out_window_size,
            in_rem_content_length: self.in_rem_content_length,
            in_message_stage: self.in_message_stage,
            outgoing: Seq::new(self.outgoing@.len(), |i: int| self.outgoing@[i]@),
            outgoing_end: self.outgoing_end,
            has_peer_tx: self.peer_tx is Some,
        }
    }
}

/// What one call of `pop_outg` does: the command for the writer, if there is
/// one, the stream afterwards, and the connection's window afterwards.
pub ghost struct PopOutg {
    pub command: Option<CommandView>,
    pub stream: StreamView,
    pub conn_window: WindowSize,
}

impl StreamView {
    /// The in-window is not negative, and a stream that is to be reset has
    /// nothing queued.
    pub open spec fn wf(self) -> bool {
        &&& self.in_window_size.0 >= 0
        &&& (self.outgoing_end matches Some(code) && code != ErrorCode::NoError
            ==> self.outgoing.len() == 0)
    }

    /// The stream after a part was queued. A stream whose end is set takes
    /// no more parts.
    pub open spec fn push_back(self, part: PartView) -> StreamView {
        if self.outgoing_end is Some {
            self
        } else {
            StreamView { outgoing: self.outgoing.push(part), ..self }
        }
    }

    /// The stream after its sending side was ended with the given code. The
    /// first end stands; a reset drops what is queued.
    pub open spec fn close_outgoing(self, code: ErrorCode) -> StreamView {
        if self.outgoing_end is Some {
            self
        } else if code == ErrorCode::NoError {
            StreamView { outgoing_end: Some(code), ..self }
        } else {
            StreamView { outgoing_end: Some(code), outgoing: Seq::empty(), ..self }
        }
    }

    /// Whether the message is over once `rest` is all that is left of the
    /// queue: the end is set as a regular one, and `rest` is empty.
    pub open spec fn ends_after(self, rest: Seq<PartView>) -> bool {
        self.outgoing_end == Some(ErrorCode::NoError) && rest.len() == 0
    }

    /// With `last`, the stream after this side finished sending.
    pub open spec fn closed_local_if(self, last: bool) -> StreamView {
        if last {
            StreamView { state: self.state.spec_close_local(), ..self }
        } else {
            self
        }
    }

    /// What `pop_outg` does on this stream with the given window of the
    /// connection. Headers go out whatever the windows are. Data goes out
    /// while both windows are positive, and no more of it than the smaller
    /// window allows; the rest stays at the front of the queue. An empty
    /// queue with the end set gives the stream's last frame: an empty DATA
    /// frame with END_STREAM, or the reset.
    pub open spec fn pop_outg(self, conn_window: WindowSize) -> PopOutg {
        let nothing = PopOutg { command: None, stream: self, conn_window };
        if self.outgoing.len() == 0 {
            match self.outgoing_end {
                None => nothing,
                Some(code) => if self.state.spec_is_closed_local() {
                    nothing
                } else if code == ErrorCode::NoError {
                    PopOutg {
                        command: Some(CommandView::Data(Seq::empty(), true)),
                        stream: self.closed_local_if(true),
                        conn_window,
                    }
                } else {
                    PopOutg {
                        command: Some(CommandView::Rst(code)),
                        stream: StreamView { state: StreamState::Closed, ..self },
                        conn_window,
                    }
                },
            }
        } else {
            let rest = self.outgoing.skip(1);
            match self.outgoing[0] {
                PartView::Headers(headers) => {
                    let last = self.ends_after(rest);
                    PopOutg {
                        command: Some(CommandView::Headers(headers, last)),
                        stream: StreamView { outgoing: rest, ..self }.closed_local_if(last),
                        conn_window,
                    }
                },
                PartView::Data(data) => if self.out_window_size.0 <= 0 || conn_window.0 <= 0 {
                    nothing
                } else {
                    let max_window = if self.out_window_size.0 < conn_window.0 {
                        self.out_window_size.0
                    } else {
                        conn_window.0
                    };
                    if data.len() > max_window {
                        PopOutg {
                            command: Some(
                                CommandView::Data(data.take(max_window as int), false),
                            ),
                            stream: StreamView {
                                outgoing: seq![PartView::Data(data.skip(max_window as int))]
                                    + rest,
                                out_window_size: WindowSize(
                                    (self.out_window_size.0 - max_window) as i32,
                                ),
                                ..self
                            },
                            conn_window: WindowSize((conn_window.0 - max_window) as i32),
                        }
                    } else {
                        let last = self.ends_after(rest);
                        PopOutg {
                            command: Some(CommandView::Data(data, last)),
                            stream: StreamView {
                                outgoing: rest,
                                out_window_size: WindowSize(
                                    (self.out_window_size.0 - data.len()) as i32,
                                ),
                                ..self
                            }.closed_local_if(last),
                            conn_window: WindowSize((conn_window.0 - data.len()) as i32),
                        }
                    }
                },
            }
        }
    }

    /// Whether the stream has something for the writer, whatever the window
    /// of the connection: headers at the front of its queue, data there and
    /// a positive window of its own, or its end to announce.
    pub open spec fn is_writable(self) -> bool {
        if self.outgoing.len() == 0 {
            self.outgoing_end is Some && !self.state.spec_is_closed_local()
        } else {
            match self.outgoing[0] {
                PartView::Headers(_) => true,
                PartView::Data(_) => self.out_window_size.0 > 0,
            }
        }
    }
}

/// How much work a queue of parts is: one for each part and one for each
/// byte of data.
pub open spec fn spec_queue_weight(parts: Seq<PartView>) -> nat
    decreases parts.len(),
{
    if parts.len() == 0 {
        0
    } else {
        1 + parts[0].data_len() + spec_queue_weight(parts.skip(1))
    }
}

/// How much work a stream still is for the writer: its queue, and its end
/// if that is still to be announced.
pub open spec fn spec_outg_weight(s: StreamView) -> nat {
    spec_queue_weight(s.outgoing) + (if s.outgoing_end is Some && !s.state.spec_is_closed_local() {
        1nat
    } else {
        0nat
    })
}

/// Each command that `pop_outg` hands out leaves the stream with less work.
pub proof fn lemma_pop_outg_decreases(s: StreamView, conn_window: WindowSize)
    requires
        s.pop_outg(conn_window).command is Some,
    ensures
        spec_outg_weight(s.pop_outg(conn_window).stream) < spec_outg_weight(s),
{
    let after = s.pop_outg(conn_window).stream;
    if s.outgoing.len() == 0 {
        assert(spec_queue_weight(s.outgoing) == 0);
    } else {
        let rest = s.outgoing.skip(1);
        match s.outgoing[0] {
            PartView::Headers(_) => {},
            PartView::Data(data) => {
                let max_window = if s.out_window_size.0 < conn_window.0 {
                    s.out_window_size.0
                } else {
                    conn_window.0
                };
                if data.len() > max_window {
                    let kept = seq![PartView::Data(data.skip(max_window as int))] + rest;
                    assert(kept.skip(1) =~= rest);
                    assert(kept[0].data_len() == data.len() - max_window);
                }
            },
        }
    }
}

/// `pop_outg` keeps a stream well formed and never takes more from a window
/// than it holds.
pub proof fn lemma_pop_outg_wf(s: StreamView, conn_window: WindowSize)
    requires
        s.wf(),
    ensures
        s.pop_outg(conn_window).stream.wf(),
        s.pop_outg(conn_window).stream.stream_id == s.stream_id,
        s.pop_outg(conn_window).conn_window.0 <= conn_window.0,
        conn_window.0 >= 0 ==> s.pop_outg(conn_window).conn_window.0 >= 0,
        s.pop_outg(conn_window).stream.in_window_size == s.in_window_size,
{
}

impl<H> HttpStreamCommon<H> {
    /// A stream in state `Open` with nothing queued.
    pub fn new(
        stream_id: StreamId,
        in_window_size: u32,
        out_window_size: u32,
        in_rem_content_length: Option<u64>,
        in_message_stage: InMessageStage,
        peer_tx: Option<H>,
    ) -> (r: HttpStreamCommon<H>)
        requires
            in_window_size <= 0x7fff_ffff,
            out_window_size <= 0x7fff_ffff,
        ensures
            r@ == (StreamView {
                stream_id,
                state: StreamState::Open,
                in_window_size: WindowSize(in_window_size as i32),
                out_window_size: WindowSize(out_window_size as i32),
                in_rem_content_length,
                in_message_stage,
                outgoing: Seq::empty(),
                outgoing_end: None,
                has_peer_tx: peer_tx is Some,
            }),
            r@.wf(),
            r.peer_tx == peer_tx,
    {
        let r = HttpStreamCommon {
            stream_id,
            state: StreamState::Open,
            in_window_size: WindowSize(in_window_size as i32),
            out_window_size: WindowSize(out_window_size as i32),
            in_rem_content_length,
            in_message_stage,
            outgoing: VecDeque::new(),
            outgoing_end: None,
            peer_tx,
        };
        assert(r@.outgoing =~= Seq::<PartView>::empty());
        r
    }

    /// Queues a part at the back. A stream whose end is set takes no more.
    pub fn push_back(&mut self, part: DataOrHeaders)
        ensures
            final(self)@ == old(self)@.push_back(part@),
            final(self).peer_tx == old(self).peer_tx,
    {
        if self.outgoing_end.is_some() {
            return ;
        }
        self.outgoing.push_back(part);
        assert(self@.outgoing =~= old(self)@.outgoing.push(part@));
    }

    /// Queues a part at the back and, where it is marked as the last, ends
    /// the sending side regularly.
    pub fn push_back_part(&mut self, part: DataOrHeadersWithFlag)
        ensures
            final(self)@ == (if part.last {
                old(self)@.push_back(part.content@).close_outgoing(ErrorCode::NoError)
            } else {
                old(self)@.push_back(part.content@)
            }),
            final(self).peer_tx == old(self).peer_tx,
    {
        let last = part.last;
        self.push_back(part.content);
        if last {
            self.close_outgoing(ErrorCode::NoError);
        }
    }

    /// Ends the sending side: regularly with `NoError`, with a reset for any
    /// other code. The first end stands; a reset drops what is queued.
    pub fn close_outgoing(&mut self, error_code: ErrorCode)
        ensures
            final(self)@ == old(self)@.close_outgoing(error_code),
            final(self).peer_tx == old(self).peer_tx,
    {
        if self.outgoing_end.is_some() {
            return ;
        }
        match error_code {
            ErrorCode::NoError => {},
            _ => {
                self.outgoing.clear();
                assert(self@.outgoing =~= Seq::<PartView>::empty());
            },
        }
        self.outgoing_end = Some(error_code);
    }

    /// Marks this side as finished with sending.
    pub fn close_local(&mut self)
        ensures
            final(self)@ == old(self)@.closed_local_if(true),
            final(self).peer_tx == old(self).peer_tx,
    {
        self.state = self.state.close_local();
    }

    /// Marks the peer as finished with sending.
    pub fn close_remote(&mut self)
        ensures
            final(self)@ == (StreamView {
                state: old(self)@.state.spec_close_remote(),
                ..old(self)@
            }),
            final(self).peer_tx == old(self).peer_tx,
    {
        self.state = self.state.close_remote();
    }

    /// Whether the stream has something for the writer.
    pub fn is_writable(&self) -> (r: bool)
        ensures
            r == self@.is_writable(),
    {
        if self.outgoing.len() == 0 {
            return self.outgoing_end.is_some() && !self.state.is_closed_local();
        }
        match &self.outgoing[0] {
            DataOrHeaders::Headers(_) => true,
            DataOrHeaders::Data(_) => self.out_window_size.size() > 0,
        }
    }

    fn ends_now(&self) -> (r: bool)
        ensures
            r == self@.ends_after(self@.outgoing),
    {
        let regular: bool = match self.outgoing_end {
            Some(ErrorCode::NoError) => true,
            _ => false,
        };
        regular && self.outgoing.len() == 0
    }

    /// Takes the next command for the writer off the stream, charging the
    /// stream's window and the connection's for data.
    pub fn pop_outg(&mut self, conn_out_window_size: &mut WindowSize) -> (r: Option<
        HttpStreamCommand,
    >)
        ensures
            match r {
                Some(command) => old(self)@.pop_outg(*old(conn_out_window_size)).command == Some(
                    command@,
                ),
                None => old(self)@.pop_outg(*old(conn_out_window_size)).command is None,
            },
            final(self)@ == old(self)@.pop_outg(*old(conn_out_window_size)).stream,
            *final(conn_out_window_size) == old(self)@.pop_outg(
                *old(conn_out_window_size),
            ).conn_window,
            final(self).peer_tx == old(self).peer_tx,
    {
        if self.outgoing.len() == 0 {
            return match self.outgoing_end {
                None => None,
                Some(code) => {
                    if self.state.is_closed_local() {
                        None
                    } else {
                        match code {
                            ErrorCode::NoError => {
                                self.close_local();
                                Some(HttpStreamCommand::Data(Bytes::new(), EndStream::Yes))
                            },
                            _ => {
                                self.state = StreamState::Closed;
                                Some(HttpStreamCommand::Rst(code))
                            },
                        }
                    }
                },
            };
        }
        let ghost rest = old(self)@.outgoing.skip(1);
        let front_is_headers: bool = match &self.outgoing[0] {
            DataOrHeaders::Headers(_) => true,
            DataOrHeaders::Data(_) => false,
        };
        if !front_is_headers && (self.out_window_size.size() <= 0 || conn_out_window_size.size()
            <= 0) {
            return None;
        }
        let front = self.outgoing.pop_front();
        assert(self@.outgoing =~= rest);
        match front {
            None => None,
            Some(DataOrHeaders::Headers(headers)) => {
                let last = self.ends_now();
                if last {
                    self.close_local();
                }
                Some(HttpStreamCommand::Headers(headers, EndStream::from_bool(last)))
            },
            Some(DataOrHeaders::Data(data)) => {
                let max_window: i32 = if self.out_window_size.size() < conn_out_window_size.size() {
                    self.out_window_size.size()
                } else {
                    conn_out_window_size.size()
                };
                if data.len() > max_window as usize {
                    let size: usize = max_window as usize;
                    let send = bytes_slice(&data, 0, size);
                    let keep = bytes_slice(&data, size, data.len());
                    self.outgoing.push_front(DataOrHeaders::Data(keep));
                    self.out_window_size.0 = self.out_window_size.0 - max_window;
                    conn_out_window_size.0 = conn_out_window_size.0 - max_window;
                    proof {
                        assert(bytes_seq(send) =~= bytes_seq(data).take(max_window as int));
                        assert(bytes_seq(keep) =~= bytes_seq(data).skip(max_window as int));
                        assert(self@.outgoing =~= seq![PartView::Data(bytes_seq(keep))] + rest);
                    }
                    Some(HttpStreamCommand::Data(send, EndStream::No))
                } else {
                    let len: i32 = data.len() as i32;
                    self.out_window_size.0 = self.out_window_size.0 - len;
                    conn_out_window_size.0 = conn_out_window_size.0 - len;
                    let last = self.ends_now();
                    if last {
                        self.close_local();
                    }
                    Some(HttpStreamCommand::Data(data, EndStream::from_bool(last)))
                }
            },
        }
    }
}

} // verus!
