//! The writer's side of a connection: what is taken from the streams'
//! queues, how it is cut into frames, and when the writer holds back.

use crate::bytes_model::{bytes_seq, bytes_slice};
use crate::common::conn::Conn;
use crate::common::iteration_exit::IterationExit;
use crate::common::stream::{
    lemma_pop_outg_decreases, lemma_pop_outg_wf, spec_outg_weight, CommandView, HttpStreamCommand,
    StreamState, StreamView,
};
use crate::common::stream_map::{
    lemma_index_of, lemma_writable_ids, spec_index_of, spec_sorted, spec_writable_ids,
};
use crate::common::window_size::WindowSize;
use crate::data_or_headers::{DataOrHeaders, PartView};
use crate::data_or_headers_with_flag::DataOrHeadersWithFlag;
use crate::error::Error;
use crate::hpack::encoder::{spec_encode_block, spec_encoder_after_block, EncoderView};
use crate::solicit::end_stream::EndStream;
use crate::solicit::error_code::ErrorCode;
use crate::solicit::frame::data::{DataFlag, DataFrame, DataFrameView};
use crate::solicit::frame::flags::{bits_set, Flags};
use crate::solicit::frame::goaway::{GoawayFrame, GoawayFrameView};
use crate::solicit::frame::headers::{spec_multi_frame, HeadersMultiFrame};
use crate::solicit::frame::http_frame::{HttpFrame, HttpFrameView};
use crate::solicit::frame::rst_stream::{spec_serialize_rst_stream, RstStreamFrame, RstStreamView};
use crate::solicit::frame::settings::SettingsFrame;
use crate::solicit::frame::window_update::WindowUpdateFrame;
use crate::solicit::header::Headers;
use crate::solicit::stream_id::StreamId;
use bytes::Bytes;
use vstd::prelude::*;

verus! {

/// The write watermark: the writer takes nothing more from the streams
/// while this many bytes or more wait for the transport.
pub const WRITE_BUFFER_CAPACITY: usize = 0x8000;

/// What the writer works on.
pub ghost struct WriterView {
    /// The streams, by rising identifier.
    pub streams: Seq<StreamView>,
    /// How many bytes this side may still send on the connection.
    pub out_window: WindowSize,
    /// The bytes that wait for the transport.
    pub queued: Seq<u8>,
    /// Whether a GOAWAY frame was queued.
    pub goaway: bool,
    /// What the encoder holds.
    pub encoder: EncoderView,
    /// The largest frame payload that the peer accepts.
    pub max_frame_size: u32,
}

/// The bytes of one DATA frame without padding.
pub open spec fn spec_data_frame(stream_id: StreamId, data: Seq<u8>, end_stream: bool) -> Seq<u8> {
    DataFrameView {
        flags: if end_stream {
            0x1
        } else {
            0
        },
        stream_id,
        data,
        padding_len: 0,
    }.serialize()
}

/// Data that is not empty as DATA frames of at most `max` bytes each; with
/// `end_stream`, the last frame has END_STREAM.
pub open spec fn spec_data_chunks(stream_id: StreamId, data: Seq<u8>, end_stream: bool, max: nat) -> Seq<
    u8,
>
    decreases data.len(),
{
    if max == 0 || data.len() <= max {
        spec_data_frame(stream_id, data, end_stream)
    } else {
        spec_data_frame(stream_id, data.take(max as int), false) + spec_data_chunks(
            stream_id,
            data.skip(max as int),
            end_stream,
            max,
        )
    }
}

/// Data as DATA frames of at most `max` bytes each. Empty data gives one
/// empty frame with END_STREAM where the stream ends, and nothing where it
/// goes on.
pub open spec fn spec_data_frames(stream_id: StreamId, data: Seq<u8>, end_stream: bool, max: nat) -> Seq<
    u8,
> {
    if data.len() == 0 {
        if end_stream {
            spec_data_frame(stream_id, data, true)
        } else {
            Seq::empty()
        }
    } else {
        spec_data_chunks(stream_id, data, end_stream, max)
    }
}

/// The bytes of a RST_STREAM frame with a known code.
pub open spec fn spec_rst_frame(stream_id: StreamId, code: ErrorCode) -> Seq<u8> {
    spec_serialize_rst_stream(
        RstStreamView { raw_error_code: code.code(), stream_id, flags: 0 },
    )
}

/// What the writer holds after it wrote one command of a stream. Behind a
/// GOAWAY frame nothing is written, and the encoder does not move.
pub open spec fn spec_write_part(w: WriterView, stream_id: StreamId, command: CommandView) -> WriterView {
    if w.goaway {
        w
    } else {
        match command {
            CommandView::Data(data, end_stream) => WriterView {
                queued: w.queued + spec_data_frames(
                    stream_id,
                    data,
                    end_stream,
                    w.max_frame_size as nat,
                ),
                ..w
            },
            CommandView::Headers(headers, end_stream) => WriterView {
                queued: w.queued + spec_multi_frame(
                    spec_encode_block(w.encoder, headers),
                    w.max_frame_size as nat,
                    stream_id,
                    if end_stream {
                        0x1
                    } else {
                        0
                    },
                ),
                encoder: spec_encoder_after_block(w.encoder, headers),
                ..w
            },
            CommandView::Rst(code) => WriterView {
                queued: w.queued + spec_rst_frame(stream_id, code),
                ..w
            },
        }
    }
}

/// Whether the writer may take more from the streams: fewer bytes than the
/// watermark wait for the transport.
pub open spec fn spec_has_capacity(w: WriterView) -> bool {
    w.queued.len() < WRITE_BUFFER_CAPACITY
}

/// What taking one command off a stream gives.
pub ghost struct Popped {
    /// The command, if the stream had one.
    pub command: Option<CommandView>,
    /// What the writer holds afterwards.
    pub writer: WriterView,
    /// Whether the stream is still in the map.
    pub cont: bool,
}

/// Takes the next command off the stream with the given identifier. A stream
/// that is closed afterwards leaves the map.
pub open spec fn spec_pop_for_stream(w: WriterView, id: StreamId) -> Popped {
    match spec_index_of(w.streams, id) {
        None => Popped { command: None, writer: w, cont: false },
        Some(i) => {
            let r = w.streams[i].pop_outg(w.out_window);
            let closed = r.stream.state == StreamState::Closed;
            Popped {
                command: r.command,
                writer: WriterView {
                    streams: if closed {
                        w.streams.remove(i)
                    } else {
                        w.streams.update(i, r.stream)
                    },
                    out_window: r.conn_window,
                    ..w
                },
                cont: !closed,
            }
        },
    }
}

/// How much work the stream with the given identifier still is; 0 where the
/// map does not hold it.
pub open spec fn spec_weight_of(streams: Seq<StreamView>, id: StreamId) -> nat {
    match spec_index_of(streams, id) {
        None => 0,
        Some(i) => spec_outg_weight(streams[i]),
    }
}

/// The state of the writer after a buffering step, and whether anything was
/// taken from a stream.
pub ghost struct Buffered {
    pub writer: WriterView,
    pub updated: bool,
}

/// Replacing a stream by one with the same identifier keeps every stream
/// where it is found.
pub proof fn lemma_index_of_update(streams: Seq<StreamView>, i: int, s: StreamView, id: StreamId)
    requires
        0 <= i < streams.len(),
        s.stream_id == streams[i].stream_id,
    ensures
        spec_index_of(streams.update(i, s), id) == spec_index_of(streams, id),
    decreases streams.len(),
{
    let after = streams.update(i, s);
    if i == streams.len() - 1 {
        assert(after.drop_last() =~= streams.drop_last());
    } else {
        assert(after.drop_last() =~= streams.drop_last().update(i, s));
        assert(after.last() == streams.last());
        if streams.last().stream_id != id {
            lemma_index_of_update(streams.drop_last(), i, s, id);
        }
    }
}

/// Taking a stream out of an ordered map keeps every other stream in it.
pub proof fn lemma_contains_after_remove(streams: Seq<StreamView>, i: int, id: StreamId)
    requires
        spec_sorted(streams),
        0 <= i < streams.len(),
        streams[i].stream_id != id,
    ensures
        spec_index_of(streams.remove(i), id) is Some <==> spec_index_of(streams, id) is Some,
        spec_sorted(streams.remove(i)),
{
    let after = streams.remove(i);
    assert forall|a: int, b: int| 0 <= a < b < after.len() implies (#[trigger] after[a]).stream_id < (
    #[trigger] after[b]).stream_id by {
        let ka = if a < i {
            a
        } else {
            a + 1
        };
        let kb = if b < i {
            b
        } else {
            b + 1
        };
        assert(after[a] == streams[ka] && after[b] == streams[kb]);
    }
    lemma_index_of(streams, id);
    lemma_index_of(after, id);
    if spec_index_of(streams, id) is Some {
        let p = spec_index_of(streams, id)->Some_0;
        let q = if p < i {
            p
        } else {
            p - 1
        };
        assert(after[q] == streams[p]);
    }
    if spec_index_of(after, id) is Some {
        let q = spec_index_of(after, id)->Some_0;
        let p = if q < i {
            q
        } else {
            q + 1
        };
        assert(after[q] == streams[p]);
    }
}

/// Takes commands off one stream and writes them, until the watermark is
/// reached, the stream has nothing more to give, or the stream is closed.
pub open spec fn spec_drain_stream(w: WriterView, id: StreamId, updated: bool) -> Buffered
    decreases spec_weight_of(w.streams, id),
{
    if !spec_has_capacity(w) {
        Buffered { writer: w, updated }
    } else {
        let p = spec_pop_for_stream(w, id);
        match p.command {
            None => Buffered { writer: p.writer, updated },
            Some(command) => {
                let written = spec_write_part(p.writer, id, command);
                if p.cont {
                    proof {
                        lemma_index_of(w.streams, id);
                        let i = spec_index_of(w.streams, id)->Some_0;
                        let r = w.streams[i].pop_outg(w.out_window);
                        lemma_pop_outg_decreases(w.streams[i], w.out_window);
                        lemma_index_of_update(w.streams, i, r.stream, id);
                    }
                    spec_drain_stream(written, id, true)
                } else {
                    Buffered { writer: written, updated: true }
                }
            },
        }
    }
}

/// Drains the streams with the given identifiers, one after the other.
pub open spec fn spec_buffer_streams(w: WriterView, ids: Seq<StreamId>, updated: bool) -> Buffered
    decreases ids.len(),
{
    if ids.len() == 0 {
        Buffered { writer: w, updated }
    } else {
        let first = spec_drain_stream(w, ids[0], updated);
        spec_buffer_streams(first.writer, ids.skip(1), first.updated)
    }
}

/// One buffering pass: the writable streams are drained by rising
/// identifier. Nothing happens where the watermark is reached already.
pub open spec fn spec_buffer_outg(w: WriterView) -> Buffered {
    if !spec_has_capacity(w) {
        Buffered { writer: w, updated: false }
    } else {
        spec_buffer_streams(w, spec_writable_ids(w.streams), false)
    }
}

/// While the watermark is reached, draining streams changes nothing:
/// nothing is taken from a queue, no window is charged, nothing is written.
pub proof fn lemma_no_capacity_no_change(w: WriterView, ids: Seq<StreamId>, updated: bool)
    requires
        !spec_has_capacity(w),
    ensures
        spec_buffer_streams(w, ids, updated) == (Buffered { writer: w, updated }),
    decreases ids.len(),
{
    if ids.len() > 0 {
        lemma_no_capacity_no_change(w, ids.skip(1), updated);
    }
}

/// A buffering pass that starts at or above the watermark leaves the queue
/// of the transport, the streams and the windows as they are.
pub proof fn lemma_buffer_outg_holds_back(w: WriterView)
    requires
        w.queued.len() >= WRITE_BUFFER_CAPACITY,
    ensures
        spec_buffer_outg(w) == (Buffered { writer: w, updated: false }),
{
}

/// What a connection does with a message for its writer.
#[derive(Debug)]
pub enum CommonToWriteMessage {
    /// The consumer took data: the stream's in-window grows.
    IncreaseInWindow(StreamId, u32),
    /// A part to queue on a stream.
    StreamEnqueue(StreamId, DataOrHeadersWithFlag),
    /// The handler finished the stream with this code.
    StreamEnd(StreamId, ErrorCode),
    /// A body is to be pulled for the stream. The body and the receiver of
    /// the stream's out-window stay with the caller, who starts the pump.
    Pull(StreamId),
    /// A snapshot of the state is asked for.
    DumpState,
}

/// What the caller is to do after a message for the writer was processed.
#[derive(Debug, PartialEq, Eq)]
pub enum WriteAction {
    /// Nothing.
    Nothing,
    /// Start the task that pumps the body of this stream into the writer.
    SpawnPump(StreamId),
    /// Send this snapshot to whoever asked for it.
    ReplyState(ConnStateSnapshot),
    /// Tell whoever asked that the handshake is done.
    ReplyHandshake,
}

/// The state of one stream, for diagnosis.
#[derive(Clone, Copy, Debug, PartialEq, Eq)]
pub struct HttpStreamStateSnapshot {
    pub stream_id: StreamId,
    pub state: StreamState,
    pub in_window_size: i32,
    pub out_window_size: i32,
    /// How many parts wait to be sent.
    pub queued_out_parts: usize,
    pub in_message_stage: crate::common::stream::InMessageStage,
}

/// The state of a connection, for diagnosis.
#[derive(Debug, PartialEq, Eq)]
pub struct ConnStateSnapshot {
    pub in_window_size: i32,
    pub out_window_size: i32,
    pub pump_out_window_size: usize,
    /// How many bytes wait for the transport.
    pub queued_bytes_len: usize,
    pub streams: Vec<HttpStreamStateSnapshot>,
}

impl ConnStateSnapshot {
    /// The snapshot of the stream with the given identifier.
    pub fn single_stream(&self, stream_id: StreamId) -> (r: Option<HttpStreamStateSnapshot>)
        ensures
            match r {
                Some(s) => s.stream_id == stream_id && exists|i: int|
                    0 <= i < self.streams@.len() && self.streams@[i] == s,
                None => forall|i: int|
                    0 <= i < self.streams@.len() ==> self.streams@[i].stream_id != stream_id,
            },
    {
        let mut i: usize = 0;
        while i < self.streams.len()
            invariant
                i <= self.streams@.len(),
                forall|k: int| 0 <= k < i ==> self.streams@[k].stream_id != stream_id,
            decreases self.streams@.len() - i,
        {
            if self.streams[i].stream_id == stream_id {
                return Some(self.streams[i]);
            }
            i = i + 1;
        }
        None
    }
}

impl<H> Conn<H> {
    /// What the writer works on.
    pub open spec fn writer_view(&self) -> WriterView {
        WriterView {
            streams: self.streams@,
            out_window: self.out_window_size,
            queued: self.queued_write.queued(),
            goaway: self.queued_write.spec_goaway_queued(),
            encoder: self.encoder@,
            max_frame_size: self.peer_settings.max_frame_size,
        }
    }

    /// Whether `after` has this connection's role, settings, last stream
    /// identifiers, producers' credit and record of the peer's going away.
    pub open spec fn same_session(&self, after: &Conn<H>) -> bool {
        &&& after.role == self.role
        &&& after.peer_settings == self.peer_settings
        &&& after.our_settings_ack == self.our_settings_ack
        &&& after.our_settings_sent == self.our_settings_sent
        &&& after.last_local_stream_id == self.last_local_stream_id
        &&& after.last_peer_stream_id == self.last_peer_stream_id
        &&& after.pump_out_window_size == self.pump_out_window_size
        &&& after.goaway_received == self.goaway_received
    }

    /// Whether `after` is this connection with nothing changed but what the
    /// writer works on.
    pub open spec fn same_but_writer(&self, after: &Conn<H>) -> bool {
        &&& self.same_session(after)
        &&& after.in_window_size == self.in_window_size
    }

    /// Whether `after` is this connection after a part was handed in for a
    /// stream: the part is at the back of the stream's queue, and the stream's
    /// end is set if the part is the last. Where the stream is gone, the
    /// producer gets the credit for the part's data back instead.
    pub open spec fn enqueued(&self, after: &Conn<H>, stream_id: StreamId, part: (PartView, bool)) -> bool {
        match spec_index_of(self.streams@, stream_id) {
            Some(i) => {
                &&& self.same_but_writer(after)
                &&& after.writer_view() == (WriterView {
                    streams: self.streams@.update(
                        i,
                        if part.1 {
                            self.streams@[i].push_back(part.0).close_outgoing(ErrorCode::NoError)
                        } else {
                            self.streams@[i].push_back(part.0)
                        },
                    ),
                    ..self.writer_view()
                })
            },
            None => {
                &&& after.writer_view() == self.writer_view()
                &&& after.pump_out_window_size == (if self.pump_out_window_size + part.0.data_len()
                    > usize::MAX {
                    usize::MAX
                } else {
                    (self.pump_out_window_size + part.0.data_len()) as usize
                })
                &&& *after == (Conn { pump_out_window_size: after.pump_out_window_size, ..*self })
            },
        }
    }

    fn write_part_data(&mut self, stream_id: StreamId, data: Bytes, end_stream: EndStream)
        requires
            old(self).wf(),
        ensures
            final(self).wf(),
            old(self).same_but_writer(final(self)),
            final(self).writer_view() == spec_write_part(
                old(self).writer_view(),
                stream_id,
                CommandView::Data(bytes_seq(data), end_stream == EndStream::Yes),
            ),
    {
        let max_frame_size: usize = self.peer_settings.max_frame_size as usize;
        let ends: bool = end_stream.to_bool();
        let ghost all = bytes_seq(data);
        let ghost start = self.queued_write.queued();
        let ghost goaway = self.queued_write.spec_goaway_queued();
        assert(0u8 | 1u8 == 1u8) by (bit_vector);

        // If the stream ends, at least one frame must carry the flag.
        if ends && data.len() == 0 {
            let mut frame = DataFrame::with_data(stream_id, Bytes::new());
            frame.set_flag(DataFlag::EndStream);
            proof {
                assert(!bits_set(1u8, 0x8)) by {
                    assert(1u8 & 8u8 == 0u8) by (bit_vector);
                }
                assert(frame@.data =~= all);
            }
            self.queued_write.queue_not_goaway(HttpFrame::Data(frame));
            return ;
        }
        let mut pos: usize = 0;
        assert(all.skip(0) =~= all);
        while pos < data.len()
            invariant
                self.wf(),
                old(self).same_but_writer(self),
                all == bytes_seq(data),
                ends == (end_stream == EndStream::Yes),
                max_frame_size == self.peer_settings.max_frame_size,
                pos <= all.len(),
                self.streams == old(self).streams,
                self.out_window_size == old(self).out_window_size,
                self.encoder == old(self).encoder,
                self.queued_write.spec_goaway_queued() == goaway,
                goaway ==> self.queued_write.queued() == start,
                !goaway && pos < all.len() ==> self.queued_write.queued() + spec_data_chunks(
                    stream_id,
                    all.skip(pos as int),
                    ends,
                    max_frame_size as nat,
                ) == start + spec_data_chunks(stream_id, all, ends, max_frame_size as nat),
                !goaway && pos == all.len() && all.len() > 0 ==> self.queued_write.queued() == start
                    + spec_data_chunks(stream_id, all, ends, max_frame_size as nat),
                all.len() == 0 ==> self.queued_write.queued() == start,
            decreases all.len() - pos,
        {
            let end: usize = if data.len() - pos > max_frame_size {
                pos + max_frame_size
            } else {
                data.len()
            };
            let end_stream_in_frame: bool = end == data.len() && ends;
            let mut frame = DataFrame::with_data(stream_id, bytes_slice(&data, pos, end));
            if end_stream_in_frame {
                frame.set_flag(DataFlag::EndStream);
            }
            proof {
                assert(0u8 | 1u8 == 1u8) by (bit_vector);
                assert(!bits_set(1u8, 0x8)) by {
                    assert(1u8 & 8u8 == 0u8) by (bit_vector);
                }
                assert(!bits_set(0u8, 0x8)) by {
                    assert(0u8 & 8u8 == 0u8) by (bit_vector);
                }
                let rest = all.skip(pos as int);
                assert(frame@.data =~= rest.take(end - pos));
                assert(rest.skip(end - pos) =~= all.skip(end as int));
                if end == all.len() {
                    assert(rest.take(end - pos) =~= rest);
                }
            }
            let ghost before = self.queued_write.queued();
            let ghost bytes = frame@.serialize();
            self.queued_write.queue_not_goaway(HttpFrame::Data(frame));
            proof {
                if !goaway {
                    let rest = all.skip(pos as int);
                    let total = start + spec_data_chunks(
                        stream_id,
                        all,
                        ends,
                        max_frame_size as nat,
                    );
                    if end == all.len() {
                        assert(before + bytes =~= total);
                    } else {
                        assert((before + bytes) + spec_data_chunks(
                            stream_id,
                            all.skip(end as int),
                            ends,
                            max_frame_size as nat,
                        ) =~= total);
                    }
                }
            }
            pos = end;
        }
        proof {
            if all.len() == 0 {
                assert(start + Seq::<u8>::empty() =~= start);
            }
        }
    }

    fn write_part_headers(&mut self, stream_id: StreamId, headers: Headers, end_stream: EndStream)
        requires
            old(self).wf(),
        ensures
            final(self).wf(),
            old(self).same_but_writer(final(self)),
            final(self).writer_view() == spec_write_part(
                old(self).writer_view(),
                stream_id,
                CommandView::Headers(headers@, end_stream == EndStream::Yes),
            ),
    {
        let mut flags = Flags::new(0);
        if end_stream.to_bool() {
            flags = Flags::new(0x1);
        }
        proof {
            assert(1u8 & 4u8 == 0u8 && 0u8 & 4u8 == 0u8) by (bit_vector);
        }
        self.queued_write.queue_headers_not_goaway(
            HeadersMultiFrame {
                flags,
                stream_id,
                headers,
                stream_dep: None,
                padding_len: 0,
                encoder: &mut self.encoder,
                max_frame_size: self.peer_settings.max_frame_size,
            },
        );
    }

    fn write_part_rst(&mut self, stream_id: StreamId, error_code: ErrorCode)
        requires
            old(self).wf(),
        ensures
            final(self).wf(),
            old(self).same_but_writer(final(self)),
            final(self).writer_view() == spec_write_part(
                old(self).writer_view(),
                stream_id,
                CommandView::Rst(error_code),
            ),
    {
        let frame = RstStreamFrame::new(stream_id, error_code);
        self.queued_write.queue_not_goaway(HttpFrame::RstStream(frame));
    }

    fn write_part(&mut self, stream_id: StreamId, part: HttpStreamCommand)
        requires
            old(self).wf(),
        ensures
            final(self).wf(),
            old(self).same_but_writer(final(self)),
            final(self).writer_view() == spec_write_part(old(self).writer_view(), stream_id, part@),
    {
        match part {
            HttpStreamCommand::Data(data, end_stream) => {
                self.write_part_data(stream_id, data, end_stream);
            },
            HttpStreamCommand::Headers(headers, end_stream) => {
                self.write_part_headers(stream_id, headers, end_stream);
            },
            HttpStreamCommand::Rst(error_code) => {
                self.write_part_rst(stream_id, error_code);
            },
        }
    }

    fn has_write_buffer_capacity(&self) -> (r: bool)
        requires
            self.wf(),
        ensures
            r == spec_has_capacity(self.writer_view()),
    {
        self.queued_write.queued_bytes_len() < WRITE_BUFFER_CAPACITY
    }

    fn pop_outg_for_stream(&mut self, stream_id: StreamId) -> (r: Option<
        (StreamId, HttpStreamCommand, bool),
    >)
        requires
            old(self).wf(),
            old(self).streams.contains(stream_id),
        ensures
            final(self).wf(),
            old(self).same_but_writer(final(self)),
            final(self).writer_view() == spec_pop_for_stream(
                old(self).writer_view(),
                stream_id,
            ).writer,
            match r {
                Some((id, command, cont)) => {
                    &&& id == stream_id
                    &&& spec_pop_for_stream(old(self).writer_view(), stream_id).command == Some(
                        command@,
                    )
                    &&& cont == spec_pop_for_stream(old(self).writer_view(), stream_id).cont
                },
                None => spec_pop_for_stream(old(self).writer_view(), stream_id).command is None,
            },
    {
        let ghost before = self.streams@;
        let i: usize = match self.streams.find(stream_id) {
            Some(i) => i,
            None => {
                return None;
            },
        };
        let command = self.streams.streams[i].pop_outg(&mut self.out_window_size);
        let closed: bool = self.streams.streams[i].state.is_closed();
        proof {
            let after = self.streams@;
            let popped = before[i as int].pop_outg(old(self).out_window_size);
            lemma_pop_outg_wf(before[i as int], old(self).out_window_size);
            assert(after =~= before.update(i as int, popped.stream));
            assert forall|a: int, b: int| 0 <= a < b < after.len() implies (#[trigger] after[a]).stream_id
                < (#[trigger] after[b]).stream_id by {
                assert(before[a].stream_id < before[b].stream_id);
            }
            assert forall|k: int| 0 <= k < after.len() implies (#[trigger] after[k]).wf() by {
                assert(before[k].wf());
            }
            assert forall|k: int| 0 <= k < after.len() implies {
                let id = (#[trigger] after[k]).stream_id;
                if self.role.spec_is_init_locally(id) {
                    id <= self.last_local_stream_id
                } else {
                    id <= self.last_peer_stream_id
                }
            } by {
                assert(after[k].stream_id == before[k].stream_id);
            }
        }
        if closed {
            let ghost mid = self.streams@;
            let _gone = self.streams.remove_at(i);
            proof {
                let after = self.streams@;
                assert forall|k: int| 0 <= k < after.len() implies {
                    let id = (#[trigger] after[k]).stream_id;
                    if self.role.spec_is_init_locally(id) {
                        id <= self.last_local_stream_id
                    } else {
                        id <= self.last_peer_stream_id
                    }
                } by {
                    let kk = if k < i {
                        k
                    } else {
                        k + 1
                    };
                    assert(after[k] == mid[kk]);
                }
                assert(after =~= before.remove(i as int));
            }
        }
        match command {
            Some(command) => Some((stream_id, command, !closed)),
            None => None,
        }
    }

    /// One buffering pass. While fewer bytes than the watermark wait for the
    /// transport, commands are taken off the writable streams, by rising
    /// identifier, and written as frames; each stream is drained until it has
    /// nothing more to give, it is closed, or the watermark is reached. The
    /// result says whether anything was taken from a stream.
    #[verifier::rlimit(50)]
    pub fn buffer_outg_conn(&mut self) -> (r: Result<bool, Error>)
        requires
            old(self).wf(),
        ensures
            final(self).wf(),
            old(self).same_but_writer(final(self)),
            r == Ok::<bool, Error>(spec_buffer_outg(old(self).writer_view()).updated),
            final(self).writer_view() == spec_buffer_outg(old(self).writer_view()).writer,
    {
        let mut updated: bool = false;

        // Nothing to do while the watermark is reached.
        if !self.has_write_buffer_capacity() {
            return Ok(updated);
        }
        let writable_stream_ids = self.streams.writable_stream_ids();
        let ghost ids = writable_stream_ids@;
        let ghost goal = spec_buffer_outg(old(self).writer_view());
        proof {
            lemma_writable_ids(self.streams@);
            assert(ids.skip(0) =~= ids);
        }
        let mut k: usize = 0;
        while k < writable_stream_ids.len()
            invariant
                self.wf(),
                old(self).same_but_writer(self),
                ids == writable_stream_ids@,
                k <= ids.len(),
                forall|a: int, b: int| 0 <= a < b < ids.len() ==> (#[trigger] ids[a]) < (
                #[trigger] ids[b]),
                forall|j: int| k <= j < ids.len() ==> self.streams.contains(#[trigger] ids[j]),
                spec_buffer_streams(self.writer_view(), ids.skip(k as int), updated) == goal,
                goal == spec_buffer_outg(old(self).writer_view()),
            decreases ids.len() - k,
        {
            let stream_id: StreamId = writable_stream_ids[k];
            let ghost rest = ids.skip(k as int);
            let ghost tail = ids.skip(k + 1);
            proof {
                assert(rest[0] == stream_id);
                assert(rest.skip(1) =~= tail);
            }
            loop
                invariant_except_break
                    self.streams.contains(stream_id),
                    spec_buffer_streams(
                        spec_drain_stream(self.writer_view(), stream_id, updated).writer,
                        tail,
                        spec_drain_stream(self.writer_view(), stream_id, updated).updated,
                    ) == goal,
                invariant
                    self.wf(),
                    old(self).same_but_writer(self),
                    ids == writable_stream_ids@,
                    k < ids.len(),
                    stream_id == ids[k as int],
                    tail == ids.skip(k + 1),
                    forall|a: int, b: int| 0 <= a < b < ids.len() ==> (#[trigger] ids[a]) < (
                    #[trigger] ids[b]),
                    forall|j: int| k + 1 <= j < ids.len() ==> self.streams.contains(#[trigger] ids[j]),
                    goal == spec_buffer_outg(old(self).writer_view()),
                ensures
                    spec_buffer_streams(self.writer_view(), tail, updated) == goal,
                decreases spec_weight_of(self.streams@, stream_id),
            {
                let ghost w = self.writer_view();
                if !self.has_write_buffer_capacity() {
                    proof {
                        lemma_no_capacity_no_change(w, tail, updated);
                    }
                    return Ok(updated);
                }
                let ghost popped = spec_pop_for_stream(w, stream_id);
                let ghost drained = spec_drain_stream(w, stream_id, updated);
                proof {
                    lemma_index_of(w.streams, stream_id);
                    let i = spec_index_of(w.streams, stream_id)->Some_0;
                    let next = w.streams[i].pop_outg(w.out_window).stream;
                    assert forall|j: int| k + 1 <= j < ids.len() implies spec_index_of(
                        popped.writer.streams,
                        #[trigger] ids[j],
                    ) is Some by {
                        assert(ids[k as int] < ids[j]);
                        assert(self.streams.contains(ids[j]));
                        if popped.cont {
                            lemma_index_of_update(w.streams, i, next, ids[j]);
                        } else {
                            lemma_contains_after_remove(w.streams, i, ids[j]);
                        }
                    }
                    if popped.cont {
                        lemma_index_of_update(w.streams, i, next, stream_id);
                        assert(popped.writer.streams[i] == next);
                        if popped.command is Some {
                            lemma_pop_outg_decreases(w.streams[i], w.out_window);
                        }
                    }
                }
                match self.pop_outg_for_stream(stream_id) {
                    Some((stream_id, part, cont)) => {
                        let ghost command = part@;
                        self.write_part(stream_id, part);
                        updated = true;
                        proof {
                            let written = spec_write_part(popped.writer, stream_id, command);
                            assert(self.writer_view() == written);
                            assert(written.streams == popped.writer.streams);
                            if cont {
                                assert(drained == spec_drain_stream(written, stream_id, true));
                            } else {
                                assert(drained == (Buffered { writer: written, updated: true }));
                            }
                        }
                        // A stream that left the map has nothing more to give.
                        if !cont {
                            break ;
                        }
                    },
                    None => {
                        proof {
                            assert(drained == (Buffered { writer: popped.writer, updated }));
                        }
                        break ;
                    },
                }
            }
            k = k + 1;
        }
        Ok(updated)
    }

    /// Queues the frame that acknowledges the peer's settings. The caller
    /// wakes the writer.
    pub fn send_ack_settings(&mut self) -> (r: Result<(), Error>)
        requires
            old(self).wf(),
        ensures
            r is Ok,
            final(self).wf(),
            old(self).same_but_writer(final(self)),
            final(self).writer_view() == (WriterView {
                queued: if old(self).queued_write.spec_goaway_queued() {
                    old(self).queued_write.queued()
                } else {
                    old(self).queued_write.queued() + HttpFrameView::Settings(
                        Seq::empty(),
                        0x1,
                    ).serialize()
                },
                ..old(self).writer_view()
            }),
    {
        let settings = SettingsFrame::new_ack();
        self.send_frame_and_notify(HttpFrame::Settings(settings));
        Ok(())
    }

    fn process_stream_end(&mut self, stream_id: StreamId, error_code: ErrorCode) -> (r: Result<
        (),
        Error,
    >)
        requires
            old(self).wf(),
        ensures
            r is Ok,
            final(self).wf(),
            old(self).same_but_writer(final(self)),
            final(self).writer_view() == (WriterView {
                streams: match spec_index_of(old(self).streams@, stream_id) {
                    Some(i) => old(self).streams@.update(
                        i,
                        old(self).streams@[i].close_outgoing(error_code),
                    ),
                    None => old(self).streams@,
                },
                ..old(self).writer_view()
            }),
    {
        let ghost before = self.streams@;
        match self.streams.find(stream_id) {
            Some(i) => {
                self.streams.streams[i].close_outgoing(error_code);
                proof {
                    self.lemma_stream_updated(old(self), i as int);
                }
            },
            None => {},
        }
        Ok(())
    }

    fn process_stream_enqueue(&mut self, stream_id: StreamId, part: DataOrHeadersWithFlag) -> (r:
        Result<(), Error>)
        requires
            old(self).wf(),
        ensures
            r is Ok,
            final(self).wf(),
            old(self).enqueued(final(self), stream_id, part@),
    {
        match self.streams.find(stream_id) {
            Some(i) => {
                proof {
                    assert(old(self).streams@[i as int].wf());
                }
                self.streams.streams[i].push_back_part(part);
                proof {
                    self.lemma_stream_updated(old(self), i as int);
                }
            },
            None => {
                // The stream is gone: its producer gets the credit back.
                match part.content {
                    DataOrHeaders::Data(data) => {
                        let len: usize = data.len();
                        if self.pump_out_window_size > usize::MAX - len {
                            self.pump_out_window_size = usize::MAX;
                        } else {
                            self.pump_out_window_size = self.pump_out_window_size + len;
                        }
                    },
                    DataOrHeaders::Headers(_) => {},
                }
            },
        }
        Ok(())
    }

    /// Whether `after` is this connection after the peer was given
    /// `increase` more credit on a stream, with result `r`.
    pub open spec fn window_increased(
        &self,
        after: &Conn<H>,
        r: Result<(), Error>,
        stream_id: StreamId,
        increase: u32,
    ) -> bool {
        &&& self.same_but_writer(after)
        &&& match spec_index_of(self.streams@, stream_id) {
            None => r is Ok && after.writer_view() == self.writer_view(),
            Some(i) => if self.streams@[i].in_window_size.0 + increase > 0x7fff_ffff {
                &&& r == Err::<(), Error>(Error::Other("failed to increase window size"))
                &&& after.writer_view() == self.writer_view()
            } else {
                &&& r is Ok
                &&& after.writer_view() == (WriterView {
                    streams: self.streams@.update(
                        i,
                        StreamView {
                            in_window_size: WindowSize(
                                (self.streams@[i].in_window_size.0 + increase) as i32,
                            ),
                            ..self.streams@[i]
                        },
                    ),
                    queued: if self.queued_write.spec_goaway_queued() {
                        self.queued_write.queued()
                    } else {
                        self.queued_write.queued() + (WindowUpdateFrame {
                            stream_id,
                            increment: increase,
                            flags: Flags(0),
                        }).spec_serialize()
                    },
                    ..self.writer_view()
                })
            },
        }
    }

    /// Gives the peer more credit on a stream: the stream's in-window grows
    /// and a WINDOW_UPDATE frame for the stream is queued. Nothing happens
    /// for a stream that is gone. Fails, and changes nothing, where the
    /// window would grow over the largest that the protocol allows.
    pub fn increase_in_window(&mut self, stream_id: StreamId, increase: u32) -> (r: Result<
        (),
        Error,
    >)
        requires
            old(self).wf(),
        ensures
            final(self).wf(),
            old(self).window_increased(final(self), r, stream_id, increase),
    {
        match self.streams.find(stream_id) {
            None => {
                return Ok(());
            },
            Some(i) => {
                proof {
                    assert(old(self).streams@[i as int].wf());
                }
                match self.streams.streams[i].in_window_size.try_increase(increase) {
                    Err(_) => {
                        proof {
                            assert(self.streams@ =~= old(self).streams@);
                            self.lemma_stream_updated(old(self), i as int);
                        }
                        return Err(Error::Other("failed to increase window size"));
                    },
                    Ok(_) => {},
                }
                proof {
                    self.lemma_stream_updated(old(self), i as int);
                }
            },
        }
        let window_update = WindowUpdateFrame::for_stream(stream_id, increase);
        self.send_frame_and_notify(HttpFrame::WindowUpdate(window_update));
        Ok(())
    }

    /// Whether `r` shows this connection as it is.
    pub open spec fn snapshot_is(&self, r: ConnStateSnapshot) -> bool {
        &&& r.in_window_size == self.in_window_size.0
        &&& r.out_window_size == self.out_window_size.0
        &&& r.pump_out_window_size == self.pump_out_window_size
        &&& r.queued_bytes_len == self.queued_write.queued().len()
        &&& r.streams@.len() == self.streams@.len()
        &&& forall|i: int|
            0 <= i < self.streams@.len() ==> (#[trigger] r.streams@[i])
                == (HttpStreamStateSnapshot {
                stream_id: self.streams@[i].stream_id,
                state: self.streams@[i].state,
                in_window_size: self.streams@[i].in_window_size.0,
                out_window_size: self.streams@[i].out_window_size.0,
                queued_out_parts: self.streams@[i].outgoing.len() as usize,
                in_message_stage: self.streams@[i].in_message_stage,
            })
    }

    /// A snapshot of the connection's state, for diagnosis.
    pub fn dump_state(&self) -> (r: ConnStateSnapshot)
        requires
            self.wf(),
        ensures
            self.snapshot_is(r),
    {
        let mut streams: Vec<HttpStreamStateSnapshot> = Vec::new();
        let mut i: usize = 0;
        while i < self.streams.streams.len()
            invariant
                i <= self.streams@.len(),
                streams@.len() == i,
                forall|k: int|
                    0 <= k < i ==> (#[trigger] streams@[k]) == (HttpStreamStateSnapshot {
                        stream_id: self.streams@[k].stream_id,
                        state: self.streams@[k].state,
                        in_window_size: self.streams@[k].in_window_size.0,
                        out_window_size: self.streams@[k].out_window_size.0,
                        queued_out_parts: self.streams@[k].outgoing.len() as usize,
                        in_message_stage: self.streams@[k].in_message_stage,
                    }),
            decreases self.streams@.len() - i,
        {
            let stream = &self.streams.streams[i];
            streams.push(
                HttpStreamStateSnapshot {
                    stream_id: stream.stream_id,
                    state: stream.state,
                    in_window_size: stream.in_window_size.size(),
                    out_window_size: stream.out_window_size.size(),
                    queued_out_parts: stream.outgoing.len(),
                    in_message_stage: stream.in_message_stage,
                },
            );
            i = i + 1;
        }
        ConnStateSnapshot {
            in_window_size: self.in_window_size.size(),
            out_window_size: self.out_window_size.size(),
            pump_out_window_size: self.pump_out_window_size,
            queued_bytes_len: self.queued_write.queued_bytes_len(),
            streams,
        }
    }

    /// Whether `after` is this connection after a message that clients and
    /// servers share was processed with result `r`.
    pub open spec fn common_done(
        &self,
        after: &Conn<H>,
        r: Result<WriteAction, Error>,
        common: CommonToWriteMessage,
    ) -> bool {
        match common {
            CommonToWriteMessage::StreamEnd(stream_id, error_code) => {
                &&& r == Ok::<WriteAction, Error>(WriteAction::Nothing)
                &&& self.same_but_writer(after)
                &&& after.writer_view() == (WriterView {
                    streams: match spec_index_of(self.streams@, stream_id) {
                        Some(i) => self.streams@.update(
                            i,
                            self.streams@[i].close_outgoing(error_code),
                        ),
                        None => self.streams@,
                    },
                    ..self.writer_view()
                })
            },
            CommonToWriteMessage::StreamEnqueue(stream_id, part) => {
                &&& r == Ok::<WriteAction, Error>(WriteAction::Nothing)
                &&& self.enqueued(after, stream_id, part@)
            },
            CommonToWriteMessage::Pull(stream_id) => {
                &&& r == Ok::<WriteAction, Error>(WriteAction::SpawnPump(stream_id))
                &&& *after == *self
            },
            CommonToWriteMessage::IncreaseInWindow(stream_id, increase) => {
                &&& r matches Ok(action) ==> action == WriteAction::Nothing
                &&& self.window_increased(
                    after,
                    match r {
                        Ok(_) => Ok(()),
                        Err(e) => Err(e),
                    },
                    stream_id,
                    increase,
                )
            },
            CommonToWriteMessage::DumpState => {
                &&& r matches Ok(WriteAction::ReplyState(snapshot)) && self.snapshot_is(snapshot)
                &&& *after == *self
            },
        }
    }

    /// Processes a message for the writer that clients and servers share,
    /// and says what is left for the caller to do: start a pump, or send a
    /// reply. The end of a stream's output and a part for a stream are put on
    /// the stream; more credit for the peer is given as `increase_in_window`
    /// says.
    pub fn process_common_message(&mut self, common: CommonToWriteMessage) -> (r: Result<
        WriteAction,
        Error,
    >)
        requires
            old(self).wf(),
        ensures
            final(self).wf(),
            old(self).common_done(final(self), r, common),
    {
        match common {
            CommonToWriteMessage::StreamEnd(stream_id, error_code) => {
                match self.process_stream_end(stream_id, error_code) {
                    Ok(_) => Ok(WriteAction::Nothing),
                    Err(e) => Err(e),
                }
            },
            CommonToWriteMessage::StreamEnqueue(stream_id, part) => {
                match self.process_stream_enqueue(stream_id, part) {
                    Ok(_) => Ok(WriteAction::Nothing),
                    Err(e) => Err(e),
                }
            },
            CommonToWriteMessage::Pull(stream_id) => Ok(WriteAction::SpawnPump(stream_id)),
            CommonToWriteMessage::IncreaseInWindow(stream_id, increase) => {
                let inner = self.increase_in_window(stream_id, increase);
                proof {
                    assert(old(self).window_increased(self, inner, stream_id, increase));
                }
                match inner {
                    Ok(_) => Ok(WriteAction::Nothing),
                    Err(e) => Err(e),
                }
            },
            CommonToWriteMessage::DumpState => Ok(WriteAction::ReplyState(self.dump_state())),
        }
    }

    /// Queues a GOAWAY frame that names the last stream of the peer that
    /// this side has seen, and closes the write queue behind it. The caller
    /// wakes the writer.
    pub fn send_goaway(&mut self, error_code: ErrorCode) -> (r: Result<(), Error>)
        requires
            old(self).wf(),
        ensures
            r is Ok,
            final(self).wf(),
            old(self).same_but_writer(final(self)),
            final(self).writer_view() == (WriterView {
                goaway: true,
                queued: if old(self).queued_write.spec_goaway_queued() {
                    old(self).queued_write.queued()
                } else {
                    old(self).queued_write.queued() + (GoawayFrameView {
                        last_stream_id: old(self).last_peer_stream_id,
                        raw_error_code: error_code.code(),
                        debug_data: Seq::empty(),
                        flags: 0,
                    }).serialize()
                },
                ..old(self).writer_view()
            }),
    {
        let frame = GoawayFrame::new(self.last_peer_stream_id, error_code);
        self.queued_write.queue_goaway(frame);
        Ok(())
    }

    /// What the connection's loop is to do about a queued GOAWAY frame,
    /// after the transport took what it could: go on as usual while none is
    /// queued; leave once the frame is written out; wait for the transport
    /// until then.
    pub fn process_goaway_state(&self) -> (r: Result<IterationExit, Error>)
        requires
            self.wf(),
        ensures
            r == Ok::<IterationExit, Error>(
                if !self.queued_write.spec_goaway_queued() {
                    IterationExit::Continue
                } else if self.queued_write.queued().len() == 0 {
                    IterationExit::ExitEarly
                } else {
                    IterationExit::NotReady
                },
            ),
    {
        Ok(
            if self.queued_write.goaway_queued() {
                if self.queued_write.queued_empty() {
                    IterationExit::ExitEarly
                } else {
                    IterationExit::NotReady
                }
            } else {
                IterationExit::Continue
            },
        )
    }
}

} // verus!
