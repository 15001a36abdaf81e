//! The state of one connection, shared by its reader and its writer.

use crate::codec::queued_write::QueuedWrite;
use crate::common::stream::{HttpStreamCommon, InMessageStage, StreamState, StreamView};
use crate::common::stream_map::{lemma_index_of, spec_index_of, spec_insert_pos, StreamMap};
use crate::common::window_size::WindowSize;
use crate::error::Error;
use crate::hpack::encoder::Encoder;
use crate::solicit::error_code::ErrorCode;
use crate::solicit::frame::http_frame::{HttpFrame, HttpFrameView};
use crate::solicit::frame::rst_stream::{RstStreamFrame, RstStreamView};
use crate::solicit::frame::settings::{spec_default_settings, HttpSettings};
use crate::solicit::frame::MAX_PAYLOAD_LEN;
use crate::solicit::stream_id::{is_client_initiated, is_server_initiated, StreamId};
use vstd::prelude::*;

verus! {

/// Which end of the connection this is.
#[derive(Clone, Copy, Debug, PartialEq, Eq, Structural)]
pub enum ConnRole {
    /// The end that opens streams with odd identifiers.
    Client,
    /// The end that opens streams, by push, with even identifiers.
    Server,
}

impl ConnRole {
    /// Whether this end opens the stream with the given identifier.
    pub open spec fn spec_is_init_locally(self, id: StreamId) -> bool {
        match self {
            ConnRole::Client => id % 2 == 1,
            ConnRole::Server => id % 2 == 0,
        }
    }

    /// The first identifier that this end gives to a stream.
    pub open spec fn spec_first_id(self) -> StreamId {
        match self {
            ConnRole::Client => 1,
            ConnRole::Server => 2,
        }
    }

    /// Whether this end opens the stream with the given identifier.
    pub fn is_init_locally(self, id: StreamId) -> (r: bool)
        ensures
            r == self.spec_is_init_locally(id),
    {
        match self {
            ConnRole::Client => id % 2 == 1,
            ConnRole::Server => id % 2 == 0,
        }
    }
}

/// The identifier that follows `last` among those that the role gives out:
/// the role's first where `last` is 0, two more otherwise.
pub open spec fn spec_next_stream_id(role: ConnRole, last: StreamId) -> int {
    if last == 0 {
        role.spec_first_id() as int
    } else {
        last + 2
    }
}

/// The identifiers that one side gives out go up strictly and keep the
/// side's parity: odd for a client, even and not 0 for a server.
pub proof fn lemma_stream_ids_increase(role: ConnRole, last: StreamId)
    requires
        last == 0 || role.spec_is_init_locally(last),
    ensures
        spec_next_stream_id(role, last) > last,
        role == ConnRole::Client ==> is_client_initiated(spec_next_stream_id(role, last)),
        role == ConnRole::Server ==> is_server_initiated(spec_next_stream_id(role, last)),
        spec_next_stream_id(role, spec_next_stream_id(role, last) as StreamId)
            == spec_next_stream_id(role, last) + 2 || spec_next_stream_id(role, last) > u32::MAX,
{
}

/// The state of one connection. `H` is the type of the handlers that the
/// streams deliver inbound events to.
pub struct Conn<H> {
    /// Which end of the connection this is.
    pub role: ConnRole,
    /// The settings that the peer announced.
    pub peer_settings: HttpSettings,
    /// The settings of this side that the peer has acknowledged.
    pub our_settings_ack: HttpSettings,
    /// The settings of this side that were sent and wait for the peer's
    /// acknowledgement.
    pub our_settings_sent: Option<HttpSettings>,
    /// The streams that are not closed.
    pub streams: StreamMap<H>,
    /// The last identifier that this side gave to a stream; 0 before the
    /// first.
    pub last_local_stream_id: StreamId,
    /// The highest identifier of a stream that the peer opened; 0 before the
    /// first.
    pub last_peer_stream_id: StreamId,
    /// How many bytes the peer may still send on the connection.
    pub in_window_size: WindowSize,
    /// How many bytes this side may still send on the connection.
    pub out_window_size: WindowSize,
    /// Credit handed back to the producers of bodies whose stream was gone
    /// when their data arrived.
    pub pump_out_window_size: usize,
    /// The bytes that wait for the transport.
    pub queued_write: QueuedWrite,
    /// The encoder of header blocks that this side sends.
    pub encoder: Encoder,
    /// The last stream that the peer said it will act on, and the code that
    /// it gave as its reason, once it said so.
    pub goaway_received: Option<(StreamId, u32)>,
}

/// Whether every identifier is one that the connection has given out or
/// seen: a stream of this side is not above the last that this side opened,
/// a stream of the peer not above the last that the peer opened.
pub open spec fn spec_ids_known(
    streams: Seq<StreamView>,
    role: ConnRole,
    last_local: StreamId,
    last_peer: StreamId,
) -> bool {
    forall|i: int|
        0 <= i < streams.len() ==> {
            let id = (#[trigger] streams[i]).stream_id;
            if role.spec_is_init_locally(id) {
                id <= last_local
            } else {
                id <= last_peer
            }
        }
}

impl<H> Conn<H> {
    /// What holds of a connection between any two operations on it.
    pub open spec fn wf(&self) -> bool {
        &&& self.streams.wf()
        &&& self.queued_write.wf()
        &&& self.encoder.wf()
        &&& 1 <= self.peer_settings.max_frame_size <= MAX_PAYLOAD_LEN
        &&& self.peer_settings.initial_window_size <= 0x7fff_ffff
        &&& self.our_settings_ack.initial_window_size <= 0x7fff_ffff
        &&& self.in_window_size.0 >= 0
        &&& (self.last_local_stream_id == 0 || self.role.spec_is_init_locally(
            self.last_local_stream_id,
        ))
        &&& self.last_local_stream_id <= 0x7fff_ffff
        &&& spec_ids_known(
            self.streams@,
            self.role,
            self.last_local_stream_id,
            self.last_peer_stream_id,
        )
    }

    /// A connection at its start: default settings on both sides, no
    /// streams, nothing queued.
    pub fn new(role: ConnRole) -> (r: Conn<H>)
        ensures
            r.wf(),
            r.role == role,
            r.peer_settings == spec_default_settings(),
            r.our_settings_ack == spec_default_settings(),
            r.our_settings_sent is None,
            r.streams@ == Seq::<StreamView>::empty(),
            r.last_local_stream_id == 0,
            r.last_peer_stream_id == 0,
            r.in_window_size == WindowSize(65535),
            r.out_window_size == WindowSize(65535),
            r.pump_out_window_size == 0,
            r.queued_write.queued() == Seq::<u8>::empty(),
            !r.queued_write.spec_goaway_queued(),
            r.goaway_received is None,
    {
        Conn {
            role,
            peer_settings: HttpSettings::default_settings(),
            our_settings_ack: HttpSettings::default_settings(),
            our_settings_sent: None,
            streams: StreamMap::new(),
            last_local_stream_id: 0,
            last_peer_stream_id: 0,
            in_window_size: WindowSize(65535),
            out_window_size: WindowSize(65535),
            pump_out_window_size: 0,
            queued_write: QueuedWrite::new(),
            encoder: Encoder::new(),
            goaway_received: None,
        }
    }

    /// The identifier that the next stream of this side gets: the first of
    /// this side's parity, then two more each time.
    pub open spec fn spec_next_local_stream_id(&self) -> int {
        spec_next_stream_id(self.role, self.last_local_stream_id)
    }

    /// Gives out the identifier for the next stream that this side opens.
    /// Fails, and changes nothing, once the identifiers are used up.
    pub fn next_local_stream_id(&mut self) -> (r: Result<StreamId, Error>)
        requires
            old(self).wf(),
        ensures
            final(self).wf(),
            match r {
                Ok(id) => {
                    &&& id == old(self).spec_next_local_stream_id()
                    &&& id > old(self).last_local_stream_id
                    &&& id != 0
                    &&& old(self).role.spec_is_init_locally(id)
                    &&& !old(self).streams.contains(id)
                    &&& *final(self) == (Conn { last_local_stream_id: id, ..*old(self) })
                },
                Err(e) => {
                    &&& old(self).spec_next_local_stream_id() > 0x7fff_ffff
                    &&& e == Error::Other("stream identifiers are used up")
                    &&& *final(self) == *old(self)
                },
            },
    {
        let id: StreamId = if self.last_local_stream_id == 0 {
            match self.role {
                ConnRole::Client => 1,
                ConnRole::Server => 2,
            }
        } else {
            if self.last_local_stream_id > 0x7fff_ffff - 2 {
                return Err(Error::Other("stream identifiers are used up"));
            }
            self.last_local_stream_id + 2
        };
        proof {
            lemma_index_of(self.streams@, id);
        }
        self.last_local_stream_id = id;
        Ok(id)
    }

    /// Puts a new stream in state `Open` into the map, with the windows that
    /// the settings give to new streams.
    pub fn new_stream_data(
        &mut self,
        stream_id: StreamId,
        in_rem_content_length: Option<u64>,
        in_message_stage: InMessageStage,
        peer_tx: Option<H>,
    )
        requires
            old(self).wf(),
            !old(self).streams.contains(stream_id),
            if old(self).role.spec_is_init_locally(stream_id) {
                stream_id <= old(self).last_local_stream_id
            } else {
                stream_id <= old(self).last_peer_stream_id
            },
        ensures
            final(self).wf(),
            final(self).streams@ == old(self).streams@.insert(
                spec_insert_pos(old(self).streams@, stream_id),
                StreamView {
                    stream_id,
                    state: StreamState::Open,
                    in_window_size: WindowSize(old(self).our_settings_ack.initial_window_size as i32),
                    out_window_size: WindowSize(old(self).peer_settings.initial_window_size as i32),
                    in_rem_content_length,
                    in_message_stage,
                    outgoing: Seq::empty(),
                    outgoing_end: None,
                    has_peer_tx: peer_tx is Some,
                },
            ),
            final(self).streams.contains(stream_id),
            0 <= spec_insert_pos(old(self).streams@, stream_id) <= old(self).streams@.len(),
            spec_index_of(final(self).streams@, stream_id) == Some(
                spec_insert_pos(old(self).streams@, stream_id),
            ),
            *final(self) == (Conn { streams: final(self).streams, ..*old(self) }),
    {
        let stream = HttpStreamCommon::new(
            stream_id,
            self.our_settings_ack.initial_window_size,
            self.peer_settings.initial_window_size,
            in_rem_content_length,
            in_message_stage,
            peer_tx,
        );
        let ghost view = stream@;
        let ghost before = self.streams@;
        self.streams.insert(stream);
        proof {
            let p = spec_insert_pos(before, stream_id);
            let after = self.streams@;
            assert forall|i: int| 0 <= i < after.len() implies {
                let id = (#[trigger] after[i]).stream_id;
                if self.role.spec_is_init_locally(id) {
                    id <= self.last_local_stream_id
                } else {
                    id <= self.last_peer_stream_id
                }
            } by {
                if i < p {
                    assert(after[i] == before[i]);
                } else if i > p {
                    assert(after[i] == before[i - 1]);
                }
            }
            assert(after[p] == view);
            crate::common::stream_map::lemma_index_of_sorted(after, p);
        }
    }

    /// Takes the stream at the given position out of the map.
    pub fn remove_stream_at(&mut self, i: usize) -> (r: HttpStreamCommon<H>)
        requires
            old(self).wf(),
            i < old(self).streams@.len(),
        ensures
            final(self).wf(),
            final(self).streams@ == old(self).streams@.remove(i as int),
            !final(self).streams.contains(old(self).streams@[i as int].stream_id),
            r == old(self).streams.streams@[i as int],
            r@ == old(self).streams@[i as int],
            *final(self) == (Conn { streams: final(self).streams, ..*old(self) }),
    {
        let ghost before = self.streams@;
        let r = self.streams.remove_at(i);
        proof {
            let after = self.streams@;
            let id = before[i as int].stream_id;
            lemma_index_of(after, id);
            assert forall|k: int| 0 <= k < after.len() implies {
                let kid = (#[trigger] after[k]).stream_id;
                kid != id && (if self.role.spec_is_init_locally(kid) {
                    kid <= self.last_local_stream_id
                } else {
                    kid <= self.last_peer_stream_id
                })
            } by {
                if k < i {
                    assert(after[k] == before[k]);
                    assert(before[k].stream_id < before[i as int].stream_id);
                } else {
                    assert(after[k] == before[k + 1]);
                    assert(before[i as int].stream_id < before[k + 1].stream_id);
                }
            }
        }
        r
    }

    /// Replacing one stream by a well-formed one with the same identifier
    /// keeps the connection well formed.
    pub proof fn lemma_stream_updated(&self, before: &Conn<H>, i: int)
        requires
            before.wf(),
            0 <= i < before.streams@.len(),
            self.streams@.len() == before.streams@.len(),
            forall|k: int|
                0 <= k < before.streams@.len() && k != i ==> self.streams@[k]
                    == before.streams@[k],
            self.streams@[i].stream_id == before.streams@[i].stream_id,
            self.streams@[i].wf(),
            self.queued_write.wf(),
            self.encoder.wf(),
            self.in_window_size.0 >= 0,
            self.role == before.role,
            self.peer_settings == before.peer_settings,
            self.our_settings_ack == before.our_settings_ack,
            self.last_local_stream_id == before.last_local_stream_id,
            self.last_peer_stream_id == before.last_peer_stream_id,
        ensures
            self.wf(),
            self.streams@ == before.streams@.update(i, self.streams@[i]),
    {
        let after = self.streams@;
        let old_views = before.streams@;
        assert(after =~= old_views.update(i, after[i]));
        assert forall|a: int, b: int| 0 <= a < b < after.len() implies (#[trigger] after[a]).stream_id
            < (#[trigger] after[b]).stream_id by {
            assert(old_views[a].stream_id < old_views[b].stream_id);
        }
        assert forall|k: int| 0 <= k < after.len() implies (#[trigger] after[k]).wf() by {
            if k != i {
                assert(old_views[k].wf());
            }
        }
        assert forall|k: int| 0 <= k < after.len() implies {
            let id = (#[trigger] after[k]).stream_id;
            if self.role.spec_is_init_locally(id) {
                id <= self.last_local_stream_id
            } else {
                id <= self.last_peer_stream_id
            }
        } by {
            assert(after[k].stream_id == old_views[k].stream_id);
        }
    }

    /// Queues a frame for the transport. The caller wakes the writer.
    pub fn send_frame_and_notify(&mut self, frame: HttpFrame)
        requires
            old(self).wf(),
            frame@.can_serialize(),
        ensures
            final(self).wf(),
            final(self).queued_write.spec_goaway_queued() == old(
                self,
            ).queued_write.spec_goaway_queued(),
            final(self).queued_write.queued() == (if old(self).queued_write.spec_goaway_queued() {
                old(self).queued_write.queued()
            } else {
                old(self).queued_write.queued() + frame@.serialize()
            }),
            *final(self) == (Conn { queued_write: final(self).queued_write, ..*old(self) }),
    {
        self.queued_write.queue_not_goaway(frame);
    }

    /// Resets a stream: takes it out of the map, whatever state it is in,
    /// and queues a RST_STREAM frame with the given code.
    pub fn send_rst_stream(&mut self, stream_id: StreamId, error_code: ErrorCode) -> (r: Result<
        (),
        Error,
    >)
        requires
            old(self).wf(),
        ensures
            r is Ok,
            final(self).wf(),
            final(self).streams@ == (match spec_index_of(old(self).streams@, stream_id) {
                Some(i) => old(self).streams@.remove(i),
                None => old(self).streams@,
            }),
            !final(self).streams.contains(stream_id),
            final(self).queued_write.spec_goaway_queued() == old(
                self,
            ).queued_write.spec_goaway_queued(),
            final(self).queued_write.queued() == (if old(self).queued_write.spec_goaway_queued() {
                old(self).queued_write.queued()
            } else {
                old(self).queued_write.queued() + HttpFrameView::RstStream(
                    RstStreamView { raw_error_code: error_code.code(), stream_id, flags: 0 },
                ).serialize()
            }),
            *final(self) == (Conn {
                streams: final(self).streams,
                queued_write: final(self).queued_write,
                ..*old(self)
            }),
    {
        let ghost before = self.streams@;
        proof {
            lemma_index_of(before, stream_id);
        }
        let _removed = self.streams.remove(stream_id);
        proof {
            let after = self.streams@;
            lemma_index_of(after, stream_id);
            match spec_index_of(before, stream_id) {
                Some(p) => {
                    assert forall|i: int| 0 <= i < after.len() implies {
                        let id = (#[trigger] after[i]).stream_id;
                        id != stream_id && (if self.role.spec_is_init_locally(id) {
                            id <= self.last_local_stream_id
                        } else {
                            id <= self.last_peer_stream_id
                        })
                    } by {
                        if i < p {
                            assert(after[i] == before[i]);
                            assert(before[i].stream_id < before[p].stream_id);
                        } else {
                            assert(after[i] == before[i + 1]);
                            assert(before[p].stream_id < before[i + 1].stream_id);
                        }
                    }
                },
                None => {},
            }
        }
        let rst_stream = RstStreamFrame::new(stream_id, error_code);
        self.send_frame_and_notify(HttpFrame::RstStream(rst_stream));
        Ok(())
    }

    /// Whether the stream with this identifier was open once and is closed
    /// now: it is not in the map, and its identifier is not above the last
    /// that its side opened.
    pub open spec fn spec_is_closed_stream(&self, stream_id: StreamId) -> bool {
        &&& !self.streams.contains(stream_id)
        &&& stream_id != 0
        &&& if self.role.spec_is_init_locally(stream_id) {
            stream_id <= self.last_local_stream_id
        } else {
            stream_id <= self.last_peer_stream_id
        }
    }

    /// Looks up the stream that inbound headers belong to. Headers for a
    /// stream that was closed before are to be ignored: the result is
    /// `None`. Headers for a stream that was never opened break the protocol.
    pub fn get_stream_for_headers_maybe_send_error(&self, stream_id: StreamId) -> (r: Result<
        Option<usize>,
        Error,
    >)
        requires
            self.wf(),
        ensures
            match r {
                Ok(Some(i)) => spec_index_of(self.streams@, stream_id) == Some(i as int) && i
                    < self.streams@.len() && self.streams@[i as int].stream_id == stream_id,
                Ok(None) => self.spec_is_closed_stream(stream_id),
                Err(e) => !self.streams.contains(stream_id) && !self.spec_is_closed_stream(
                    stream_id,
                ) && e == Error::CodeError(ErrorCode::ProtocolError),
            },
    {
        match self.streams.find(stream_id) {
            Some(i) => Ok(Some(i)),
            None => {
                let known: bool = if self.role.is_init_locally(stream_id) {
                    stream_id <= self.last_local_stream_id
                } else {
                    stream_id <= self.last_peer_stream_id
                };
                if stream_id != 0 && known {
                    Ok(None)
                } else {
                    Err(Error::CodeError(ErrorCode::ProtocolError))
                }
            },
        }
    }
}

} // verus!
