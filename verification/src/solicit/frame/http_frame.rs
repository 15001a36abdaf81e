//! Any frame: the typed frames under one roof, and a byte stream read as a
//! sequence of frames.

use crate::bytes_model::{bytes_from_vec, bytes_seq, bytes_slice};
use crate::codec::write_buffer::WriteBuffer;
use crate::solicit::frame::continuation::{
    lemma_continuation_serialize_parsed, spec_parse_continuation, ContinuationFrame,
    ContinuationFrameView, CONTINUATION_FRAME_TYPE,
};
use crate::solicit::frame::data::{
    lemma_data_serialize_parsed, spec_padding_is_zero, spec_parse_data, DataFrame, DataFrameView,
    DATA_FRAME_TYPE,
};
use crate::solicit::frame::flags::bits_set;
use crate::solicit::frame::goaway::{
    lemma_goaway_serialize_parsed, spec_parse_goaway, GoawayFrame, GoawayFrameView,
    GOAWAY_FRAME_TYPE,
};
use crate::solicit::frame::headers::{
    lemma_headers_serialize_parsed, spec_parse_headers, HeadersFrame, HeadersFrameView,
    HEADERS_FRAME_TYPE,
};
use crate::solicit::frame::ping::{spec_parse_ping, PingFrame, PING_FRAME_TYPE};
use crate::solicit::frame::priority::{
    lemma_priority_serialize_parsed, spec_parse_priority, PriorityFrame, PRIORITY_FRAME_TYPE,
};
use crate::solicit::frame::push_promise::{
    lemma_push_promise_serialize_parsed, spec_parse_push_promise, PushPromiseFrame,
    PushPromiseFrameView, PUSH_PROMISE_FRAME_TYPE,
};
use crate::solicit::frame::rst_stream::{
    lemma_rst_stream_serialize_parsed, spec_parse_rst_stream, spec_serialize_rst_stream,
    RstStreamFrame, RstStreamView, RST_STREAM_FRAME_TYPE,
};
use crate::solicit::frame::settings::{
    lemma_settings_serialize_parsed, spec_parse_settings_frame, spec_settings_canonical,
    HttpSetting, SettingsFrame, MAX_SETTINGS_PER_FRAME, SETTINGS_FRAME_TYPE,
};
use crate::solicit::frame::window_update::{
    lemma_window_update_serialize_parsed, spec_parse_window_update, WindowUpdateFrame,
    WINDOW_UPDATE_FRAME_TYPE,
};
use crate::solicit::frame::{
    lemma_pack_unpack_header, spec_pack_header, spec_parse_padded_payload, spec_raw_frame,
    spec_unpack_header, FrameHeader, ParseFrameError, RawFrame,
};
use crate::solicit::stream_id::StreamId;
use vstd::prelude::*;

verus! {

/// A frame of any type. A raw frame whose type has no typed form here is
/// kept as it is.
#[derive(Debug)]
pub enum HttpFrame {
    Data(DataFrame),
    Headers(HeadersFrame),
    Priority(PriorityFrame),
    RstStream(RstStreamFrame),
    Settings(SettingsFrame),
    PushPromise(PushPromiseFrame),
    Ping(PingFrame),
    Goaway(GoawayFrame),
    WindowUpdate(WindowUpdateFrame),
    Continuation(ContinuationFrame),
    Unknown(RawFrame),
}

/// What a frame of any type holds.
pub ghost enum HttpFrameView {
    Data(DataFrameView),
    Headers(HeadersFrameView),
    Priority(PriorityFrame),
    RstStream(RstStreamView),
    Settings(Seq<HttpSetting>, u8),
    PushPromise(PushPromiseFrameView),
    Ping(Seq<u8>, u8),
    Goaway(GoawayFrameView),
    WindowUpdate(WindowUpdateFrame),
    Continuation(ContinuationFrameView),
    Unknown(Seq<u8>),
}

impl View for HttpFrame {
    type V = HttpFrameView;

    open spec fn view(&self) -> HttpFrameView {
        match self {
            HttpFrame::Data(f) => HttpFrameView::Data(f@),
            HttpFrame::Headers(f) => HttpFrameView::Headers(f@),
            HttpFrame::Priority(f) => HttpFrameView::Priority(*f),
            HttpFrame::RstStream(f) => HttpFrameView::RstStream(f@),
            HttpFrame::Settings(f) => HttpFrameView::Settings(f.settings@, f.flags.0),
            HttpFrame::PushPromise(f) => HttpFrameView::PushPromise(f@),
            HttpFrame::Ping(f) => HttpFrameView::Ping(f.opaque_data@, f.flags.0),
            HttpFrame::Goaway(f) => HttpFrameView::Goaway(f@),
            HttpFrame::WindowUpdate(f) => HttpFrameView::WindowUpdate(*f),
            HttpFrame::Continuation(f) => HttpFrameView::Continuation(f@),
            HttpFrame::Unknown(f) => HttpFrameView::Unknown(f@),
        }
    }
}

/// The frame that the bytes of a raw frame spell: its type byte says which
/// typed form to read it as.
pub open spec fn spec_parse_http_frame(raw: Seq<u8>) -> Result<HttpFrameView, ParseFrameError> {
    let t = spec_unpack_header(raw).frame_type;
    if raw.len() < 9 {
        Err(ParseFrameError::InternalError)
    } else if t == DATA_FRAME_TYPE {
        match spec_parse_data(raw) {
            Ok(f) => Ok(HttpFrameView::Data(f)),
            Err(e) => Err(e),
        }
    } else if t == HEADERS_FRAME_TYPE {
        match spec_parse_headers(raw) {
            Ok(f) => Ok(HttpFrameView::Headers(f)),
            Err(e) => Err(e),
        }
    } else if t == PRIORITY_FRAME_TYPE {
        match spec_parse_priority(raw) {
            Ok(f) => Ok(HttpFrameView::Priority(f)),
            Err(e) => Err(e),
        }
    } else if t == RST_STREAM_FRAME_TYPE {
        match spec_parse_rst_stream(raw) {
            Ok(f) => Ok(HttpFrameView::RstStream(f)),
            Err(e) => Err(e),
        }
    } else if t == SETTINGS_FRAME_TYPE {
        match spec_parse_settings_frame(raw) {
            Ok((settings, flags)) => Ok(HttpFrameView::Settings(settings, flags)),
            Err(e) => Err(e),
        }
    } else if t == PUSH_PROMISE_FRAME_TYPE {
        match spec_parse_push_promise(raw) {
            Ok(f) => Ok(HttpFrameView::PushPromise(f)),
            Err(e) => Err(e),
        }
    } else if t == PING_FRAME_TYPE {
        match spec_parse_ping(raw) {
            Ok((data, flags)) => Ok(HttpFrameView::Ping(data, flags)),
            Err(e) => Err(e),
        }
    } else if t == GOAWAY_FRAME_TYPE {
        match spec_parse_goaway(raw) {
            Ok(f) => Ok(HttpFrameView::Goaway(f)),
            Err(e) => Err(e),
        }
    } else if t == WINDOW_UPDATE_FRAME_TYPE {
        match spec_parse_window_update(raw) {
            Ok(f) => Ok(HttpFrameView::WindowUpdate(f)),
            Err(e) => Err(e),
        }
    } else if t == CONTINUATION_FRAME_TYPE {
        match spec_parse_continuation(raw) {
            Ok(f) => Ok(HttpFrameView::Continuation(f)),
            Err(e) => Err(e),
        }
    } else {
        Ok(HttpFrameView::Unknown(raw))
    }
}

impl HttpFrameView {
    /// Whether the frame can be written: its fields fit the wire.
    pub open spec fn can_serialize(self) -> bool {
        match self {
            HttpFrameView::Data(f) => f.fits_wire(),
            HttpFrameView::Headers(f) => f.can_serialize(),
            HttpFrameView::Priority(_) => true,
            HttpFrameView::PushPromise(f) => f.fits_wire(),
            HttpFrameView::RstStream(_) => true,
            HttpFrameView::Settings(settings, _) => settings.len() <= MAX_SETTINGS_PER_FRAME,
            HttpFrameView::Ping(data, _) => data.len() == 8,
            HttpFrameView::Goaway(f) => f.fits_wire(),
            HttpFrameView::WindowUpdate(_) => true,
            HttpFrameView::Continuation(f) => f.header_fragment.len() <= 0xff_ffff,
            HttpFrameView::Unknown(_) => true,
        }
    }

    /// The bytes of the frame on the wire.
    pub open spec fn serialize(self) -> Seq<u8> {
        match self {
            HttpFrameView::Data(f) => f.serialize(),
            HttpFrameView::Headers(f) => f.serialize(),
            HttpFrameView::Priority(f) => f.spec_serialize(),
            HttpFrameView::PushPromise(f) => f.serialize(),
            HttpFrameView::RstStream(f) => spec_serialize_rst_stream(f),
            HttpFrameView::Settings(settings, flags) => spec_pack_header(
                FrameHeader {
                    payload_len: (6 * settings.len()) as u32,
                    frame_type: SETTINGS_FRAME_TYPE,
                    flags,
                    stream_id: 0,
                },
            ) + crate::solicit::frame::settings::spec_serialize_settings(settings),
            HttpFrameView::Ping(data, flags) => spec_pack_header(
                FrameHeader { payload_len: 8, frame_type: PING_FRAME_TYPE, flags, stream_id: 0 },
            ) + data,
            HttpFrameView::Goaway(f) => f.serialize(),
            HttpFrameView::WindowUpdate(f) => f.spec_serialize(),
            HttpFrameView::Continuation(f) => f.serialize(),
            HttpFrameView::Unknown(raw) => raw,
        }
    }

    /// The stream that the frame names; 0 for a frame of the connection.
    pub open spec fn stream_id(self) -> StreamId {
        match self {
            HttpFrameView::Data(f) => f.stream_id,
            HttpFrameView::Headers(f) => f.stream_id,
            HttpFrameView::Priority(f) => f.stream_id,
            HttpFrameView::PushPromise(f) => f.stream_id,
            HttpFrameView::RstStream(f) => f.stream_id,
            HttpFrameView::Settings(_, _) => 0,
            HttpFrameView::Ping(_, _) => 0,
            HttpFrameView::Goaway(_) => 0,
            HttpFrameView::WindowUpdate(f) => f.stream_id,
            HttpFrameView::Continuation(f) => f.stream_id,
            HttpFrameView::Unknown(raw) => spec_unpack_header(raw).stream_id,
        }
    }
}

impl HttpFrame {
    /// Reads a raw frame as the typed frame that its type byte names.
    pub fn from_raw(raw_frame: &RawFrame) -> (r: Result<HttpFrame, ParseFrameError>)
        ensures
            match r {
                Ok(frame) => spec_parse_http_frame(raw_frame@) == Ok::<
                    HttpFrameView,
                    ParseFrameError,
                >(frame@),
                Err(e) => spec_parse_http_frame(raw_frame@) == Err::<HttpFrameView, ParseFrameError>(
                    e,
                ),
            },
    {
        if raw_frame.len() < 9 {
            return Err(ParseFrameError::InternalError);
        }
        let t: u8 = raw_frame.frame_type();
        if t == DATA_FRAME_TYPE {
            match DataFrame::from_raw(raw_frame) {
                Ok(f) => Ok(HttpFrame::Data(f)),
                Err(e) => Err(e),
            }
        } else if t == HEADERS_FRAME_TYPE {
            match HeadersFrame::from_raw(raw_frame) {
                Ok(f) => Ok(HttpFrame::Headers(f)),
                Err(e) => Err(e),
            }
        } else if t == PRIORITY_FRAME_TYPE {
            match PriorityFrame::from_raw(raw_frame) {
                Ok(f) => Ok(HttpFrame::Priority(f)),
                Err(e) => Err(e),
            }
        } else if t == RST_STREAM_FRAME_TYPE {
            match RstStreamFrame::from_raw(raw_frame) {
                Ok(f) => Ok(HttpFrame::RstStream(f)),
                Err(e) => Err(e),
            }
        } else if t == SETTINGS_FRAME_TYPE {
            match SettingsFrame::from_raw(raw_frame) {
                Ok(f) => Ok(HttpFrame::Settings(f)),
                Err(e) => Err(e),
            }
        } else if t == PUSH_PROMISE_FRAME_TYPE {
            match PushPromiseFrame::from_raw(raw_frame) {
                Ok(f) => Ok(HttpFrame::PushPromise(f)),
                Err(e) => Err(e),
            }
        } else if t == PING_FRAME_TYPE {
            match PingFrame::from_raw(raw_frame) {
                Ok(f) => Ok(HttpFrame::Ping(f)),
                Err(e) => Err(e),
            }
        } else if t == GOAWAY_FRAME_TYPE {
            match GoawayFrame::from_raw(raw_frame) {
                Ok(f) => Ok(HttpFrame::Goaway(f)),
                Err(e) => Err(e),
            }
        } else if t == WINDOW_UPDATE_FRAME_TYPE {
            match WindowUpdateFrame::from_raw(raw_frame) {
                Ok(f) => Ok(HttpFrame::WindowUpdate(f)),
                Err(e) => Err(e),
            }
        } else if t == CONTINUATION_FRAME_TYPE {
            match ContinuationFrame::from_raw(raw_frame) {
                Ok(f) => Ok(HttpFrame::Continuation(f)),
                Err(e) => Err(e),
            }
        } else {
            Ok(HttpFrame::Unknown(RawFrame { raw_content: raw_frame.raw_content.clone() }))
        }
    }

    /// The stream that the frame names; 0 for a frame of the connection.
    pub fn get_stream_id(&self) -> (r: StreamId)
        requires
            self matches HttpFrame::Unknown(raw) ==> raw.has_header(),
        ensures
            r == self@.stream_id(),
    {
        match self {
            HttpFrame::Data(f) => f.get_stream_id(),
            HttpFrame::Headers(f) => f.get_stream_id(),
            HttpFrame::Priority(f) => f.stream_id,
            HttpFrame::PushPromise(f) => f.stream_id,
            HttpFrame::RstStream(f) => f.get_stream_id(),
            HttpFrame::Settings(_) => 0,
            HttpFrame::Ping(_) => 0,
            HttpFrame::Goaway(_) => 0,
            HttpFrame::WindowUpdate(f) => f.stream_id,
            HttpFrame::Continuation(f) => f.get_stream_id(),
            HttpFrame::Unknown(raw) => raw.header().stream_id,
        }
    }

    /// Appends the frame's bytes to `b`.
    pub fn serialize_into(self, b: &mut WriteBuffer)
        requires
            old(b).wf(),
            self@.can_serialize(),
        ensures
            final(b).wf(),
            final(b)@ == old(b)@ + self@.serialize(),
    {
        match self {
            HttpFrame::Data(f) => f.serialize_into(b),
            HttpFrame::Headers(f) => f.serialize_into(b),
            HttpFrame::Priority(f) => f.serialize_into(b),
            HttpFrame::PushPromise(f) => f.serialize_into(b),
            HttpFrame::RstStream(f) => f.serialize_into(b),
            HttpFrame::Settings(f) => f.serialize_into(b),
            HttpFrame::Ping(f) => f.serialize_into(b),
            HttpFrame::Goaway(f) => f.serialize_into(b),
            HttpFrame::WindowUpdate(f) => f.serialize_into(b),
            HttpFrame::Continuation(f) => f.serialize_into(b),
            HttpFrame::Unknown(raw) => b.extend_from_bytes(raw.raw_content),
        }
    }
}

/// A result with `prefix` put in front of its frames.
pub open spec fn spec_prepend_frames(
    prefix: Seq<HttpFrameView>,
    r: Result<Seq<HttpFrameView>, ParseFrameError>,
) -> Result<Seq<HttpFrameView>, ParseFrameError> {
    match r {
        Ok(rest) => Ok(prefix + rest),
        Err(e) => Err(e),
    }
}

/// The frames that a byte stream holds, in order. The stream must end with
/// the end of a frame.
pub open spec fn spec_unpack_frames(buf: Seq<u8>) -> Result<Seq<HttpFrameView>, ParseFrameError>
    decreases buf.len(),
{
    if buf.len() == 0 {
        Ok(Seq::empty())
    } else {
        match spec_raw_frame(buf) {
            None => Err(ParseFrameError::InternalError),
            Some(raw) => match spec_parse_http_frame(raw) {
                Err(e) => Err(e),
                Ok(frame) => spec_prepend_frames(
                    seq![frame],
                    spec_unpack_frames(buf.skip(raw.len() as int)),
                ),
            },
        }
    }
}

/// The views of a vector of frames.
pub open spec fn spec_frame_views(frames: Seq<HttpFrame>) -> Seq<HttpFrameView> {
    Seq::new(frames.len(), |i: int| frames[i]@)
}

/// Reads a byte stream as a sequence of frames. The first frame that cannot
/// be read gives the error; bytes at the end that are no whole frame give
/// `InternalError`.
pub fn unpack_frames(raw: &[u8]) -> (r: Result<Vec<HttpFrame>, ParseFrameError>)
    ensures
        match r {
            Ok(frames) => spec_unpack_frames(raw@) == Ok::<Seq<HttpFrameView>, ParseFrameError>(
                spec_frame_views(frames@),
            ),
            Err(e) => spec_unpack_frames(raw@) == Err::<Seq<HttpFrameView>, ParseFrameError>(e),
        },
{
    let buf = bytes_from_vec(vstd::slice::slice_to_vec(raw));
    let mut frames: Vec<HttpFrame> = Vec::new();
    let mut pos: usize = 0;
    assert(raw@.skip(0) =~= raw@);
    assert(spec_frame_views(frames@) =~= Seq::<HttpFrameView>::empty());
    while pos < buf.len()
        invariant
            bytes_seq(buf) == raw@,
            pos <= raw@.len(),
            spec_unpack_frames(raw@) == spec_prepend_frames(
                spec_frame_views(frames@),
                spec_unpack_frames(raw@.skip(pos as int)),
            ),
        decreases raw@.len() - pos,
    {
        let ghost rest = raw@.skip(pos as int);
        let tail = bytes_slice(&buf, pos, buf.len());
        assert(bytes_seq(tail) =~= rest);
        let raw_frame = match RawFrame::parse(tail) {
            None => {
                return Err(ParseFrameError::InternalError);
            },
            Some(raw_frame) => raw_frame,
        };
        let frame = match HttpFrame::from_raw(&raw_frame) {
            Err(e) => {
                return Err(e);
            },
            Ok(frame) => frame,
        };
        let ghost before = spec_frame_views(frames@);
        let ghost view = frame@;
        frames.push(frame);
        proof {
            assert(rest.skip(raw_frame@.len() as int) =~= raw@.skip(pos + raw_frame@.len()));
            assert(spec_frame_views(frames@) =~= before + seq![view]);
            let next = spec_unpack_frames(raw@.skip(pos + raw_frame@.len()));
            match next {
                Ok(more) => {
                    assert(before + (seq![view] + more) =~= (before + seq![view]) + more);
                },
                Err(_) => {},
            }
        }
        pos = pos + raw_frame.len();
    }
    proof {
        assert(raw@.skip(pos as int).len() == 0);
        assert(spec_frame_views(frames@) + Seq::<HttpFrameView>::empty() =~= spec_frame_views(
            frames@,
        ));
    }
    Ok(frames)
}

/// Whether the bytes of a frame are the bytes that this side would write
/// for the frame: the buffer holds exactly the frame; the bits that the wire
/// reserves, in the header and in front of a stream identifier or a window
/// increment in the payload, are clear; padding is made of zero bytes; and a
/// SETTINGS payload spells settings that the protocol defines, and nothing
/// else. What is read from other bytes keeps its meaning and loses these
/// details.
pub open spec fn spec_frame_is_plain(raw: Seq<u8>) -> bool {
    let header = spec_unpack_header(raw);
    let t = header.frame_type;
    let padded = bits_set(header.flags, 0x8);
    &&& raw.len() >= 9
    &&& raw.len() == 9 + header.payload_len
    &&& raw[5] < 0x80
    &&& (t == DATA_FRAME_TYPE || t == HEADERS_FRAME_TYPE || t == PUSH_PROMISE_FRAME_TYPE
        ==> spec_padding_is_zero(raw.skip(9), padded))
    &&& (t == PUSH_PROMISE_FRAME_TYPE ==> (spec_parse_padded_payload(raw.skip(9), padded) matches Ok(
        (actual, pad),
    ) ==> actual.len() >= 4 ==> actual[0] < 0x80))
    &&& (t == GOAWAY_FRAME_TYPE || t == WINDOW_UPDATE_FRAME_TYPE ==> raw.len() > 9 ==> raw[9]
        < 0x80)
    &&& (t == SETTINGS_FRAME_TYPE ==> spec_settings_canonical(raw.skip(9)))
}

/// For every frame that can be read, writing what was read gives the bytes
/// of the frame again, byte for byte, where the bytes are plain in the sense
/// of `spec_frame_is_plain`.
pub proof fn lemma_http_frame_serialize_parsed(raw: Seq<u8>)
    requires
        spec_frame_is_plain(raw),
        spec_parse_http_frame(raw) is Ok,
    ensures
        spec_parse_http_frame(raw)->Ok_0.can_serialize(),
        spec_parse_http_frame(raw)->Ok_0.serialize() == raw,
{
    let header = spec_unpack_header(raw);
    let t = header.frame_type;
    let frame = spec_parse_http_frame(raw)->Ok_0;
    if t == DATA_FRAME_TYPE {
        lemma_data_serialize_parsed(raw);
    } else if t == HEADERS_FRAME_TYPE {
        lemma_headers_serialize_parsed(raw);
    } else if t == PRIORITY_FRAME_TYPE {
        lemma_priority_serialize_parsed(raw);
    } else if t == RST_STREAM_FRAME_TYPE {
        lemma_rst_stream_serialize_parsed(raw);
    } else if t == SETTINGS_FRAME_TYPE {
        let head = raw.take(9);
        assert(spec_unpack_header(head) == header);
        lemma_pack_unpack_header(head);
        lemma_settings_serialize_parsed(raw.skip(9));
        assert(frame.serialize() =~= raw);
    } else if t == PUSH_PROMISE_FRAME_TYPE {
        lemma_push_promise_serialize_parsed(raw);
    } else if t == PING_FRAME_TYPE {
        let head = raw.take(9);
        assert(spec_unpack_header(head) == header);
        lemma_pack_unpack_header(head);
        assert(frame.serialize() =~= raw);
    } else if t == GOAWAY_FRAME_TYPE {
        lemma_goaway_serialize_parsed(raw);
    } else if t == WINDOW_UPDATE_FRAME_TYPE {
        lemma_window_update_serialize_parsed(raw);
    } else if t == CONTINUATION_FRAME_TYPE {
        lemma_continuation_serialize_parsed(raw);
    }
}

/// A byte stream that starts with exactly one frame is read as that frame
/// and then as the rest.
pub proof fn lemma_unpack_first(frame: Seq<u8>, tail: Seq<u8>)
    requires
        frame.len() >= 9,
        frame.len() == 9 + spec_unpack_header(frame).payload_len,
    ensures
        spec_unpack_frames(frame + tail) == (match spec_parse_http_frame(frame) {
            Err(e) => Err(e),
            Ok(first) => spec_prepend_frames(seq![first], spec_unpack_frames(tail)),
        }),
{
    let buf = frame + tail;
    assert(spec_unpack_header(buf) == spec_unpack_header(frame));
    assert(buf.take(frame.len() as int) =~= frame);
    assert(buf.skip(frame.len() as int) =~= tail);
    assert(spec_raw_frame(buf) == Some(frame));
}

} // verus!
