//! Header blocks put together again: a HEADERS or PUSH_PROMISE frame without
//! END_HEADERS opens a block, and the frames that follow must be its
//! CONTINUATION frames until one of them ends it.

use crate::solicit::frame::continuation::{
    lemma_continuation_parse_serialized, ContinuationFrameView,
};
use crate::solicit::frame::flags::{bits_set, Flags};
use crate::solicit::frame::headers::{
    lemma_fragment_frames_front, lemma_join_front, lemma_split_join, spec_continuation_frames,
    spec_fragment_frame, spec_join, spec_make_flags, spec_multi_frame, spec_split_block,
    HeadersFrameView, StreamDependency, HEADERS_FRAME_TYPE,
};
use crate::solicit::frame::http_frame::{
    lemma_unpack_first, spec_parse_http_frame, spec_unpack_frames, HttpFrame, HttpFrameView,
};
use crate::solicit::frame::{
    lemma_unpack_pack_header, spec_pack_header, spec_unpack_header, FrameHeader, ParseFrameError,
    MAX_PAYLOAD_LEN,
};
use crate::solicit::header::copy_bytes;
use crate::solicit::stream_id::StreamId;
use vstd::prelude::*;

verus! {

/// A header block as its frames carried it, in one piece.
#[derive(Debug)]
pub struct HeadersBlock {
    /// The flags of the HEADERS frame, with END_HEADERS set.
    pub flags: Flags,
    /// The stream that the block belongs to.
    pub stream_id: StreamId,
    /// The header block.
    pub block: Vec<u8>,
    /// The stream dependency of the HEADERS frame, if it had one.
    pub stream_dep: Option<StreamDependency>,
    /// The length of the padding of the HEADERS frame.
    pub padding_len: u8,
    /// The stream that the block promises, where a PUSH_PROMISE frame opened
    /// it.
    pub promised_stream_id: Option<StreamId>,
}

/// What a header block in one piece holds.
pub ghost struct HeadersBlockView {
    pub flags: u8,
    pub stream_id: StreamId,
    pub block: Seq<u8>,
    pub stream_dep: Option<StreamDependency>,
    pub padding_len: u8,
    pub promised_stream_id: Option<StreamId>,
}

impl View for HeadersBlock {
    type V = HeadersBlockView;

    open spec fn view(&self) -> HeadersBlockView {
        HeadersBlockView {
            flags: self.flags.0,
            stream_id: self.stream_id,
            block: self.block@,
            stream_dep: self.stream_dep,
            padding_len: self.padding_len,
            promised_stream_id: self.promised_stream_id,
        }
    }
}

/// What a frame gives once header blocks are put together.
#[derive(Debug)]
pub enum Joined {
    /// A frame that is no part of a header block, as it came.
    Frame(HttpFrame),
    /// A header block that is complete with this frame.
    Headers(HeadersBlock),
    /// A part of a header block that is not complete yet.
    Partial,
}

/// What a frame gives, as contracts see it.
pub ghost enum JoinedView {
    Frame(HttpFrameView),
    Headers(HeadersBlockView),
    Partial,
}

impl View for Joined {
    type V = JoinedView;

    open spec fn view(&self) -> JoinedView {
        match self {
            Joined::Frame(frame) => JoinedView::Frame(frame@),
            Joined::Headers(block) => JoinedView::Headers(block@),
            Joined::Partial => JoinedView::Partial,
        }
    }
}

/// What one frame does: the block that is open afterwards, and what the
/// frame gives. While a block is open, anything but a CONTINUATION frame of
/// the block's stream is an error; so is a CONTINUATION frame while none is
/// open.
pub open spec fn spec_join_step(pending: Option<HeadersBlockView>, frame: HttpFrameView) -> Result<
    (Option<HeadersBlockView>, JoinedView),
    ParseFrameError,
> {
    match pending {
        Some(open) => match frame {
            HttpFrameView::Continuation(c) => if c.stream_id != open.stream_id {
                Err(ParseFrameError::ContinuationExpected)
            } else {
                let longer = HeadersBlockView { block: open.block + c.header_fragment, ..open };
                if bits_set(c.flags, 0x4) {
                    Ok(
                        (
                            None,
                            JoinedView::Headers(
                                HeadersBlockView { flags: open.flags | 0x4, ..longer },
                            ),
                        ),
                    )
                } else {
                    Ok((Some(longer), JoinedView::Partial))
                }
            },
            _ => Err(ParseFrameError::ContinuationExpected),
        },
        None => match frame {
            HttpFrameView::Continuation(_) => Err(ParseFrameError::ContinuationExpected),
            HttpFrameView::Headers(h) => {
                let block = HeadersBlockView {
                    flags: h.flags,
                    stream_id: h.stream_id,
                    block: h.header_fragment,
                    stream_dep: h.stream_dep,
                    padding_len: h.padding_len,
                    promised_stream_id: None,
                };
                if bits_set(h.flags, 0x4) {
                    Ok((None, JoinedView::Headers(block)))
                } else {
                    Ok((Some(block), JoinedView::Partial))
                }
            },
            HttpFrameView::PushPromise(p) => {
                let block = HeadersBlockView {
                    flags: p.flags,
                    stream_id: p.stream_id,
                    block: p.header_fragment,
                    stream_dep: None,
                    padding_len: p.padding_len,
                    promised_stream_id: Some(p.promised_stream_id),
                };
                if bits_set(p.flags, 0x4) {
                    Ok((None, JoinedView::Headers(block)))
                } else {
                    Ok((Some(block), JoinedView::Partial))
                }
            },
            other => Ok((None, JoinedView::Frame(other))),
        },
    }
}

/// Puts header blocks together from the frames of a connection.
pub struct JoinContinuation {
    pending: Option<HeadersBlock>,
}

impl View for JoinContinuation {
    type V = Option<HeadersBlockView>;

    closed spec fn view(&self) -> Option<HeadersBlockView> {
        match self.pending {
            Some(block) => Some(block@),
            None => None,
        }
    }
}

impl JoinContinuation {
    /// No block is open.
    pub fn new() -> (r: JoinContinuation)
        ensures
            r@ is None,
    {
        JoinContinuation { pending: None }
    }

    /// Whether a header block is open.
    pub fn is_pending(&self) -> (r: bool)
        ensures
            r == (self@ is Some),
    {
        self.pending.is_some()
    }

    /// Takes the next frame of the connection; `spec_join_step` says what it
    /// gives. After an error no block is open.
    pub fn push(&mut self, frame: HttpFrame) -> (r: Result<Joined, ParseFrameError>)
        ensures
            match spec_join_step(old(self)@, frame@) {
                Ok((pending, joined)) => final(self)@ == pending && (r matches Ok(j) && j@
                    == joined),
                Err(e) => final(self)@ is None && (r matches Err(err) && err == e),
            },
    {
        let mut pending: Option<HeadersBlock> = None;
        std::mem::swap(&mut self.pending, &mut pending);
        match pending {
            Some(open) => match frame {
                HttpFrame::Continuation(c) => {
                    if c.stream_id != open.stream_id {
                        return Err(ParseFrameError::ContinuationExpected);
                    }
                    let ends: bool = c.is_headers_end();
                    let mut open = open;
                    let ghost before = open.block@;
                    let mut fragment = copy_bytes(c.header_fragment());
                    open.block.append(&mut fragment);
                    if ends {
                        open.flags = Flags::new(open.flags.0 | 0x4);
                        Ok(Joined::Headers(open))
                    } else {
                        self.pending = Some(open);
                        Ok(Joined::Partial)
                    }
                },
                _ => Err(ParseFrameError::ContinuationExpected),
            },
            None => match frame {
                HttpFrame::Continuation(_) => Err(ParseFrameError::ContinuationExpected),
                HttpFrame::Headers(h) => {
                    let ends: bool = h.is_headers_end();
                    let block = HeadersBlock {
                        flags: h.flags,
                        stream_id: h.stream_id,
                        block: copy_bytes(h.header_fragment()),
                        stream_dep: h.stream_dep,
                        padding_len: h.padding_len,
                        promised_stream_id: None,
                    };
                    if ends {
                        Ok(Joined::Headers(block))
                    } else {
                        self.pending = Some(block);
                        Ok(Joined::Partial)
                    }
                },
                HttpFrame::PushPromise(p) => {
                    let ends: bool = p.is_headers_end();
                    let block = HeadersBlock {
                        flags: p.flags,
                        stream_id: p.stream_id,
                        block: copy_bytes(p.header_fragment()),
                        stream_dep: None,
                        padding_len: p.padding_len,
                        promised_stream_id: Some(p.promised_stream_id),
                    };
                    if ends {
                        Ok(Joined::Headers(block))
                    } else {
                        self.pending = Some(block);
                        Ok(Joined::Partial)
                    }
                },
                other => Ok(Joined::Frame(other)),
            },
        }
    }
}

/// What a run of frames gives: the block that is open at the end, and what
/// each frame gave.
pub open spec fn spec_join_all(pending: Option<HeadersBlockView>, frames: Seq<HttpFrameView>) -> Result<
    (Option<HeadersBlockView>, Seq<JoinedView>),
    ParseFrameError,
>
    decreases frames.len(),
{
    if frames.len() == 0 {
        Ok((pending, Seq::empty()))
    } else {
        match spec_join_step(pending, frames[0]) {
            Err(e) => Err(e),
            Ok((next, joined)) => match spec_join_all(next, frames.skip(1)) {
                Err(e) => Err(e),
                Ok((last, more)) => Ok((last, seq![joined] + more)),
            },
        }
    }
}

/// What putting the frames of a byte stream together gives.
pub open spec fn spec_join_bytes(pending: Option<HeadersBlockView>, bytes: Seq<u8>) -> Result<
    (Option<HeadersBlockView>, Seq<JoinedView>),
    ParseFrameError,
> {
    match spec_unpack_frames(bytes) {
        Err(e) => Err(e),
        Ok(frames) => spec_join_all(pending, frames),
    }
}

/// Whether a run gave one complete header block, at its end, and nothing
/// but parts of it before.
pub open spec fn spec_is_one_block(joined: Seq<JoinedView>, block: HeadersBlockView) -> bool {
    &&& joined.len() >= 1
    &&& joined.last() == JoinedView::Headers(block)
    &&& forall|i: int| 0 <= i < joined.len() - 1 ==> joined[i] == JoinedView::Partial
}

/// The bytes of a CONTINUATION frame are read as that frame.
proof fn lemma_parse_continuation_frame(stream_id: StreamId, last: bool, fragment: Seq<u8>)
    requires
        0 < stream_id <= 0x7fff_ffff,
        fragment.len() <= MAX_PAYLOAD_LEN,
    ensures
        spec_parse_http_frame(spec_fragment_frame(stream_id, 0, false, last, fragment)) == Ok::<
            HttpFrameView,
            ParseFrameError,
        >(
            HttpFrameView::Continuation(
                ContinuationFrameView {
                    flags: if last {
                        0x4
                    } else {
                        0
                    },
                    stream_id,
                    header_fragment: fragment,
                },
            ),
        ),
        spec_fragment_frame(stream_id, 0, false, last, fragment).len() == 9 + fragment.len(),
        spec_unpack_header(spec_fragment_frame(stream_id, 0, false, last, fragment)).payload_len
            == fragment.len(),
{
    let view = ContinuationFrameView {
        flags: if last {
            0x4
        } else {
            0
        },
        stream_id,
        header_fragment: fragment,
    };
    let bytes = spec_fragment_frame(stream_id, 0, false, last, fragment);
    assert(bytes =~= view.serialize());
    lemma_continuation_parse_serialized(view);
    lemma_unpack_pack_header(view.header());
    assert(spec_unpack_header(bytes) == spec_unpack_header(spec_pack_header(view.header())));
}

/// The bytes of the HEADERS frame of a header block are read as that frame.
proof fn lemma_parse_headers_frame(
    stream_id: StreamId,
    header_flags: u8,
    last: bool,
    fragment: Seq<u8>,
)
    requires
        0 < stream_id <= 0x7fff_ffff,
        fragment.len() <= MAX_PAYLOAD_LEN,
        !bits_set(header_flags, 0x8),
        !bits_set(header_flags, 0x20),
    ensures
        spec_parse_http_frame(spec_fragment_frame(stream_id, header_flags, true, last, fragment))
            == Ok::<HttpFrameView, ParseFrameError>(
            HttpFrameView::Headers(
                HeadersFrameView {
                    flags: spec_make_flags(true, header_flags, last),
                    stream_id,
                    header_fragment: fragment,
                    stream_dep: None,
                    padding_len: 0,
                },
            ),
        ),
        spec_fragment_frame(stream_id, header_flags, true, last, fragment).len() == 9
            + fragment.len(),
        spec_unpack_header(
            spec_fragment_frame(stream_id, header_flags, true, last, fragment),
        ).payload_len == fragment.len(),
{
    let flags = spec_make_flags(true, header_flags, last);
    assert(!bits_set(flags, 0x8) && !bits_set(flags, 0x20)) by {
        assert((header_flags | 4) & 8 == header_flags & 8 && (header_flags | 4) & 0x20
            == header_flags & 0x20) by (bit_vector);
    }
    let header = FrameHeader {
        payload_len: fragment.len() as u32,
        frame_type: HEADERS_FRAME_TYPE,
        flags,
        stream_id,
    };
    let bytes = spec_fragment_frame(stream_id, header_flags, true, last, fragment);
    lemma_unpack_pack_header(header);
    assert(spec_unpack_header(bytes) == spec_unpack_header(spec_pack_header(header)));
    assert(bytes.skip(9) =~= fragment);
}

/// A run of frames is its first frame and then the rest.
proof fn lemma_join_all_cons(
    pending: Option<HeadersBlockView>,
    first: HttpFrameView,
    rest: Seq<HttpFrameView>,
)
    ensures
        spec_join_all(pending, seq![first] + rest) == (match spec_join_step(pending, first) {
            Err(e) => Err(e),
            Ok((next, joined)) => match spec_join_all(next, rest) {
                Err(e) => Err(e),
                Ok((last, more)) => Ok((last, seq![joined] + more)),
            },
        }),
        spec_join_all(pending, Seq::empty()) == Ok::<
            (Option<HeadersBlockView>, Seq<JoinedView>),
            ParseFrameError,
        >((pending, Seq::empty())),
{
    let frames = seq![first] + rest;
    assert(frames[0] == first);
    assert(frames.skip(1) =~= rest);
}

/// A part of a block in front of one complete block is still one complete
/// block.
proof fn lemma_one_block_after_partial(more: Seq<JoinedView>, block: HeadersBlockView)
    requires
        spec_is_one_block(more, block),
    ensures
        spec_is_one_block(seq![JoinedView::Partial] + more, block),
        (seq![JoinedView::Partial] + more).len() == more.len() + 1,
{
    let joined = seq![JoinedView::Partial] + more;
    assert(joined.last() == more.last());
    assert forall|i: int| 0 <= i < joined.len() - 1 implies joined[i] == JoinedView::Partial by {
        if i > 0 {
            assert(joined[i] == more[i - 1]);
        }
    }
}

/// CONTINUATION frames that end a header block are put together with the
/// block that is open.
proof fn lemma_join_continuations(open: HeadersBlockView, fragments: Seq<Seq<u8>>, max: nat)
    requires
        0 < open.stream_id <= 0x7fff_ffff,
        max <= MAX_PAYLOAD_LEN,
        fragments.len() >= 1,
        forall|i: int| 0 <= i < fragments.len() ==> (#[trigger] fragments[i]).len() <= max,
    ensures
        spec_join_bytes(Some(open), spec_continuation_frames(fragments, open.stream_id, true))
            matches Ok((None, joined)) && spec_is_one_block(
            joined,
            HeadersBlockView {
                block: open.block + spec_join(fragments),
                flags: open.flags | 0x4,
                ..open
            },
        ) && joined.len() == fragments.len(),
    decreases fragments.len(),
{
    let sid = open.stream_id;
    let first = fragments[0];
    let rest = fragments.skip(1);
    let is_last = fragments.len() == 1;
    let frame = spec_fragment_frame(sid, 0, false, is_last, first);
    let tail = spec_continuation_frames(rest, sid, true);
    let bytes = spec_continuation_frames(fragments, sid, true);
    assert(bytes == frame + tail);
    lemma_parse_continuation_frame(sid, is_last, first);
    lemma_unpack_first(frame, tail);
    assert(4u8 & 4u8 != 0 && 0u8 & 4u8 == 0) by (bit_vector);
    assert(fragments =~= seq![first] + rest);
    lemma_join_front(first, rest);
    let head = HttpFrameView::Continuation(
        ContinuationFrameView {
            flags: if is_last {
                0x4
            } else {
                0
            },
            stream_id: sid,
            header_fragment: first,
        },
    );
    let longer = HeadersBlockView { block: open.block + first, ..open };
    let goal = HeadersBlockView {
        block: open.block + spec_join(fragments),
        flags: open.flags | 0x4,
        ..open
    };
    if is_last {
        assert(rest =~= Seq::<Seq<u8>>::empty());
        assert(tail =~= Seq::<u8>::empty());
        assert(spec_join(rest) =~= Seq::<u8>::empty());
        assert(open.block + spec_join(fragments) =~= open.block + first);
        assert(spec_unpack_frames(tail) == Ok::<Seq<HttpFrameView>, ParseFrameError>(
            Seq::empty(),
        ));
        let frames = seq![head] + Seq::<HttpFrameView>::empty();
        assert(spec_unpack_frames(bytes) == Ok::<Seq<HttpFrameView>, ParseFrameError>(frames));
        lemma_join_all_cons(Some(open), head, Seq::empty());
        let step = spec_join_step(Some(open), head);
        assert(step == Ok::<(Option<HeadersBlockView>, JoinedView), ParseFrameError>(
            (None, JoinedView::Headers(goal)),
        ));
        let joined = seq![JoinedView::Headers(goal)] + Seq::<JoinedView>::empty();
        assert(spec_join_all(Some(open), frames) == Ok::<
            (Option<HeadersBlockView>, Seq<JoinedView>),
            ParseFrameError,
        >((None, joined)));
        assert(joined.last() == JoinedView::Headers(goal));
    } else {
        assert forall|i: int| 0 <= i < rest.len() implies (#[trigger] rest[i]).len() <= max by {
            assert(rest[i] == fragments[i + 1]);
        }
        lemma_join_continuations(longer, rest, max);
        let more_frames = spec_unpack_frames(tail)->Ok_0;
        let frames = seq![head] + more_frames;
        assert(spec_unpack_frames(bytes) == Ok::<Seq<HttpFrameView>, ParseFrameError>(frames));
        lemma_join_all_cons(Some(open), head, more_frames);
        let step = spec_join_step(Some(open), head);
        assert(step == Ok::<(Option<HeadersBlockView>, JoinedView), ParseFrameError>(
            (Some(longer), JoinedView::Partial),
        ));
        let more_joined = spec_join_all(Some(longer), more_frames)->Ok_0.1;
        assert(longer.block + spec_join(rest) =~= open.block + spec_join(fragments));
        lemma_one_block_after_partial(more_joined, goal);
    }
}

/// Splitting a header block into frames and putting the frames together
/// again yields the block: the bytes that are written for a header block of
/// any length, with any limit on the size of a frame, are read back as one
/// HEADERS frame and its CONTINUATION frames, and these give the block as it
/// was, with the flags of the block and END_HEADERS, for the stream of the
/// block. With the round trip of the header compression, the header list is
/// the one that was written.
pub proof fn lemma_multi_frame_reassembles(
    block: Seq<u8>,
    max: nat,
    stream_id: StreamId,
    header_flags: u8,
)
    requires
        1 <= max <= MAX_PAYLOAD_LEN,
        0 < stream_id <= 0x7fff_ffff,
        !bits_set(header_flags, 0x4),
        !bits_set(header_flags, 0x8),
        !bits_set(header_flags, 0x20),
    ensures
        spec_join_bytes(None, spec_multi_frame(block, max, stream_id, header_flags)) matches Ok(
            (None, joined),
        ) && spec_is_one_block(
            joined,
            HeadersBlockView {
                flags: header_flags | 0x4,
                stream_id,
                block,
                stream_dep: None,
                padding_len: 0,
                promised_stream_id: None,
            },
        ) && joined.len() == spec_split_block(block, max).len(),
{
    let fragments = spec_split_block(block, max);
    lemma_split_join(block, max);
    lemma_fragment_frames_front(fragments, stream_id, header_flags, true);
    let first = fragments[0];
    let rest = fragments.skip(1);
    let is_last = fragments.len() == 1;
    let frame = spec_fragment_frame(stream_id, header_flags, true, is_last, first);
    let tail = spec_continuation_frames(rest, stream_id, true);
    let bytes = spec_multi_frame(block, max, stream_id, header_flags);
    assert(bytes == frame + tail);
    lemma_parse_headers_frame(stream_id, header_flags, is_last, first);
    lemma_unpack_first(frame, tail);
    assert(fragments =~= seq![first] + rest);
    lemma_join_front(first, rest);
    assert((header_flags | 4) & 4 != 0) by (bit_vector);
    let flags = spec_make_flags(true, header_flags, is_last);
    let head = HttpFrameView::Headers(
        HeadersFrameView { flags, stream_id, header_fragment: first, stream_dep: None, padding_len: 0 },
    );
    let opened = HeadersBlockView {
        flags,
        stream_id,
        block: first,
        stream_dep: None,
        padding_len: 0,
        promised_stream_id: None,
    };
    let goal = HeadersBlockView {
        flags: header_flags | 0x4,
        stream_id,
        block,
        stream_dep: None,
        padding_len: 0,
        promised_stream_id: None,
    };
    if is_last {
        assert(rest =~= Seq::<Seq<u8>>::empty());
        assert(tail =~= Seq::<u8>::empty());
        assert(spec_join(rest) =~= Seq::<u8>::empty());
        assert(first =~= block);
        assert(spec_unpack_frames(tail) == Ok::<Seq<HttpFrameView>, ParseFrameError>(
            Seq::empty(),
        ));
        let frames = seq![head] + Seq::<HttpFrameView>::empty();
        assert(spec_unpack_frames(bytes) == Ok::<Seq<HttpFrameView>, ParseFrameError>(frames));
        lemma_join_all_cons(None, head, Seq::empty());
        let step = spec_join_step(None, head);
        assert(step == Ok::<(Option<HeadersBlockView>, JoinedView), ParseFrameError>(
            (None, JoinedView::Headers(goal)),
        ));
        let joined = seq![JoinedView::Headers(goal)] + Seq::<JoinedView>::empty();
        assert(spec_join_all(None, frames) == Ok::<
            (Option<HeadersBlockView>, Seq<JoinedView>),
            ParseFrameError,
        >((None, joined)));
        assert(joined.last() == JoinedView::Headers(goal));
    } else {
        assert forall|i: int| 0 <= i < rest.len() implies (#[trigger] rest[i]).len() <= max by {
            assert(rest[i] == fragments[i + 1]);
        }
        lemma_join_continuations(opened, rest, max);
        let more_frames = spec_unpack_frames(tail)->Ok_0;
        let frames = seq![head] + more_frames;
        assert(spec_unpack_frames(bytes) == Ok::<Seq<HttpFrameView>, ParseFrameError>(frames));
        lemma_join_all_cons(None, head, more_frames);
        let step = spec_join_step(None, head);
        assert(step == Ok::<(Option<HeadersBlockView>, JoinedView), ParseFrameError>(
            (Some(opened), JoinedView::Partial),
        ));
        let more_joined = spec_join_all(Some(opened), more_frames)->Ok_0.1;
        assert(first + spec_join(rest) =~= block);
        lemma_one_block_after_partial(more_joined, goal);
    }
}

} // verus!
