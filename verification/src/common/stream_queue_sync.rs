//! The queue between a stream's reader and the consumer of the stream's
//! data: what the reader puts in for each event, and what the consumer makes
//! of what it finds.

use crate::bytes_model::bytes_seq;
use crate::data_or_headers::{DataOrHeaders, PartView};
use crate::client::stream_handler::ClientStreamHandler;
use crate::data_or_headers_with_flag::DataOrHeadersWithFlag;
use crate::error::Error;
use crate::queue_model::{queue_new, queue_send};
use crate::solicit::error_code::ErrorCode;
use crate::solicit::header::Headers;
use bytes::Bytes;
use futures::sync::mpsc::{UnboundedReceiver, UnboundedSender};
use vstd::prelude::*;

verus! {

/// The state of something that is polled: there, or not yet.
#[derive(Debug)]
pub enum Async<T> {
    Ready(T),
    NotReady,
}

/// The item that stands in the queue for the message's headers.
pub fn headers_item(headers: Headers, end_stream: bool) -> (r: Result<DataOrHeadersWithFlag, Error>)
    ensures
        r matches Ok(part) && part@ == (PartView::Headers(headers@), end_stream),
{
    Ok(DataOrHeadersWithFlag { content: DataOrHeaders::Headers(headers), last: end_stream })
}

/// The item that stands in the queue for a DATA frame.
pub fn data_frame_item(data: Bytes, end_stream: bool) -> (r: Result<DataOrHeadersWithFlag, Error>)
    ensures
        r matches Ok(part) && part@ == (PartView::Data(bytes_seq(data)), end_stream),
{
    Ok(DataOrHeadersWithFlag { content: DataOrHeaders::Data(data), last: end_stream })
}

/// The item that stands in the queue for trailers: they are always the last.
pub fn trailers_item(trailers: Headers) -> (r: Result<DataOrHeadersWithFlag, Error>)
    ensures
        r matches Ok(part) && part@ == (PartView::Headers(trailers@), true),
{
    Ok(DataOrHeadersWithFlag { content: DataOrHeaders::Headers(trailers), last: true })
}

/// The item that stands in the queue for a reset by the peer.
pub fn rst_item(error_code: ErrorCode) -> (r: Result<DataOrHeadersWithFlag, Error>)
    ensures
        r matches Err(e) && e == Error::RstStreamReceived(error_code),
{
    Err(Error::RstStreamReceived(error_code))
}

/// What a failed attempt to put an item into the queue means: the consumer
/// is gone.
pub fn send_outcome(delivered: bool) -> (r: Result<(), Error>)
    ensures
        r == (if delivered {
            Ok::<(), Error>(())
        } else {
            Err::<(), Error>(Error::PullStreamDied)
        }),
{
    if !delivered {
        Err(Error::PullStreamDied)
    } else {
        Ok(())
    }
}

/// The sending side of the queue. As the handler of a stream it puts one
/// item into the queue for each event.
pub struct StreamQueueSyncSender {
    sender: UnboundedSender<Result<DataOrHeadersWithFlag, Error>>,
}

impl StreamQueueSyncSender {
    /// Puts an item into the queue. Fails with `PullStreamDied` where the
    /// queue does not take it: the consumer is gone.
    pub fn send(&self, item: Result<DataOrHeadersWithFlag, Error>) -> (r: Result<(), Error>)
        ensures
            r matches Err(e) ==> e == Error::PullStreamDied,
    {
        send_outcome(queue_send(&self.sender, item))
    }
}

impl ClientStreamHandler for StreamQueueSyncSender {
    /// Puts the item for the headers into the queue; fails only where the
    /// consumer is gone. The sender stays as it is.
    fn headers(&mut self, headers: Headers, end_stream: bool) -> (r: Result<(), Error>)
        ensures
            *final(self) == *old(self),
            r matches Err(e) ==> e == Error::PullStreamDied,
    {
        self.send(headers_item(headers, end_stream))
    }

    /// Puts the item for a DATA frame into the queue; fails only where the
    /// consumer is gone. The sender stays as it is.
    fn data_frame(&mut self, data: Bytes, end_stream: bool) -> (r: Result<(), Error>)
        ensures
            *final(self) == *old(self),
            r matches Err(e) ==> e == Error::PullStreamDied,
    {
        self.send(data_frame_item(data, end_stream))
    }

    /// Puts the item for the trailers into the queue; fails only where the
    /// consumer is gone. The sender stays as it is.
    fn trailers(&mut self, trailers: Headers) -> (r: Result<(), Error>)
        ensures
            *final(self) == *old(self),
            r matches Err(e) ==> e == Error::PullStreamDied,
    {
        self.send(trailers_item(trailers))
    }

    /// Puts the peer's reset into the queue as an error; fails only where
    /// the consumer is gone. The sender stays as it is.
    fn rst(&mut self, error_code: ErrorCode) -> (r: Result<(), Error>)
        ensures
            *final(self) == *old(self),
            r matches Err(e) ==> e == Error::PullStreamDied,
    {
        self.send(rst_item(error_code))
    }

    /// Puts the error into the queue; fails only where the consumer is
    /// gone. The sender stays as it is.
    fn error(&mut self, error: Error) -> (r: Result<(), Error>)
        ensures
            *final(self) == *old(self),
            r matches Err(e) ==> e == Error::PullStreamDied,
    {
        self.send(Err(error))
    }
}

/// What the consumer found when it looked at the queue.
#[derive(Debug)]
pub enum QueuePolled {
    /// Nothing is there yet.
    NotReady,
    /// The sending side is gone and the queue is empty.
    Closed,
    /// The next item.
    Item(Result<DataOrHeadersWithFlag, Error>),
}

/// What the consumer found, as contracts see it.
pub ghost enum QueuePolledView {
    NotReady,
    Closed,
    Part(PartView, bool),
    Failed(Error),
}

impl View for QueuePolled {
    type V = QueuePolledView;

    open spec fn view(&self) -> QueuePolledView {
        match self {
            QueuePolled::NotReady => QueuePolledView::NotReady,
            QueuePolled::Closed => QueuePolledView::Closed,
            QueuePolled::Item(Ok(part)) => QueuePolledView::Part(part.content@, part.last),
            QueuePolled::Item(Err(e)) => QueuePolledView::Failed(*e),
        }
    }
}

/// What the consumer is handed.
pub ghost enum PollOutput {
    /// Nothing yet.
    NotReady,
    /// The stream is over.
    End,
    /// A part of the message.
    Part(PartView, bool),
    /// The stream failed.
    Failed(Error),
}

impl PollOutput {
    /// Whether the output is the last that carries anything: the last part
    /// of the message, or an error that a peer or the engine reported.
    pub open spec fn is_terminal(self) -> bool {
        match self {
            PollOutput::Part(_, last) => last,
            PollOutput::Failed(e) => e != Error::InternalError("internal error: unexpected EOF"),
            _ => false,
        }
    }
}

/// What one poll does: the output, and whether the end has been seen
/// afterwards.
pub open spec fn spec_poll(eof_received: bool, polled: QueuePolledView) -> (PollOutput, bool) {
    if eof_received {
        (PollOutput::End, true)
    } else {
        match polled {
            QueuePolledView::NotReady => (PollOutput::NotReady, false),
            QueuePolledView::Closed => (
                PollOutput::Failed(Error::InternalError("internal error: unexpected EOF")),
                false,
            ),
            QueuePolledView::Failed(e) => (PollOutput::Failed(e), true),
            QueuePolledView::Part(part, last) => (PollOutput::Part(part, last), last),
        }
    }
}

/// The outputs of a run of polls, one for each thing found.
pub open spec fn spec_poll_run(eof_received: bool, found: Seq<QueuePolledView>) -> Seq<PollOutput>
    decreases found.len(),
{
    if found.len() == 0 {
        Seq::empty()
    } else {
        let (output, eof) = spec_poll(eof_received, found[0]);
        seq![output] + spec_poll_run(eof, found.skip(1))
    }
}

/// Once the end has been seen, every poll says that the stream is over.
pub proof fn lemma_poll_run_after_eof(found: Seq<QueuePolledView>, i: int)
    requires
        0 <= i < found.len(),
    ensures
        spec_poll_run(true, found).len() == found.len(),
        spec_poll_run(true, found)[i] == PollOutput::End,
    decreases found.len(),
{
    lemma_poll_run_len(true, found);
    if i > 0 {
        lemma_poll_run_after_eof(found.skip(1), i - 1);
    }
}

/// A run gives one output for each thing found.
pub proof fn lemma_poll_run_len(eof_received: bool, found: Seq<QueuePolledView>)
    ensures
        spec_poll_run(eof_received, found).len() == found.len(),
    decreases found.len(),
{
    if found.len() > 0 {
        lemma_poll_run_len(spec_poll(eof_received, found[0]).1, found.skip(1));
    }
}

/// Whatever is found in the queue, and in whatever order: behind the last
/// part of the message, or behind an error that was put into the queue, the
/// consumer is handed nothing more; each later poll says that the stream is
/// over. So the consumer is handed at most one such terminal event.
pub proof fn lemma_nothing_after_terminal(
    eof_received: bool,
    found: Seq<QueuePolledView>,
    i: int,
    j: int,
)
    requires
        0 <= i < j < found.len(),
        spec_poll_run(eof_received, found)[i].is_terminal(),
    ensures
        spec_poll_run(eof_received, found).len() == found.len(),
        spec_poll_run(eof_received, found)[j] == PollOutput::End,
    decreases found.len(),
{
    lemma_poll_run_len(eof_received, found);
    let (output, eof) = spec_poll(eof_received, found[0]);
    let rest = found.skip(1);
    lemma_poll_run_len(eof, rest);
    if i == 0 {
        assert(eof);
        lemma_poll_run_after_eof(rest, j - 1);
    } else {
        lemma_nothing_after_terminal(eof, rest, i - 1, j - 1);
    }
}

/// The receiving side of the queue. It remembers whether the end of the
/// stream has been seen. Looking into the queue needs the task that waits
/// for it, so the caller does that and hands what it found to `poll`.
pub struct StreamQueueSyncReceiver {
    /// The receiving side of the queue.
    pub receiver: UnboundedReceiver<Result<DataOrHeadersWithFlag, Error>>,
    eof_received: bool,
}

/// A new queue for the events of one stream, as its two sides.
pub fn stream_queue_sync() -> (r: (StreamQueueSyncSender, StreamQueueSyncReceiver))
    ensures
        !r.1.spec_eof_received(),
{
    let (utx, urx) = queue_new();
    let tx = StreamQueueSyncSender { sender: utx };
    let rx = StreamQueueSyncReceiver { receiver: urx, eof_received: false };
    (tx, rx)
}

impl StreamQueueSyncReceiver {
    /// Whether the end of the stream has been seen.
    pub closed spec fn spec_eof_received(&self) -> bool {
        self.eof_received
    }

    /// Whether the end of the stream has been seen. Once it has, the queue
    /// need not be looked at any more.
    pub fn eof_received(&self) -> (r: bool)
        ensures
            r == self.spec_eof_received(),
    {
        self.eof_received
    }

    /// Makes of what was found in the queue what the consumer is handed.
    /// Once the end has been seen, the stream is over whatever is found. A
    /// part is handed on, and the end is seen with the last part. An error
    /// is handed on, and the end is seen with it. A queue whose sending side
    /// went away without an end is an internal error.
    pub fn poll(&mut self, polled: QueuePolled) -> (r: Result<
        Async<Option<DataOrHeadersWithFlag>>,
        Error,
    >)
        ensures
            final(self).spec_eof_received() == spec_poll(old(self).spec_eof_received(), polled@).1,
            match spec_poll(old(self).spec_eof_received(), polled@).0 {
                PollOutput::NotReady => r matches Ok(Async::NotReady),
                PollOutput::End => r matches Ok(Async::Ready(None)),
                PollOutput::Part(content, last) => r matches Ok(Async::Ready(Some(part)))
                    && part@ == (content, last),
                PollOutput::Failed(e) => r matches Err(err) && err == e,
            },
    {
        if self.eof_received {
            return Ok(Async::Ready(None));
        }
        let part = match polled {
            QueuePolled::NotReady => {
                return Ok(Async::NotReady);
            },
            QueuePolled::Closed => {
                // The sending side puts an end into the queue before it goes.
                return Err(Error::InternalError("internal error: unexpected EOF"));
            },
            QueuePolled::Item(Err(e)) => {
                self.eof_received = true;
                return Err(e);
            },
            QueuePolled::Item(Ok(part)) => {
                if part.last {
                    self.eof_received = true;
                }
                part
            },
        };
        Ok(Async::Ready(Some(part)))
    }
}

} // verus!
