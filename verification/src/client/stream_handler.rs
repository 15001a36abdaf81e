//! The callbacks by which a client is told of its requests' streams.

use crate::client::increase_in_window::ClientIncreaseInWindow;
use crate::client::req::ClientRequest;
use crate::common::stream_handler::StreamHandlerInternal;
use crate::error::Error;
use crate::solicit::error_code::ErrorCode;
use crate::solicit::header::Headers;
use bytes::Bytes;
use vstd::prelude::*;

verus! {

/// Called once when the stream of a request is created.
pub trait ClientStreamCreatedHandler {
    /// The handler of the response.
    type Handler: ClientStreamHandler;

    /// The stream was created. The result is the handler of the response;
    /// an error cancels the request.
    fn request_created(
        &mut self,
        req: ClientRequest,
        increase_in_window: ClientIncreaseInWindow,
    ) -> Result<Self::Handler, Error>;
}

/// Called for each event of a response, in the order of the wire.
pub trait ClientStreamHandler {
    /// The response's headers came.
    fn headers(&mut self, headers: Headers, end_stream: bool) -> Result<(), Error>;

    /// A DATA frame came.
    fn data_frame(&mut self, data: Bytes, end_stream: bool) -> Result<(), Error>;

    /// Trailers came.
    fn trailers(&mut self, trailers: Headers) -> Result<(), Error>;

    /// The peer reset the stream.
    fn rst(&mut self, error_code: ErrorCode) -> Result<(), Error>;

    /// Any other error.
    fn error(&mut self, error: Error) -> Result<(), Error>;
}

/// Holds the handler of a response for the connection.
pub struct ClientStreamHandlerHolder<H: ClientStreamHandler>(pub H);

impl<H: ClientStreamHandler> StreamHandlerInternal for ClientStreamHandlerHolder<H> {
    fn data_frame(&mut self, data: Bytes, end_stream: bool) -> Result<(), Error> {
        self.0.data_frame(data, end_stream)
    }

    fn trailers(&mut self, trailers: Headers) -> Result<(), Error> {
        self.0.trailers(trailers)
    }

    fn rst(self, error_code: ErrorCode) -> Result<(), Error> {
        let mut this = self;
        this.0.rst(error_code)
    }

    fn error(self, error: Error) -> Result<(), Error> {
        let mut this = self;
        this.0.error(error)
    }
}

} // verus!
