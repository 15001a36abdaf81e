//! What a stream's handler is told after the headers.

use crate::error::Error;
use crate::solicit::error_code::ErrorCode;
use crate::solicit::header::Headers;
use bytes::Bytes;
use vstd::prelude::*;

verus! {

/// The events of a stream that client and server handlers share. `rst` and
/// `error` end the stream: they take the handler.
pub trait StreamHandlerInternal: Sized {
    /// A DATA frame came.
    fn data_frame(&mut self, data: Bytes, end_stream: bool) -> Result<(), Error>;

    /// Trailers came.
    fn trailers(&mut self, trailers: Headers) -> Result<(), Error>;

    /// The peer reset the stream.
    fn rst(self, error_code: ErrorCode) -> Result<(), Error>;

    /// The stream failed.
    fn error(self, error: Error) -> Result<(), Error>;
}

} // verus!
