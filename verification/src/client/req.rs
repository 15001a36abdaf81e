//! What a client's request handler gets to send the request's body with.

use crate::solicit::stream_id::StreamId;
use vstd::prelude::*;

verus! {

/// Names the stream of a request to the code that sends the request's body:
/// what is sent comes back to the writer as messages for this stream.
#[derive(Clone, Copy, Debug, PartialEq, Eq, Structural)]
pub struct ClientRequest {
    /// The stream of the request.
    pub stream_id: StreamId,
    /// The stream's out-window when the request was made.
    pub out_window_size: u32,
}

} // verus!
