//! Stream identifiers.

use vstd::prelude::*;

verus! {

/// A stream identifier: 31 bits on the wire. Identifier 0 is the connection.
pub type StreamId = u32;

/// The largest identifier that fits the 31 bits the wire gives it.
pub const MAX_STREAM_ID: u32 = 0x7fff_ffff;

/// Whether the client side opens the stream with this identifier.
pub open spec fn is_client_initiated(id: int) -> bool {
    id % 2 == 1
}

/// Whether the server side opens the stream with this identifier.
pub open spec fn is_server_initiated(id: int) -> bool {
    id != 0 && id % 2 == 0
}

} // verus!
