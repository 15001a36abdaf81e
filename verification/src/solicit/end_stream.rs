//! Whether something is the last that its sender puts on a stream.

use vstd::prelude::*;

verus! {

/// Whether a frame or a message part ends its side of the stream.
#[derive(Clone, Copy, Debug, PartialEq, Eq, Structural)]
pub enum EndStream {
    Yes,
    No,
}

impl EndStream {
    /// `Yes` for `true`.
    pub fn from_bool(last: bool) -> (r: EndStream)
        ensures
            r == (if last {
                EndStream::Yes
            } else {
                EndStream::No
            }),
    {
        if last {
            EndStream::Yes
        } else {
            EndStream::No
        }
    }

    /// `true` for `Yes`.
    pub fn to_bool(self) -> (r: bool)
        ensures
            r == (self == EndStream::Yes),
    {
        match self {
            EndStream::Yes => true,
            EndStream::No => false,
        }
    }
}

} // verus!
