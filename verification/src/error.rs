//! The errors that the connection engine reports to its users.

use crate::solicit::error_code::ErrorCode;
use crate::solicit::frame::ParseFrameError;
use vstd::prelude::*;

verus! {

/// An error of a connection or of one of its streams.
#[derive(Clone, Copy, Debug, PartialEq, Eq)]
pub enum Error {
    /// The connection ends with this code: the peer broke the protocol, or
    /// this side cannot go on.
    CodeError(ErrorCode),
    /// The peer reset the stream with this code.
    RstStreamReceived(ErrorCode),
    /// The peer said that it will not act on the stream.
    GoawayReceived,
    /// A frame could not be read.
    ParseFrameError(ParseFrameError),
    /// The engine found itself in a state that it should not be in.
    InternalError(&'static str),
    /// The consumer of a stream's data is gone.
    PullStreamDied,
    /// The connection is gone.
    ClientDied,
    /// Any other failure, in words.
    Other(&'static str),
}

impl Error {
    /// The code of the GOAWAY frame that ends the connection after this
    /// error: the error's own code where it has one, the code of the failure
    /// where a frame could not be read, and `InternalError` for anything
    /// else.
    pub open spec fn spec_goaway_code(self) -> ErrorCode {
        match self {
            Error::CodeError(code) => code,
            Error::ParseFrameError(e) => e.spec_error_code(),
            _ => ErrorCode::InternalError,
        }
    }

    /// The code of the GOAWAY frame that ends the connection after this
    /// error.
    pub fn goaway_code(&self) -> (r: ErrorCode)
        ensures
            r == self.spec_goaway_code(),
    {
        match self {
            Error::CodeError(code) => *code,
            Error::ParseFrameError(e) => e.error_code(),
            _ => ErrorCode::InternalError,
        }
    }
}

} // verus!
