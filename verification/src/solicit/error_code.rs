//! Error codes carried by RST_STREAM and GOAWAY frames.

use vstd::prelude::*;

verus! {

/// The error codes that the protocol defines.
#[derive(Clone, Copy, Debug, PartialEq, Eq, Structural)]
pub enum ErrorCode {
    NoError,
    ProtocolError,
    InternalError,
    FlowControlError,
    SettingsTimeout,
    StreamClosed,
    FrameSizeError,
    RefusedStream,
    Cancel,
    CompressionError,
    ConnectError,
    EnhanceYourCalm,
    InadequateSecurity,
    Http11Required,
}

impl ErrorCode {
    /// The number that stands for the code on the wire.
    pub open spec fn code(self) -> u32 {
        match self {
            ErrorCode::NoError => 0x0,
            ErrorCode::ProtocolError => 0x1,
            ErrorCode::InternalError => 0x2,
            ErrorCode::FlowControlError => 0x3,
            ErrorCode::SettingsTimeout => 0x4,
            ErrorCode::StreamClosed => 0x5,
            ErrorCode::FrameSizeError => 0x6,
            ErrorCode::RefusedStream => 0x7,
            ErrorCode::Cancel => 0x8,
            ErrorCode::CompressionError => 0x9,
            ErrorCode::ConnectError => 0xa,
            ErrorCode::EnhanceYourCalm => 0xb,
            ErrorCode::InadequateSecurity => 0xc,
            ErrorCode::Http11Required => 0xd,
        }
    }

    /// The code that a wire number stands for, if it is a known one.
    pub open spec fn of_code(raw: u32) -> Option<ErrorCode> {
        if raw == 0x0 {
            Some(ErrorCode::NoError)
        } else if raw == 0x1 {
            Some(ErrorCode::ProtocolError)
        } else if raw == 0x2 {
            Some(ErrorCode::InternalError)
        } else if raw == 0x3 {
            Some(ErrorCode::FlowControlError)
        } else if raw == 0x4 {
            Some(ErrorCode::SettingsTimeout)
        } else if raw == 0x5 {
            Some(ErrorCode::StreamClosed)
        } else if raw == 0x6 {
            Some(ErrorCode::FrameSizeError)
        } else if raw == 0x7 {
            Some(ErrorCode::RefusedStream)
        } else if raw == 0x8 {
            Some(ErrorCode::Cancel)
        } else if raw == 0x9 {
            Some(ErrorCode::CompressionError)
        } else if raw == 0xa {
            Some(ErrorCode::ConnectError)
        } else if raw == 0xb {
            Some(ErrorCode::EnhanceYourCalm)
        } else if raw == 0xc {
            Some(ErrorCode::InadequateSecurity)
        } else if raw == 0xd {
            Some(ErrorCode::Http11Required)
        } else {
            None
        }
    }

    /// The wire number of the code.
    pub fn to_u32(self) -> (raw: u32)
        ensures
            raw == self.code(),
    {
        match self {
            ErrorCode::NoError => 0x0,
            ErrorCode::ProtocolError => 0x1,
            ErrorCode::InternalError => 0x2,
            ErrorCode::FlowControlError => 0x3,
            ErrorCode::SettingsTimeout => 0x4,
            ErrorCode::StreamClosed => 0x5,
            ErrorCode::FrameSizeError => 0x6,
            ErrorCode::RefusedStream => 0x7,
            ErrorCode::Cancel => 0x8,
            ErrorCode::CompressionError => 0x9,
            ErrorCode::ConnectError => 0xa,
            ErrorCode::EnhanceYourCalm => 0xb,
            ErrorCode::InadequateSecurity => 0xc,
            ErrorCode::Http11Required => 0xd,
        }
    }

    /// Reads a wire number; `None` for a number that no code has.
    pub fn from_u32(raw: u32) -> (r: Option<ErrorCode>)
        ensures
            r == ErrorCode::of_code(raw),
    {
        if raw == 0x0 {
            Some(ErrorCode::NoError)
        } else if raw == 0x1 {
            Some(ErrorCode::ProtocolError)
        } else if raw == 0x2 {
            Some(ErrorCode::InternalError)
        } else if raw == 0x3 {
            Some(ErrorCode::FlowControlError)
        } else if raw == 0x4 {
            Some(ErrorCode::SettingsTimeout)
        } else if raw == 0x5 {
            Some(ErrorCode::StreamClosed)
        } else if raw == 0x6 {
            Some(ErrorCode::FrameSizeError)
        } else if raw == 0x7 {
            Some(ErrorCode::RefusedStream)
        } else if raw == 0x8 {
            Some(ErrorCode::Cancel)
        } else if raw == 0x9 {
            Some(ErrorCode::CompressionError)
        } else if raw == 0xa {
            Some(ErrorCode::ConnectError)
        } else if raw == 0xb {
            Some(ErrorCode::EnhanceYourCalm)
        } else if raw == 0xc {
            Some(ErrorCode::InadequateSecurity)
        } else if raw == 0xd {
            Some(ErrorCode::Http11Required)
        } else {
            None
        }
    }
}

/// Every code is read back from its own wire number.
pub proof fn lemma_error_code_round_trip(code: ErrorCode)
    ensures
        ErrorCode::of_code(code.code()) == Some(code),
{
}

/// An error code as it came off the wire: any 32-bit number, known or not.
#[derive(Clone, Copy, Debug, PartialEq, Eq, Structural)]
pub struct ErrorCodeOrUnknown(pub u32);

impl ErrorCodeOrUnknown {
    /// The known code that the number stands for; an unknown number counts
    /// as `InternalError`.
    pub open spec fn interpreted(self) -> ErrorCode {
        match ErrorCode::of_code(self.0) {
            Some(code) => code,
            None => ErrorCode::InternalError,
        }
    }

    /// Wraps a known code.
    pub fn from_error_code(code: ErrorCode) -> (r: ErrorCodeOrUnknown)
        ensures
            r.0 == code.code(),
            r.interpreted() == code,
    {
        ErrorCodeOrUnknown(code.to_u32())
    }

    /// The known code, or `InternalError` where the number is unknown.
    pub fn to_error_code(self) -> (r: ErrorCode)
        ensures
            r == self.interpreted(),
    {
        match ErrorCode::from_u32(self.0) {
            Some(code) => code,
            None => ErrorCode::InternalError,
        }
    }
}

} // verus!
