//! The consumer's record of a stream's in-window, and the request for more
//! credit that it makes when the window runs low.

use crate::common::conn_write::CommonToWriteMessage;
use crate::error::Error;
use crate::solicit::error_code::ErrorCode;
use crate::solicit::stream_id::StreamId;
use vstd::prelude::*;

verus! {

/// What the consumer of a stream's data knows of the stream's in-window.
#[derive(Clone, Copy, Debug, PartialEq, Eq, Structural)]
pub struct IncreaseInWindow {
    /// The stream.
    pub stream_id: StreamId,
    /// How many bytes the peer may still send, as far as the consumer knows.
    pub in_window_size: u32,
}

impl IncreaseInWindow {
    /// Takes note that the consumer took `size` bytes of data. More than the
    /// window holds is a flow-control error, and changes nothing.
    pub fn data_frame_processed(&mut self, size: u32) -> (r: Result<(), Error>)
        ensures
            if size <= old(self).in_window_size {
                r is Ok && *final(self) == (IncreaseInWindow {
                    in_window_size: (old(self).in_window_size - size) as u32,
                    ..*old(self)
                })
            } else {
                r == Err::<(), Error>(Error::CodeError(ErrorCode::FlowControlError)) && *final(self)
                    == *old(self)
            },
    {
        if size > self.in_window_size {
            return Err(Error::CodeError(ErrorCode::FlowControlError));
        }
        self.in_window_size = self.in_window_size - size;
        Ok(())
    }

    /// How many bytes the peer may still send, as far as the consumer knows.
    pub fn in_window_size(&self) -> (r: u32)
        ensures
            r == self.in_window_size,
    {
        self.in_window_size
    }

    /// Adds `inc` bytes of credit and returns the message that asks the
    /// writer to tell the peer. Fails, and changes nothing, where the window
    /// would grow over the largest that the protocol allows.
    pub fn increase_window(&mut self, inc: u32) -> (r: Result<CommonToWriteMessage, Error>)
        ensures
            if old(self).in_window_size + inc <= 0x7fff_ffff {
                &&& r matches Ok(CommonToWriteMessage::IncreaseInWindow(id, by))
                &&& r->Ok_0->IncreaseInWindow_0 == old(self).stream_id
                &&& r->Ok_0->IncreaseInWindow_1 == inc
                &&& *final(self) == (IncreaseInWindow {
                    in_window_size: (old(self).in_window_size + inc) as u32,
                    ..*old(self)
                })
            } else {
                &&& r matches Err(e)
                &&& r->Err_0 == Error::CodeError(ErrorCode::FlowControlError)
                &&& *final(self) == *old(self)
            },
    {
        if inc > 0x7fff_ffff || self.in_window_size > 0x7fff_ffff - inc {
            return Err(Error::CodeError(ErrorCode::FlowControlError));
        }
        self.in_window_size = self.in_window_size + inc;
        Ok(CommonToWriteMessage::IncreaseInWindow(self.stream_id, inc))
    }
}

} // verus!
