//! The data of a stream as its consumer takes it: each piece of the body
//! that is taken frees room in the stream's in-window, and the peer is given
//! new credit before the window runs out.

use crate::common::conn_write::CommonToWriteMessage;
use crate::common::increase_in_window::IncreaseInWindow;
use crate::data_or_headers::{DataOrHeaders, PartView};
use crate::data_or_headers_with_flag::DataOrHeadersWithFlag;
use crate::error::Error;
use crate::solicit::error_code::ErrorCode;
use vstd::prelude::*;

verus! {

/// The in-window that a stream starts with, by default.
pub const DEFAULT_INITIAL_WINDOW_SIZE: u32 = 65535;

/// What taking a part does to the consumer's record of the in-window, and
/// the credit that is to be given to the peer, if any. Headers change
/// nothing. Data takes its length off the window; where less than half the
/// initial window is left then, the window is filled up to the initial
/// window again.
pub open spec fn spec_part_taken(window: u32, part: PartView) -> Result<(u32, Option<u32>), Error> {
    match part {
        PartView::Headers(_) => Ok((window, None)),
        PartView::Data(data) => if data.len() > window {
            Err(Error::CodeError(ErrorCode::FlowControlError))
        } else {
            let left = (window - data.len()) as u32;
            if left < DEFAULT_INITIAL_WINDOW_SIZE / 2 {
                Ok((DEFAULT_INITIAL_WINDOW_SIZE, Some((DEFAULT_INITIAL_WINDOW_SIZE - left) as u32)))
            } else {
                Ok((left, None))
            }
        },
    }
}

/// The consumer's end of a stream. The queue that the parts come from is the
/// caller's.
#[derive(Clone, Copy, Debug, PartialEq, Eq, Structural)]
pub struct StreamFromNetwork {
    /// The consumer's record of the stream's in-window.
    pub increase_in_window: IncreaseInWindow,
}

impl StreamFromNetwork {
    /// Takes note that the consumer takes `part`. The result is the message
    /// that the caller is to send to the writer, if the peer is to get new
    /// credit. Data longer than the window is a flow-control error, and
    /// changes nothing.
    pub fn poll(&mut self, part: &DataOrHeadersWithFlag) -> (r: Result<
        Option<CommonToWriteMessage>,
        Error,
    >)
        ensures
            final(self).increase_in_window.stream_id == old(self).increase_in_window.stream_id,
            match spec_part_taken(old(self).increase_in_window.in_window_size, part.content@) {
                Err(e) => r matches Err(err) && err == e && *final(self) == *old(self),
                Ok((window, None)) => {
                    &&& r matches Ok(None)
                    &&& final(self).increase_in_window.in_window_size == window
                },
                Ok((window, Some(inc))) => {
                    &&& r matches Ok(Some(CommonToWriteMessage::IncreaseInWindow(id, by)))
                    &&& r->Ok_0->Some_0->IncreaseInWindow_0 == old(self).increase_in_window.stream_id
                    &&& r->Ok_0->Some_0->IncreaseInWindow_1 == inc
                    &&& final(self).increase_in_window.in_window_size == window
                },
            },
    {
        match &part.content {
            DataOrHeaders::Headers(_) => Ok(None),
            DataOrHeaders::Data(b) => {
                let len: usize = b.len();
                if len > self.increase_in_window.in_window_size as usize {
                    return Err(Error::CodeError(ErrorCode::FlowControlError));
                }
                match self.increase_in_window.data_frame_processed(len as u32) {
                    Err(e) => {
                        return Err(e);
                    },
                    Ok(_) => {},
                }
                let edge: u32 = DEFAULT_INITIAL_WINDOW_SIZE / 2;
                if self.increase_in_window.in_window_size() < edge {
                    let inc: u32 = DEFAULT_INITIAL_WINDOW_SIZE
                        - self.increase_in_window.in_window_size();
                    match self.increase_in_window.increase_window(inc) {
                        Err(e) => Err(e),
                        Ok(message) => Ok(Some(message)),
                    }
                } else {
                    Ok(None)
                }
            },
        }
    }
}

} // verus!
