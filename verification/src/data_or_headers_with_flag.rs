//! A part of a message together with the mark of the last part.

use crate::data_or_headers::{DataOrHeaders, PartView};
use crate::solicit::header::Headers;
use bytes::Bytes;
use vstd::prelude::*;

verus! {

/// A part of a message; `last` says that nothing follows it.
#[derive(Debug)]
pub struct DataOrHeadersWithFlag {
    /// The part.
    pub content: DataOrHeaders,
    /// Whether the part is the last of its message.
    pub last: bool,
}

impl View for DataOrHeadersWithFlag {
    type V = (PartView, bool);

    open spec fn view(&self) -> (PartView, bool) {
        (self.content@, self.last)
    }
}

impl DataOrHeadersWithFlag {
    /// Headers with more to follow.
    pub fn intermediate_headers(headers: Headers) -> (r: DataOrHeadersWithFlag)
        ensures
            r@ == (PartView::Headers(headers@), false),
    {
        DataOrHeadersWithFlag { content: DataOrHeaders::Headers(headers), last: false }
    }

    /// Headers that end the message.
    pub fn last_headers(headers: Headers) -> (r: DataOrHeadersWithFlag)
        ensures
            r@ == (PartView::Headers(headers@), true),
    {
        DataOrHeadersWithFlag { content: DataOrHeaders::Headers(headers), last: true }
    }

    /// A piece of the body with more to follow.
    pub fn intermediate_data(data: Bytes) -> (r: DataOrHeadersWithFlag)
        ensures
            r@ == (PartView::Data(crate::bytes_model::bytes_seq(data)), false),
    {
        DataOrHeadersWithFlag { content: DataOrHeaders::Data(data), last: false }
    }

    /// The piece of the body that ends the message.
    pub fn last_data(data: Bytes) -> (r: DataOrHeadersWithFlag)
        ensures
            r@ == (PartView::Data(crate::bytes_model::bytes_seq(data)), true),
    {
        DataOrHeadersWithFlag { content: DataOrHeaders::Data(data), last: true }
    }
}

} // verus!
