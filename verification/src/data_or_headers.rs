//! One part of a message: a piece of the body, or a header list.

use crate::bytes_model::bytes_seq;
use crate::solicit::header::Headers;
use bytes::Bytes;
use vstd::prelude::*;

verus! {

/// One part of a message.
#[derive(Debug)]
pub enum DataOrHeaders {
    /// A piece of the body.
    Data(Bytes),
    /// The headers, or the trailers.
    Headers(Headers),
}

/// What a part of a message holds.
pub ghost enum PartView {
    /// A piece of the body.
    Data(Seq<u8>),
    /// The headers, or the trailers.
    Headers(Seq<(Seq<u8>, Seq<u8>)>),
}

impl View for DataOrHeaders {
    type V = PartView;

    open spec fn view(&self) -> PartView {
        match self {
            DataOrHeaders::Data(data) => PartView::Data(bytes_seq(*data)),
            DataOrHeaders::Headers(headers) => PartView::Headers(headers@),
        }
    }
}

impl PartView {
    /// The number of body bytes in the part; 0 for headers.
    pub open spec fn data_len(self) -> nat {
        match self {
            PartView::Data(data) => data.len(),
            PartView::Headers(_) => 0,
        }
    }
}

} // verus!
