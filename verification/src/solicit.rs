//! The HTTP/2 wire protocol: identifiers, error codes and frames.

pub mod end_stream;
pub mod error_code;
pub mod frame;
pub mod header;
pub mod preface;
pub mod stream_id;
