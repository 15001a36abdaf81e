//! Core of an HTTP/2 endpoint: the frame codec, the write buffer, header
//! compression, per-stream state and the connection's writer and reader rules.
//! Everything here is pure computation on plain values; sockets, timers and
//! task scheduling belong to the caller.

pub mod bytes_model;
pub mod client;
pub mod client_conn;
pub mod codec;
pub mod common;
pub mod data_or_headers;
pub mod data_or_headers_with_flag;
pub mod error;
pub mod hpack;
pub mod queue_model;
pub mod solicit;
