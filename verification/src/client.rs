//! The client's side: how requests become streams and how responses are
//! checked before they reach the request's handler.

pub mod conn;
pub mod increase_in_window;
pub mod req;
pub mod stream_handler;
