//! What client and server connections share: windows, streams, the stream
//! map, and the rules of the connection's writer and reader.

pub mod conn;
pub mod conn_read;
pub mod conn_write;
pub mod increase_in_window;
pub mod iteration_exit;
pub mod stream;
pub mod stream_from_network;
pub mod stream_handler;
pub mod stream_map;
pub mod stream_queue_sync;
pub mod window_size;
