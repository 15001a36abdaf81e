//! Header compression: the tables that both ends keep in step, the integer
//! and string forms, the Huffman code of strings, and the encoder and decoder
//! built on them.

pub mod decoder;
pub mod dynamic_table;
pub mod encoder;
pub mod huffman;
pub mod integer;
pub mod static_table;
