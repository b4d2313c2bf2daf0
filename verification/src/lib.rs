//! Decoder for fixed-size transport-stream packets.
//!
//! The stream is a plain concatenation of 188-byte windows.  Each window
//! carries a four-byte header, an optional length-prefixed adaptation field,
//! and an optional payload selected by the packet identifier: the program
//! association table on PID 0, stuffing on PID 0x1FFF, and raw bytes for
//! every other identifier.  `TsPacketNotSoPickyReader` frames an in-memory
//! byte stream into such windows and decodes them one packet per call.

pub mod adaptation;
pub mod crc;
pub mod error;
pub mod header;
pub mod model;
pub mod packet;
pub mod payload;
pub mod reader;
pub mod stream;
