//! The packet reader: frames the stream into fixed 188-byte windows and
//! decodes one packet per call, tolerantly passing unrecognized payloads
//! through as raw bytes.

use vstd::prelude::*;

use crate::error::DecodeError;
use crate::model::{spec_window_result, PACKET_SIZE};
use crate::packet::{decode_window, TsPacket};
use crate::stream::ByteStream;

verus! {

/// Reads packets one by one from an owned byte stream.
#[derive(Debug, PartialEq, Eq)]
pub struct TsPacketNotSoPickyReader {
    stream: ByteStream,
}

impl TsPacketNotSoPickyReader {
    /// The underlying byte stream, for contracts.
    pub closed spec fn spec_stream(self) -> ByteStream {
        self.stream
    }

    /// Makes a new `TsPacketNotSoPickyReader` instance.
    pub fn new(stream: ByteStream) -> (r: Self)
        ensures
            r.spec_stream() == stream,
    {
        TsPacketNotSoPickyReader { stream }
    }

    /// Returns a reference to the underlying byte stream.
    pub fn stream(&self) -> (r: &ByteStream)
        ensures
            *r == self.spec_stream(),
    {
        &self.stream
    }

    /// Converts the reader into the underlying byte stream.
    pub fn into_stream(self) -> (r: ByteStream)
        ensures
            r == self.spec_stream(),
    {
        self.stream
    }

    /// Reads the next packet.
    ///
    /// At a packet boundary with no bytes left this is clean end of stream,
    /// `Ok(None)`.  Otherwise one full window is consumed and decoded; a
    /// stream that ends mid-window is an error, never a silent resync.
    pub fn read_ts_packet(&mut self) -> (r: Result<Option<TsPacket>, DecodeError>)
        ensures
            final (self).spec_stream().spec_data() == old(self).spec_stream().spec_data(),
            ({
                let s0 = old(self).spec_stream();
                let rem = s0.spec_remaining();
                let take = if rem < PACKET_SIZE as int {
                    rem
                } else {
                    PACKET_SIZE as int
                };
                let w = s0.spec_data().subrange(s0.spec_pos(), s0.spec_pos() + take);
                &&& rem == 0 ==> r == Ok::<Option<TsPacket>, DecodeError>(None) && final (
                self).spec_stream().spec_pos() == s0.spec_pos()
                &&& rem > 0 ==> final (self).spec_stream().spec_pos() == s0.spec_pos() + take
                &&& 0 < rem < PACKET_SIZE as int ==> r == Err::<Option<TsPacket>, DecodeError>(
                    DecodeError::UnexpectedEndOfStream,
                )
                &&& rem >= PACKET_SIZE as int ==> (match spec_window_result(w) {
                    Ok(pv) => r matches Ok(op) && op matches Some(p) && p@ == pv,
                    Err(e) => r matches Err(e2) && e2 == e,
                })
            }),
    {
        let rem = self.stream.remaining();
        if rem == 0 {
            return Ok(None);
        }
        let win = self.stream.read_up_to(PACKET_SIZE);
        if win.len() < PACKET_SIZE {
            return Err(DecodeError::UnexpectedEndOfStream);
        }
        match decode_window(&win) {
            Ok(p) => Ok(Some(p)),
            Err(e) => Err(e),
        }
    }
}

} // verus!
