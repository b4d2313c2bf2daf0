//! The optional, length-prefixed adaptation field.
//!
//! When the control flags announce one, byte 4 of the window gives its
//! length and the field's content follows.  The field may be empty; it may
//! never overrun the window.

use vstd::prelude::*;

use crate::error::DecodeError;
use crate::model::{spec_af_bytes, PACKET_SIZE};

verus! {

/// The content of an adaptation field, kept opaque: the bytes after the
/// length byte.
#[derive(Clone, Debug, PartialEq, Eq)]
pub struct AdaptationField {
    pub bytes: Vec<u8>,
}

impl View for AdaptationField {
    type V = Seq<u8>;

    open spec fn view(&self) -> Seq<u8> {
        self.bytes@
    }
}

impl AdaptationField {
    /// Decodes the adaptation field that starts at byte 4 of the window,
    /// returning it with the position of the first byte after it, or
    /// failing when the declared length overruns the window.
    pub fn read_from(win: &Vec<u8>) -> (r: Result<(AdaptationField, usize), DecodeError>)
        requires
            win@.len() == PACKET_SIZE,
        ensures
            5 + win@[4] as int > PACKET_SIZE as int ==> (r matches Err(e) && e
                == DecodeError::AdaptationFieldTooLong),
            5 + win@[4] as int <= PACKET_SIZE as int ==> (r matches Ok((af, next)) && af@
                == spec_af_bytes(win@) && next == 5 + win@[4] as int),
    {
        let len = win[4] as usize;
        if len > PACKET_SIZE - 5 {
            return Err(DecodeError::AdaptationFieldTooLong);
        }
        let mut bytes: Vec<u8> = Vec::new();
        let mut i: usize = 0;
        assert(bytes@ =~= win@.subrange(5, 5));
        while i < len
            invariant
                i <= len,
                len <= PACKET_SIZE - 5,
                win@.len() == PACKET_SIZE,
                bytes@ == win@.subrange(5, 5 + i as int),
            decreases len - i,
        {
            bytes.push(win[5 + i]);
            proof {
                assert(win@.subrange(5, 5 + (i + 1)) =~= win@.subrange(5, 5 + i as int).push(
                    win@[5 + i as int],
                ));
            }
            i = i + 1;
        }
        Ok((AdaptationField { bytes }, 5 + len))
    }
}

} // verus!
