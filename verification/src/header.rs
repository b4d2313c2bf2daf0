//! The fixed four-byte packet header.
//!
//! Byte 0 is the sync marker; byte 1 packs the error, start and priority
//! flags with the top five PID bits; byte 2 holds the low eight PID bits;
//! byte 3 packs scrambling control, the two adaptation-field-control bits
//! and the continuity counter.

use vstd::prelude::*;

use crate::error::DecodeError;
use crate::model::{
    spec_has_adaptation_field, spec_has_payload, spec_header, HeaderV, PID_MAX,
    SYNC_BYTE,
};

verus! {

/// A 13-bit packet identifier.
#[derive(Clone, Copy, Debug, PartialEq, Eq, Hash)]
pub struct Pid {
    value: u16,
}

impl View for Pid {
    type V = u16;

    closed spec fn view(&self) -> u16 {
        self.value
    }
}

impl Pid {
    #[verifier::type_invariant]
    spec fn wf(self) -> bool {
        self.value <= PID_MAX
    }

    /// Makes a `Pid` from a raw value; `None` when the value does not fit
    /// in 13 bits.
    pub fn new(value: u16) -> (r: Option<Pid>)
        ensures
            value <= PID_MAX ==> (r matches Some(p) && p@ == value),
            value > PID_MAX ==> r is None,
    {
        if value <= PID_MAX {
            Some(Pid { value })
        } else {
            None
        }
    }

    /// Makes a `Pid` from a value the caller has already bounded to 13 bits.
    pub(crate) fn new_masked(value: u16) -> (r: Pid)
        requires
            value <= PID_MAX,
        ensures
            r@ == value,
    {
        Pid { value }
    }

    /// The identifier as a plain integer.
    pub fn as_u16(&self) -> (r: u16)
        ensures
            r == self@,
            r <= PID_MAX,
    {
        proof {
            use_type_invariant(&*self);
        }
        self.value
    }
}

/// The two adaptation-field-control bits of byte 3, read as independent
/// booleans.
#[derive(Clone, Copy, Debug, PartialEq, Eq, Structural)]
pub struct AdaptationFieldControl {
    pub adaptation_field_flag: bool,
    pub payload_flag: bool,
}

impl AdaptationFieldControl {
    /// Whether an adaptation field follows the header.
    pub fn has_adaptation_field(&self) -> (r: bool)
        ensures
            r == self.adaptation_field_flag,
    {
        self.adaptation_field_flag
    }

    /// Whether a payload fills the rest of the window.
    pub fn has_payload(&self) -> (r: bool)
        ensures
            r == self.payload_flag,
    {
        self.payload_flag
    }
}

/// The decoded header fields of one packet.
#[derive(Clone, Copy, Debug, PartialEq, Eq)]
pub struct TsHeader {
    pub transport_error_indicator: bool,
    pub payload_unit_start_indicator: bool,
    pub transport_priority: bool,
    pub pid: Pid,
    pub transport_scrambling_control: u8,
    pub continuity_counter: u8,
}

impl View for TsHeader {
    type V = HeaderV;

    open spec fn view(&self) -> HeaderV {
        HeaderV {
            transport_error_indicator: self.transport_error_indicator,
            payload_unit_start_indicator: self.payload_unit_start_indicator,
            transport_priority: self.transport_priority,
            pid: self.pid@,
            transport_scrambling_control: self.transport_scrambling_control,
            continuity_counter: self.continuity_counter,
        }
    }
}

impl TsHeader {
    /// Decodes the four header bytes at the start of the window, returning
    /// the header and the two control booleans, or failing on a wrong sync
    /// marker.
    pub fn read_from(win: &Vec<u8>) -> (r: Result<(TsHeader, AdaptationFieldControl), DecodeError>)
        requires
            win@.len() >= 4,
        ensures
            win@[0] != SYNC_BYTE ==> (r matches Err(e) && e == DecodeError::InvalidSyncByte),
            win@[0] == SYNC_BYTE ==> (r matches Ok((h, afc)) && h@ == spec_header(win@)
                && afc.adaptation_field_flag == spec_has_adaptation_field(win@)
                && afc.payload_flag == spec_has_payload(win@)),
    {
        let b1 = win[1];
        let b2 = win[2];
        let b3 = win[3];
        if win[0] != SYNC_BYTE {
            return Err(DecodeError::InvalidSyncByte);
        }
        proof {
            assert(b1 & 0x1f <= 0x1f) by (bit_vector);
        }
        let hi: u16 = (b1 & 0x1f) as u16;
        let pid = Pid { value: hi * 256 + (b2 as u16) };
        let header = TsHeader {
            transport_error_indicator: (b1 & 0x80) != 0,
            payload_unit_start_indicator: (b1 & 0x40) != 0,
            transport_priority: (b1 & 0x20) != 0,
            pid,
            transport_scrambling_control: b3 >> 6,
            continuity_counter: b3 & 0x0f,
        };
        let afc = AdaptationFieldControl {
            adaptation_field_flag: (b3 & 0x20) != 0,
            payload_flag: (b3 & 0x10) != 0,
        };
        proof {
            assert(header@ == spec_header(win@));
        }
        Ok((header, afc))
    }
}

} // verus!
