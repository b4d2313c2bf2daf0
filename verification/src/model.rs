//! Mathematical model of the wire format.
//!
//! Every contract of the decoder speaks of the spec functions here: given the
//! 188 bytes of one window, `spec_window_result` says exactly which packet
//! comes out, or which error, and the ghost types say what a decoded packet
//! is.  The laws at the bottom state the format-wide facts the decoder keeps.

use vstd::prelude::*;

use crate::crc::crc32_of;
use crate::error::DecodeError;

verus! {

/// Fixed size of one packet window, in bytes.
pub const PACKET_SIZE: usize = 188;
/// Value of the sync marker that opens every window.
pub const SYNC_BYTE: u8 = 0x47;
/// Largest packet identifier: PIDs are 13-bit values.
pub const PID_MAX: u16 = 0x1FFF;
/// PID carrying the program association table.
pub const PID_PAT: u16 = 0;
/// PID carrying stuffing (null) payloads.
pub const PID_NULL: u16 = 0x1FFF;

/// The decoded header fields of one packet.
#[verifier::ext_equal]
pub ghost struct HeaderV {
    pub transport_error_indicator: bool,
    pub payload_unit_start_indicator: bool,
    pub transport_priority: bool,
    pub pid: u16,
    pub transport_scrambling_control: u8,
    pub continuity_counter: u8,
}

/// One program-number to PID mapping of the association table.
#[verifier::ext_equal]
pub ghost struct PatEntryV {
    pub program_num: u16,
    pub pid: u16,
}

/// A decoded program association table.
#[verifier::ext_equal]
pub ghost struct PatV {
    pub section_syntax_indicator: bool,
    pub entries: Seq<PatEntryV>,
}

/// A decoded payload: association table, stuffing, or raw bytes.
#[verifier::ext_equal]
pub ghost enum PayloadV {
    Pat(PatV),
    Null,
    Raw(Seq<u8>),
}

/// A decoded packet: header, optional adaptation field content, optional
/// payload.
#[verifier::ext_equal]
pub ghost struct PacketV {
    pub header: HeaderV,
    pub adaptation_field: Option<Seq<u8>>,
    pub payload: Option<PayloadV>,
}

/// Whether byte 3 of the window flags an adaptation field.
pub open spec fn spec_has_adaptation_field(w: Seq<u8>) -> bool {
    w[3] & 0x20 != 0
}

/// Whether byte 3 of the window flags a payload.
pub open spec fn spec_has_payload(w: Seq<u8>) -> bool {
    w[3] & 0x10 != 0
}

/// The 13-bit packet identifier packed into bytes 1 and 2.
pub open spec fn spec_pid(w: Seq<u8>) -> u16 {
    (((w[1] & 0x1f) as int) * 256 + (w[2] as int)) as u16
}

/// The header fields packed into the first four bytes.
pub open spec fn spec_header(w: Seq<u8>) -> HeaderV {
    HeaderV {
        transport_error_indicator: w[1] & 0x80 != 0,
        payload_unit_start_indicator: w[1] & 0x40 != 0,
        transport_priority: w[1] & 0x20 != 0,
        pid: spec_pid(w),
        transport_scrambling_control: w[3] >> 6,
        continuity_counter: w[3] & 0x0f,
    }
}

/// Content of the adaptation field: the bytes after its length byte.
pub open spec fn spec_af_bytes(w: Seq<u8>) -> Seq<u8> {
    w.subrange(5, 5 + w[4] as int)
}

/// First byte of the payload region: right after the header, or after the
/// adaptation field when one is flagged.
pub open spec fn spec_payload_start(w: Seq<u8>) -> int {
    if spec_has_adaptation_field(w) {
        5 + w[4] as int
    } else {
        4
    }
}

/// The payload region of the window.
pub open spec fn spec_payload_bytes(w: Seq<u8>) -> Seq<u8> {
    w.subrange(spec_payload_start(w), PACKET_SIZE as int)
}

/// A 32-bit big-endian value read at position `i`.
pub open spec fn spec_be32(b: Seq<u8>, i: int) -> u32 {
    ((b[i] as u32) << 24) | ((b[i + 1] as u32) << 16) | ((b[i + 2] as u32) << 8) | (b[i
        + 3] as u32)
}

/// The 12-bit section length packed into the first two bytes of a section.
pub open spec fn spec_section_length(b: Seq<u8>) -> int {
    ((b[0] & 0x0f) as int) * 256 + (b[1] as int)
}

/// The mapping entry packed into the four bytes at position `i`.
pub open spec fn spec_pat_entry(b: Seq<u8>, i: int) -> PatEntryV {
    PatEntryV {
        program_num: ((b[i] as int) * 256 + (b[i + 1] as int)) as u16,
        pid: (((b[i + 2] & 0x1f) as int) * 256 + (b[i + 3] as int)) as u16,
    }
}

/// The mapping entries packed four bytes apiece into `b[i..end]`.
pub open spec fn spec_pat_entries(b: Seq<u8>, i: int, end: int) -> Seq<PatEntryV>
    decreases end - i,
{
    if i + 4 <= end {
        seq![spec_pat_entry(b, i)] + spec_pat_entries(b, i + 4, end)
    } else {
        Seq::empty()
    }
}

/// What decoding a program-association section from the payload region `b`
/// yields: the table, or the first inconsistency found.
///
/// The section is length-prefixed; whatever of the region follows it is
/// filler, accepted without validation.
pub open spec fn spec_pat_result(b: Seq<u8>) -> Result<PatV, DecodeError> {
    if b.len() < 2 || spec_section_length(b) < 4 {
        Err(DecodeError::PatSectionTooShort)
    } else if 2 + spec_section_length(b) > b.len() {
        Err(DecodeError::PatSectionLengthMismatch)
    } else if (spec_section_length(b) - 4) % 4 != 0 {
        Err(DecodeError::PatEntriesMisaligned)
    } else {
        let crc_at = 2 + spec_section_length(b) - 4;
        if spec_be32(b, crc_at) != crc32_of(b.take(crc_at)) {
            Err(DecodeError::PatBadChecksum)
        } else {
            Ok(
                PatV {
                    section_syntax_indicator: b[0] & 0x80 != 0,
                    entries: spec_pat_entries(b, 2, crc_at),
                },
            )
        }
    }
}

/// What decoding one full window yields: the packet, or the first error
/// found, in the order the sub-parsers run.
pub open spec fn spec_window_result(w: Seq<u8>) -> Result<PacketV, DecodeError>
    recommends
        w.len() == PACKET_SIZE,
{
    if w[0] != SYNC_BYTE {
        Err(DecodeError::InvalidSyncByte)
    } else if spec_has_adaptation_field(w) && 5 + w[4] as int > PACKET_SIZE as int {
        Err(DecodeError::AdaptationFieldTooLong)
    } else {
        let header = spec_header(w);
        let af = if spec_has_adaptation_field(w) {
            Some(spec_af_bytes(w))
        } else {
            None
        };
        if spec_has_payload(w) {
            if header.pid == PID_PAT {
                match spec_pat_result(spec_payload_bytes(w)) {
                    Ok(pat) => Ok(
                        PacketV { header, adaptation_field: af, payload: Some(PayloadV::Pat(pat)) },
                    ),
                    Err(e) => Err(e),
                }
            } else if header.pid == PID_NULL {
                Ok(PacketV { header, adaptation_field: af, payload: Some(PayloadV::Null) })
            } else {
                Ok(
                    PacketV {
                        header,
                        adaptation_field: af,
                        payload: Some(PayloadV::Raw(spec_payload_bytes(w))),
                    },
                )
            }
        } else {
            if spec_payload_start(w) != PACKET_SIZE as int {
                Err(DecodeError::ResidualBytes)
            } else {
                Ok(PacketV { header, adaptation_field: af, payload: None })
            }
        }
    }
}

/// Whether the window decodes to a packet.
pub open spec fn window_ok(w: Seq<u8>) -> bool {
    spec_window_result(w) is Ok
}

/// The packet a valid window decodes to.
pub open spec fn window_packet(w: Seq<u8>) -> PacketV
    recommends
        window_ok(w),
{
    spec_window_result(w)->Ok_0
}

/// Bytes an encoded packet's adaptation field takes: its length byte plus
/// its content, or nothing when there is no field.
pub open spec fn spec_af_size(p: PacketV) -> int {
    match p.adaptation_field {
        Some(b) => 1 + b.len() as int,
        None => 0,
    }
}

/// Bytes left for the payload region once header and adaptation field are
/// written.
pub open spec fn spec_payload_region_len(p: PacketV) -> int {
    PACKET_SIZE as int - 4 - spec_af_size(p)
}

/// Whether a packet fills one window exactly, with every field in range
/// and its payload kind agreeing with its PID — precisely the packets the
/// encoder accepts.
pub open spec fn encodable(p: PacketV) -> bool {
    &&& p.header.pid <= PID_MAX
    &&& p.header.transport_scrambling_control <= 3
    &&& p.header.continuity_counter <= 15
    &&& (p.adaptation_field matches Some(b) ==> b.len() <= PACKET_SIZE as int - 5)
    &&& match p.payload {
        None => spec_payload_region_len(p) == 0,
        Some(PayloadV::Pat(pat)) => {
            &&& p.header.pid == PID_PAT
            &&& 6 + 4 * pat.entries.len() <= spec_payload_region_len(p)
            &&& forall|i: int|
                0 <= i < pat.entries.len() ==> (#[trigger] pat.entries[i]).pid <= PID_MAX
        },
        Some(PayloadV::Null) => p.header.pid == PID_NULL,
        Some(PayloadV::Raw(bytes)) => {
            &&& p.header.pid != PID_PAT
            &&& p.header.pid != PID_NULL
            &&& bytes.len() == spec_payload_region_len(p)
        },
    }
}

/// Law: a valid window whose control flags say payload-only decodes to a
/// packet with no adaptation field and a payload discriminated by PID:
/// the association table on PID 0, stuffing on the stuffing PID, and raw
/// bytes — the whole region after the header — on every other PID.
pub proof fn lemma_payload_only_dispatch(w: Seq<u8>)
    requires
        w.len() == PACKET_SIZE,
        window_ok(w),
        !spec_has_adaptation_field(w),
        spec_has_payload(w),
    ensures
        window_packet(w).adaptation_field is None,
        window_packet(w).payload is Some,
        spec_header(w).pid == PID_PAT ==> window_packet(w).payload->Some_0 is Pat,
        spec_header(w).pid == PID_NULL ==> window_packet(w).payload->Some_0 is Null,
        spec_header(w).pid != PID_PAT && spec_header(w).pid != PID_NULL ==> window_packet(
            w,
        ).payload == Some(PayloadV::Raw(w.subrange(4, PACKET_SIZE as int))),
{
}

/// Law: a valid window carrying the stuffing PID decodes its payload as
/// stuffing, whatever the payload bytes hold.
pub proof fn lemma_null_pid_is_stuffing(w: Seq<u8>)
    requires
        w.len() == PACKET_SIZE,
        window_ok(w),
        spec_has_payload(w),
        spec_header(w).pid == PID_NULL,
    ensures
        window_packet(w).payload == Some(PayloadV::Null),
{
}

/// Law: reserved-unsupported PIDs and ordinary unrecognized PIDs alike
/// decode to a raw payload that is byte-for-byte the window content after
/// the header and the adaptation field, so its length is the window size
/// less the bytes those consumed.
pub proof fn lemma_unrecognized_pid_raw(w: Seq<u8>)
    requires
        w.len() == PACKET_SIZE,
        window_ok(w),
        spec_has_payload(w),
        spec_header(w).pid != PID_PAT,
        spec_header(w).pid != PID_NULL,
    ensures
        window_packet(w).payload == Some(
            PayloadV::Raw(w.subrange(spec_payload_start(w), PACKET_SIZE as int)),
        ),
        window_packet(w).payload->Some_0->Raw_0.len() == PACKET_SIZE as int - spec_payload_start(
            w,
        ),
{
}

} // verus!
