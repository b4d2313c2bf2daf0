//! The payload decoders: program association table, stuffing, raw bytes.
//!
//! The packet identifier selects the decoder; each one consumes the whole
//! payload region of the window.

use vstd::prelude::*;

use crate::crc::crc32_range;
use crate::error::DecodeError;
use crate::header::Pid;
use crate::model::{
    spec_be32, spec_pat_entries, spec_pat_entry, spec_pat_result, spec_section_length, PatEntryV,
    PatV, PayloadV, PACKET_SIZE,
};

verus! {

/// One program-number to PID mapping of the association table.
#[derive(Clone, Copy, Debug, PartialEq, Eq)]
pub struct PatEntry {
    pub program_num: u16,
    pub pid: Pid,
}

impl View for PatEntry {
    type V = PatEntryV;

    open spec fn view(&self) -> PatEntryV {
        PatEntryV { program_num: self.program_num, pid: self.pid@ }
    }
}

/// The views of a sequence of table entries.
pub open spec fn entries_view(s: Seq<PatEntry>) -> Seq<PatEntryV> {
    s.map_values(|e: PatEntry| e@)
}

/// A decoded program association table.
#[derive(Clone, Debug, PartialEq, Eq)]
pub struct Pat {
    pub section_syntax_indicator: bool,
    pub entries: Vec<PatEntry>,
}

impl View for Pat {
    type V = PatV;

    open spec fn view(&self) -> PatV {
        PatV {
            section_syntax_indicator: self.section_syntax_indicator,
            entries: entries_view(self.entries@),
        }
    }
}

/// A stuffing payload: the filler bytes are discarded, not validated.
#[derive(Clone, Copy, Debug, PartialEq, Eq, Structural)]
pub struct Null;

/// A raw payload: the region's bytes, verbatim.
#[derive(Clone, Debug, PartialEq, Eq)]
pub struct Bytes {
    pub bytes: Vec<u8>,
}

impl View for Bytes {
    type V = Seq<u8>;

    open spec fn view(&self) -> Seq<u8> {
        self.bytes@
    }
}

/// A decoded payload, tagged by kind.
#[derive(Clone, Debug, PartialEq, Eq)]
pub enum TsPayload {
    Pat(Pat),
    Null(Null),
    Raw(Bytes),
}

impl View for TsPayload {
    type V = PayloadV;

    open spec fn view(&self) -> PayloadV {
        match self {
            TsPayload::Pat(p) => PayloadV::Pat(p@),
            TsPayload::Null(_) => PayloadV::Null,
            TsPayload::Raw(b) => PayloadV::Raw(b@),
        }
    }
}

proof fn lemma_entries_view_push(s: Seq<PatEntry>, e: PatEntry)
    ensures
        entries_view(s.push(e)) =~= entries_view(s).push(e@),
{
}

/// Reads the 32-bit big-endian value at `at`.
fn read_be32(win: &Vec<u8>, at: usize) -> (r: u32)
    requires
        win@.len() == PACKET_SIZE,
        at + 4 <= win@.len(),
    ensures
        r == spec_be32(win@, at as int),
{
    ((win[at] as u32) << 24u32) | ((win[at + 1] as u32) << 16u32) | ((win[at + 2] as u32)
        << 8u32) | (win[at + 3] as u32)
}

impl Bytes {
    /// Captures the window's bytes from `from` to its end, verbatim.
    pub fn read_from(win: &Vec<u8>, from: usize) -> (r: Bytes)
        requires
            from <= win@.len(),
        ensures
            r@ == win@.subrange(from as int, win@.len() as int),
    {
        let mut bytes: Vec<u8> = Vec::new();
        let mut i: usize = from;
        assert(bytes@ =~= win@.subrange(from as int, from as int));
        while i < win.len()
            invariant
                from <= i <= win@.len(),
                bytes@ == win@.subrange(from as int, i as int),
            decreases win@.len() - i,
        {
            bytes.push(win[i]);
            proof {
                assert(win@.subrange(from as int, i + 1) =~= win@.subrange(
                    from as int,
                    i as int,
                ).push(win@[i as int]));
            }
            i = i + 1;
        }
        Bytes { bytes }
    }
}

impl Null {
    /// Accepts the stuffing bytes from `from` to the window's end without
    /// validating their content.
    pub fn read_from(win: &Vec<u8>, from: usize) -> (r: Null)
        requires
            from <= win@.len(),
    {
        Null
    }
}

impl Pat {
    /// Decodes the length-prefixed program-association section that starts
    /// the payload region at `from`: two leading bytes with the syntax
    /// indicator and the section length, four-byte mapping entries, and a
    /// checksum trailer over everything before it; whatever of the region
    /// follows the section is filler, accepted without validation.
    pub fn read_from(win: &Vec<u8>, from: usize) -> (r: Result<Pat, DecodeError>)
        requires
            from <= PACKET_SIZE as int,
            win@.len() == PACKET_SIZE,
        ensures
            (match spec_pat_result(win@.subrange(from as int, PACKET_SIZE as int)) {
                Ok(pv) => r matches Ok(p) && p@ == pv,
                Err(e) => r matches Err(e2) && e2 == e,
            }),
    {
        let ghost b = win@.subrange(from as int, PACKET_SIZE as int);
        let rem = PACKET_SIZE - from;
        if rem < 2 {
            return Err(DecodeError::PatSectionTooShort);
        }
        let b0 = win[from];
        let b1 = win[from + 1];
        proof {
            assert(b0 & 0x0f <= 0x0f) by (bit_vector);
            assert(b[0] == b0);
            assert(b[1] == b1);
        }
        let section_length: usize = ((b0 & 0x0f) as usize) * 256 + (b1 as usize);
        if section_length < 4 {
            return Err(DecodeError::PatSectionTooShort);
        }
        if 2 + section_length > rem {
            return Err(DecodeError::PatSectionLengthMismatch);
        }
        if (section_length - 4) % 4 != 0 {
            return Err(DecodeError::PatEntriesMisaligned);
        }
        let crc_end = from + 2 + section_length - 4;
        let computed = crc32_range(win, from, crc_end);
        proof {
            assert(win@.subrange(from as int, crc_end as int) =~= b.take(
                2 + spec_section_length(b) - 4,
            ));
        }
        let stored = read_be32(win, crc_end);
        proof {
            assert(spec_be32(win@, crc_end as int) == spec_be32(b, 2 + spec_section_length(b) - 4));
        }
        if stored != computed {
            return Err(DecodeError::PatBadChecksum);
        }
        let n = (section_length - 4) / 4;
        let ghost end = 2 + spec_section_length(b) - 4;
        let mut entries: Vec<PatEntry> = Vec::new();
        let mut k: usize = 0;
        proof {
            assert(entries_view(entries@) =~= Seq::<PatEntryV>::empty());
            assert(Seq::<PatEntryV>::empty() + spec_pat_entries(b, 2, end) =~= spec_pat_entries(
                b,
                2,
                end,
            ));
        }
        while k < n
            invariant
                k <= n,
                n == (section_length - 4) / 4,
                4 <= section_length,
                (section_length - 4) % 4 == 0,
                end == 2 + section_length - 4,
                from + 2 + section_length <= PACKET_SIZE as int,
                win@.len() == PACKET_SIZE,
                b == win@.subrange(from as int, PACKET_SIZE as int),
                entries_view(entries@) + spec_pat_entries(b, 2 + 4 * k, end) == spec_pat_entries(
                    b,
                    2,
                    end,
                ),
            decreases n - k,
        {
            let base = from + 2 + 4 * k;
            let e0 = win[base];
            let e1 = win[base + 1];
            let e2 = win[base + 2];
            let e3 = win[base + 3];
            proof {
                assert(e2 & 0x1f <= 0x1f) by (bit_vector);
            }
            let program_num: u16 = (e0 as u16) * 256 + (e1 as u16);
            let pid = Pid::new_masked(((e2 & 0x1f) as u16) * 256 + (e3 as u16));
            let entry = PatEntry { program_num, pid };
            proof {
                assert(b[2 + 4 * k] == e0);
                assert(b[2 + 4 * k + 1] == e1);
                assert(b[2 + 4 * k + 2] == e2);
                assert(b[2 + 4 * k + 3] == e3);
                assert(entry@ == spec_pat_entry(b, 2 + 4 * k as int));
                assert(spec_pat_entries(b, 2 + 4 * k, end) == seq![
                    spec_pat_entry(b, 2 + 4 * k),
                ] + spec_pat_entries(b, 2 + 4 * (k + 1), end));
                lemma_entries_view_push(entries@, entry);
                assert(entries_view(entries@.push(entry)) + spec_pat_entries(
                    b,
                    2 + 4 * (k + 1),
                    end,
                ) =~= entries_view(entries@) + spec_pat_entries(b, 2 + 4 * k, end));
            }
            entries.push(entry);
            k = k + 1;
        }
        proof {
            assert(spec_pat_entries(b, 2 + 4 * k, end) =~= Seq::<PatEntryV>::empty());
            assert(entries_view(entries@) + Seq::<PatEntryV>::empty() =~= entries_view(entries@));
        }
        let pat = Pat { section_syntax_indicator: (b0 & 0x80) != 0, entries };
        Ok(pat)
    }
}

} // verus!
