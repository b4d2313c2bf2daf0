//! The assembled packet, the window decoder, and the window encoder.

use vstd::prelude::*;

use crate::adaptation::AdaptationField;
use crate::crc::crc32_range;
use crate::error::{DecodeError, EncodeError};
use crate::header::TsHeader;
use crate::model::{
    encodable, spec_af_bytes, spec_be32, spec_has_adaptation_field, spec_has_payload,
    spec_header, spec_pat_entries, spec_pat_entry, spec_pat_result, spec_payload_bytes,
    spec_payload_start, spec_section_length, spec_window_result, window_ok, window_packet,
    PacketV, PatEntryV,
    PayloadV, PACKET_SIZE, PID_MAX, PID_NULL, PID_PAT, SYNC_BYTE,
};
use crate::payload::{entries_view, Bytes, Null, Pat, TsPayload};

verus! {

/// One decoded packet: header, optional adaptation field, optional payload.
#[derive(Clone, Debug, PartialEq, Eq)]
pub struct TsPacket {
    pub header: TsHeader,
    pub adaptation_field: Option<AdaptationField>,
    pub payload: Option<TsPayload>,
}

impl View for TsPacket {
    type V = PacketV;

    open spec fn view(&self) -> PacketV {
        PacketV {
            header: self.header@,
            adaptation_field: match self.adaptation_field {
                Some(af) => Some(af@),
                None => None,
            },
            payload: match self.payload {
                Some(p) => Some(p@),
                None => None,
            },
        }
    }
}

/// Decodes one full 188-byte window into a packet: header, then the
/// adaptation field if flagged, then the payload selected by PID if
/// flagged; the window must be consumed exactly.
pub fn decode_window(win: &Vec<u8>) -> (r: Result<TsPacket, DecodeError>)
    requires
        win@.len() == PACKET_SIZE,
    ensures
        (match spec_window_result(win@) {
            Ok(pv) => r matches Ok(p) && p@ == pv,
            Err(e) => r matches Err(e2) && e2 == e,
        }),
{
    let (header, afc) = match TsHeader::read_from(win) {
        Ok(x) => x,
        Err(e) => { return Err(e) },
    };
    let mut pos: usize = 4;
    let adaptation_field = if afc.has_adaptation_field() {
        match AdaptationField::read_from(win) {
            Ok((af, next)) => {
                pos = next;
                Some(af)
            },
            Err(e) => { return Err(e) },
        }
    } else {
        None
    };
    let payload = if afc.has_payload() {
        let pid = header.pid.as_u16();
        let p = if pid == PID_PAT {
            match Pat::read_from(win, pos) {
                Ok(pat) => TsPayload::Pat(pat),
                Err(e) => { return Err(e) },
            }
        } else if pid == PID_NULL {
            TsPayload::Null(Null::read_from(win, pos))
        } else {
            // The reserved-unsupported identifiers and every other
            // unrecognized identifier alike fall back to the raw decoder.
            TsPayload::Raw(Bytes::read_from(win, pos))
        };
        pos = PACKET_SIZE;
        Some(p)
    } else {
        None
    };
    if pos != PACKET_SIZE {
        return Err(DecodeError::ResidualBytes);
    }
    Ok(TsPacket { header, adaptation_field, payload })
}

impl TsPacket {
    /// Encodes the packet back into one 188-byte window.
    ///
    /// Law (round trip): the result decodes to a packet equal to this one.
    /// Encoding succeeds exactly when the packet is `encodable`: its fields
    /// in range, its sizes filling the window exactly, and its payload kind
    /// agreeing with its PID.
    pub fn encode(&self) -> (r: Result<Vec<u8>, EncodeError>)
        ensures
            r is Ok <==> encodable(self@),
            r is Err ==> r == Err::<Vec<u8>, EncodeError>(EncodeError::NotEncodable),
            (r matches Ok(w) ==> w@.len() == PACKET_SIZE && window_ok(w@) && window_packet(w@)
                == self@),
    {
        if self.header.transport_scrambling_control > 3 {
            return Err(EncodeError::NotEncodable);
        }
        if self.header.continuity_counter > 15 {
            return Err(EncodeError::NotEncodable);
        }
        let pid = self.header.pid.as_u16();
        let af_size: usize = match &self.adaptation_field {
            Some(af) => {
                if af.bytes.len() > PACKET_SIZE - 5 {
                    return Err(EncodeError::NotEncodable);
                }
                1 + af.bytes.len()
            },
            None => 0,
        };
        let region: usize = PACKET_SIZE - 4 - af_size;
        match &self.payload {
            None => {
                if region != 0 {
                    return Err(EncodeError::NotEncodable);
                }
            },
            Some(TsPayload::Pat(pat)) => {
                if pid != PID_PAT {
                    return Err(EncodeError::NotEncodable);
                }
                if region < 6 {
                    return Err(EncodeError::NotEncodable);
                }
                if pat.entries.len() > (region - 6) / 4 {
                    return Err(EncodeError::NotEncodable);
                }
                let mut t: usize = 0;
                while t < pat.entries.len()
                    invariant
                        t <= pat.entries@.len(),
                        forall|j: int|
                            0 <= j < t ==> (#[trigger] entries_view(pat.entries@)[j]).pid
                                <= PID_MAX,
                    decreases pat.entries@.len() - t,
                {
                    let _bounded: u16 = pat.entries[t].pid.as_u16();
                    proof {
                        assert(entries_view(pat.entries@)[t as int] == pat.entries@[t as int]@);
                    }
                    t = t + 1;
                }
            },
            Some(TsPayload::Null(_)) => {
                if pid != PID_NULL {
                    return Err(EncodeError::NotEncodable);
                }
            },
            Some(TsPayload::Raw(b)) => {
                if pid == PID_PAT || pid == PID_NULL {
                    return Err(EncodeError::NotEncodable);
                }
                if b.bytes.len() != region {
                    return Err(EncodeError::NotEncodable);
                }
            },
        }
        assert(encodable(self@));
        let mut w: Vec<u8> = Vec::new();
        write_header(
            &mut w,
            &self.header,
            self.adaptation_field.is_some(),
            self.payload.is_some(),
        );
        let ghost h = w@;
        if let Some(af) = &self.adaptation_field {
            write_af(&mut w, af);
        }
        let ghost ha = w@;
        match &self.payload {
            None => {},
            Some(TsPayload::Pat(pat)) => write_pat(&mut w, pat),
            Some(TsPayload::Null(_)) => write_null(&mut w),
            Some(TsPayload::Raw(b)) => write_raw(&mut w, &b.bytes),
        }
        proof {
            assert(w@.len() == PACKET_SIZE);
            assert(w@.subrange(0, ha.len() as int) =~= ha);
            if self.adaptation_field is Some {
                assert(ha.subrange(0, 4) =~= h);
            }
            assert(w@[0] == h[0] && w@[1] == h[1] && w@[2] == h[2] && w@[3] == h[3]);
            assert(spec_header(w@) == spec_header(h));
            assert(spec_has_adaptation_field(w@) == (self.adaptation_field is Some));
            assert(spec_has_payload(w@) == (self.payload is Some));
            if let Some(af) = &self.adaptation_field {
                assert(w@[4] == ha[4] == af.bytes@.len() as u8);
                assert(5 + w@[4] as int == ha.len() as int <= PACKET_SIZE as int);
                assert(spec_af_bytes(w@) =~= ha.subrange(5, ha.len() as int));
                assert(spec_payload_start(w@) == ha.len());
            } else {
                assert(spec_payload_start(w@) == 4);
            }
            match &self.payload {
                None => {
                    assert(spec_payload_start(w@) == PACKET_SIZE as int);
                },
                Some(TsPayload::Pat(pat)) => {
                    assert(spec_payload_bytes(w@) == w@.subrange(
                        ha.len() as int,
                        PACKET_SIZE as int,
                    ));
                },
                Some(TsPayload::Null(_)) => {},
                Some(TsPayload::Raw(b)) => {
                    assert(spec_payload_bytes(w@) =~= b.bytes@);
                },
            }
            assert(spec_window_result(w@) matches Ok(pv) && pv =~= self@);
        }
        Ok(w)
    }
}

fn write_header(w: &mut Vec<u8>, header: &TsHeader, has_af: bool, has_payload: bool)
    requires
        old(w)@.len() == 0,
        header.transport_scrambling_control <= 3,
        header.continuity_counter <= 15,
    ensures
        final (w)@.len() == 4,
        final (w)@[0] == SYNC_BYTE,
        spec_header(final (w)@) == header@,
        spec_has_adaptation_field(final (w)@) == has_af,
        spec_has_payload(final (w)@) == has_payload,
{
    let pid = header.pid.as_u16();
    let sc = header.transport_scrambling_control;
    let cc = header.continuity_counter;
    let e8: u8 = if header.transport_error_indicator {
        0x80
    } else {
        0
    };
    let s8: u8 = if header.payload_unit_start_indicator {
        0x40
    } else {
        0
    };
    let p8: u8 = if header.transport_priority {
        0x20
    } else {
        0
    };
    proof {
        assert(pid / 256 <= 0x1f && pid % 256 <= 0xff) by (bit_vector)
            requires
                pid <= 0x1fff,
        ;
    }
    let hi: u8 = (pid / 256) as u8;
    let b1: u8 = e8 | s8 | p8 | hi;
    let b2: u8 = (pid % 256) as u8;
    let af8: u8 = if has_af {
        0x20
    } else {
        0
    };
    let pl8: u8 = if has_payload {
        0x10
    } else {
        0
    };
    let b3: u8 = (sc << 6u8) | af8 | pl8 | cc;
    w.push(SYNC_BYTE);
    w.push(b1);
    w.push(b2);
    w.push(b3);
    proof {
        assert(w@ =~= seq![SYNC_BYTE, b1, b2, b3]);
        assert((b1 & 0x80 != 0) == (e8 == 0x80) && (b1 & 0x40 != 0) == (s8 == 0x40) && (b1 & 0x20
            != 0) == (p8 == 0x20) && b1 & 0x1f == hi) by (bit_vector)
            requires
                e8 == 0 || e8 == 0x80,
                s8 == 0 || s8 == 0x40,
                p8 == 0 || p8 == 0x20,
                hi <= 0x1f,
                b1 == (e8 | s8 | p8 | hi),
        ;
        assert((hi as int) * 256 + (b2 as int) == pid) by (bit_vector)
            requires
                hi == (pid / 256) as u8,
                b2 == (pid % 256) as u8,
                pid <= 0x1fff,
        ;
        assert(b3 >> 6 == sc && (b3 & 0x20 != 0) == (af8 == 0x20) && (b3 & 0x10 != 0) == (pl8
            == 0x10) && b3 & 0x0f == cc) by (bit_vector)
            requires
                sc <= 3,
                cc <= 15,
                af8 == 0 || af8 == 0x20,
                pl8 == 0 || pl8 == 0x10,
                b3 == ((sc << 6u8) | af8 | pl8 | cc),
        ;
        assert(spec_header(w@) == header@);
    }
}

fn write_af(w: &mut Vec<u8>, af: &AdaptationField)
    requires
        old(w)@.len() == 4,
        af.bytes@.len() <= PACKET_SIZE as int - 5,
    ensures
        final (w)@.len() == 5 + af.bytes@.len(),
        final (w)@.subrange(0, 4) == old(w)@,
        final (w)@[4] == af.bytes@.len() as u8,
        final (w)@.subrange(5, final (w)@.len() as int) == af.bytes@,
{
    let lb: u8 = af.bytes.len() as u8;
    w.push(lb);
    let mut i: usize = 0;
    assert(w@ =~= old(w)@ + seq![lb] + af.bytes@.subrange(0, 0));
    while i < af.bytes.len()
        invariant
            i <= af.bytes@.len(),
            af.bytes@.len() <= PACKET_SIZE as int - 5,
            w@ == old(w)@ + seq![lb] + af.bytes@.subrange(0, i as int),
            old(w)@.len() == 4,
        decreases af.bytes@.len() - i,
    {
        w.push(af.bytes[i]);
        proof {
            assert(af.bytes@.subrange(0, i + 1) =~= af.bytes@.subrange(0, i as int).push(
                af.bytes@[i as int],
            ));
            assert((old(w)@ + seq![lb] + af.bytes@.subrange(0, i as int)).push(af.bytes@[i as int])
                =~= old(w)@ + seq![lb] + af.bytes@.subrange(0, i + 1));
        }
        i = i + 1;
    }
    proof {
        assert(af.bytes@.subrange(0, af.bytes@.len() as int) =~= af.bytes@);
        assert(w@.subrange(0, 4) =~= old(w)@);
        assert(w@.subrange(5, w@.len() as int) =~= af.bytes@);
    }
}

fn write_raw(w: &mut Vec<u8>, bytes: &Vec<u8>)
    requires
        old(w)@.len() + bytes@.len() <= PACKET_SIZE as int,
    ensures
        final (w)@ == old(w)@ + bytes@,
{
    let mut i: usize = 0;
    assert(w@ =~= old(w)@ + bytes@.subrange(0, 0));
    while i < bytes.len()
        invariant
            i <= bytes@.len(),
            old(w)@.len() + bytes@.len() <= PACKET_SIZE as int,
            w@ == old(w)@ + bytes@.subrange(0, i as int),
        decreases bytes@.len() - i,
    {
        w.push(bytes[i]);
        proof {
            assert(bytes@.subrange(0, i + 1) =~= bytes@.subrange(0, i as int).push(
                bytes@[i as int],
            ));
            assert((old(w)@ + bytes@.subrange(0, i as int)).push(bytes@[i as int]) =~= old(w)@
                + bytes@.subrange(0, i + 1));
        }
        i = i + 1;
    }
    proof {
        assert(bytes@.subrange(0, bytes@.len() as int) =~= bytes@);
    }
}

proof fn lemma_entry_bytes(pn: u16, pidv: u16)
    requires
        pidv <= 0x1fff,
    ensures
        (((pn / 256) as u8) as int) * 256 + (((pn % 256) as u8) as int) == pn,
        ((((0xe0u8 | ((pidv / 256) as u8)) & 0x1f) as int) * 256 + (((pidv % 256) as u8) as int)
            == pidv),
{
    assert((((pn / 256) as u8) as int) * 256 + (((pn % 256) as u8) as int) == pn) by (bit_vector);
    assert(((((0xe0u8 | ((pidv / 256) as u8)) & 0x1f) as int) * 256 + (((pidv % 256) as u8) as int)
        == pidv)) by (bit_vector)
        requires
            pidv <= 0x1fff,
    ;
}

proof fn lemma_pat_entries_match(b: Seq<u8>, entries: Seq<PatEntryV>, i: int)
    requires
        0 <= i <= entries.len(),
        2 + 4 * entries.len() <= b.len(),
        forall|j: int|
            i <= j < entries.len() ==> #[trigger] spec_pat_entry(b, 2 + 4 * j) == entries[j],
    ensures
        spec_pat_entries(b, 2 + 4 * i, 2 + 4 * entries.len() as int) == entries.skip(i),
    decreases entries.len() - i,
{
    if i < entries.len() {
        lemma_pat_entries_match(b, entries, i + 1);
        assert(spec_pat_entries(b, 2 + 4 * i, 2 + 4 * entries.len() as int) == seq![
            spec_pat_entry(b, 2 + 4 * i),
        ] + spec_pat_entries(b, 2 + 4 * (i + 1), 2 + 4 * entries.len() as int));
        assert(seq![entries[i]] + entries.skip(i + 1) =~= entries.skip(i));
    } else {
        assert(spec_pat_entries(b, 2 + 4 * i, 2 + 4 * entries.len() as int)
            == Seq::<PatEntryV>::empty());
        assert(entries.skip(i) =~= Seq::<PatEntryV>::empty());
    }
}

fn write_pat(w: &mut Vec<u8>, pat: &Pat)
    requires
        4 <= old(w)@.len(),
        old(w)@.len() + 6 + 4 * pat.entries@.len() <= PACKET_SIZE as int,
    ensures
        final (w)@.len() == PACKET_SIZE,
        final (w)@.subrange(0, old(w)@.len() as int) == old(w)@,
        spec_pat_result(final (w)@.subrange(old(w)@.len() as int, PACKET_SIZE as int)) == Ok::<
            _,
            DecodeError,
        >(pat@),
{
    let start = w.len();
    let n = pat.entries.len();
    let sl: usize = 4 + 4 * n;
    let syn: u8 = if pat.section_syntax_indicator {
        0x80
    } else {
        0
    };
    let lb: u8 = sl as u8;
    w.push(syn);
    w.push(lb);
    let mut k: usize = 0;
    proof {
        assert(w@ =~= old(w)@.push(syn).push(lb));
        assert(w@.subrange(0, start as int) =~= old(w)@);
    }
    while k < n
        invariant
            k <= n,
            n == pat.entries@.len(),
            start + 6 + 4 * n <= PACKET_SIZE as int,
            4 <= start,
            w@.len() == start + 2 + 4 * k,
            w@.subrange(0, start as int) == old(w)@,
            w@[start as int] == syn,
            w@[start + 1] == lb,
            forall|j: int|
                0 <= j < k ==> {
                    let e = #[trigger] entries_view(pat.entries@)[j];
                    &&& w@[start + 2 + 4 * j] == ((e.program_num / 256) as u8)
                    &&& w@[start + 2 + 4 * j + 1] == ((e.program_num % 256) as u8)
                    &&& w@[start + 2 + 4 * j + 2] == (0xe0u8 | ((e.pid / 256) as u8))
                    &&& w@[start + 2 + 4 * j + 3] == ((e.pid % 256) as u8)
                    &&& e.pid <= PID_MAX
                },
        decreases n - k,
    {
        let e = pat.entries[k];
        let pn = e.program_num;
        let pidv = e.pid.as_u16();
        w.push((pn / 256) as u8);
        w.push((pn % 256) as u8);
        w.push(0xe0u8 | ((pidv / 256) as u8));
        w.push((pidv % 256) as u8);
        proof {
            assert(entries_view(pat.entries@)[k as int] == pat.entries@[k as int]@);
        }
        k = k + 1;
    }
    let crc_end = start + 2 + 4 * n;
    let ghost wsec = w@;
    let crc = crc32_range(w, start, crc_end);
    let c0: u8 = #[verifier::truncate] ((crc >> 24u32) as u8);
    let c1: u8 = #[verifier::truncate] ((crc >> 16u32) as u8);
    let c2: u8 = #[verifier::truncate] ((crc >> 8u32) as u8);
    let c3: u8 = #[verifier::truncate] (crc as u8);
    w.push(c0);
    w.push(c1);
    w.push(c2);
    w.push(c3);
    let ghost wfull = w@;
    write_null(w);
    proof {
        let b = w@.subrange(start as int, PACKET_SIZE as int);
        assert(w@.subrange(0, wfull.len() as int) == wfull);
        assert forall|i: int| 0 <= i < wfull.len() implies w@[i] == wfull[i] by {
            assert(w@.subrange(0, wfull.len() as int)[i] == w@[i]);
        }
        assert forall|i: int| 0 <= i < wsec.len() implies wfull[i] == wsec[i] by {}
        assert(w@.subrange(0, start as int) =~= old(w)@);
        // the two leading bytes
        assert(b[0] == syn && b[1] == lb);
        assert(syn & 0x0f == 0 && syn & 0x80 == syn) by (bit_vector)
            requires
                syn == 0 || syn == 0x80,
        ;
        assert(((b[0] & 0x0f) as int) * 256 + (b[1] as int) == sl);
        assert(spec_section_length(b) == sl);
        // the section fits and its entries are aligned
        assert(2 + sl <= b.len());
        assert((4 * n) % 4 == 0) by (nonlinear_arith);
        // the checksum covers the section up to its trailer
        assert(b.take(2 + sl - 4) =~= wsec.subrange(start as int, crc_end as int));
        assert(wsec.len() == crc_end);
        assert(wfull == wsec.push(c0).push(c1).push(c2).push(c3));
        assert(wfull[crc_end as int] == c0);
        assert(wfull[crc_end + 1] == c1);
        assert(wfull[crc_end + 2] == c2);
        assert(wfull[crc_end + 3] == c3);
        assert(start + (2 + sl - 4) == crc_end);
        assert(b[2 + sl - 4] == w@[crc_end as int]);
        assert(b[2 + sl - 4] == c0 && b[2 + sl - 4 + 1] == c1 && b[2 + sl - 4 + 2] == c2 && b[2 + sl
            - 4 + 3] == c3);
        assert((((crc >> 24u32) as u8) as u32) << 24 | (((crc >> 16u32) as u8) as u32) << 16 | (((
        crc >> 8u32) as u8) as u32) << 8 | ((crc as u8) as u32) == crc) by (bit_vector);
        assert(spec_be32(b, 2 + sl - 4) == crc);
        // the entries
        assert forall|j: int| 0 <= j < n implies #[trigger] spec_pat_entry(b, 2 + 4 * j)
            == entries_view(pat.entries@)[j] by {
            let e = entries_view(pat.entries@)[j];
            assert(b[2 + 4 * j] == wsec[start + 2 + 4 * j]);
            assert(b[2 + 4 * j + 1] == wsec[start + 2 + 4 * j + 1]);
            assert(b[2 + 4 * j + 2] == wsec[start + 2 + 4 * j + 2]);
            assert(b[2 + 4 * j + 3] == wsec[start + 2 + 4 * j + 3]);
            lemma_entry_bytes(e.program_num, e.pid);
        }
        lemma_pat_entries_match(b, entries_view(pat.entries@), 0);
        assert(entries_view(pat.entries@).skip(0) =~= entries_view(pat.entries@));
        assert(spec_pat_result(b) == Ok::<_, DecodeError>(pat@));
    }
}

fn write_null(w: &mut Vec<u8>)
    requires
        old(w)@.len() <= PACKET_SIZE as int,
    ensures
        final (w)@.len() == PACKET_SIZE,
        final (w)@.subrange(0, old(w)@.len() as int) == old(w)@,
{
    assert(w@.subrange(0, old(w)@.len() as int) =~= old(w)@);
    while w.len() < PACKET_SIZE
        invariant
            old(w)@.len() <= w@.len() <= PACKET_SIZE as int,
            w@.subrange(0, old(w)@.len() as int) == old(w)@,
        decreases PACKET_SIZE as int - w@.len(),
    {
        w.push(0xff);
        proof {
            assert(w@.subrange(0, old(w)@.len() as int) =~= old(w)@);
        }
    }
}

} // verus!
