use mpeg2ts::adaptation::AdaptationField;
use mpeg2ts::error::EncodeError;
use mpeg2ts::header::{Pid, TsHeader};
use mpeg2ts::packet::{decode_window, TsPacket};
use mpeg2ts::payload::{Bytes, Null, Pat, PatEntry, TsPayload};

fn header(pid: u16) -> TsHeader {
    TsHeader {
        transport_error_indicator: false,
        payload_unit_start_indicator: true,
        transport_priority: false,
        pid: Pid::new(pid).expect("13-bit pid"),
        transport_scrambling_control: 0,
        continuity_counter: 7,
    }
}

#[test]
fn raw_packet_with_adaptation_field_round_trips() {
    let packet = TsPacket {
        header: header(0x0100),
        adaptation_field: Some(AdaptationField { bytes: vec![9, 8, 7] }),
        payload: Some(TsPayload::Raw(Bytes { bytes: vec![1u8; 180] })),
    };
    let w = packet.encode().expect("encodable packet");
    assert_eq!(w.len(), 188);
    assert_eq!(decode_window(&w), Ok(packet));
}

#[test]
fn pat_packet_round_trips() {
    let entries = vec![
        PatEntry { program_num: 1, pid: Pid::new(0x1000).unwrap() },
        PatEntry { program_num: 7, pid: Pid::new(0x0abc).unwrap() },
    ];
    let packet = TsPacket {
        header: header(0),
        adaptation_field: None,
        payload: Some(TsPayload::Pat(Pat { section_syntax_indicator: true, entries })),
    };
    let w = packet.encode().expect("encodable packet");
    assert_eq!(decode_window(&w), Ok(packet));
}

#[test]
fn stuffing_packet_round_trips() {
    let packet = TsPacket {
        header: header(0x1fff),
        adaptation_field: None,
        payload: Some(TsPayload::Null(Null)),
    };
    let w = packet.encode().expect("encodable packet");
    assert_eq!(decode_window(&w), Ok(packet));
}

#[test]
fn adaptation_field_only_packet_round_trips() {
    let packet = TsPacket {
        header: header(0x0042),
        adaptation_field: Some(AdaptationField { bytes: vec![0u8; 183] }),
        payload: None,
    };
    let w = packet.encode().expect("encodable packet");
    assert_eq!(decode_window(&w), Ok(packet));
}

#[test]
fn encode_rejects_a_payload_that_does_not_fill_the_window() {
    let packet = TsPacket {
        header: header(0x0100),
        adaptation_field: None,
        payload: Some(TsPayload::Raw(Bytes { bytes: vec![0u8; 10] })),
    };
    assert_eq!(packet.encode(), Err(EncodeError::NotEncodable));
}

#[test]
fn encode_rejects_a_payload_kind_contradicting_the_pid() {
    let packet = TsPacket {
        header: header(0x1fff),
        adaptation_field: None,
        payload: Some(TsPayload::Raw(Bytes { bytes: vec![0u8; 184] })),
    };
    assert_eq!(packet.encode(), Err(EncodeError::NotEncodable));
}
