use mpeg2ts::crc::crc32_range;
use mpeg2ts::error::DecodeError;
use mpeg2ts::header::Pid;
use mpeg2ts::packet::decode_window;
use mpeg2ts::payload::TsPayload;
use mpeg2ts::reader::TsPacketNotSoPickyReader;
use mpeg2ts::stream::ByteStream;

fn window_with(pid: u16, afc: u8, fill: u8) -> Vec<u8> {
    let mut w = vec![fill; 188];
    w[0] = 0x47;
    w[1] = ((pid >> 8) & 0x1f) as u8;
    w[2] = (pid & 0xff) as u8;
    w[3] = (afc & 0x03) << 4;
    w
}

fn pat_window(entries: &[(u16, u16)]) -> Vec<u8> {
    let mut w = window_with(0, 0b01, 0xff);
    let sl = 4 + 4 * entries.len();
    w[4] = 0x80;
    w[5] = sl as u8;
    let mut i = 6;
    for &(pn, pid) in entries {
        w[i] = (pn >> 8) as u8;
        w[i + 1] = (pn & 0xff) as u8;
        w[i + 2] = 0xe0 | (((pid >> 8) & 0x1f) as u8);
        w[i + 3] = (pid & 0xff) as u8;
        i += 4;
    }
    let crc = crc32_range(&w, 4, i);
    w[i] = (crc >> 24) as u8;
    w[i + 1] = (crc >> 16) as u8;
    w[i + 2] = (crc >> 8) as u8;
    w[i + 3] = crc as u8;
    w
}

fn reader_over(bytes: Vec<u8>) -> TsPacketNotSoPickyReader {
    TsPacketNotSoPickyReader::new(ByteStream::new(bytes))
}

#[test]
fn crc32_known_check_value() {
    let data: Vec<u8> = b"123456789".to_vec();
    assert_eq!(crc32_range(&data, 0, 9), 0x0376e6e7);
}

#[test]
fn crc32_of_empty_range_is_initial_value() {
    let data: Vec<u8> = vec![1, 2, 3];
    assert_eq!(crc32_range(&data, 1, 1), 0xffff_ffff);
}

#[test]
fn empty_stream_is_clean_end_of_stream() {
    let mut reader = reader_over(Vec::new());
    assert_eq!(reader.read_ts_packet(), Ok(None));
}

#[test]
fn second_read_after_one_window_is_end_of_stream() {
    let w = window_with(0x1fff, 0b01, 0x00);
    let mut reader = reader_over(w);
    let first = reader.read_ts_packet().expect("first window decodes");
    assert!(first.is_some());
    assert_eq!(reader.read_ts_packet(), Ok(None));
}

#[test]
fn truncated_window_is_an_error_not_eos() {
    let w = window_with(0x0100, 0b01, 0xab);
    let mut reader = reader_over(w[..100].to_vec());
    assert_eq!(
        reader.read_ts_packet(),
        Err(DecodeError::UnexpectedEndOfStream)
    );
}

#[test]
fn zero_filled_tail_after_windows_is_not_eos() {
    let mut bytes = window_with(0x1fff, 0b01, 0x00);
    bytes.extend_from_slice(&[0u8; 100]);
    let mut reader = reader_over(bytes);
    assert!(reader.read_ts_packet().unwrap().is_some());
    assert_eq!(
        reader.read_ts_packet(),
        Err(DecodeError::UnexpectedEndOfStream)
    );
}

#[test]
fn payload_only_window_has_no_adaptation_field() {
    let w = window_with(0x0100, 0b01, 0x55);
    let p = decode_window(&w).expect("valid window");
    assert!(p.adaptation_field.is_none());
    match p.payload {
        Some(TsPayload::Raw(b)) => assert_eq!(b.bytes, w[4..].to_vec()),
        other => panic!("expected raw payload, got {:?}", other),
    }
}

#[test]
fn header_fields_are_unpacked_exactly() {
    let mut w = window_with(0, 0b01, 0x00);
    w[1] = 0b1110_0001;
    w[2] = 0x23;
    w[3] = 0b1001_0101;
    let p = decode_window(&w).expect("valid window");
    assert!(p.header.transport_error_indicator);
    assert!(p.header.payload_unit_start_indicator);
    assert!(p.header.transport_priority);
    assert_eq!(p.header.pid.as_u16(), 0x0123);
    assert_eq!(p.header.transport_scrambling_control, 2);
    assert_eq!(p.header.continuity_counter, 5);
}

#[test]
fn pat_window_decodes_mapping_list() {
    let w = pat_window(&[(1, 0x1000), (2, 0x1001)]);
    let p = decode_window(&w).expect("valid association table");
    match p.payload {
        Some(TsPayload::Pat(pat)) => {
            assert!(pat.section_syntax_indicator);
            assert_eq!(pat.entries.len(), 2);
            assert_eq!(pat.entries[0].program_num, 1);
            assert_eq!(pat.entries[0].pid.as_u16(), 0x1000);
            assert_eq!(pat.entries[1].program_num, 2);
            assert_eq!(pat.entries[1].pid.as_u16(), 0x1001);
        }
        other => panic!("expected association table, got {:?}", other),
    }
}

#[test]
fn pat_with_corrupted_checksum_is_an_error() {
    let mut w = pat_window(&[(1, 0x1000)]);
    w[10] ^= 0x01;
    assert_eq!(decode_window(&w), Err(DecodeError::PatBadChecksum));
}

#[test]
fn pat_with_overlong_declared_length_is_an_error() {
    let mut w = window_with(0, 0b01, 0xff);
    w[4] = 0x8f;
    w[5] = 0xff;
    assert_eq!(decode_window(&w), Err(DecodeError::PatSectionLengthMismatch));
}

#[test]
fn pat_with_zero_declared_length_is_an_error() {
    let mut w = window_with(0, 0b01, 0xff);
    w[4] = 0x80;
    w[5] = 0x00;
    assert_eq!(decode_window(&w), Err(DecodeError::PatSectionTooShort));
}

#[test]
fn pat_with_misaligned_body_is_an_error() {
    let mut w = window_with(0, 0b01, 0xff);
    w[4] = 0x80;
    w[5] = 0x06;
    assert_eq!(decode_window(&w), Err(DecodeError::PatEntriesMisaligned));
}

#[test]
fn stuffing_pid_decodes_as_stuffing_regardless_of_content() {
    let w = window_with(0x1fff, 0b01, 0xa5);
    let p = decode_window(&w).expect("stuffing window");
    assert!(matches!(p.payload, Some(TsPayload::Null(_))));
}

#[test]
fn reserved_and_unrecognized_pids_both_decode_raw() {
    let reserved = window_with(0x0010, 0b01, 0x42);
    let ordinary = window_with(0x0100, 0b01, 0x42);
    let p1 = decode_window(&reserved).expect("reserved pid");
    let p2 = decode_window(&ordinary).expect("ordinary pid");
    let b1 = match p1.payload {
        Some(TsPayload::Raw(b)) => b.bytes,
        other => panic!("expected raw payload, got {:?}", other),
    };
    let b2 = match p2.payload {
        Some(TsPayload::Raw(b)) => b.bytes,
        other => panic!("expected raw payload, got {:?}", other),
    };
    assert_eq!(b1.len(), b2.len());
    assert_eq!(b1, reserved[4..].to_vec());
    assert_eq!(b2, ordinary[4..].to_vec());
}

#[test]
fn wrong_sync_byte_is_an_error() {
    let mut w = window_with(0x0100, 0b01, 0x00);
    w[0] = 0x48;
    assert_eq!(decode_window(&w), Err(DecodeError::InvalidSyncByte));
}

#[test]
fn adaptation_field_overrunning_window_is_an_error() {
    let mut w = window_with(0x0100, 0b10, 0x00);
    w[4] = 200;
    assert_eq!(decode_window(&w), Err(DecodeError::AdaptationFieldTooLong));
}

#[test]
fn short_adaptation_field_without_payload_leaves_residual_bytes() {
    let mut w = window_with(0x0100, 0b10, 0x00);
    w[4] = 10;
    assert_eq!(decode_window(&w), Err(DecodeError::ResidualBytes));
}

#[test]
fn adaptation_control_zero_leaves_residual_bytes() {
    let w = window_with(0x0100, 0b00, 0x00);
    assert_eq!(decode_window(&w), Err(DecodeError::ResidualBytes));
}

#[test]
fn full_length_adaptation_field_without_payload_decodes() {
    let mut w = window_with(0x0100, 0b10, 0x77);
    w[4] = 183;
    let p = decode_window(&w).expect("field fills the window");
    let af = p.adaptation_field.expect("field present");
    assert_eq!(af.bytes, w[5..].to_vec());
    assert!(p.payload.is_none());
}

#[test]
fn adaptation_field_and_payload_share_the_window() {
    let mut w = window_with(0x0100, 0b11, 0x33);
    w[4] = 3;
    w[5] = 1;
    w[6] = 2;
    w[7] = 3;
    let p = decode_window(&w).expect("valid window");
    assert_eq!(p.adaptation_field.unwrap().bytes, vec![1, 2, 3]);
    match p.payload {
        Some(TsPayload::Raw(b)) => assert_eq!(b.bytes, w[8..].to_vec()),
        other => panic!("expected raw payload, got {:?}", other),
    }
}

#[test]
fn pid_new_rejects_values_over_13_bits() {
    assert_eq!(Pid::new(0x1fff).map(|p| p.as_u16()), Some(0x1fff));
    assert!(Pid::new(0x2000).is_none());
}

#[test]
fn reader_accessors_expose_the_stream() {
    let bytes = window_with(0x1fff, 0b01, 0x00);
    let mut reader = reader_over(bytes.clone());
    assert_eq!(reader.stream().position(), 0);
    reader.read_ts_packet().unwrap();
    assert_eq!(reader.stream().position(), 188);
    let stream = reader.into_stream();
    assert_eq!(stream.into_data(), bytes);
}
