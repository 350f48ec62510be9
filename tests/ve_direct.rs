use bytes::BytesMut;
use hab_victron::mppt::{
    ErrorCode, Mppt, MpptFrame, OffReason, StateOfOperation, BMS, NO_INPUT_POWER, REMOTE_INPUT,
};
use hab_victron::ve_direct::{decode_bytes, to_upper, State, VeDirectMpptDecoder};

const BLOCK: &[u8] = b"\r\nERR\t0\r\nLOAD\tON\r\nRelay\tOFF\r\nH19\t29051\r\nH20\t725\r\nH21\t1376\r\nH22\t917\r\nH23\t1419\r\nHSDS\t191\r\nChecksum\t\xd2";

/// Appends a checksum record that makes the block sum to zero.
fn close_block(body: &[u8]) -> Vec<u8> {
    let mut v = body.to_vec();
    v.extend_from_slice(b"\r\nChecksum\t");
    let sum: u8 = v.iter().fold(0u8, |a, b| a.wrapping_add(*b));
    v.push(0u8.wrapping_sub(sum));
    v
}

fn decode_all(bytes: &[u8]) -> (Vec<MpptFrame>, BytesMut, VeDirectMpptDecoder) {
    let mut decoder = VeDirectMpptDecoder::new();
    let mut buf = BytesMut::from(bytes);
    let mut frames = Vec::new();
    for _ in 0..64 {
        if let Some(f) = decoder.decode(&mut buf, 7) {
            frames.push(f);
        }
    }
    (frames, buf, decoder)
}

fn assert_known_frame(f: &MpptFrame, yield_total: u64, yield_today: u32) {
    assert!(matches!(f.error, Some(ErrorCode::NoError)));
    assert_eq!(f.load_state, Some(true));
    assert_eq!(f.relay_state, Some(false));
    assert_eq!(f.yield_total, Some(yield_total));
    assert_eq!(f.yield_today, Some(yield_today));
    assert_eq!(f.maximum_power_today, Some(1376));
    assert_eq!(f.yield_yesterday, Some(9170));
    assert_eq!(f.maximum_power_yesterday, Some(1419));
    assert_eq!(f.day_number, Some(191));
    assert_eq!(f.battery_voltage, None);
    assert_eq!(f.timestamp, Some(7));
}

#[test]
fn test_parse_frame() {
    let mut decoder = VeDirectMpptDecoder::default();
    let mut buf = BytesMut::from(BLOCK);
    let frame = decoder.decode(&mut buf, 7).expect("a frame");
    assert_known_frame(&frame, 290510, 7250);
    assert!(buf.is_empty());
    assert_eq!(decoder.state(), State::Crlf);
}

#[test]
fn test_parse_frame_with_hex() {
    let data = b":A200100ADB50200C6\n\r\nERR\t0\r\nLOAD\tON\r\nRelay\tOFF\r\nH19\t29067\r\nH20\t741\r\nH21\t1376\r\nH22\t917\r\nH23\t1419\r\nHSDS\t191\r\nChecksum\t\xcd";
    let mut decoder = VeDirectMpptDecoder::default();
    let mut buf = BytesMut::from(&data[..]);
    let frame = decoder.decode(&mut buf, 7).expect("a frame");
    assert_known_frame(&frame, 290670, 7410);
    assert!(buf.is_empty());
    assert_eq!(decoder.state(), State::Crlf);
}

#[test]
fn known_vector_leaves_following_bytes() {
    let mut data = BLOCK.to_vec();
    data.extend_from_slice(b"\r\nV\t12");
    let mut decoder = VeDirectMpptDecoder::new();
    let mut buf = BytesMut::from(&data[..]);
    assert!(decoder.decode(&mut buf, 7).is_some());
    assert_eq!(&buf[..], b"\r\nV\t12");
    assert!(decoder.decode(&mut buf, 7).is_none());
    assert_eq!(&buf[..], b"\r\nV\t12");
}

#[test]
fn byte_at_a_time_gives_the_same_frame() {
    let mut decoder = VeDirectMpptDecoder::new();
    let mut buf = BytesMut::new();
    let mut frames = Vec::new();
    for b in BLOCK {
        buf.extend_from_slice(&[*b]);
        if let Some(f) = decoder.decode(&mut buf, 7) {
            frames.push(f);
        }
    }
    assert_eq!(frames.len(), 1);
    assert_known_frame(&frames[0], 290510, 7250);
    assert!(buf.is_empty());
}

#[test]
fn split_in_two_gives_the_same_frame() {
    for cut in 0..BLOCK.len() {
        let mut decoder = VeDirectMpptDecoder::new();
        let mut buf = BytesMut::from(&BLOCK[..cut]);
        assert!(decoder.decode(&mut buf, 7).is_none());
        buf.extend_from_slice(&BLOCK[cut..]);
        let f = decoder.decode(&mut buf, 7).expect("a frame");
        assert_known_frame(&f, 290510, 7250);
    }
}

#[test]
fn flipped_byte_drops_the_frame() {
    for i in 0..BLOCK.len() {
        let mut data = BLOCK.to_vec();
        data[i] ^= 0x01;
        if data[i] == b':' {
            continue;
        }
        let (frames, _, _) = decode_all(&data);
        assert!(frames.is_empty(), "byte {} flipped", i);
    }
}

#[test]
fn bad_checksum_resynchronises_on_next_block() {
    let mut data = BLOCK.to_vec();
    let last = data.len() - 1;
    data[last] = 0xd3;
    data.extend_from_slice(BLOCK);
    let (frames, buf, _) = decode_all(&data);
    assert_eq!(frames.len(), 1);
    assert_known_frame(&frames[0], 290510, 7250);
    assert!(buf.is_empty());
}

#[test]
fn unknown_label_does_not_stop_decoding() {
    let mut data = close_block(b"\r\nV\t12800\r\nBMV\t700\r\nI\t-150");
    data.extend_from_slice(BLOCK);
    let (frames, _, _) = decode_all(&data);
    assert_eq!(frames.len(), 1);
    assert_known_frame(&frames[0], 290510, 7250);
}

#[test]
fn garbage_before_block_is_dropped() {
    let mut data = b"xx\tyy\rzz".to_vec();
    data.extend_from_slice(BLOCK);
    let (frames, buf, _) = decode_all(&data);
    assert_eq!(frames.len(), 1);
    assert!(buf.is_empty());
}

#[test]
fn unsynchronised_keeps_trailing_cr() {
    let mut decoder = VeDirectMpptDecoder::new();
    let mut buf = BytesMut::from(&b"noise\r"[..]);
    assert!(decoder.decode(&mut buf, 0).is_none());
    assert_eq!(&buf[..], b"\r");
    assert_eq!(decoder.state(), State::Unsynchronized);
    let mut buf = BytesMut::from(&b"noise"[..]);
    assert!(decoder.decode(&mut buf, 0).is_none());
    assert!(buf.is_empty());
}

#[test]
fn all_fields_are_decoded() {
    let data = close_block(
        b"\r\nV\t12800\r\nVPV\t37250\r\nPPV\t92\r\nI\t-1500\r\nIL\t+300\r\nLOAD\tOFF\r\nRELAY\tON\r\nOR\t0x00000005\r\nH19\t3\r\nH20\t4\r\nH21\t5\r\nH22\t6\r\nH23\t7\r\nERR\t119\r\nCS\t252\r\nFW\t159\r\nPID\t0xA053\r\nSER#\tHQ1328Y6TF\r\nHSDS\t364\r\nMPPT\t2",
    );
    let (frames, _, _) = decode_all(&data);
    assert_eq!(frames.len(), 1);
    let f = &frames[0];
    assert_eq!(f.battery_voltage, Some(12800));
    assert_eq!(f.panel_voltage, Some(37250));
    assert_eq!(f.panel_power, Some(92));
    assert_eq!(f.battery_current, Some(-1500));
    assert_eq!(f.load_current, Some(300));
    assert_eq!(f.load_state, Some(false));
    assert_eq!(f.relay_state, Some(true));
    assert_eq!(f.off_reason.map(|o| o.bits()), Some(5));
    assert_eq!(f.yield_total, Some(30));
    assert_eq!(f.yield_today, Some(40));
    assert_eq!(f.maximum_power_today, Some(5));
    assert_eq!(f.yield_yesterday, Some(60));
    assert_eq!(f.maximum_power_yesterday, Some(7));
    assert!(matches!(f.error, Some(ErrorCode::InvalidUserSettings)));
    assert!(matches!(f.state, Some(StateOfOperation::ExternalControl)));
    assert_eq!(f.firmware_version.as_deref(), Some("159"));
    assert_eq!(f.product_id, Some(0xa053));
    assert_eq!(f.serial_number.as_deref(), Some("HQ1328Y6TF"));
    assert_eq!(f.day_number, Some(364));
    assert!(matches!(f.mppt_status, Some(Mppt::MpptTrackerActive)));
}

#[test]
fn unreadable_values_leave_fields_absent() {
    let data = close_block(
        b"\r\nV\t12x00\r\nPPV\t65536\r\nI\t\r\nLOAD\ton\r\nOR\t0x00000200\r\nERR\t1\r\nCS\t8\r\nMPPT\t3\r\nPID\t5\r\nH19\t4294967295",
    );
    let (frames, _, _) = decode_all(&data);
    assert_eq!(frames.len(), 1);
    let f = &frames[0];
    assert_eq!(f.battery_voltage, None);
    assert_eq!(f.panel_power, None);
    assert_eq!(f.battery_current, None);
    assert_eq!(f.load_state, None);
    assert!(f.off_reason.is_none());
    assert!(f.error.is_none());
    assert!(f.state.is_none());
    assert!(f.mppt_status.is_none());
    assert_eq!(f.product_id, None);
    assert_eq!(f.yield_total, Some(42949672950));
}

#[test]
fn lower_case_labels_are_recognised() {
    let data = close_block(b"\r\nvpv\t100\r\nChecksuM\t");
    let (frames, _, _) = decode_all(&data);
    assert_eq!(frames.len(), 0);
    let data = close_block(b"\r\nvpv\t100");
    let (frames, _, _) = decode_all(&data);
    assert_eq!(frames.len(), 1);
    assert_eq!(frames[0].panel_voltage, Some(100));
}

#[test]
fn too_long_label_or_value_drops_the_block() {
    let data = close_block(b"\r\nVERYLONGLABEL\t1");
    assert!(decode_all(&data).0.is_empty());
    let mut long_value = b"\r\nFW\t".to_vec();
    long_value.extend_from_slice(&[b'1'; 34]);
    assert!(decode_all(&close_block(&long_value)).0.is_empty());
    let mut max_value = b"\r\nFW\t".to_vec();
    max_value.extend_from_slice(&[b'1'; 33]);
    assert_eq!(decode_all(&close_block(&max_value)).0.len(), 1);
}

#[test]
fn invalid_utf8_value_drops_the_block() {
    let data = close_block(b"\r\nSER#\tAB\xff\xfe");
    assert!(decode_all(&data).0.is_empty());
}

#[test]
fn hex_record_inside_block_is_left_out_of_checksum() {
    let data = close_block(b"\r\nV\t12800\r\nPPV\t3");
    let hex = b":A0102000543\n";
    let pos = data.len() - b"\r\nChecksum\t".len() - 1;
    let mut with_hex = data[..pos].to_vec();
    with_hex.extend_from_slice(hex);
    with_hex.extend_from_slice(&data[pos..]);
    let (frames, buf, _) = decode_all(&with_hex);
    assert_eq!(frames.len(), 1);
    assert_eq!(frames[0].battery_voltage, Some(12800));
    assert_eq!(frames[0].panel_power, None);
    assert!(buf.is_empty());
}

#[test]
fn decode_bytes_reports_consumption() {
    let (frame, consumed, state) = decode_bytes(State::Unsynchronized, BLOCK);
    assert!(frame.is_some());
    assert_eq!(consumed, BLOCK.len());
    assert_eq!(state, State::Crlf);
    let (frame, consumed, state) = decode_bytes(State::Crlf, &BLOCK[..20]);
    assert!(frame.is_none());
    assert_eq!(consumed, 0);
    assert_eq!(state, State::Crlf);
    let (frame, consumed, state) = decode_bytes(State::Unsynchronized, b"ab\r\nV\t1");
    assert!(frame.is_none());
    assert_eq!(consumed, 2);
    assert_eq!(state, State::Crlf);
}

#[test]
fn enum_tables() {
    assert!(matches!(StateOfOperation::from_u32(9), Some(StateOfOperation::Inverting)));
    assert!(StateOfOperation::from_u32(8).is_none());
    assert!(matches!(ErrorCode::from_u32(2), Some(ErrorCode::BatteryVoltageHigh)));
    assert!(ErrorCode::from_u32(3).is_none());
    assert!(matches!(Mppt::from_u32(1), Some(Mppt::VoltageOrCurrentLimited)));
    assert!(Mppt::from_u32(3).is_none());
    assert_eq!(OffReason::from_bits(0x1ff).map(|o| o.bits()), Some(0x1ff));
    assert!(OffReason::from_bits(0x200).is_none());
}

#[test]
fn upper_case_of_bytes() {
    assert_eq!(to_upper(b'a'), b'A');
    assert_eq!(to_upper(b'z'), b'Z');
    assert_eq!(to_upper(b'A'), b'A');
    assert_eq!(to_upper(b'#'), b'#');
    assert_eq!(to_upper(0xe1), 0xe1);
}

#[test]
fn readable_names() {
    assert_eq!(ErrorCode::InputShutdownDueToBatteryVoltage.text(), "Input Shutdown Due To Battery Voltage");
    assert_eq!(StateOfOperation::LowPower.text(), "Low Power");
    let or = OffReason::from_bits(NO_INPUT_POWER | REMOTE_INPUT).expect("known bits");
    assert!(or.contains(NO_INPUT_POWER));
    assert!(or.contains(REMOTE_INPUT));
    assert!(!or.contains(BMS));
    assert!(!or.contains(NO_INPUT_POWER | BMS));
}
