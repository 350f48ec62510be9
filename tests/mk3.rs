use bytes::BytesMut;
use hab_victron::mk3::{
    checksum_ok, decode_info_frame, decode_step, decode_synchronized, decode_unsynchronized,
    poll_requests, AcState, Frame, RequestFrame, VeMk3Codec,
};
use hab_victron::number::{parse_digits, parse_i32, parse_unsigned};

const VERSION: [u8; 9] = [0x07, 0xff, 0x56, 0x01, 0x02, 0x03, 0x04, 0x05, 0x95];

fn dc_frame() -> Vec<u8> {
    let mut f = vec![0x0f, 0x20];
    f.extend_from_slice(&[
        0x01, 0x02, 0x03, 0x04, 0x0c, 0x5a, 0x0a, 0x7b, 0x00, 0x00, 0xc8, 0x01, 0x00, 200,
    ]);
    f.push(0x00);
    f
}

#[test]
fn version_frame_synchronises_then_dc_frame_decodes() {
    let mut codec = VeMk3Codec::new();
    let mut buf = BytesMut::from(&VERSION[..]);
    buf.extend_from_slice(&dc_frame());
    assert_eq!(codec.decode(&mut buf), Some(Frame::Version));
    assert!(codec.is_synchronized());
    match codec.decode(&mut buf) {
        Some(Frame::Dc { dc }) => {
            assert_eq!(dc.voltage, 2650);
            assert_eq!(dc.inverter_current, 123);
            assert_eq!(dc.inverter_watts, 2650 * 123);
            assert_eq!(dc.charger_current, 456);
            assert_eq!(dc.charger_watts, 2650 * 456);
            assert_eq!(dc.inverter_period, 200);
        }
        other => panic!("unexpected {:?}", other),
    }
    assert!(buf.is_empty());
}

#[test]
fn garbage_is_skipped_to_next_marker() {
    let mut codec = VeMk3Codec::default();
    let mut buf = BytesMut::from(&[0x07u8, 0x01, 0x02, 0x03, 0x04, 0x05, 0x06, 0x07, 0x08, 0x09][..]);
    assert_eq!(codec.decode(&mut buf), None);
    assert!(!codec.is_synchronized());
    assert_eq!(&buf[..], &[0x07u8, 0x08, 0x09][..]);
    let mut buf = BytesMut::from(&[0x01u8, 0x02, 0x03, 0x04, 0x05, 0x06, 0x08, 0x09, 0x0a][..]);
    assert_eq!(codec.decode(&mut buf), None);
    assert!(buf.is_empty());
}

#[test]
fn version_frame_with_bad_checksum_is_skipped() {
    let mut codec = VeMk3Codec::new();
    let mut bad = VERSION;
    bad[8] = 0x96;
    let mut buf = BytesMut::from(&bad[..]);
    buf.extend_from_slice(&VERSION);
    assert_eq!(codec.decode(&mut buf), None);
    assert!(!codec.is_synchronized());
    assert_eq!(buf.len(), 9);
    assert_eq!(codec.decode(&mut buf), Some(Frame::Version));
    assert!(codec.is_synchronized());
}

#[test]
fn fewer_than_nine_bytes_wait() {
    let mut codec = VeMk3Codec::new();
    let mut buf = BytesMut::new();
    for b in VERSION.iter().take(8) {
        buf.extend_from_slice(&[*b]);
        assert_eq!(codec.decode(&mut buf), None);
        assert!(!codec.is_synchronized());
    }
    assert_eq!(buf.len(), 8);
    buf.extend_from_slice(&VERSION[8..]);
    assert_eq!(codec.decode(&mut buf), Some(Frame::Version));
}

#[test]
fn partial_synchronised_frame_waits() {
    let frame = dc_frame();
    let (f, n, s) = decode_step(true, &frame[..16]);
    assert_eq!((f, n, s), (None, 0, true));
    let (f, n, _) = decode_step(true, &frame);
    assert!(matches!(f, Some(Frame::Dc { .. })));
    assert_eq!(n, 17);
}

#[test]
fn led_status_ors_on_and_blink() {
    let frame = [0x04u8, 0xff, 0x4c, 0x81, 0x02, 0x00];
    let (f, n, s) = decode_step(true, &frame);
    assert_eq!(n, 6);
    assert!(s);
    match f {
        Some(Frame::LedStatus { led_status }) => {
            assert!(led_status.mains);
            assert!(led_status.absorption);
            assert!(!led_status.bulk);
            assert!(!led_status.float);
            assert!(!led_status.inverter);
            assert!(!led_status.overload);
            assert!(!led_status.low_battery);
            assert!(led_status.temperature);
        }
        other => panic!("unexpected {:?}", other),
    }
}

#[test]
fn ac_info_frame() {
    let d = [
        0x11u8, 0x22, 0x00, 0x09, 0x08, 0x10, 0x5a, 0x32, 0x00, 0x00, 0x5b, 0x64, 0x00, 100,
    ];
    match decode_info_frame(&d) {
        Frame::Ac { ac } => {
            assert_eq!(ac.bf_factor, 0x11);
            assert_eq!(ac.inverter_factor, 0x22);
            assert_eq!(ac.state, AcState::Charge);
            assert_eq!(ac.mains_voltage, 0x5a10);
            assert_eq!(ac.mains_current, 0x32);
            assert_eq!(ac.mains_watts, 0x5a10 * 0x32);
            assert_eq!(ac.inverter_voltage, 0x5b00);
            assert_eq!(ac.inverter_current, 0x64);
            assert_eq!(ac.inverter_watts, 0x5b00 * 0x64);
            assert_eq!(ac.mains_period, 100);
        }
        other => panic!("unexpected {:?}", other),
    }
    let mut unknown_state = d;
    unknown_state[3] = 0x0a;
    assert!(matches!(decode_info_frame(&unknown_state), Frame::Ac { ac } if ac.state == AcState::Unknown));
}

#[test]
fn unknown_and_short_info_frames() {
    let mut d = [0u8; 14];
    d[4] = 0x04;
    assert_eq!(decode_info_frame(&d), Frame::Unknown);
    d[4] = 0x0d;
    assert_eq!(decode_info_frame(&d), Frame::Unknown);
    let short = [0x03u8, 0x20, 0x00, 0x00, 0x00];
    assert_eq!(decode_step(true, &short), (Some(Frame::Unknown), 5, true));
    let other = [0x03u8, 0xff, 0x41, 0x00, 0x00];
    assert_eq!(decode_step(true, &other), (None, 5, true));
}

#[test]
fn request_frames() {
    let mut codec = VeMk3Codec::new();
    let mut buf = BytesMut::new();
    codec.encode(RequestFrame::Version, &mut buf);
    codec.encode(RequestFrame::LedStatus, &mut buf);
    codec.encode(RequestFrame::DcStatus, &mut buf);
    codec.encode(RequestFrame::AcL1Status, &mut buf);
    assert_eq!(
        &buf[..],
        &[
            0x02u8, 0xff, 0x56, 0xa9, 0x02, 0xff, 0x4c, 0xb3, 0x03, 0xff, 0x46, 0x00, 0xb8, 0x03,
            0xff, 0x46, 0x01, 0xb7
        ][..]
    );
    assert!(checksum_ok(&buf[0..4]));
    assert!(checksum_ok(&buf[8..13]));
}

#[test]
fn checksums() {
    assert!(checksum_ok(&VERSION));
    assert!(checksum_ok(&[]));
    assert!(!checksum_ok(&[0x01]));
    assert!(checksum_ok(&[0x80, 0x80]));
}

#[test]
fn number_texts() {
    assert_eq!(parse_digits(b"12345", 0, 10, 0xffff_ffff), Some(12345));
    assert_eq!(parse_digits(b"", 0, 10, 0xffff_ffff), None);
    assert_eq!(parse_digits(b"1f", 0, 16, 0xffff_ffff), Some(31));
    assert_eq!(parse_digits(b"65536", 0, 10, 0xffff), None);
    assert_eq!(parse_unsigned(b"+7", 0, 10, 0xffff), Some(7));
    assert_eq!(parse_unsigned(b"+", 0, 10, 0xffff), None);
    assert_eq!(parse_unsigned(b"0xFFFFFFFF", 2, 16, 0xffff_ffff), Some(0xffff_ffff));
    assert_eq!(parse_i32(b"-2147483648"), Some(i32::MIN));
    assert_eq!(parse_i32(b"2147483648"), None);
    assert_eq!(parse_i32(b"-"), None);
    assert_eq!(parse_i32(b"+12"), Some(12));
}

#[test]
fn version_frame_starts_a_poll() {
    assert_eq!(poll_requests(&Frame::Version), vec![RequestFrame::DcStatus, RequestFrame::AcL1Status]);
    assert!(poll_requests(&Frame::Unknown).is_empty());
    assert_eq!(AcState::InvertFull.name(), "invert-full");
    assert_eq!(AcState::Unknown.name(), "unknown");
}

#[test]
fn split_decoding_halves() {
    assert_eq!(decode_unsynchronized(&VERSION), (Some(Frame::Version), 9, true));
    assert_eq!(decode_unsynchronized(&VERSION[..8]), (None, 0, false));
    let frame = dc_frame();
    assert_eq!(decode_synchronized(&frame[..1]), (None, 0));
    assert_eq!(decode_synchronized(&frame).1, 17);
}
