use radiacode::buffer::BytesBuffer;
use radiacode::device_info::{
    decode_energy_calib, decode_fw_version, decode_hw_serial, decode_text, hex8,
};
use radiacode::error::Error;

fn ascii_field(value: &str) -> Vec<u8> {
    let mut bytes = vec![value.len() as u8];
    bytes.extend_from_slice(value.as_bytes());
    bytes
}

fn fw_payload(boot_date: &str, target_date: &str) -> Vec<u8> {
    let mut payload = Vec::new();
    payload.extend_from_slice(&4u16.to_le_bytes());
    payload.extend_from_slice(&5u16.to_le_bytes());
    payload.extend(ascii_field(boot_date));
    payload.extend_from_slice(&8u16.to_le_bytes());
    payload.extend_from_slice(&4u16.to_le_bytes());
    payload.extend(ascii_field(target_date));
    payload
}

#[test]
fn decode_fw_version_parses_boot_and_target() {
    let mut payload = Vec::new();
    payload.extend_from_slice(&4u16.to_le_bytes());
    payload.extend_from_slice(&5u16.to_le_bytes());
    payload.extend(ascii_field("boot-date"));
    payload.extend_from_slice(&8u16.to_le_bytes());
    payload.extend_from_slice(&4u16.to_le_bytes());
    payload.extend(ascii_field("target-date"));
    let versions = decode_fw_version(BytesBuffer::new(payload)).unwrap();
    assert_eq!(versions.boot.major, 5);
    assert_eq!(versions.boot.minor, 4);
    assert_eq!(versions.boot.date, "boot-date");
    assert_eq!(versions.target.major, 4);
    assert_eq!(versions.target.minor, 8);
    assert_eq!(versions.target.date, "target-date");
}

#[test]
fn fw_version_skips_leading_return_code() {
    let mut payload = 1u32.to_le_bytes().to_vec();
    payload.extend(fw_payload("boot-date", "target-date"));
    let versions = decode_fw_version(BytesBuffer::new(payload)).unwrap();
    assert_eq!(versions.boot.major, 5);
    assert_eq!(versions.target.date, "target-date");
}

#[test]
fn fw_version_drops_trailing_padding_of_long_replies() {
    let mut payload = fw_payload("boot-date-long-enough-text", "target-date-long-enough-text");
    assert!(payload.len() > 51);
    payload.extend_from_slice(&[0u8; 3]);
    let versions = decode_fw_version(BytesBuffer::new(payload)).unwrap();
    assert_eq!(versions.target.date, "target-date-long-enough-text");
}

#[test]
fn fw_version_trims_nul_from_target_date() {
    let payload = fw_payload("boot", "date\0\0");
    let versions = decode_fw_version(BytesBuffer::new(payload)).unwrap();
    assert_eq!(versions.target.date, "date");
}

#[test]
fn fw_version_reports_trailing_bytes() {
    let mut payload = fw_payload("boot", "target");
    payload.extend_from_slice(&[7u8, 7]);
    match decode_fw_version(BytesBuffer::new(payload)) {
        Err(Error::ProtocolMismatch { expected, got }) => {
            assert_eq!(expected, "empty fw_version tail");
            assert_eq!(got, "2 trailing bytes");
        }
        other => panic!("unexpected {other:?}"),
    }
}

#[test]
fn fw_version_short_reply_underruns() {
    let result = decode_fw_version(BytesBuffer::new(vec![1, 2, 3]));
    assert!(matches!(result, Err(Error::BufferUnderrun { .. })));
}

#[test]
fn hex8_pads_and_uppercases() {
    assert_eq!(hex8(0xab), "000000AB");
    assert_eq!(hex8(0xDEADBEEF), "DEADBEEF");
    assert_eq!(hex8(0), "00000000");
}

#[test]
fn hw_serial_joins_groups_with_dashes() {
    let mut payload = 8u32.to_le_bytes().to_vec();
    payload.extend_from_slice(&0x0102_0304u32.to_le_bytes());
    payload.extend_from_slice(&0xA0B0_C0D0u32.to_le_bytes());
    let serial = decode_hw_serial(BytesBuffer::new(payload)).unwrap();
    assert_eq!(serial, "01020304-A0B0C0D0");
}

#[test]
fn hw_serial_with_no_groups_is_empty() {
    let serial = decode_hw_serial(BytesBuffer::new(0u32.to_le_bytes().to_vec())).unwrap();
    assert_eq!(serial, "");
}

#[test]
fn hw_serial_cut_short_underruns() {
    let mut payload = 8u32.to_le_bytes().to_vec();
    payload.extend_from_slice(&1u32.to_le_bytes());
    let result = decode_hw_serial(BytesBuffer::new(payload));
    assert!(matches!(result, Err(Error::BufferUnderrun { .. })));
}

#[test]
fn text_reply_replaces_invalid_utf8() {
    let text = decode_text(&BytesBuffer::new(vec![b'R', b'C', 0xff]));
    assert_eq!(text, "RC\u{fffd}");
}

#[test]
fn energy_calibration_keeps_float_bits() {
    let mut payload = Vec::new();
    for v in [1.5f32, 2.5, -0.25] {
        payload.extend_from_slice(&v.to_le_bytes());
    }
    let bits = decode_energy_calib(BytesBuffer::new(payload)).unwrap();
    assert_eq!(bits.map(f32::from_bits), [1.5, 2.5, -0.25]);
    assert!(decode_energy_calib(BytesBuffer::new(vec![0; 11])).is_err());
}
