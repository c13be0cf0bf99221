use radiacode::ble_address::normalize_mac;
use radiacode::ble_error::BleError;
use radiacode::dosimeter::format_session_duration;
use radiacode::recording_search::{filter_needle, recording_count_text, recording_matches};
use radiacode::rssi::{bluez_device_path, parse_dbus_int16_reply, parse_dbus_variant_int16};
use radiacode::selection::selection_status;

#[test]
fn mac_is_trimmed_lowercased_and_colon_separated() {
    assert_eq!(normalize_mac("  AA-BB-CC-DD-EE-0F ").unwrap(), "aa:bb:cc:dd:ee:0f");
    assert_eq!(normalize_mac("01:23:45:67:89:ab").unwrap(), "01:23:45:67:89:ab");
}

#[test]
fn malformed_mac_is_rejected_with_input() {
    for bad in ["", "aa:bb:cc:dd:ee", "aa:bb:cc:dd:ee:gg", "aaa:bb:cc:dd:ee:ff", "aa:bb:cc:dd:ee:ff:00"] {
        match normalize_mac(bad) {
            Err(BleError::InvalidAddress(value)) => assert_eq!(value, bad),
            other => panic!("unexpected {other:?} for {bad}"),
        }
    }
}

#[test]
fn bluez_path_uses_upper_case_and_underscores() {
    assert_eq!(
        bluez_device_path("aa:bb:cc:dd:ee:0f"),
        "/org/bluez/hci0/dev_AA_BB_CC_DD_EE_0F"
    );
}

#[test]
fn reads_rssi_from_method_reply() {
    let reply = b"method return time=1 sender=:1.2\n   int16 -67\n";
    assert_eq!(parse_dbus_int16_reply(reply), Some(-67));
    assert_eq!(parse_dbus_int16_reply(b"int16 oops\n"), None);
    assert_eq!(parse_dbus_int16_reply(b"nothing here"), None);
}

#[test]
fn reads_rssi_from_property_variant() {
    let reply = b"method return\n   variant       int16 -52\n";
    assert_eq!(parse_dbus_variant_int16(reply), None);
    let reply = b"method return\n   variant\n      int16 -52\n";
    assert_eq!(parse_dbus_variant_int16(reply), Some(-52));
    assert_eq!(parse_dbus_variant_int16(b"int16 -40\n"), None);
}

#[test]
fn selection_status_lines() {
    assert_eq!(selection_status(true, 0), "Background selected. Add one or more samples.");
    assert_eq!(selection_status(false, 1), "Sample selected. Add a background to compute net.");
    assert_eq!(selection_status(false, 3), "3 samples selected. Add a background to compute net.");
    assert_eq!(selection_status(true, 1), "Comparison ready.");
    assert_eq!(selection_status(true, 12), "12 sample comparisons ready.");
    assert_eq!(selection_status(false, 0), "");
}

#[test]
fn session_duration_drops_leading_zero_units() {
    assert_eq!(format_session_duration(59), "0m");
    assert_eq!(format_session_duration(3 * 60), "3m");
    assert_eq!(format_session_duration(2 * 3600 + 5 * 60), "2h 5m");
    assert_eq!(format_session_duration(86_400 + 60), "1d 0h 1m");
}

#[test]
fn recording_filter_matches_name_comment_or_serial() {
    let needle = filter_needle("  Lab ");
    assert_eq!(needle, "lab");
    assert!(recording_matches(&needle, "LAB run", "", None));
    assert!(recording_matches(&needle, "run", "in the lab", None));
    assert!(recording_matches("rc-110", "run", "", Some("RC-110-006806")));
    assert!(!recording_matches(&needle, "run", "field", Some("RC-110")));
    assert!(recording_matches("", "anything", "", None));
}

#[test]
fn recording_count_lines() {
    assert_eq!(recording_count_text("", 0, 0), "No recordings");
    assert_eq!(recording_count_text("  ", 0, 1), "1 recording");
    assert_eq!(recording_count_text("", 0, 4), "4 recordings");
    assert_eq!(recording_count_text("x", 0, 4), "No matches in 4 recordings");
    assert_eq!(recording_count_text("x", 2, 4), "2 of 4 recordings");
}

#[test]
fn unicode_whitespace_is_trimmed_from_addresses() {
    assert_eq!(normalize_mac("\tAA:BB:CC:DD:EE:FF\u{3000}\n").unwrap(), "aa:bb:cc:dd:ee:ff");
}

#[test]
fn trimming_agrees_with_std_whitespace() {
    for code in 0u32..=0x3100 {
        if let Some(c) = char::from_u32(code) {
            let text = c.to_string();
            assert_eq!(filter_needle(&text).is_empty(), c.is_whitespace(), "U+{code:04X}");
        }
    }
}
