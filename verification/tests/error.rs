use radiacode::ble_error::{is_connection_lost, map_ble_error, BleError};
use radiacode::error::{is_bluetooth_connection_lost, transport_message_is_link_loss, Error};

#[test]
fn timeout_is_transient_not_connection_lost() {
    assert!(Error::Timeout.is_transient());
    assert!(!Error::Timeout.is_connection_lost());
}

#[test]
fn connection_closed_is_link_loss() {
    assert!(Error::ConnectionClosed.is_connection_lost());
    assert!(!Error::ConnectionClosed.is_transient());
}

#[test]
fn protocol_mismatch_is_transient_not_link_loss() {
    let error = Error::ProtocolMismatch {
        expected: "aa".into(),
        got: "bb".into(),
    };
    assert!(error.is_transient());
    assert!(!error.is_connection_lost());
}

#[test]
fn buffer_underrun_is_transient() {
    let error = Error::BufferUnderrun { need: 4, have: 1 };
    assert!(error.is_transient());
    assert!(!error.is_connection_lost());
}

#[test]
fn other_errors_are_neither_transient_nor_link_loss() {
    for error in [
        Error::AdapterNotFound,
        Error::DeviceNotFound,
        Error::CharacteristicMissing,
        Error::UnexpectedReturnCode(7),
        Error::IncompatibleFirmware { major: 4, minor: 1 },
        Error::InvalidAddress("zz".into()),
        Error::VsfrBatchEmpty,
        Error::MonitorDataPending,
        Error::TransportUnavailable("disconnected".into()),
    ] {
        assert!(!error.is_transient());
        assert!(!error.is_connection_lost());
    }
}

#[test]
fn bluetooth_text_decides_link_loss() {
    let lost = Error::Bluetooth { message: "Device Not Connected".into() };
    assert!(lost.is_connection_lost());
    assert!(!lost.is_transient());
    let other = Error::Bluetooth { message: "permission denied".into() };
    assert!(!other.is_connection_lost());
}

#[test]
fn bluetooth_link_loss_phrases() {
    assert!(is_bluetooth_connection_lost("Peer DISCONNECTED"));
    assert!(is_bluetooth_connection_lost("le-connection-abort: link has been lost"));
    assert!(is_bluetooth_connection_lost("Broken pipe (os error 32)"));
    assert!(is_bluetooth_connection_lost("Connection reset by peer"));
    assert!(is_bluetooth_connection_lost("device not found"));
    assert!(!is_bluetooth_connection_lost("operation timed out"));
    assert!(!is_bluetooth_connection_lost(""));
}

#[test]
fn transport_text_link_loss_is_narrower() {
    assert!(transport_message_is_link_loss("Not connected"));
    assert!(transport_message_is_link_loss("link has been lost"));
    assert!(!transport_message_is_link_loss("device not found"));
    assert!(!transport_message_is_link_loss("broken pipe"));
}

#[test]
fn ble_errors_map_onto_protocol_errors() {
    match map_ble_error(BleError::AdapterNotFound) {
        Error::TransportUnavailable(m) => assert_eq!(m, "bluetooth adapter not found"),
        other => panic!("unexpected {other:?}"),
    }
    assert!(matches!(map_ble_error(BleError::DeviceNotFound), Error::DeviceNotFound));
    match map_ble_error(BleError::CharacteristicMissing) {
        Error::TransportUnavailable(m) => assert_eq!(m, "required BLE characteristic missing"),
        other => panic!("unexpected {other:?}"),
    }
    match map_ble_error(BleError::InvalidAddress("xx".into())) {
        Error::TransportUnavailable(m) => assert_eq!(m, "invalid bluetooth address: xx"),
        other => panic!("unexpected {other:?}"),
    }
    assert!(matches!(
        map_ble_error(BleError::Bluetooth { message: "Not connected".into() }),
        Error::ConnectionClosed
    ));
    match map_ble_error(BleError::Bluetooth { message: "busy".into() }) {
        Error::TransportUnavailable(m) => assert_eq!(m, "busy"),
        other => panic!("unexpected {other:?}"),
    }
}

#[test]
fn mapped_link_loss_is_connection_lost() {
    let mapped = map_ble_error(BleError::Bluetooth { message: "disconnected".into() });
    assert!(is_connection_lost(&mapped));
    let kept = map_ble_error(BleError::Bluetooth { message: "busy".into() });
    assert!(!is_connection_lost(&kept));
}
