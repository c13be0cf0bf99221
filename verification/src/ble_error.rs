//! Failures of the Bluetooth transport and how they map onto protocol errors.
use vstd::prelude::*;

use crate::error::{
    bluetooth_text_is_link_loss, is_bluetooth_connection_lost, spec_error_is_connection_lost,
    transport_message_is_link_loss, transport_text_is_link_loss, Error,
};
use crate::text::append_str;

verus! {

/// What can go wrong while finding and opening the Bluetooth link.
///
/// A failure reported by the Bluetooth stack is carried as the text that the stack gave for it.
#[derive(Debug)]
pub enum BleError {
    AdapterNotFound,
    DeviceNotFound,
    CharacteristicMissing,
    InvalidAddress(String),
    Bluetooth { message: String },
}

/// The protocol error that a Bluetooth failure becomes.
pub open spec fn maps_ble_error(from: BleError, to: Error) -> bool {
    match from {
        BleError::AdapterNotFound => to matches Error::TransportUnavailable(m) && m@
            == "bluetooth adapter not found"@,
        BleError::DeviceNotFound => to is DeviceNotFound,
        BleError::CharacteristicMissing => to matches Error::TransportUnavailable(m) && m@
            == "required BLE characteristic missing"@,
        BleError::InvalidAddress(value) => to matches Error::TransportUnavailable(m) && m@
            == "invalid bluetooth address: "@ + value@,
        BleError::Bluetooth { message } => if bluetooth_text_is_link_loss(message@) {
            to is ConnectionClosed
        } else {
            to matches Error::TransportUnavailable(m) && m@ == message@
        },
    }
}

/// Turns a Bluetooth failure into the protocol error reported to callers: a failure whose text
/// points at a lost link becomes `ConnectionClosed`, the others become `TransportUnavailable`
/// with their description (except `DeviceNotFound`, which stays itself).
pub fn map_ble_error(error: BleError) -> (mapped: Error)
    ensures
        maps_ble_error(error, mapped),
{
    match error {
        BleError::AdapterNotFound => Error::TransportUnavailable(
            String::from_str("bluetooth adapter not found"),
        ),
        BleError::DeviceNotFound => Error::DeviceNotFound,
        BleError::CharacteristicMissing => Error::TransportUnavailable(
            String::from_str("required BLE characteristic missing"),
        ),
        BleError::InvalidAddress(value) => {
            let mut m = String::from_str("invalid bluetooth address: ");
            append_str(&mut m, value.as_str());
            Error::TransportUnavailable(m)
        },
        BleError::Bluetooth { message } => {
            if is_bluetooth_connection_lost(message.as_str()) {
                Error::ConnectionClosed
            } else {
                Error::TransportUnavailable(message)
            }
        },
    }
}

/// Whether an error means that the link to the detector is gone: a lost connection, or a
/// transport-unavailable error whose text points at a lost link.
pub fn is_connection_lost(error: &Error) -> (lost: bool)
    ensures
        lost == (spec_error_is_connection_lost(*error) || (error matches Error::TransportUnavailable(
            m,
        ) && transport_text_is_link_loss(m@))),
{
    if error.is_connection_lost() {
        return true;
    }
    match error {
        Error::TransportUnavailable(message) => transport_message_is_link_loss(message.as_str()),
        _ => false,
    }
}

/// A Bluetooth failure whose text points at a lost link is reported as a lost connection, and
/// every other Bluetooth failure is reported as an unavailable transport.
pub proof fn law_bluetooth_failures_map_by_link_loss(message: String, mapped: Error)
    requires
        maps_ble_error(BleError::Bluetooth { message }, mapped),
    ensures
        bluetooth_text_is_link_loss(message@) ==> spec_error_is_connection_lost(mapped),
        !bluetooth_text_is_link_loss(message@) ==> mapped is TransportUnavailable,
{
}

} // verus!
