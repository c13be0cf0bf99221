//! Errors of the device protocol and of the Bluetooth link.
use vstd::prelude::*;

use crate::text::{ascii_lowercase, ascii_lowercase_chars, chars_of, contains_chars, contains_seq};

verus! {

/// Everything that can go wrong while talking to a detector.
///
/// A failure reported by the Bluetooth stack is carried as the text that the stack gave for it.
#[derive(Debug)]
pub enum Error {
    AdapterNotFound,
    DeviceNotFound,
    CharacteristicMissing,
    Timeout,
    ConnectionClosed,
    ProtocolMismatch { expected: String, got: String },
    UnexpectedReturnCode(u32),
    IncompatibleFirmware { major: u16, minor: u16 },
    InvalidAddress(String),
    BufferUnderrun { need: usize, have: usize },
    VsfrBatchEmpty,
    MonitorDataPending,
    TransportUnavailable(String),
    Bluetooth { message: String },
}

pub type Result<T> = core::result::Result<T, Error>;

/// The Bluetooth stack's description of a failure points at a lost link.
pub open spec fn bluetooth_text_is_link_loss(message: Seq<char>) -> bool {
    let m = ascii_lowercase(message);
    ||| contains_seq(m, "not connected"@)
    ||| contains_seq(m, "disconnected"@)
    ||| contains_seq(m, "device not found"@)
    ||| contains_seq(m, "link has been lost"@)
    ||| contains_seq(m, "broken pipe"@)
    ||| contains_seq(m, "connection reset"@)
}

/// A transport-unavailable description that points at a lost link.
pub open spec fn transport_text_is_link_loss(message: Seq<char>) -> bool {
    let m = ascii_lowercase(message);
    ||| contains_seq(m, "not connected"@)
    ||| contains_seq(m, "disconnected"@)
    ||| contains_seq(m, "link has been lost"@)
}

pub open spec fn spec_is_transient(e: Error) -> bool {
    e matches Error::Timeout || e matches Error::ProtocolMismatch { .. }
        || e matches Error::BufferUnderrun { .. }
}

pub open spec fn spec_error_is_connection_lost(e: Error) -> bool {
    match e {
        Error::ConnectionClosed => true,
        Error::Bluetooth { message } => bluetooth_text_is_link_loss(message@),
        _ => false,
    }
}

/// Whether the text that the Bluetooth stack gave for a failure points at a lost link
/// (compared without regard to ASCII case).
pub fn is_bluetooth_connection_lost(message: &str) -> (lost: bool)
    ensures
        lost == bluetooth_text_is_link_loss(message@),
{
    let text = chars_of(message);
    let m = ascii_lowercase_chars(text.as_slice());
    let m = m.as_slice();
    let p1 = chars_of("not connected");
    let p2 = chars_of("disconnected");
    let p3 = chars_of("device not found");
    let p4 = chars_of("link has been lost");
    let p5 = chars_of("broken pipe");
    let p6 = chars_of("connection reset");
    contains_chars(m, p1.as_slice()) || contains_chars(m, p2.as_slice()) || contains_chars(
        m,
        p3.as_slice(),
    ) || contains_chars(m, p4.as_slice()) || contains_chars(m, p5.as_slice()) || contains_chars(
        m,
        p6.as_slice(),
    )
}

/// Whether a transport-unavailable description points at a lost link.
pub fn transport_message_is_link_loss(message: &str) -> (lost: bool)
    ensures
        lost == transport_text_is_link_loss(message@),
{
    let text = chars_of(message);
    let m = ascii_lowercase_chars(text.as_slice());
    let m = m.as_slice();
    let p1 = chars_of("not connected");
    let p2 = chars_of("disconnected");
    let p3 = chars_of("link has been lost");
    contains_chars(m, p1.as_slice()) || contains_chars(m, p2.as_slice()) || contains_chars(
        m,
        p3.as_slice(),
    )
}

impl Error {
    /// A timeout, a protocol mismatch or a short buffer: worth retrying the request.
    pub fn is_transient(&self) -> (r: bool)
        ensures
            r == spec_is_transient(*self),
    {
        match self {
            Error::Timeout => true,
            Error::ProtocolMismatch { .. } => true,
            Error::BufferUnderrun { .. } => true,
            _ => false,
        }
    }

    /// A closed connection, or a Bluetooth failure whose text points at a lost link.
    pub fn is_connection_lost(&self) -> (r: bool)
        ensures
            r == spec_error_is_connection_lost(*self),
    {
        match self {
            Error::ConnectionClosed => true,
            Error::Bluetooth { message } => is_bluetooth_connection_lost(message.as_str()),
            _ => false,
        }
    }
}

/// No error is both worth retrying and a sign of a lost link: a retry never hides a lost
/// connection, and a lost connection is never retried as if the link were still up.
pub proof fn law_transient_errors_keep_the_link(e: Error)
    ensures
        spec_is_transient(e) ==> !spec_error_is_connection_lost(e),
        spec_error_is_connection_lost(e) ==> !spec_is_transient(e),
{
}

} // verus!
