//! The spectrum and device side panels: connection state, their inputs and their requests.
use vstd::prelude::*;

use crate::scale::YScale;

verus! {

/// Where the link to a detector stands.
#[derive(Debug, Clone, Copy, PartialEq, Eq, Structural)]
pub enum ConnectionState {
    Disconnected,
    Connecting,
    Connected,
}

/// What the spectrum controls edit: the live-refresh switch, the vertical scale and the
/// smoothing window.
pub struct ControlsProps<'a> {
    pub connection: ConnectionState,
    pub live: &'a mut bool,
    pub y_scale: &'a mut YScale,
    pub smooth_window: &'a mut usize,
}

/// A request from the spectrum controls.
#[derive(Debug, Clone, Copy, PartialEq, Eq, Structural)]
pub enum ControlsAction {
    Reset,
}

/// A request from the device panel.
#[derive(Debug, Clone, PartialEq, Eq)]
pub enum DeviceAction {
    Scan,
    Connect(String),
    Disconnect,
}

} // verus!
