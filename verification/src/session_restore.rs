//! What a reconnect needs to resume a session without asking the device again.
use vstd::prelude::*;

use crate::device_info::DeviceVersions;

verus! {

/// The versions read at the start of a session and the spectrum format they imply.
#[derive(Debug, Clone, PartialEq)]
pub struct SessionRestore {
    pub versions: DeviceVersions,
    pub spectrum_format_version: u32,
}

} // verus!
