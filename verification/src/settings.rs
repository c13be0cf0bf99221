//! What the settings view asks for.
use vstd::prelude::*;

verus! {

/// A request from the settings view.
#[derive(Debug, Clone, Copy, PartialEq, Eq, Structural)]
pub enum SettingsAction {
    LoadDevice,
    ConfirmLoad,
    CancelLoad,
    SaveDevice,
    DiscardChanges,
    SyncClock,
    AppChanged,
    SpectrogramChanged,
}

} // verus!
