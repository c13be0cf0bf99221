//! What the spectrogram side panel asks for.
use vstd::prelude::*;

use std::path::PathBuf;

verus! {

/// A request from the spectrogram side panel.
pub enum SpectrogramControlsAction {
    StartRecording,
    StopRecording,
    ResumeRecording,
    CloseLoaded,
    Load(PathBuf),
    SettingsChanged,
    LibraryChanged,
}

} // verus!
