//! What the spectrogram's capture and library controls ask for.
use vstd::prelude::*;

use std::path::PathBuf;

verus! {

/// A request from the spectrogram controls, including pausing and resuming the capture.
pub enum SpectrogramControlsAction {
    StartRecording,
    StopRecording,
    PauseCapture,
    ResumeCapture,
    ResumeRecording,
    CloseLoaded,
    Load(PathBuf),
    SettingsChanged,
    LibraryChanged,
}

} // verus!
