//! Name and comment stored beside a saved spectrogram recording.
use vstd::prelude::*;

use std::path::{Path, PathBuf};

use crate::paths::{path_with_extension, with_extension_of};

verus! {

/// The user-facing name and comment of a saved recording.
#[derive(Debug, Clone)]
pub struct LibraryMeta {
    pub name: String,
    pub comment: String,
}

impl Default for LibraryMeta {
    fn default() -> (m: Self)
        ensures
            m.name@ == Seq::<char>::empty(),
            m.comment@ == Seq::<char>::empty(),
    {
        LibraryMeta { name: String::new(), comment: String::new() }
    }
}

/// The file beside a recording that holds its name and comment: the recording's path with the
/// extension `rcwf.meta.json`.
pub fn meta_path(recording_path: &Path) -> (meta: PathBuf)
    ensures
        meta == with_extension_of(recording_path, "rcwf.meta.json"@),
{
    proof {
        reveal_strlit("rcwf.meta.json");
    }
    path_with_extension(recording_path, "rcwf.meta.json")
}

/// The metadata read back for a recording, or, when there was none to read, the fallback name
/// with an empty comment.
pub fn meta_or_fallback(stored: Option<LibraryMeta>, fallback_name: &str) -> (m: LibraryMeta)
    ensures
        stored matches Some(s) ==> m == s,
        stored is None ==> m.name@ == fallback_name@ && m.comment@ == Seq::<char>::empty(),
{
    match stored {
        Some(meta) => meta,
        None => LibraryMeta { name: String::from_str(fallback_name), comment: String::new() },
    }
}

} // verus!
