//! File-system paths as std represents them.
use vstd::prelude::*;

verus! {

/// An owned file-system path (`std::path::PathBuf`), carried through unchanged.
#[verifier::external_type_specification]
#[verifier::external_body]
pub struct ExPathBuf(std::path::PathBuf);

/// A borrowed file-system path (`std::path::Path`), carried through unchanged.
#[verifier::external_type_specification]
#[verifier::external_body]
pub struct ExPath(std::path::Path);

/// What `Path::with_extension` gives for a path and an extension: the path with the extension
/// of its file name replaced (or added). It depends on its arguments alone.
pub uninterp spec fn with_extension_of(path: &std::path::Path, extension: Seq<char>) -> std::path::PathBuf;

/// A path separator on any platform std supports (`std::path::is_separator` accepts `/`
/// everywhere and also `\\` on Windows).
pub open spec fn is_path_separator(c: char) -> bool {
    c == '/' || c == '\\'
}

/// `Path::with_extension`: its result is `with_extension_of` the path and the extension. It
/// panics on an extension that holds a path separator, so such extensions are not admitted.
#[verifier::external_body]
pub(crate) fn path_with_extension(path: &std::path::Path, extension: &str) -> (r: std::path::PathBuf)
    requires
        forall|i: int| 0 <= i < extension@.len() ==> !is_path_separator(#[trigger] extension@[i]),
    ensures
        r == with_extension_of(path, extension@),
{
    path.with_extension(extension)
}

} // verus!
