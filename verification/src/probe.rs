//! Filesystem probes the resolution pipeline consults. Their answers depend
//! on the state of the disk at call time, so nothing is promised of them;
//! every caller states what holds whatever came back.

use vstd::prelude::*;

verus! {

/// Relies on `std::path::Path::is_file`: whether the path names an existing
/// regular file at call time.
#[verifier::external_body]
pub(crate) fn path_is_file(path: &str) -> bool {
    std::path::Path::new(path).is_file()
}

/// Relies on `std::path::Path::exists`: whether the path exists at call
/// time.
#[verifier::external_body]
pub(crate) fn path_exists(path: &str) -> bool {
    std::path::Path::new(path).exists()
}

/// Relies on `std::path::Path::canonicalize`: the absolute form of an
/// existing path with symlinks and relative segments resolved, or nothing
/// when the path cannot be resolved at call time.
#[verifier::external_body]
pub(crate) fn canonicalize_path(path: &str) -> Option<String> {
    match std::path::Path::new(path).canonicalize() {
        Ok(p) => Some(p.to_string_lossy().into_owned()),
        Err(_) => None,
    }
}

} // verus!
