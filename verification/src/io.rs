//! The two filesystem touchpoints of the engine, behind trusted wrappers.
//!
//! Everything either wrapper returns is handled by verified code that
//! states what it does for every possible outcome; nothing here decides.

use std::io::Write;

use vstd::prelude::*;

verus! {

/// Relies on `fs_err::read_to_string`, which wraps
/// `std::fs::read_to_string`, preserves the underlying error kind, and
/// keeps the cause in its error's source: `Ok` carries the file's text, a
/// not-found error means the file does not exist, and any other failure
/// (permissions, invalid encoding, a directory) is surfaced as an error
/// naming the path and the underlying cause.
#[verifier::external_body]
pub(crate) fn read_reference(path: &str) -> (r: Result<Option<String>, String>) {
    match fs_err::read_to_string(path) {
        Ok(s) => Ok(Some(s)),
        Err(e) if e.kind() == std::io::ErrorKind::NotFound => Ok(None),
        Err(e) => Err(match std::error::Error::source(&e) {
            Some(cause) => format!("unable to read contents of {}: {}", path, cause),
            None => format!("unable to read contents of {}: {}", path, e),
        }),
    }
}

/// Relies on `atomicwrites::AtomicFile::write`: the content goes to a
/// temporary file in a temporary directory, is synced, and is renamed over
/// `path` in one atomic step, so no reader ever sees a partial file and a
/// failure leaves the previous content and no debris behind. With `replace`
/// false the rename refuses to clobber an existing file. The rename step
/// panics on a path to which std's path parsing gives no parent or no file
/// name (empty, a bare root, a trailing `..`), so such paths are turned
/// into errors before anything touches the disk.
#[verifier::external_body]
pub(crate) fn atomic_write(path: &str, content: &str, replace: bool) -> (r: Result<(), String>) {
    let p = std::path::Path::new(path);
    if p.parent().is_none() || p.file_name().is_none() {
        return Err(format!("unable to write to {}: path names no file inside a directory", path));
    }
    let behavior = if replace {
        atomicwrites::OverwriteBehavior::AllowOverwrite
    } else {
        atomicwrites::OverwriteBehavior::DisallowOverwrite
    };
    match atomicwrites::AtomicFile::new(p, behavior).write(|f| f.write_all(content.as_bytes())) {
        Ok(()) => Ok(()),
        Err(e) => Err(format!("unable to write to {}: {}", path, e)),
    }
}

} // verus!
