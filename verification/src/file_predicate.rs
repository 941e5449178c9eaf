//! A reusable predicate over a reference file, for composition with
//! assertion combinators: it carries the path and a flag saying whether a
//! mismatch should abort instead of merely evaluating to false. All
//! comparison logic is the engine's; an adapter that aborts or prints sits
//! with the caller that owns the process.

use vstd::prelude::*;

verus! {

/// A predicate that holds of a string exactly when the string matches the
/// contents of the reference file.
pub struct FilePredicate {
    path: String,
    abort_on_mismatch: bool,
}

impl FilePredicate {
    pub closed spec fn spec_path(&self) -> Seq<char> {
        self.path@
    }

    pub closed spec fn spec_aborts(&self) -> bool {
        self.abort_on_mismatch
    }

    /// The reference path this predicate compares against.
    pub fn path(&self) -> (r: &String)
        ensures
            r@ == self.spec_path(),
    {
        &self.path
    }

    /// Whether a mismatch should abort the caller instead of evaluating to
    /// false.
    pub fn aborts_on_mismatch(&self) -> (r: bool)
        ensures
            r == self.spec_aborts(),
    {
        self.abort_on_mismatch
    }

    /// Evaluates the predicate: one check-mode engine run against the
    /// reference file, true exactly when that run returns success. A fatal
    /// read failure therefore also evaluates to false; an adapter that must
    /// abort on such failures calls [`crate::assert_contents_impl`] itself
    /// and tells the error channels apart.
    pub fn eval(&self, actual: &str) -> bool {
        crate::assert_contents_impl(self.path.as_str(), actual, crate::OverwriteMode::Check)
            .is_ok()
    }
}

/// Creates a new predicate that ensures equality with the given file.
pub fn eq_file(path: &str) -> (p: FilePredicate)
    ensures
        p.spec_path() == path@,
        !p.spec_aborts(),
{
    FilePredicate { path: String::from_str(path), abort_on_mismatch: false }
}

/// Creates a new predicate that ensures equality with the given file and
/// asks its adapter to abort on a mismatch.
pub fn eq_file_or_panic(path: &str) -> (p: FilePredicate)
    ensures
        p.spec_path() == path@,
        p.spec_aborts(),
{
    FilePredicate { path: String::from_str(path), abort_on_mismatch: true }
}

} // verus!
