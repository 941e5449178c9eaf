//! Golden-file assertions: compare multi-line output against the contents
//! of a reference file, or update the file to match the new output.
//!
//! A check compares the supplied text against the file by exact equality
//! after line-ending normalization, treating a missing file as empty; a
//! mismatch yields a unified diff and a failure message naming the file.
//! An overwrite replaces the file's content atomically, and skips the
//! write entirely when the content already matches, so the file's
//! modification time is never perturbed without need.

pub mod diff;
mod io;
pub mod lines;
pub mod render;
pub mod text;

mod file_predicate;

pub use file_predicate::{eq_file, eq_file_or_panic, FilePredicate};

use vstd::prelude::*;

use crate::diff::{groups_spec, line_diff};
use crate::lines::{lines_spec, split_lines};
use crate::render::report_spec;
use crate::text::{norm_spec, normalize, str_eq};

verus! {

/// Whether a run checks the reference file or overwrites it.
#[derive(Clone, Copy, Debug)]
pub enum OverwriteMode {
    Check,
    Overwrite,
}

impl OverwriteMode {
    /// Derives the mode from the value of the environment toggle, read once
    /// per invocation and handed in by the caller: overwrite exactly when
    /// the toggle is set to `overwrite`, with no trimming and no alternate
    /// spellings, so that unrelated or malformed values never overwrite.
    pub fn from_toggle(toggle: Option<&str>) -> (m: Self)
        ensures
            (m is Overwrite) <==> (toggle matches Some(t) && t@ == "overwrite"@),
    {
        match toggle {
            Some(t) => {
                if str_eq(t, "overwrite") {
                    OverwriteMode::Overwrite
                } else {
                    OverwriteMode::Check
                }
            },
            None => OverwriteMode::Check,
        }
    }
}

/// The expected state of the reference file: its text when present, and
/// empty when absent.
pub open spec fn expected_of(current: Option<Seq<char>>) -> Seq<char> {
    match current {
        Some(c) => c,
        None => Seq::empty(),
    }
}

/// A check passes exactly when the normalized expected text equals the
/// normalized actual text.
pub open spec fn matches_spec(current: Option<Seq<char>>, actual: Seq<char>) -> bool {
    norm_spec(expected_of(current)) == norm_spec(actual)
}

/// An overwrite is skipped exactly when the file exists with content
/// byte-identical to the normalized actual text.
pub open spec fn skip_write_spec(current: Option<Seq<char>>, actual_norm: Seq<char>) -> bool {
    current == Some(actual_norm)
}

/// The view of a resolved expected state.
pub open spec fn opt_view(current: Option<String>) -> Option<Seq<char>> {
    match current {
        Some(c) => Some(c@),
        None => None,
    }
}

/// The unified-diff report for two normalized texts: Myers' line diff,
/// grouped with five lines of context, rendered hunk by hunk.
pub open spec fn report_of(expected_norm: Seq<char>, actual_norm: Seq<char>) -> Seq<char> {
    report_spec(
        lines_spec(expected_norm),
        lines_spec(actual_norm),
        groups_spec(line_diff(lines_spec(expected_norm), lines_spec(actual_norm)), 5),
    )
}

/// The failure message of a mismatch, naming the reference path and the
/// toggle that accepts the change.
pub open spec fn mismatch_message_spec(path: Seq<char>) -> Seq<char> {
    "string doesn't match the contents of file: \""@ + path
        + "\" see diffset above\nset EXPECTORATE=overwrite if these changes are intentional"@
}

/// A missing reference file checks exactly like an empty one.
pub proof fn lemma_missing_file_as_empty(actual: Seq<char>)
    ensures
        matches_spec(None, actual) == matches_spec(Some(Seq::empty()), actual),
{
}

/// Round trip: after an overwrite stored the normalized actual text, a
/// check of the same text always passes.
pub proof fn lemma_round_trip(t: Seq<char>)
    ensures
        matches_spec(Some(norm_spec(t)), t),
{
    crate::text::lemma_norm_idempotent(t);
}

/// Overwrite idempotence: once an overwrite has stored the normalized
/// text, a second overwrite with the same text decides to skip, leaving
/// both the bytes and the modification time of the file alone.
pub proof fn lemma_overwrite_idempotent(t: Seq<char>)
    ensures
        skip_write_spec(Some(norm_spec(t)), norm_spec(t)),
{
}

/// The outcome of a check: equality, or a rendered unified diff.
#[derive(Debug)]
pub enum ComparisonResult {
    Match,
    Mismatch(String),
}

/// Compares the supplied text against the resolved expected state, both
/// normalized; on mismatch, renders the unified diff between them.
pub fn compare_with_expected(current: &Option<String>, actual: &str) -> (r: ComparisonResult)
    ensures
        (r is Match) <==> matches_spec(opt_view(*current), actual@),
        r matches ComparisonResult::Mismatch(rep) ==> rep@ == report_of(
            norm_spec(expected_of(opt_view(*current))),
            norm_spec(actual@),
        ),
{
    let expected_raw: &str = match current {
        Some(c) => c.as_str(),
        None => "",
    };
    proof {
        reveal_strlit("");
        assert(expected_raw@ =~= expected_of(opt_view(*current)));
    }
    let expected_n = normalize(expected_raw);
    let actual_n = normalize(actual);
    if str_eq(expected_n.as_str(), actual_n.as_str()) {
        ComparisonResult::Match
    } else {
        let old_lines = split_lines(expected_n.as_str());
        let new_lines = split_lines(actual_n.as_str());
        let ops = crate::diff::myers_line_ops(&old_lines, &new_lines);
        let ghost ol = old_lines@.len() as int;
        let ghost nl = new_lines@.len() as int;
        let old_count = old_lines.len();
        let new_count = new_lines.len();
        proof {
            assert(ol == old_count as int && nl == new_count as int);
            assert(old_lines.deep_view().len() == old_lines@.len());
            assert(new_lines.deep_view().len() == new_lines@.len());
            crate::diff::lemma_groups_spec_bounded(ops@, 5, ol, nl);
            assert(forall|i: int|
                0 <= i < ops@.len() ==> crate::diff::op_in_bounds(#[trigger] ops@[i], ol, nl));
        }
        let groups = crate::diff::group_ops(&ops, 5);
        let report = crate::render::render_report(&old_lines, &new_lines, &groups);
        ComparisonResult::Mismatch(report)
    }
}

fn mismatch_message(path: &str) -> (r: String)
    ensures
        r@ == mismatch_message_spec(path@),
{
    let mut r = String::from_str("string doesn't match the contents of file: \"");
    r.append(path);
    r.append(
        "\" see diffset above\nset EXPECTORATE=overwrite if these changes are intentional",
    );
    proof {
        assert(r@ =~= mismatch_message_spec(path@));
    }
    r
}

/// A write that an overwrite run still has to perform: the normalized
/// content, replacing an existing file or creating a missing one.
pub struct PendingWrite {
    pub content: String,
    pub replace: bool,
}

/// A content mismatch in check mode: the rendered unified diff between the
/// two normalized texts, and the failure message naming the reference path
/// and the toggle that accepts the change.
#[derive(Debug)]
pub struct MismatchError {
    pub report: String,
    pub message: String,
}

/// Why an assertion run failed: the filesystem refused a read or a write
/// of the reference path, or the contents did not match in check mode. The
/// two are distinct channels, so a caller that must abort on filesystem
/// failures can tell them from an ordinary mismatch.
#[derive(Debug)]
pub enum EngineError {
    Io(String),
    Mismatch(MismatchError),
}

/// What one invocation of the engine must do after the expected state is
/// resolved: nothing, fail with a mismatch, or write the file.
pub enum Action {
    Done,
    Fail(MismatchError),
    Write(PendingWrite),
}

/// The whole decision of one invocation, as a function of the resolved
/// expected state: in check mode, pass or fail with the rendered diff and
/// the failure message; in overwrite mode, skip the write when the file
/// already holds the normalized text, and otherwise write it, replacing
/// only a file that was seen to exist.
pub fn decide(path: &str, current: &Option<String>, actual: &str, mode: OverwriteMode) -> (r:
    Action)
    ensures
        ({
            let cur = opt_view(*current);
            let a_n = norm_spec(actual@);
            match mode {
                OverwriteMode::Check => {
                    &&& !(r is Write)
                    &&& (r is Done <==> matches_spec(cur, actual@))
                    &&& (r matches Action::Fail(f) ==> f.report@ == report_of(
                        norm_spec(expected_of(cur)),
                        a_n,
                    ) && f.message@ == mismatch_message_spec(path@))
                },
                OverwriteMode::Overwrite => {
                    &&& !(r is Fail)
                    &&& (r is Done <==> skip_write_spec(cur, a_n))
                    &&& (r matches Action::Write(w) ==> w.content@ == a_n && w.replace == (
                    cur is Some))
                },
            }
        }),
{
    match mode {
        OverwriteMode::Check => {
            match compare_with_expected(current, actual) {
                ComparisonResult::Match => Action::Done,
                ComparisonResult::Mismatch(report) => {
                    let message = mismatch_message(path);
                    Action::Fail(MismatchError { report, message })
                },
            }
        },
        OverwriteMode::Overwrite => {
            let actual_n = normalize(actual);
            let skip = match current {
                Some(c) => str_eq(c.as_str(), actual_n.as_str()),
                None => false,
            };
            if skip {
                Action::Done
            } else {
                let replace = current.is_some();
                Action::Write(PendingWrite { content: actual_n, replace })
            }
        },
    }
}

/// Runs one assertion against the reference file at `path` in the given
/// mode. Whether the run passes hangs on what the filesystem holds and
/// returns, so only the shape of a failure can be promised here: a
/// mismatch arises in check mode alone, and it carries the fixed failure
/// message and the rendered diff between the actual text and some expected
/// state — which state, `decide`'s contract pins once the read result is
/// known.
pub fn assert_contents_impl(path: &str, actual: &str, mode: OverwriteMode) -> (r: Result<
    (),
    EngineError,
>)
    ensures
        r matches Err(EngineError::Mismatch(f)) ==> {
            &&& mode is Check
            &&& f.message@ == mismatch_message_spec(path@)
            &&& exists|cur: Option<Seq<char>>|
                f.report@ == report_of(norm_spec(expected_of(cur)), norm_spec(actual@))
        },
{
    match io::read_reference(path) {
        Err(e) => Err(EngineError::Io(e)),
        Ok(current) => {
            match decide(path, &current, actual, mode) {
                Action::Done => Ok(()),
                Action::Fail(f) => {
                    proof {
                        let cur = opt_view(current);
                        assert(f.report@ == report_of(
                            norm_spec(expected_of(cur)),
                            norm_spec(actual@),
                        ));
                    }
                    Err(EngineError::Mismatch(f))
                },
                Action::Write(w) => {
                    match io::atomic_write(path, w.content.as_str(), w.replace) {
                        Ok(()) => Ok(()),
                        Err(e) => Err(EngineError::Io(e)),
                    }
                },
            }
        },
    }
}

/// Compares the contents of the file to the string provided. The mode is
/// fixed to checking, so the file is never modified; a caller that honors
/// the environment toggle resolves it first (see
/// [`OverwriteMode::from_toggle`]) and calls [`assert_contents_impl`]. A
/// mismatch carries the fixed failure message and the rendered diff
/// against some expected state, as in [`assert_contents_impl`].
pub fn assert_contents(path: &str, actual: &str) -> (r: Result<(), EngineError>)
    ensures
        r matches Err(EngineError::Mismatch(f)) ==> {
            &&& f.message@ == mismatch_message_spec(path@)
            &&& exists|cur: Option<Seq<char>>|
                f.report@ == report_of(norm_spec(expected_of(cur)), norm_spec(actual@))
        },
{
    assert_contents_impl(path, actual, OverwriteMode::Check)
}

} // verus!
