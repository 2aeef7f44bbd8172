//! What a command-line front end reports: one line per file, and whether the
//! run counts as failed.

use crate::names::texts;
use crate::path::{FsPath, PathView};
use crate::resolve::root_view;
use crate::traverse::TraversalResult;
use vstd::prelude::*;
use vstd::string::StringExecFns;

verus! {

/// The exit status of a run that went through.
pub const EXIT_SUCCESS: u8 = 0;

/// The exit status of a checked run in which a file was excluded.
pub const EXIT_EXCLUDED: u8 = 1;

/// The exit status of a run that ended with an error.
pub const EXIT_ERROR: u8 = 2;

/// The result for one file, as it is reported.
#[derive(Debug, Clone, PartialEq, Eq)]
pub struct FileResult {
    /// The file.
    pub file: FsPath,
    /// Its project root, if it has one.
    pub root: Option<FsPath>,
    /// Whether the file is excluded: it has no root.
    pub excluded: bool,
}

/// What a reported result is to the contracts.
pub open spec fn reported(result: FileResult) -> (PathView, Option<PathView>, bool) {
    (result.file@, root_view(result.root), result.excluded)
}

/// How a file and its root are reported: the file is excluded where it has no
/// root.
pub open spec fn report_of(file: PathView, root: Option<PathView>) -> (
    PathView,
    Option<PathView>,
    bool,
) {
    (file, root, root is None)
}

/// Reports one file and its root.
pub fn file_result(file: &FsPath, root: &Option<FsPath>) -> (result: FileResult)
    ensures
        reported(result) == report_of(file@, root_view(*root)),
{
    match root {
        Some(dir) => FileResult { file: file.clone(), root: Some(dir.clone()), excluded: false },
        None => FileResult { file: file.clone(), root: None, excluded: true },
    }
}

/// Reports the results of a batch, in their order.
pub fn report_batch(results: &[(FsPath, Option<FsPath>)]) -> (reports: Vec<FileResult>)
    ensures
        reports.len() == results.len(),
        forall|i: int|
            0 <= i < results.len() ==> reported(#[trigger] reports[i]) == report_of(
                results[i].0@,
                root_view(results[i].1),
            ),
{
    let mut reports: Vec<FileResult> = Vec::new();
    let mut i: usize = 0;
    while i < results.len()
        invariant
            i <= results.len(),
            reports.len() == i,
            forall|k: int|
                0 <= k < i ==> reported(#[trigger] reports[k]) == report_of(
                    results[k].0@,
                    root_view(results[k].1),
                ),
        decreases results.len() - i,
    {
        reports.push(file_result(&results[i].0, &results[i].1));
        i += 1;
    }
    reports
}

/// Reports the results of a walk, in their order.
pub fn report_traversal(results: &[TraversalResult]) -> (reports: Vec<FileResult>)
    ensures
        reports.len() == results.len(),
        forall|i: int|
            0 <= i < results.len() ==> reported(#[trigger] reports[i]) == report_of(
                results[i].file@,
                root_view(results[i].root),
            ),
{
    let mut reports: Vec<FileResult> = Vec::new();
    let mut i: usize = 0;
    while i < results.len()
        invariant
            i <= results.len(),
            reports.len() == i,
            forall|k: int|
                0 <= k < i ==> reported(#[trigger] reports[k]) == report_of(
                    results[k].file@,
                    root_view(results[k].root),
                ),
        decreases results.len() - i,
    {
        reports.push(file_result(&results[i].file, &results[i].root));
        i += 1;
    }
    reports
}

/// Whether some file of the reports is excluded.
pub fn any_excluded(reports: &[FileResult]) -> (any: bool)
    ensures
        any == exists|i: int| 0 <= i < reports.len() && (#[trigger] reports[i]).excluded,
{
    let mut i: usize = 0;
    while i < reports.len()
        invariant
            i <= reports.len(),
            forall|k: int| 0 <= k < i ==> !(#[trigger] reports[k]).excluded,
        decreases reports.len() - i,
    {
        if reports[i].excluded {
            return true;
        }
        i += 1;
    }
    false
}

/// Whether a run counts as failed: it was asked to check, and a file was
/// excluded.
pub fn should_fail(check: bool, any_excluded: bool) -> (failed: bool)
    ensures
        failed == (check && any_excluded),
{
    check && any_excluded
}

/// The exit status of a run: that of an error where it ended with one, else
/// that of an excluded file where the run counts as failed, else success.
pub fn exit_status<E>(outcome: &Result<bool, E>) -> (status: u8)
    ensures
        status == match outcome {
            Ok(failed) => if *failed {
                EXIT_EXCLUDED
            } else {
                EXIT_SUCCESS
            },
            Err(_) => EXIT_ERROR,
        },
{
    match outcome {
        Ok(failed) => if *failed {
            EXIT_EXCLUDED
        } else {
            EXIT_SUCCESS
        },
        Err(_) => EXIT_ERROR,
    }
}

/// Whether the files are read from standard input: when that is asked for,
/// and when no file is named.
pub fn reads_standard_input(batch: bool, named_files: usize) -> (reads: bool)
    ensures
        reads == (batch || named_files == 0),
{
    batch || named_files == 0
}

/// A line without the white space at its two ends.
pub uninterp spec fn trimmed(line: Seq<char>) -> Seq<char>;

/// Calls `str::trim` of the standard library. Not proved: that the slice it
/// returns is the line without the white space at its two ends, which depends
/// on the characters of the line and on nothing else.
#[verifier::external_body]
fn trim(line: &str) -> (inner: &str)
    ensures
        inner@ == trimmed(line@),
{
    line.trim()
}

/// The lines that name a file: those that hold more than white space, as they
/// stand and in their order.
pub open spec fn naming_lines(lines: Seq<Seq<char>>) -> Seq<Seq<char>>
    decreases lines.len(),
{
    if lines.len() == 0 {
        Seq::empty()
    } else if trimmed(lines.last()).len() == 0 {
        naming_lines(lines.drop_last())
    } else {
        naming_lines(lines.drop_last()).push(lines.last())
    }
}

/// Whether a line names a file, given the line without the white space at
/// its two ends: it does where something is left.
pub fn names_a_file(trimmed_line: &str) -> (named: bool)
    ensures
        named == (trimmed_line@.len() > 0),
{
    !trimmed_line.is_empty()
}

/// Keeps the lines that name a file, and drops the blank ones.
pub fn file_lines(lines: &[String]) -> (kept: Vec<String>)
    ensures
        texts(kept@) == naming_lines(texts(lines@)),
{
    let ghost all = texts(lines@);
    let mut kept: Vec<String> = Vec::new();
    let mut i: usize = 0;
    while i < lines.len()
        invariant
            i <= lines.len(),
            all == texts(lines@),
            texts(kept@) == naming_lines(all.take(i as int)),
        decreases lines.len() - i,
    {
        proof {
            assert(all.take(i + 1).drop_last() =~= all.take(i as int));
        }
        if names_a_file(trim(lines[i].as_str())) {
            kept.push(lines[i].clone());
        }
        i += 1;
    }
    assert(all.take(lines.len() as int) =~= all);
    kept
}

/// The text of the line for one file.
pub open spec fn line_text(file: Seq<char>, root: Option<Seq<char>>) -> Seq<char> {
    match root {
        Some(dir) => file + " -> "@ + dir,
        None => file + " -> (excluded)"@,
    }
}

/// Writes the line for one file: the file, an arrow, and its root or the word
/// for an excluded file.
pub fn render_line(file: &str, root: Option<&str>) -> (line: String)
    ensures
        line@ == line_text(
            file@,
            match root {
                Some(dir) => Some(dir@),
                None => None,
            },
        ),
{
    match root {
        Some(dir) => String::from_str(file).concat(" -> ").concat(dir),
        None => String::from_str(file).concat(" -> (excluded)"),
    }
}

} // verus!
