//! The errors of root detection.

use vstd::prelude::*;
use vstd::string::StringExecFns;

verus! {

/// What can go wrong while the facts for a resolution are gathered.
#[derive(Debug, Clone, PartialEq, Eq)]
pub enum RootDetectionError {
    /// A path could not be resolved; the text says why.
    ResolutionFailed(String),
    /// The path has no parent directory.
    NoParent,
}

impl RootDetectionError {
    /// The text of the error.
    pub open spec fn text(&self) -> Seq<char> {
        match self {
            RootDetectionError::ResolutionFailed(reason) => "failed to resolve path: "@ + reason@,
            RootDetectionError::NoParent => "path has no parent directory"@,
        }
    }

    /// The text of the error.
    pub fn message(&self) -> (message: String)
        ensures
            message@ == self.text(),
    {
        match self {
            RootDetectionError::ResolutionFailed(reason) => {
                String::from_str("failed to resolve path: ").concat(reason.as_str())
            },
            RootDetectionError::NoParent => String::from_str("path has no parent directory"),
        }
    }
}

} // verus!
