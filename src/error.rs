//! The ways an operation of the pipeline can fail.

use vstd::prelude::*;

verus! {

/// Why an operation stopped.
#[derive(Debug, PartialEq, Eq)]
pub enum NtError {
    /// A required outside program could not be started or failed; names it.
    ExternalTool { tool: String },
    /// No editor could be resolved.
    EditorNotFound,
    /// A selection record could not be split into path, line and content.
    Parse,
    /// A file expected to exist could not be opened.
    FileAccess { path: String },
}

} // verus!
