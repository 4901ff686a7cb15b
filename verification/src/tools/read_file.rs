//! `read_file`: a file's content.
use vstd::prelude::*;

verus! {

/// Input of `read_file`.
pub struct ReadFileInput {
    /// Absolute path to the file to read
    pub file_path: String,
}

/// The content of a file.
pub struct ReadFileResult {
    pub content: String,
}

/// The tool that reads files.
pub struct ReadFileTool;

} // verus!
