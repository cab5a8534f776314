//! The options of a run.

use std::path::PathBuf;
use vstd::prelude::*;

verus! {

/// A path of the file system, as the standard library holds it. Nothing in
/// this library looks inside one.
#[verifier::external_type_specification]
#[verifier::external_body]
pub struct ExPathBuf(PathBuf);

/// Command line arguments for the yek-wrapper tool.
#[derive(Debug)]
pub struct Args {
    /// Number of top files to display
    pub top_file_count: usize,
    /// Number of top directories to display
    pub top_dir_count: usize,
    /// Warn about large files by line count
    pub warn_large_files_by_line_count: usize,
    /// Read the target directory from the clipboard.
    pub from_clipboard: bool,
    /// Optional directory to run the collector in.
    pub path: Option<PathBuf>,
}

impl Default for Args {
    /// Nine files, six directories, a warning from 300 lines on, and the
    /// collector run where the tool was started.
    fn default() -> (args: Args)
        ensures
            args.top_file_count == 9,
            args.top_dir_count == 6,
            args.warn_large_files_by_line_count == 300,
            !args.from_clipboard,
            args.path is None,
    {
        Args {
            top_file_count: 9,
            top_dir_count: 6,
            warn_large_files_by_line_count: 300,
            from_clipboard: false,
            path: None,
        }
    }
}

} // verus!
