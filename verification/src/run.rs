//! From the files of a run to what is printed and what is published.

use vstd::prelude::*;
use vstd::string::StringExecFns;
use crate::cli::Args;
use crate::publish::{build_clipboard_text, clipboard_text};
use crate::record::FileRecord;
use crate::report::{ReportLine, build_report, report_of};

verus! {

/// What a run ends with, once the files are known.
#[derive(Debug)]
pub enum Outcome {
    /// There are no files: a notice is printed, and the clipboard is left
    /// as it is.
    NothingToDo { notice: String },
    /// The report is printed, then the text goes to the clipboard.
    Publish { report: Vec<ReportLine>, clipboard: String },
}

/// The notice of a run without files.
pub open spec fn nothing_to_do_text() -> Seq<char> {
    "\u{2705} No files found in yek output. Nothing to do."@
}

/// Turns the files of a run into its outcome. Without files there is
/// nothing to publish; with files the report and the clipboard text are
/// those of all files, under the given options.
pub fn process(files: &Vec<FileRecord>, args: &Args) -> (outcome: Outcome)
    ensures
        files.len() == 0 ==> (outcome matches Outcome::NothingToDo { notice } && notice@
            == nothing_to_do_text()),
        files.len() > 0 ==> (outcome matches Outcome::Publish { report, clipboard }
            && report.deep_view() == report_of(
            files.deep_view(),
            args.top_dir_count as nat,
            args.top_file_count as nat,
            args.warn_large_files_by_line_count as nat,
        ) && clipboard@ == clipboard_text(files.deep_view())),
{
    if files.len() == 0 {
        Outcome::NothingToDo {
            notice: String::from_str("\u{2705} No files found in yek output. Nothing to do."),
        }
    } else {
        let report = build_report(
            files,
            args.top_dir_count,
            args.top_file_count,
            args.warn_large_files_by_line_count,
        );
        let clipboard = build_clipboard_text(files);
        Outcome::Publish { report, clipboard }
    }
}

} // verus!
