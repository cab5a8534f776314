//! The lines of the console report.

use vstd::prelude::*;
use vstd::string::StringExecFns;
use crate::directories::{DirectoryAggregate, DirectoryTotals, aggregate_directories, directory_totals};
use crate::number::{format_grouped, grouped_decimal};
use crate::ranking::{as_sizes, is_top_ranking, top_by_size, top_ranking};
use crate::record::{FileRecord, FileText, combined_content, total_lines};
use crate::stats::{RunStats, run_stats};
use crate::text::{byte_len, count_lines, estimate_tokens, line_count, size_in_bytes, token_estimate};

verus! {

/// One line of the report, and whether it is to stand out as a warning.
/// Highlighting changes how a line looks, never what it says.
#[derive(Debug)]
pub struct ReportLine {
    pub text: String,
    pub highlighted: bool,
}

/// What a report line holds.
pub ghost struct LineText {
    pub text: Seq<char>,
    pub highlighted: bool,
}

impl View for ReportLine {
    type V = LineText;

    open spec fn view(&self) -> LineText {
        LineText { text: self.text@, highlighted: self.highlighted }
    }
}

impl DeepView for ReportLine {
    type V = LineText;

    open spec fn deep_view(&self) -> LineText {
        self@
    }
}

/// A line that does not stand out.
pub open spec fn plain_line(text: Seq<char>) -> LineText {
    LineText { text, highlighted: false }
}

/// The first line of the report: tokens, files and lines of the run.
pub open spec fn summary_text(files: nat, lines: nat, tokens: nat) -> Seq<char> {
    "~"@ + grouped_decimal(tokens) + " tokens / "@ + grouped_decimal(files) + " files / "@
        + grouped_decimal(lines) + " lines"@
}

/// The figures behind the name of an entry that is not empty.
pub open spec fn figures_text(tokens: nat, lines: nat, chars: nat) -> Seq<char> {
    " (~"@ + grouped_decimal(tokens) + " tokens, "@ + grouped_decimal(lines) + " lines, "@
        + grouped_decimal(chars) + " chars)"@
}

/// One entry of a list: the name and its figures, or the name marked as
/// empty where the size is zero.
pub open spec fn entry_text(name: Seq<char>, tokens: nat, lines: nat, chars: nat) -> Seq<char> {
    if chars == 0 {
        "- "@ + name + " (empty)"@
    } else {
        "- "@ + name + figures_text(tokens, lines, chars)
    }
}

/// The name under which a directory is listed: the root directory as `.`.
pub open spec fn directory_label(path: Seq<char>) -> Seq<char> {
    if path.len() == 0 {
        "."@
    } else {
        path
    }
}

/// The line of one directory. Its token estimate is a quarter of its size.
pub open spec fn directory_line(dir: DirectoryTotals) -> LineText {
    plain_line(
        entry_text(directory_label(dir.path), dir.total_chars / 4, dir.total_lines, dir.total_chars),
    )
}

/// Whether a file's line stands out: the file is not empty and has at
/// least `warn_at` lines.
pub open spec fn is_large_file(file: FileText, warn_at: nat) -> bool {
    byte_len(file.content) > 0 && line_count(file.content) >= warn_at
}

/// A file with exactly `warn_at` lines stands out, and a file with one
/// line fewer does not. This holds from one line on: an empty file has no
/// lines and never stands out.
pub proof fn lemma_warning_starts_at_threshold(file: FileText, warn_at: nat)
    requires
        warn_at > 0,
    ensures
        line_count(file.content) == warn_at ==> is_large_file(file, warn_at),
        line_count(file.content) + 1 == warn_at ==> !is_large_file(file, warn_at),
{
    crate::text::lemma_empty_text_has_no_bytes(file.content);
    crate::text::lemma_line_count_bound(file.content);
}

/// The line of one file.
pub open spec fn file_line(file: FileText, warn_at: nat) -> LineText {
    LineText {
        text: entry_text(
            file.filename,
            token_estimate(file.content),
            line_count(file.content),
            byte_len(file.content),
        ),
        highlighted: is_large_file(file, warn_at),
    }
}

/// Writes the figures of an entry.
fn render_figures(tokens: usize, lines: usize, chars: usize) -> (text: String)
    ensures
        text@ == figures_text(tokens as nat, lines as nat, chars as nat),
{
    let mut text = String::from_str(" (~");
    text.append(format_grouped(tokens).as_str());
    text.append(" tokens, ");
    text.append(format_grouped(lines).as_str());
    text.append(" lines, ");
    text.append(format_grouped(chars).as_str());
    text.append(" chars)");
    text
}

/// Writes one entry of a list.
fn render_entry(name: &str, tokens: usize, lines: usize, chars: usize) -> (text: String)
    ensures
        text@ == entry_text(name@, tokens as nat, lines as nat, chars as nat),
{
    let mut text = String::from_str("- ");
    text.append(name);
    if chars == 0 {
        text.append(" (empty)");
    } else {
        text.append(render_figures(tokens, lines, chars).as_str());
    }
    text
}

/// Writes the first line of the report.
pub fn render_summary(stats: &RunStats) -> (line: ReportLine)
    ensures
        line@ == plain_line(
            summary_text(
                stats.file_count as nat,
                stats.total_lines as nat,
                stats.total_tokens_estimate as nat,
            ),
        ),
{
    let mut text = String::from_str("~");
    text.append(format_grouped(stats.total_tokens_estimate).as_str());
    text.append(" tokens / ");
    text.append(format_grouped(stats.file_count).as_str());
    text.append(" files / ");
    text.append(format_grouped(stats.total_lines).as_str());
    text.append(" lines");
    ReportLine { text, highlighted: false }
}

/// Writes the line of one directory.
pub fn render_directory(dir: &DirectoryAggregate) -> (line: ReportLine)
    ensures
        line@ == directory_line(dir@),
{
    let label = if dir.path.as_str().is_empty() {
        "."
    } else {
        dir.path.as_str()
    };
    let text = render_entry(label, dir.total_chars / 4, dir.total_lines, dir.total_chars);
    ReportLine { text, highlighted: false }
}

/// Writes the line of one file, and marks it where the file has at least
/// `warn_at` lines.
pub fn render_file(file: &FileRecord, warn_at: usize) -> (line: ReportLine)
    ensures
        line@ == file_line(file@, warn_at as nat),
{
    let content = file.content.as_str();
    let chars = size_in_bytes(content);
    let lines = count_lines(content);
    let tokens = estimate_tokens(content);
    let text = render_entry(file.filename.as_str(), tokens, lines, chars);
    ReportLine { text, highlighted: chars > 0 && lines >= warn_at }
}

/// The sizes of the files, in their order.
pub open spec fn file_sizes(files: Seq<FileText>) -> Seq<nat> {
    Seq::new(files.len(), |i: int| byte_len(files[i].content))
}

/// The sizes of the directories, in their order.
pub open spec fn directory_sizes(dirs: Seq<DirectoryTotals>) -> Seq<nat> {
    Seq::new(dirs.len(), |i: int| dirs[i].total_chars)
}

/// The lines of the `count` largest files, largest first.
pub open spec fn listed_files(files: Seq<FileText>, count: nat, warn_at: nat) -> Seq<LineText> {
    let top = top_ranking(file_sizes(files), count);
    Seq::new(top.len(), |k: int| file_line(files[top[k] as int], warn_at))
}

/// The lines of the `count` largest directories, largest first.
pub open spec fn listed_directories(dirs: Seq<DirectoryTotals>, count: nat) -> Seq<LineText> {
    let top = top_ranking(directory_sizes(dirs), count);
    Seq::new(top.len(), |k: int| directory_line(dirs[top[k] as int]))
}

/// The whole report: the summary, the largest directories under their
/// heading, the largest files under theirs, and the closing notice.
pub open spec fn report_of(files: Seq<FileText>, top_dirs: nat, top_files: nat, warn_at: nat) -> Seq<
    LineText,
> {
    seq![
        plain_line(
            summary_text(files.len(), total_lines(files), token_estimate(combined_content(files))),
        ),
        plain_line(""@),
        plain_line("Largest directories"@),
    ] + listed_directories(directory_totals(files), top_dirs) + seq![
        plain_line(""@),
        plain_line("Largest files"@),
    ] + listed_files(files, top_files, warn_at) + seq![
        plain_line(""@),
        plain_line("\u{2705} Copied to clipboard"@),
    ]
}

/// The positions of the `count` largest files, largest first; among files
/// of one size the earlier comes first.
pub fn rank_files(files: &Vec<FileRecord>, count: usize) -> (top: Vec<usize>)
    ensures
        is_top_ranking(file_sizes(files.deep_view()), count as nat, top@),
        top@ == top_ranking(file_sizes(files.deep_view()), count as nat),
{
    let mut sizes: Vec<usize> = Vec::new();
    let mut at: usize = 0;
    while at < files.len()
        invariant
            at <= files.len(),
            sizes.len() == at,
            forall|i: int| 0 <= i < at ==> #[trigger] sizes[i] == byte_len(files[i]@.content),
        decreases files.len() - at,
    {
        sizes.push(size_in_bytes(files[at].content.as_str()));
        at = at + 1;
    }
    assert(as_sizes(sizes@) =~= file_sizes(files.deep_view()));
    top_by_size(&sizes, count)
}

/// The positions of the `count` largest directories, largest first; among
/// directories of one size the earlier comes first.
pub fn rank_directories(dirs: &Vec<DirectoryAggregate>, count: usize) -> (top: Vec<usize>)
    ensures
        is_top_ranking(directory_sizes(dirs.deep_view()), count as nat, top@),
        top@ == top_ranking(directory_sizes(dirs.deep_view()), count as nat),
{
    let mut sizes: Vec<usize> = Vec::new();
    let mut at: usize = 0;
    while at < dirs.len()
        invariant
            at <= dirs.len(),
            sizes.len() == at,
            forall|i: int| 0 <= i < at ==> #[trigger] sizes[i] == dirs[i].total_chars,
        decreases dirs.len() - at,
    {
        sizes.push(dirs[at].total_chars);
        at = at + 1;
    }
    assert(as_sizes(sizes@) =~= directory_sizes(dirs.deep_view()));
    top_by_size(&sizes, count)
}

/// Writes the lines of the `count` largest files.
pub fn list_files(files: &Vec<FileRecord>, count: usize, warn_at: usize) -> (lines: Vec<ReportLine>)
    ensures
        lines.deep_view() == listed_files(files.deep_view(), count as nat, warn_at as nat),
{
    let top = rank_files(files, count);
    let mut lines: Vec<ReportLine> = Vec::new();
    let mut at: usize = 0;
    while at < top.len()
        invariant
            at <= top.len(),
            lines.len() == at,
            is_top_ranking(file_sizes(files.deep_view()), count as nat, top@),
            forall|k: int|
                0 <= k < at ==> (#[trigger] lines[k])@ == file_line(
                    files[top[k] as int]@,
                    warn_at as nat,
                ),
        decreases top.len() - at,
    {
        lines.push(render_file(&files[top[at]], warn_at));
        at = at + 1;
    }
    assert(lines.deep_view() =~= listed_files(files.deep_view(), count as nat, warn_at as nat));
    lines
}

/// Writes the lines of the `count` largest directories.
pub fn list_directories(dirs: &Vec<DirectoryAggregate>, count: usize) -> (lines: Vec<ReportLine>)
    ensures
        lines.deep_view() == listed_directories(dirs.deep_view(), count as nat),
{
    let top = rank_directories(dirs, count);
    let mut lines: Vec<ReportLine> = Vec::new();
    let mut at: usize = 0;
    while at < top.len()
        invariant
            at <= top.len(),
            lines.len() == at,
            is_top_ranking(directory_sizes(dirs.deep_view()), count as nat, top@),
            forall|k: int|
                0 <= k < at ==> (#[trigger] lines[k])@ == directory_line(dirs[top[k] as int]@),
        decreases top.len() - at,
    {
        lines.push(render_directory(&dirs[top[at]]));
        at = at + 1;
    }
    assert(lines.deep_view() =~= listed_directories(dirs.deep_view(), count as nat));
    lines
}

/// A line that holds the given text and does not stand out.
fn plain(text: &str) -> (line: ReportLine)
    ensures
        line@ == plain_line(text@),
{
    ReportLine { text: String::from_str(text), highlighted: false }
}

/// Writes the whole report on the given files.
pub fn build_report(
    files: &Vec<FileRecord>,
    top_dirs: usize,
    top_files: usize,
    warn_at: usize,
) -> (report: Vec<ReportLine>)
    ensures
        report.deep_view() == report_of(
            files.deep_view(),
            top_dirs as nat,
            top_files as nat,
            warn_at as nat,
        ),
{
    let stats = run_stats(files);
    let dirs = aggregate_directories(files);
    let mut dir_lines = list_directories(&dirs, top_dirs);
    let mut file_lines = list_files(files, top_files, warn_at);
    let ghost listed_dirs = dir_lines.deep_view();
    let ghost listed = file_lines.deep_view();
    let mut report: Vec<ReportLine> = Vec::new();
    report.push(render_summary(&stats));
    report.push(plain(""));
    report.push(plain("Largest directories"));
    report.append(&mut dir_lines);
    report.push(plain(""));
    report.push(plain("Largest files"));
    report.append(&mut file_lines);
    report.push(plain(""));
    report.push(plain("\u{2705} Copied to clipboard"));
    assert(report.deep_view() =~= report_of(
        files.deep_view(),
        top_dirs as nat,
        top_files as nat,
        warn_at as nat,
    ));
    report
}

} // verus!
