use yek_wrapper::directories::DirectoryAggregate;
use yek_wrapper::record::FileRecord;
use yek_wrapper::report::{
    build_report, list_directories, list_files, rank_directories, rank_files, render_directory,
    render_file, render_summary,
};
use yek_wrapper::stats::RunStats;

fn record(name: &str, content: &str) -> FileRecord {
    FileRecord::new(name.to_string(), content.to_string())
}

fn directory(path: &str, total_chars: usize, total_lines: usize) -> DirectoryAggregate {
    DirectoryAggregate { path: path.to_string(), total_chars, total_lines }
}

fn of_size(name: &str, size: usize) -> FileRecord {
    record(name, &"x".repeat(size))
}

#[test]
fn summary_groups_digits_in_threes() {
    let stats = RunStats { file_count: 12, total_lines: 3456, total_tokens_estimate: 1234567 };
    let line = render_summary(&stats);
    assert_eq!(line.text, "~1,234,567 tokens / 12 files / 3,456 lines");
    assert!(!line.highlighted);
}

#[test]
fn numbers_below_one_thousand_have_no_separator() {
    let stats = RunStats { file_count: 0, total_lines: 999, total_tokens_estimate: 7 };
    assert_eq!(render_summary(&stats).text, "~7 tokens / 0 files / 999 lines");
}

#[test]
fn groups_keep_their_zeros() {
    let stats = RunStats { file_count: 1000, total_lines: 1001, total_tokens_estimate: 1000000 };
    assert_eq!(render_summary(&stats).text, "~1,000,000 tokens / 1,000 files / 1,001 lines");
    let stats = RunStats { file_count: 10, total_lines: 100, total_tokens_estimate: 20030 };
    assert_eq!(render_summary(&stats).text, "~20,030 tokens / 10 files / 100 lines");
}

#[test]
fn the_largest_number_is_grouped_too() {
    let stats = RunStats { file_count: 1, total_lines: 1, total_tokens_estimate: u32::MAX as usize };
    assert_eq!(render_summary(&stats).text, "~4,294,967,295 tokens / 1 files / 1 lines");
}

#[test]
fn a_file_line_holds_tokens_lines_and_size() {
    let content = "line\n".repeat(300);
    let line = render_file(&record("src/big.rs", &content), 301);
    assert_eq!(line.text, "- src/big.rs (~375 tokens, 300 lines, 1,500 chars)");
    assert!(!line.highlighted);
}

#[test]
fn a_file_line_counts_size_in_bytes_and_tokens_in_scalar_values() {
    let line = render_file(&record("e.txt", "\u{e9}\u{e9}\u{e9}\u{e9}"), 300);
    assert_eq!(line.text, "- e.txt (~1 tokens, 1 lines, 8 chars)");
}

#[test]
fn an_empty_file_is_marked_empty() {
    let line = render_file(&record("nothing.txt", ""), 300);
    assert_eq!(line.text, "- nothing.txt (empty)");
    assert!(!line.highlighted);
}

#[test]
fn an_empty_file_never_stands_out() {
    assert!(!render_file(&record("nothing.txt", ""), 0).highlighted);
}

#[test]
fn a_file_with_as_many_lines_as_the_threshold_stands_out() {
    let content = "l\n".repeat(300);
    assert!(render_file(&record("a", &content), 300).highlighted);
    let content = "l\n".repeat(299);
    assert!(!render_file(&record("a", &content), 300).highlighted);
    assert!(render_file(&record("a", "1\n2\n3"), 3).highlighted);
    assert!(!render_file(&record("a", "1\n2"), 3).highlighted);
    assert!(render_file(&record("a", "1\n2\n3\n4"), 3).highlighted);
}

#[test]
fn highlighting_leaves_the_text_as_it_is() {
    let file = record("a", "1\n2\n3");
    assert_eq!(render_file(&file, 3).text, render_file(&file, 4).text);
    assert_eq!(render_file(&file, 3).text, "- a (~1 tokens, 3 lines, 5 chars)");
}

#[test]
fn a_directory_line_estimates_tokens_from_its_size() {
    let line = render_directory(&directory("src/deep", 4003, 1200));
    assert_eq!(line.text, "- src/deep (~1,000 tokens, 1,200 lines, 4,003 chars)");
    assert!(!line.highlighted);
}

#[test]
fn the_root_directory_is_shown_as_a_dot() {
    assert_eq!(render_directory(&directory("", 8, 1)).text, "- . (~2 tokens, 1 lines, 8 chars)");
}

#[test]
fn an_empty_directory_is_marked_empty() {
    assert_eq!(render_directory(&directory("assets", 0, 0)).text, "- assets (empty)");
    assert_eq!(render_directory(&directory("", 0, 0)).text, "- . (empty)");
}

#[test]
fn files_are_ranked_by_size() {
    let files =
        vec![of_size("ten", 10), of_size("hundred", 100), of_size("a", 50), of_size("b", 50)];
    assert_eq!(rank_files(&files, 9), vec![1, 2, 3, 0]);
    assert_eq!(rank_files(&files, 2), vec![1, 2]);
}

#[test]
fn top_two_files_of_sizes_100_50_50_10() {
    let files =
        vec![of_size("first", 100), of_size("second", 50), of_size("third", 50), of_size("last", 10)];
    let lines = list_files(&files, 2, 300);
    assert_eq!(lines.len(), 2);
    assert_eq!(lines[0].text, "- first (~25 tokens, 1 lines, 100 chars)");
    assert!(
        lines[1].text == "- second (~12 tokens, 1 lines, 50 chars)"
            || lines[1].text == "- third (~12 tokens, 1 lines, 50 chars)"
    );
}

#[test]
fn directories_are_ranked_by_size() {
    let dirs = vec![directory("a", 5, 1), directory("b", 70, 2), directory("c", 5, 9)];
    assert_eq!(rank_directories(&dirs, 6), vec![1, 0, 2]);
    let lines = list_directories(&dirs, 2);
    assert_eq!(lines.len(), 2);
    assert_eq!(lines[0].text, "- b (~17 tokens, 2 lines, 70 chars)");
    assert_eq!(lines[1].text, "- a (~1 tokens, 1 lines, 5 chars)");
}

#[test]
fn the_report_has_summary_directories_and_files() {
    let files = vec![
        record("src/main.rs", "fn main() {}\n"),
        record("README.md", "# Title\n\ntext"),
        record("src/cli.rs", "use clap;\nstruct Args;\n"),
        record("LICENSE", ""),
    ];
    let report = build_report(&files, 6, 2, 2);
    let texts: Vec<&str> = report.iter().map(|l| l.text.as_str()).collect();
    assert_eq!(
        texts,
        vec![
            "~12 tokens / 4 files / 6 lines",
            "",
            "Largest directories",
            "- src (~9 tokens, 3 lines, 36 chars)",
            "- . (~3 tokens, 3 lines, 13 chars)",
            "",
            "Largest files",
            "- src/cli.rs (~5 tokens, 2 lines, 23 chars)",
            "- src/main.rs (~3 tokens, 1 lines, 13 chars)",
            "",
            "\u{2705} Copied to clipboard",
        ]
    );
    let marks: Vec<bool> = report.iter().map(|l| l.highlighted).collect();
    assert_eq!(
        marks,
        vec![false, false, false, false, false, false, false, true, false, false, false]
    );
}

#[test]
fn the_report_lists_no_more_than_asked_for() {
    let files = vec![record("a/x", "1"), record("b/y", "22"), record("c/z", "333")];
    let report = build_report(&files, 1, 0, 300);
    let texts: Vec<&str> = report.iter().map(|l| l.text.as_str()).collect();
    assert_eq!(
        texts,
        vec![
            "~1 tokens / 3 files / 3 lines",
            "",
            "Largest directories",
            "- c (~0 tokens, 1 lines, 3 chars)",
            "",
            "Largest files",
            "",
            "\u{2705} Copied to clipboard",
        ]
    );
}
