use yek_wrapper::collector::{check_collector, plan_collector, CollectorPlan, DirectorySource};
use yek_wrapper::error::{exit_code, ClipboardStep, RunError};
use yek_wrapper::publish::{build_clipboard_text, has_final_newline};
use yek_wrapper::record::FileRecord;
use yek_wrapper::run::{process, Outcome};
use yek_wrapper::Args;

fn record(name: &str, content: &str) -> FileRecord {
    FileRecord::new(name.to_string(), content.to_string())
}

fn arguments(plan: &CollectorPlan) -> Vec<&str> {
    plan.arguments.iter().map(|a| a.as_str()).collect()
}

#[test]
fn default_options() {
    let args = Args::default();
    assert_eq!(args.top_file_count, 9);
    assert_eq!(args.top_dir_count, 6);
    assert_eq!(args.warn_large_files_by_line_count, 300);
    assert!(!args.from_clipboard);
    assert!(args.path.is_none());
}

#[test]
fn clipboard_text_of_two_files() {
    let files = vec![record("a.txt", "x"), record("b.txt", "y\n")];
    assert_eq!(build_clipboard_text(&files), ">>>> a.txt\nx\n>>>> b.txt\ny\n");
}

#[test]
fn clipboard_text_closes_an_empty_file_with_a_line_feed() {
    assert_eq!(build_clipboard_text(&vec![record("e", "")]), ">>>> e\n\n");
}

#[test]
fn clipboard_text_of_no_files_is_empty() {
    assert_eq!(build_clipboard_text(&Vec::new()), "");
}

#[test]
fn clipboard_text_keeps_the_order_of_the_files() {
    let files = vec![record("z", "1\n2\n"), record("a", "3"), record("m/n", "\n")];
    assert_eq!(build_clipboard_text(&files), ">>>> z\n1\n2\n>>>> a\n3\n>>>> m/n\n\n");
}

#[test]
fn final_line_feed_is_seen() {
    assert!(has_final_newline("a\n"));
    assert!(has_final_newline("\n"));
    assert!(!has_final_newline(""));
    assert!(!has_final_newline("a\nb"));
    assert!(!has_final_newline("a\n\u{e9}"));
}

#[test]
fn no_files_nothing_to_do() {
    match process(&Vec::new(), &Args::default()) {
        Outcome::NothingToDo { notice } => {
            assert_eq!(notice, "\u{2705} No files found in yek output. Nothing to do.");
        }
        Outcome::Publish { .. } => panic!("nothing may be published without files"),
    }
    assert_eq!(exit_code(&None), 0);
}

#[test]
fn files_are_reported_and_published() {
    let files = vec![record("a.txt", "x"), record("b.txt", "y\n")];
    match process(&files, &Args::default()) {
        Outcome::Publish { report, clipboard } => {
            assert_eq!(clipboard, ">>>> a.txt\nx\n>>>> b.txt\ny\n");
            let texts: Vec<&str> = report.iter().map(|l| l.text.as_str()).collect();
            assert_eq!(
                texts,
                vec![
                    "~0 tokens / 2 files / 2 lines",
                    "",
                    "Largest directories",
                    "- . (~0 tokens, 2 lines, 3 chars)",
                    "",
                    "Largest files",
                    "- b.txt (~0 tokens, 1 lines, 2 chars)",
                    "- a.txt (~0 tokens, 1 lines, 1 chars)",
                    "",
                    "\u{2705} Copied to clipboard",
                ]
            );
        }
        Outcome::NothingToDo { .. } => panic!("there are files"),
    }
}

#[test]
fn options_limit_the_lists_and_set_the_threshold() {
    let args = Args {
        top_file_count: 1,
        top_dir_count: 0,
        warn_large_files_by_line_count: 2,
        from_clipboard: false,
        path: None,
    };
    let files = vec![record("a.txt", "x"), record("d/b.txt", "y\nz\n")];
    match process(&files, &args) {
        Outcome::Publish { report, .. } => {
            assert_eq!(report.len(), 8);
            assert_eq!(report[5].text, "- d/b.txt (~1 tokens, 2 lines, 4 chars)");
            assert!(report[5].highlighted);
        }
        Outcome::NothingToDo { .. } => panic!("there are files"),
    }
}

#[test]
fn failed_collector_reports_status_and_stderr() {
    let result = check_collector(false, "exit status: 1".to_string(), "boom".to_string());
    let error = result.unwrap_err();
    assert!(matches!(error, RunError::CollectorFailed { .. }));
    let message = error.message();
    assert!(message.contains("boom"));
    assert!(message.contains("exit status: 1"));
    assert_eq!(message, "`yek --json` failed with status exit status: 1:\nboom");
    assert_eq!(exit_code(&Some(error)), 1);
}

#[test]
fn successful_collector_passes() {
    assert!(check_collector(true, "exit status: 0".to_string(), "warning".to_string()).is_ok());
}

#[test]
fn missing_collector_names_the_binary() {
    let error = RunError::CollectorUnavailable { detail: "No such file or directory".to_string() };
    assert_eq!(error.headline(), "Failed to execute `yek --json`. Is 'yek' in your PATH?");
    assert_eq!(error.cause(), Some("No such file or directory".to_string()));
    assert_eq!(
        error.message(),
        "Failed to execute `yek --json`. Is 'yek' in your PATH?\n\nCaused by:\n    No such file or directory"
    );
}

#[test]
fn decode_failure_hints_at_the_format() {
    let error = RunError::DecodeError { detail: "expected value at line 1 column 1".to_string() };
    assert_eq!(error.headline(), "Failed to parse JSON from `yek` output. Is the format correct?");
    assert!(error.message().ends_with("expected value at line 1 column 1"));
}

#[test]
fn clipboard_failure_names_the_step() {
    let open = RunError::ClipboardUnavailable { step: ClipboardStep::Open, detail: "no display".to_string() };
    let write = RunError::ClipboardUnavailable { step: ClipboardStep::Write, detail: "busy".to_string() };
    let read = RunError::ClipboardUnavailable { step: ClipboardStep::Read, detail: "empty".to_string() };
    assert_eq!(open.headline(), "Failed to initialize clipboard.");
    assert_eq!(read.headline(), "Failed to read the target directory from clipboard.");
    assert_eq!(write.headline(), "Failed to copy content to clipboard.");
    assert_eq!(write.message(), "Failed to copy content to clipboard.\n\nCaused by:\n    busy");
    assert_eq!(exit_code(&Some(open)), 1);
}

#[test]
fn collector_failure_has_no_cause_underneath() {
    let error = RunError::CollectorFailed { status: "signal: 9".to_string(), stderr: String::new() };
    assert_eq!(error.cause(), None);
    assert_eq!(error.message(), error.headline());
}

#[test]
fn collector_runs_in_place_without_a_target() {
    let plan = plan_collector(&Args::default());
    assert_eq!(plan.program, "yek");
    assert_eq!(arguments(&plan), vec!["--json"]);
    assert_eq!(plan.directory, DirectorySource::Inherited);
}

#[test]
fn collector_runs_in_the_given_path() {
    let args = Args { path: Some("some/dir".into()), ..Args::default() };
    let plan = plan_collector(&args);
    assert_eq!(plan.program, "yek");
    assert_eq!(arguments(&plan), vec!["--json", "."]);
    assert_eq!(plan.directory, DirectorySource::Arguments);
}

#[test]
fn clipboard_goes_before_a_given_path() {
    let args = Args { from_clipboard: true, ..Args::default() };
    let plan = plan_collector(&args);
    assert_eq!(arguments(&plan), vec!["--json", "."]);
    assert_eq!(plan.directory, DirectorySource::Clipboard);
    let args = Args { from_clipboard: true, path: Some("some/dir".into()), ..Args::default() };
    assert_eq!(plan_collector(&args).directory, DirectorySource::Clipboard);
}
