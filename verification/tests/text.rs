use yek_wrapper::estimate_tokens;
use yek_wrapper::text::{count_lines, parent_directory, size_in_bytes};

#[test]
fn token_estimate_of_empty_text_is_zero() {
    assert_eq!(estimate_tokens(""), 0);
}

#[test]
fn token_estimate_rounds_down() {
    assert_eq!(estimate_tokens("abc"), 0);
    assert_eq!(estimate_tokens("abcd"), 1);
    assert_eq!(estimate_tokens("abcdefg"), 1);
    assert_eq!(estimate_tokens("abcdefgh"), 2);
    assert_eq!(estimate_tokens("hello world"), 2);
}

#[test]
fn token_estimate_counts_scalar_values_not_bytes() {
    // five scalar values in ten bytes
    let text = "\u{e9}\u{e9}\u{e9}\u{e9}\u{e9}";
    assert_eq!(text.len(), 10);
    assert_eq!(estimate_tokens(text), 1);
    // four scalar values in sixteen bytes
    assert_eq!(estimate_tokens("\u{1F600}\u{1F600}\u{1F600}\u{1F600}"), 1);
}

#[test]
fn token_estimate_is_the_same_on_every_call() {
    let text = "some text of a certain length";
    assert_eq!(estimate_tokens(text), estimate_tokens(text));
    assert_eq!(estimate_tokens(text), text.chars().count() / 4);
}

#[test]
fn lines_of_empty_text() {
    assert_eq!(count_lines(""), 0);
}

#[test]
fn lines_without_final_line_feed() {
    assert_eq!(count_lines("a"), 1);
    assert_eq!(count_lines("a\nb"), 2);
    assert_eq!(count_lines("a\nb\nc"), 3);
}

#[test]
fn final_line_feed_adds_no_line() {
    assert_eq!(count_lines("a\n"), 1);
    assert_eq!(count_lines("a\nb\n"), 2);
    assert_eq!(count_lines("\n"), 1);
}

#[test]
fn empty_lines_count() {
    assert_eq!(count_lines("\n\n"), 2);
    assert_eq!(count_lines("a\n\nb\n"), 3);
    assert_eq!(count_lines("\n\nx"), 3);
}

#[test]
fn lines_agree_with_the_standard_splitting() {
    let samples = [
        "",
        "x",
        "x\n",
        "x\ny",
        "x\r\ny\r\n",
        "\r\n",
        "\n\n\n",
        "one\ntwo\nthree\n",
        "caf\u{e9}\nna\u{ef}ve",
        "\u{1F600}\n",
    ];
    for sample in samples {
        assert_eq!(count_lines(sample), sample.lines().count());
    }
}

#[test]
fn size_is_counted_in_bytes() {
    assert_eq!(size_in_bytes(""), 0);
    assert_eq!(size_in_bytes("abc"), 3);
    assert_eq!(size_in_bytes("\u{e9}"), 2);
    assert_eq!(size_in_bytes("\u{20AC}"), 3);
    assert_eq!(size_in_bytes("\u{1F600}"), 4);
}

#[test]
fn directory_of_a_nested_file() {
    assert_eq!(parent_directory("src/main.rs"), "src");
    assert_eq!(parent_directory("a/b/c.txt"), "a/b");
}

#[test]
fn directory_of_a_root_file_is_empty() {
    assert_eq!(parent_directory("main.rs"), "");
    assert_eq!(parent_directory(""), "");
}

#[test]
fn directory_is_what_stands_before_the_last_slash() {
    assert_eq!(parent_directory("a/b/"), "a/b");
    assert_eq!(parent_directory("/x"), "");
    assert_eq!(parent_directory("d\u{e9}j\u{e0}/vu.txt"), "d\u{e9}j\u{e0}");
}
