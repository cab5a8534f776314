//! File records, as the collector emits them, and the sums taken over a
//! sequence of them.

use vstd::prelude::*;
use crate::text::{byte_len, line_count, lemma_byte_len_concat, lemma_byte_len_covers_chars, lemma_line_count_bound};

verus! {

/// One file of the collected tree: its relative path and its raw text.
#[derive(Debug)]
pub struct FileRecord {
    pub filename: String,
    pub content: String,
}

/// What a file record holds, as two sequences of scalar values.
pub ghost struct FileText {
    pub filename: Seq<char>,
    pub content: Seq<char>,
}

impl View for FileRecord {
    type V = FileText;

    open spec fn view(&self) -> FileText {
        FileText { filename: self.filename@, content: self.content@ }
    }
}

impl DeepView for FileRecord {
    type V = FileText;

    open spec fn deep_view(&self) -> FileText {
        self@
    }
}

impl FileRecord {
    /// A record of the given name and text.
    pub fn new(filename: String, content: String) -> (record: FileRecord)
        ensures
            record@ == (FileText { filename: filename@, content: content@ }),
    {
        FileRecord { filename, content }
    }
}

/// The texts of all files joined, in the order of the files.
pub open spec fn combined_content(files: Seq<FileText>) -> Seq<char>
    decreases files.len(),
{
    if files.len() == 0 {
        Seq::empty()
    } else {
        combined_content(files.drop_last()) + files.last().content
    }
}

/// What is added up over files: their sizes in bytes, or their lines.
pub ghost enum Measure {
    Bytes,
    Lines,
}

/// One file's share in a sum.
pub open spec fn measure(file: FileText, by: Measure) -> nat {
    match by {
        Measure::Bytes => byte_len(file.content),
        Measure::Lines => line_count(file.content),
    }
}

/// The measures of all files, added up.
pub open spec fn total(files: Seq<FileText>, by: Measure) -> nat
    decreases files.len(),
{
    if files.len() == 0 {
        0
    } else {
        total(files.drop_last(), by) + measure(files.last(), by)
    }
}

/// The sizes in bytes of all files, added up.
pub open spec fn total_bytes(files: Seq<FileText>) -> nat {
    total(files, Measure::Bytes)
}

/// The line counts of all files, added up.
pub open spec fn total_lines(files: Seq<FileText>) -> nat {
    total(files, Measure::Lines)
}

/// The joined text is as large as the files together, and has no fewer
/// scalar values than the files have lines.
pub proof fn lemma_combined_content_measures(files: Seq<FileText>)
    ensures
        byte_len(combined_content(files)) == total_bytes(files),
        total_lines(files) <= combined_content(files).len(),
        combined_content(files).len() <= total_bytes(files),
    decreases files.len(),
{
    if files.len() > 0 {
        lemma_combined_content_measures(files.drop_last());
        lemma_byte_len_concat(combined_content(files.drop_last()), files.last().content);
        lemma_line_count_bound(files.last().content);
    }
    lemma_byte_len_covers_chars(combined_content(files));
}

/// The sum over a part of the files does not exceed the sum over all.
pub proof fn lemma_total_grows(files: Seq<FileText>, upto: int, by: Measure)
    requires
        0 <= upto <= files.len(),
    ensures
        total(files.take(upto), by) <= total(files, by),
    decreases files.len() - upto,
{
    if upto < files.len() {
        lemma_total_grows(files, upto + 1, by);
        assert(files.take(upto + 1).drop_last() == files.take(upto));
    } else {
        assert(files.take(upto) == files);
    }
}

} // verus!
