//! The text that goes to the clipboard: every file under a header line
//! that holds its name.

use vstd::prelude::*;
use vstd::string::{StrSliceExecFns, StringExecFns};
use crate::record::{FileRecord, FileText};

verus! {

/// Whether a text ends with a line feed.
pub open spec fn ends_with_newline(text: Seq<char>) -> bool {
    text.len() > 0 && text.last() == '\n'
}

/// The line feed that closes a file's text where the text has none.
pub open spec fn closing_newline(content: Seq<char>) -> Seq<char> {
    if ends_with_newline(content) {
        Seq::empty()
    } else {
        "\n"@
    }
}

/// One file in the clipboard text: the header line with the file's name,
/// the file's text, and a line feed unless the text ends with one.
pub open spec fn block_text(file: FileText) -> Seq<char> {
    ">>>> "@ + file.filename + "\n"@ + file.content + closing_newline(file.content)
}

/// The clipboard text: the blocks of all files, in the order of the files,
/// with nothing between them.
pub open spec fn clipboard_text(files: Seq<FileText>) -> Seq<char>
    decreases files.len(),
{
    if files.len() == 0 {
        Seq::empty()
    } else {
        clipboard_text(files.drop_last()) + block_text(files.last())
    }
}

/// Tells whether a text ends with a line feed.
pub fn has_final_newline(text: &str) -> (ends: bool)
    ensures
        ends == ends_with_newline(text@),
{
    let len = text.unicode_len();
    len > 0 && text.get_char(len - 1) == '\n'
}

/// Builds the text for the clipboard.
pub fn build_clipboard_text(files: &Vec<FileRecord>) -> (text: String)
    ensures
        text@ == clipboard_text(files.deep_view()),
{
    let ghost all = files.deep_view();
    let mut text = String::new();
    let mut at: usize = 0;
    assert(all.take(0).len() == 0);
    while at < files.len()
        invariant
            at <= files.len(),
            all == files.deep_view(),
            text@ == clipboard_text(all.take(at as int)),
        decreases files.len() - at,
    {
        let file = &files[at];
        let ghost before = text@;
        proof {
            assert(all.take(at + 1).drop_last() == all.take(at as int));
            assert(all.take(at + 1).last() == file@);
        }
        text.append(">>>> ");
        text.append(file.filename.as_str());
        text.append("\n");
        text.append(file.content.as_str());
        if !has_final_newline(file.content.as_str()) {
            text.append("\n");
        }
        assert(text@ =~= before + block_text(file@));
        at = at + 1;
    }
    assert(all.take(at as int) == all);
    text
}

} // verus!
