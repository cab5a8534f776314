//! Totals per directory: every file counts towards its immediate parent
//! directory and towards no other.

use vstd::pervasive::VecAdditionalExecFns;
use vstd::prelude::*;
use crate::record::{FileRecord, FileText, Measure, measure, total, total_bytes, lemma_total_grows, lemma_combined_content_measures};
use crate::text::{count_lines, directory_of, parent_directory, size_in_bytes};

verus! {

/// The size and the lines of the files that lie directly in one directory.
#[derive(Debug)]
pub struct DirectoryAggregate {
    /// The directory's path; empty for the root directory.
    pub path: String,
    /// The sizes of the directory's files, in bytes of UTF-8, added up.
    pub total_chars: usize,
    /// The line counts of the directory's files, added up.
    pub total_lines: usize,
}

/// What a directory aggregate holds.
pub ghost struct DirectoryTotals {
    pub path: Seq<char>,
    pub total_chars: nat,
    pub total_lines: nat,
}

impl View for DirectoryAggregate {
    type V = DirectoryTotals;

    open spec fn view(&self) -> DirectoryTotals {
        DirectoryTotals {
            path: self.path@,
            total_chars: self.total_chars as nat,
            total_lines: self.total_lines as nat,
        }
    }
}

impl DeepView for DirectoryAggregate {
    type V = DirectoryTotals;

    open spec fn deep_view(&self) -> DirectoryTotals {
        self@
    }
}

/// The directory that a file lies in.
pub open spec fn directory_of_file(file: FileText) -> Seq<char> {
    directory_of(file.filename)
}

/// The directories of the files, each once, in the order in which the
/// files first name them.
pub open spec fn directories(files: Seq<FileText>) -> Seq<Seq<char>>
    decreases files.len(),
{
    if files.len() == 0 {
        Seq::empty()
    } else {
        let before = directories(files.drop_last());
        let dir = directory_of_file(files.last());
        if before.contains(dir) {
            before
        } else {
            before.push(dir)
        }
    }
}

/// The measures of the files that lie directly in `dir`, added up.
pub open spec fn directory_sum(files: Seq<FileText>, dir: Seq<char>, by: Measure) -> nat
    decreases files.len(),
{
    if files.len() == 0 {
        0
    } else if directory_of_file(files.last()) == dir {
        directory_sum(files.drop_last(), dir, by) + measure(files.last(), by)
    } else {
        directory_sum(files.drop_last(), dir, by)
    }
}

/// The totals of the given directories, in their order.
pub open spec fn totals_for(files: Seq<FileText>, dirs: Seq<Seq<char>>) -> Seq<DirectoryTotals> {
    Seq::new(
        dirs.len(),
        |k: int|
            DirectoryTotals {
                path: dirs[k],
                total_chars: directory_sum(files, dirs[k], Measure::Bytes),
                total_lines: directory_sum(files, dirs[k], Measure::Lines),
            },
    )
}

/// One aggregate for each directory that holds a file, in the order in
/// which the files first name the directories.
pub open spec fn directory_totals(files: Seq<FileText>) -> Seq<DirectoryTotals> {
    totals_for(files, directories(files))
}

/// One field of the aggregates, added up over all of them.
pub open spec fn aggregated(totals: Seq<DirectoryTotals>, by: Measure) -> nat
    decreases totals.len(),
{
    if totals.len() == 0 {
        0
    } else {
        aggregated(totals.drop_last(), by) + match by {
            Measure::Bytes => totals.last().total_chars,
            Measure::Lines => totals.last().total_lines,
        }
    }
}

/// No directory is listed twice.
pub proof fn lemma_directories_distinct(files: Seq<FileText>)
    ensures
        forall|a: int, b: int|
            0 <= a < b < directories(files).len() ==> directories(files)[a] != directories(
                files,
            )[b],
    decreases files.len(),
{
    if files.len() > 0 {
        let before = directories(files.drop_last());
        let dirs = directories(files);
        lemma_directories_distinct(files.drop_last());
        assert forall|a: int, b: int| 0 <= a < b < dirs.len() implies dirs[a] != dirs[b] by {
            if b < before.len() {
                assert(dirs[a] == before[a] && dirs[b] == before[b]);
            } else {
                assert(dirs[a] == before[a]);
                assert(!before.contains(dirs[b]));
            }
        }
    }
}

/// Every file lies in one of the listed directories.
pub proof fn lemma_every_file_has_its_directory(files: Seq<FileText>, at: int)
    requires
        0 <= at < files.len(),
    ensures
        directories(files).contains(directory_of_file(files[at])),
    decreases files.len(),
{
    let before = directories(files.drop_last());
    let dirs = directories(files);
    let dir = directory_of_file(files[at]);
    if at == files.len() - 1 {
        if !before.contains(dir) {
            assert(dirs[dirs.len() - 1] == dir);
        }
    } else {
        lemma_every_file_has_its_directory(files.drop_last(), at);
        let k = choose|k: int| 0 <= k < before.len() && before[k] == dir;
        assert(dirs[k] == dir);
    }
}

/// A directory that is not listed holds no file.
pub proof fn lemma_unlisted_directory_is_empty(files: Seq<FileText>, dir: Seq<char>, by: Measure)
    requires
        !directories(files).contains(dir),
    ensures
        directory_sum(files, dir, by) == 0,
    decreases files.len(),
{
    if files.len() > 0 {
        let before = directories(files.drop_last());
        let last = directory_of_file(files.last());
        if before.contains(dir) {
            let k = choose|k: int| 0 <= k < before.len() && before[k] == dir;
            assert(directories(files)[k] == dir);
        }
        if last == dir {
            if !before.contains(last) {
                assert(directories(files).last() == dir);
            }
        }
        lemma_unlisted_directory_is_empty(files.drop_last(), dir, by);
    }
}

/// A directory holds no more than all files together.
pub proof fn lemma_directory_sum_bound(files: Seq<FileText>, dir: Seq<char>, by: Measure)
    ensures
        directory_sum(files, dir, by) <= total(files, by),
    decreases files.len(),
{
    if files.len() > 0 {
        lemma_directory_sum_bound(files.drop_last(), dir, by);
    }
}

/// The sums of the listed directories, added up.
pub open spec fn sum_over(files: Seq<FileText>, dirs: Seq<Seq<char>>, by: Measure) -> nat
    decreases dirs.len(),
{
    if dirs.len() == 0 {
        0
    } else {
        sum_over(files, dirs.drop_last(), by) + directory_sum(files, dirs.last(), by)
    }
}

/// One more file adds its measure to the sum over a list of distinct
/// directories if the list holds its directory, and nothing otherwise.
proof fn lemma_sum_over_step(files: Seq<FileText>, dirs: Seq<Seq<char>>, by: Measure)
    requires
        files.len() > 0,
        forall|a: int, b: int| 0 <= a < b < dirs.len() ==> dirs[a] != dirs[b],
    ensures
        sum_over(files, dirs, by) == sum_over(files.drop_last(), dirs, by) + if dirs.contains(
            directory_of_file(files.last()),
        ) {
            measure(files.last(), by)
        } else {
            0
        },
    decreases dirs.len(),
{
    let dir = directory_of_file(files.last());
    if dirs.len() > 0 {
        let front = dirs.drop_last();
        lemma_sum_over_step(files, front, by);
        if front.contains(dir) {
            let k = choose|k: int| 0 <= k < front.len() && front[k] == dir;
            assert(dirs[k] == dir);
            assert(dirs.last() != dir);
        } else if dirs.contains(dir) {
            let k = choose|k: int| 0 <= k < dirs.len() && dirs[k] == dir;
            if k < front.len() {
                assert(front[k] == dir);
            }
        } else {
            assert(dirs[dirs.len() - 1] == dirs.last());
        }
    }
}

/// The directories part the files: the sums of all directories together
/// are the sum over all files.
pub proof fn lemma_directories_partition(files: Seq<FileText>, by: Measure)
    ensures
        sum_over(files, directories(files), by) == total(files, by),
    decreases files.len(),
{
    if files.len() > 0 {
        let shorter = files.drop_last();
        let before = directories(shorter);
        let dir = directory_of_file(files.last());
        lemma_directories_partition(shorter, by);
        lemma_directories_distinct(files);
        lemma_sum_over_step(files, directories(files), by);
        if before.contains(dir) {
        } else {
            assert(directories(files).last() == dir);
            assert(directories(files).drop_last() == before);
            lemma_unlisted_directory_is_empty(shorter, dir, by);
        }
    }
}

/// Adding up a field of the aggregates is adding up the directories' sums.
proof fn lemma_aggregated_is_sum_over(files: Seq<FileText>, dirs: Seq<Seq<char>>, by: Measure)
    ensures
        aggregated(totals_for(files, dirs), by) == sum_over(files, dirs, by),
    decreases dirs.len(),
{
    if dirs.len() > 0 {
        lemma_aggregated_is_sum_over(files, dirs.drop_last(), by);
        assert(totals_for(files, dirs).drop_last() == totals_for(files, dirs.drop_last()));
    }
}

/// The sizes of all directory aggregates together are the sizes of all
/// files together, and so are the lines: every file counts once.
pub proof fn lemma_aggregates_cover_all_files(files: Seq<FileText>)
    ensures
        aggregated(directory_totals(files), Measure::Bytes) == total(files, Measure::Bytes),
        aggregated(directory_totals(files), Measure::Lines) == total(files, Measure::Lines),
{
    lemma_aggregated_is_sum_over(files, directories(files), Measure::Bytes);
    lemma_aggregated_is_sum_over(files, directories(files), Measure::Lines);
    lemma_directories_partition(files, Measure::Bytes);
    lemma_directories_partition(files, Measure::Lines);
}

/// What one more file does to the totals of a directory.
proof fn lemma_directory_sum_step(files: Seq<FileText>, upto: int, dir: Seq<char>, by: Measure)
    requires
        0 <= upto < files.len(),
    ensures
        directory_sum(files.take(upto + 1), dir, by) == directory_sum(files.take(upto), dir, by)
            + if directory_of_file(files[upto]) == dir {
            measure(files[upto], by)
        } else {
            0
        },
        directory_sum(files.take(upto + 1), dir, by) <= total(files, by),
{
    assert(files.take(upto + 1).drop_last() == files.take(upto));
    lemma_directory_sum_bound(files.take(upto + 1), dir, by);
    lemma_total_grows(files, upto + 1, by);
}

/// Adds up, for each directory that holds a file, the sizes and the lines
/// of its files. The files must be small enough together for the machine
/// to count their bytes, which `run_stats` finds out for any files.
pub fn aggregate_directories(files: &Vec<FileRecord>) -> (out: Vec<DirectoryAggregate>)
    requires
        total_bytes(files.deep_view()) <= usize::MAX,
    ensures
        out.deep_view() == directory_totals(files.deep_view()),
{
    let ghost all = files.deep_view();
    let mut out: Vec<DirectoryAggregate> = Vec::new();
    let mut at: usize = 0;
    proof {
        lemma_combined_content_measures(all);
        assert(all.take(0).len() == 0);
    }
    while at < files.len()
        invariant
            at <= files.len(),
            all == files.deep_view(),
            total(all, Measure::Bytes) <= usize::MAX,
            total(all, Measure::Lines) <= usize::MAX,
            out.len() == directories(all.take(at as int)).len(),
            forall|j: int|
                0 <= j < out.len() ==> (#[trigger] out[j])@ == directory_totals(
                    all.take(at as int),
                )[j],
        decreases files.len() - at,
    {
        let file = &files[at];
        let dir = parent_directory(file.filename.as_str());
        let size = size_in_bytes(file.content.as_str());
        let lines = count_lines(file.content.as_str());
        let ghost seen = all.take(at as int);
        let ghost next = all.take(at + 1);
        let ghost dirs = directories(seen);
        let mut slot: usize = 0;
        while slot < out.len() && !(out[slot].path == dir)
            invariant
                slot <= out.len(),
                out.len() == dirs.len(),
                forall|j: int| 0 <= j < out.len() ==> (#[trigger] out[j])@.path == dirs[j],
                forall|j: int| 0 <= j < slot ==> #[trigger] dirs[j] != dir@,
            decreases out.len() - slot,
        {
            slot = slot + 1;
        }
        proof {
            assert(next.drop_last() == seen);
            assert(next.last() == all[at as int]);
            assert(all[at as int] == files[at as int]@);
            lemma_directories_distinct(seen);
            lemma_directory_sum_step(all, at as int, dir@, Measure::Bytes);
            lemma_directory_sum_step(all, at as int, dir@, Measure::Lines);
            assert forall|j: int| 0 <= j < dirs.len() && dirs[j] != dir@ implies directory_sum(
                next,
                #[trigger] dirs[j],
                Measure::Bytes,
            ) == directory_sum(seen, dirs[j], Measure::Bytes) && directory_sum(
                next,
                dirs[j],
                Measure::Lines,
            ) == directory_sum(seen, dirs[j], Measure::Lines) by {
                lemma_directory_sum_step(all, at as int, dirs[j], Measure::Bytes);
                lemma_directory_sum_step(all, at as int, dirs[j], Measure::Lines);
            }
        }
        if slot < out.len() {
            proof {
                assert(dirs[slot as int] == dir@);
                assert(dirs.contains(dir@));
                assert(directories(next) == dirs);
                assert(out[slot as int]@ == directory_totals(seen)[slot as int]);
            }
            let total_chars = out[slot].total_chars + size;
            let total_lines = out[slot].total_lines + lines;
            out.set(slot, DirectoryAggregate { path: dir, total_chars, total_lines });
        } else {
            proof {
                assert(!dirs.contains(dir@));
                assert(directories(next) == dirs.push(dir@));
                lemma_unlisted_directory_is_empty(seen, dir@, Measure::Bytes);
                lemma_unlisted_directory_is_empty(seen, dir@, Measure::Lines);
            }
            out.push(DirectoryAggregate { path: dir, total_chars: size, total_lines: lines });
        }
        at = at + 1;
    }
    proof {
        assert(all.take(at as int) == all);
        assert(out.deep_view() =~= directory_totals(all));
    }
    out
}

} // verus!
