//! The totals of one run: files, lines, and the token estimate.

use vstd::prelude::*;
use vstd::string::StringExecFns;
use crate::record::{FileRecord, FileText, Measure, combined_content, total, total_bytes, total_lines, lemma_combined_content_measures};
use crate::text::{count_lines, estimate_tokens, size_in_bytes, token_estimate};

verus! {

/// The totals over all files of a run.
#[derive(Clone, Copy, Debug, PartialEq, Eq, Structural)]
pub struct RunStats {
    pub file_count: usize,
    pub total_lines: usize,
    pub total_tokens_estimate: usize,
}

/// The totals of the given files: their number, their lines added up, and
/// the token estimate of their joined text.
pub open spec fn stats_of(files: Seq<FileText>) -> (nat, nat, nat) {
    (files.len(), total_lines(files), token_estimate(combined_content(files)))
}

impl RunStats {
    /// The three totals as natural numbers: files, lines, tokens.
    pub open spec fn totals(self) -> (nat, nat, nat) {
        (self.file_count as nat, self.total_lines as nat, self.total_tokens_estimate as nat)
    }
}

/// Joins the texts of all files, in their order.
pub fn combine_contents(files: &Vec<FileRecord>) -> (combined: String)
    ensures
        combined@ == combined_content(files.deep_view()),
{
    let ghost all = files.deep_view();
    let mut combined = String::new();
    let mut at: usize = 0;
    assert(all.take(0).len() == 0);
    while at < files.len()
        invariant
            at <= files.len(),
            all == files.deep_view(),
            combined@ == combined_content(all.take(at as int)),
        decreases files.len() - at,
    {
        assert(all.take(at + 1).drop_last() == all.take(at as int));
        combined.append(files[at].content.as_str());
        at = at + 1;
    }
    assert(all.take(at as int) == all);
    combined
}

/// Computes the totals of a run. The token estimate is that of the joined
/// text, which may exceed the estimates of the files added up. Having
/// joined the texts, the machine can also count their bytes.
pub fn run_stats(files: &Vec<FileRecord>) -> (stats: RunStats)
    ensures
        stats.totals() == stats_of(files.deep_view()),
        total_bytes(files.deep_view()) <= usize::MAX,
{
    let ghost all = files.deep_view();
    let combined = combine_contents(files);
    let size = size_in_bytes(combined.as_str());
    let total_tokens_estimate = estimate_tokens(combined.as_str());
    let mut lines: usize = 0;
    let mut at: usize = 0;
    proof {
        lemma_combined_content_measures(all);
        assert(all.take(0).len() == 0);
    }
    while at < files.len()
        invariant
            at <= files.len(),
            all == files.deep_view(),
            total(all, Measure::Lines) <= usize::MAX,
            lines == total(all.take(at as int), Measure::Lines),
        decreases files.len() - at,
    {
        proof {
            assert(all.take(at + 1).drop_last() == all.take(at as int));
            crate::record::lemma_total_grows(all, at + 1, Measure::Lines);
        }
        lines = lines + count_lines(files[at].content.as_str());
        at = at + 1;
    }
    assert(all.take(at as int) == all);
    RunStats { file_count: files.len(), total_lines: lines, total_tokens_estimate }
}

} // verus!
