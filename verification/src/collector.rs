//! How the collector is called, and what its exit means.

use vstd::prelude::*;
use vstd::string::StringExecFns;
use crate::cli::Args;
use crate::error::RunError;

verus! {

/// Where the directory comes from in which the collector runs.
#[derive(Clone, Copy, Debug, PartialEq, Eq, Structural)]
pub enum DirectorySource {
    /// The directory in which the tool was started.
    Inherited,
    /// The path given on the command line.
    Arguments,
    /// The path that the clipboard holds.
    Clipboard,
}

/// One call of the collector.
#[derive(Debug)]
pub struct CollectorPlan {
    pub program: String,
    pub arguments: Vec<String>,
    pub directory: DirectorySource,
}

/// The clipboard goes before a path on the command line; with neither the
/// collector runs where the tool was started.
pub open spec fn directory_source(from_clipboard: bool, has_path: bool) -> DirectorySource {
    if from_clipboard {
        DirectorySource::Clipboard
    } else if has_path {
        DirectorySource::Arguments
    } else {
        DirectorySource::Inherited
    }
}

/// The arguments of the collector: it is asked for JSON, and told to
/// collect from its own directory where a target directory was chosen.
pub open spec fn collector_arguments(directory: DirectorySource) -> Seq<Seq<char>> {
    if directory == DirectorySource::Inherited {
        seq!["--json"@]
    } else {
        seq!["--json"@, "."@]
    }
}

/// Plans the call of the collector for the given options.
pub fn plan_collector(args: &Args) -> (plan: CollectorPlan)
    ensures
        plan.program@ == "yek"@,
        plan.directory == directory_source(args.from_clipboard, args.path is Some),
        plan.arguments.deep_view() == collector_arguments(plan.directory),
{
    let directory = if args.from_clipboard {
        DirectorySource::Clipboard
    } else if args.path.is_some() {
        DirectorySource::Arguments
    } else {
        DirectorySource::Inherited
    };
    let mut arguments: Vec<String> = Vec::new();
    arguments.push(String::from_str("--json"));
    match directory {
        DirectorySource::Inherited => {},
        _ => {
            arguments.push(String::from_str("."));
        },
    }
    assert(arguments.deep_view() =~= collector_arguments(directory));
    CollectorPlan { program: String::from_str("yek"), arguments, directory }
}

/// Judges the exit of the collector: a collector that did not succeed
/// fails the run, with its exit status and its error output.
pub fn check_collector(success: bool, status: String, stderr: String) -> (result: Result<
    (),
    RunError,
>)
    ensures
        success <==> result is Ok,
        !success ==> (result matches Err(RunError::CollectorFailed { status: s, stderr: e }) && s@
            == status@ && e@ == stderr@),
{
    if success {
        Ok(())
    } else {
        Err(RunError::CollectorFailed { status, stderr })
    }
}

} // verus!
