//! The ways in which a run fails. Every failure ends the run.

use vstd::prelude::*;
use vstd::string::StringExecFns;

verus! {

/// The step of clipboard access that failed.
#[derive(Clone, Copy, Debug, PartialEq, Eq, Structural)]
pub enum ClipboardStep {
    /// The clipboard could not be opened.
    Open,
    /// The clipboard gave no text to read the target directory from.
    Read,
    /// The clipboard refused the text.
    Write,
}

/// Why a run failed.
#[derive(Debug)]
pub enum RunError {
    /// The collector could not be started; `detail` says why.
    CollectorUnavailable { detail: String },
    /// The collector ran and reported failure.
    CollectorFailed { status: String, stderr: String },
    /// What the collector wrote is not a list of file records.
    DecodeError { detail: String },
    /// The clipboard could not be used.
    ClipboardUnavailable { step: ClipboardStep, detail: String },
}

/// What introduces the cause of a failure in its message.
pub open spec fn cause_intro() -> Seq<char> {
    "\n\nCaused by:\n    "@
}

impl RunError {
    /// The sentence that names the step that failed. For a collector that
    /// reported failure it holds the exit status and what the collector
    /// wrote to its error stream, unchanged.
    pub open spec fn headline_text(self) -> Seq<char> {
        match self {
            RunError::CollectorUnavailable { .. } => "Failed to execute `yek --json`. Is 'yek' in your PATH?"@,
            RunError::CollectorFailed { status, stderr } => "`yek --json` failed with status "@
                + status@ + ":\n"@ + stderr@,
            RunError::DecodeError { .. } => "Failed to parse JSON from `yek` output. Is the format correct?"@,
            RunError::ClipboardUnavailable { step: ClipboardStep::Open, .. } => "Failed to initialize clipboard."@,
            RunError::ClipboardUnavailable { step: ClipboardStep::Read, .. } => "Failed to read the target directory from clipboard."@,
            RunError::ClipboardUnavailable { step: ClipboardStep::Write, .. } => "Failed to copy content to clipboard."@,
        }
    }

    /// The text of the failure underneath, where there is one.
    pub open spec fn cause_text(self) -> Option<Seq<char>> {
        match self {
            RunError::CollectorUnavailable { detail } => Some(detail@),
            RunError::CollectorFailed { .. } => None,
            RunError::DecodeError { detail } => Some(detail@),
            RunError::ClipboardUnavailable { detail, .. } => Some(detail@),
        }
    }

    /// The whole message: the headline, and the cause where there is one.
    pub open spec fn message_text(self) -> Seq<char> {
        match self.cause_text() {
            Some(cause) => self.headline_text() + cause_intro() + cause,
            None => self.headline_text(),
        }
    }

    /// The sentence that names the step that failed.
    pub fn headline(&self) -> (text: String)
        ensures
            text@ == self.headline_text(),
    {
        match self {
            RunError::CollectorUnavailable { .. } => String::from_str(
                "Failed to execute `yek --json`. Is 'yek' in your PATH?",
            ),
            RunError::CollectorFailed { status, stderr } => {
                let mut text = String::from_str("`yek --json` failed with status ");
                text.append(status.as_str());
                text.append(":\n");
                text.append(stderr.as_str());
                text
            },
            RunError::DecodeError { .. } => String::from_str(
                "Failed to parse JSON from `yek` output. Is the format correct?",
            ),
            RunError::ClipboardUnavailable { step: ClipboardStep::Open, .. } => String::from_str(
                "Failed to initialize clipboard.",
            ),
            RunError::ClipboardUnavailable { step: ClipboardStep::Read, .. } => String::from_str(
                "Failed to read the target directory from clipboard.",
            ),
            RunError::ClipboardUnavailable { step: ClipboardStep::Write, .. } => String::from_str(
                "Failed to copy content to clipboard.",
            ),
        }
    }

    /// The text of the failure underneath, where there is one.
    pub fn cause(&self) -> (text: Option<String>)
        ensures
            (text is Some) == (self.cause_text() is Some),
            text matches Some(cause) ==> self.cause_text() == Some(cause@),
    {
        match self {
            RunError::CollectorUnavailable { detail } => Some(detail.clone()),
            RunError::CollectorFailed { .. } => None,
            RunError::DecodeError { detail } => Some(detail.clone()),
            RunError::ClipboardUnavailable { detail, .. } => Some(detail.clone()),
        }
    }

    /// The message shown to the user.
    pub fn message(&self) -> (text: String)
        ensures
            text@ == self.message_text(),
    {
        let mut text = self.headline();
        match self.cause() {
            Some(cause) => {
                text.append("\n\nCaused by:\n    ");
                text.append(cause.as_str());
            },
            None => {},
        }
        text
    }
}

/// The exit code of a run: zero where it succeeded, one where it failed.
pub fn exit_code(failure: &Option<RunError>) -> (code: u8)
    ensures
        failure is None ==> code == 0,
        failure is Some ==> code == 1,
{
    match failure {
        None => 0,
        Some(_) => 1,
    }
}

} // verus!
