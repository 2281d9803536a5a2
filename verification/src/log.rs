//! The output log: what is appended to it, and the line that stands for each
//! entry on screen.

use crate::bridge::{BridgeReply, ReplyView};
use crate::transfer::{OutcomeView, TransferOutcome};
use vstd::prelude::*;
use vstd::string::StringExecFns;

verus! {

/// One entry of the output log.
#[derive(Debug, PartialEq, Eq)]
pub enum LogEntry {
    /// One attempted push of a batch.
    Transfer(TransferOutcome),
    /// A send was asked for with nothing staged.
    NoFilesToSend,
    /// A send was asked for with no valid device connected.
    NoValidDevice,
    /// A directory was dropped; the text is its path.
    InvalidDrop(String),
}

/// The mathematical value of a `LogEntry`.
pub enum LogEntryView {
    Transfer(OutcomeView),
    NoFilesToSend,
    NoValidDevice,
    InvalidDrop(Seq<char>),
}

impl View for LogEntry {
    type V = LogEntryView;

    open spec fn view(&self) -> LogEntryView {
        match self {
            LogEntry::Transfer(outcome) => LogEntryView::Transfer(outcome@),
            LogEntry::NoFilesToSend => LogEntryView::NoFilesToSend,
            LogEntry::NoValidDevice => LogEntryView::NoValidDevice,
            LogEntry::InvalidDrop(path) => LogEntryView::InvalidDrop(path@),
        }
    }
}

impl DeepView for LogEntry {
    type V = LogEntryView;

    open spec fn deep_view(&self) -> LogEntryView {
        self@
    }
}

/// What std's `Debug` formatting writes for a string slice with the
/// characters `text`: the text between double quotes, with escapes.
pub uninterp spec fn debug_quoted(text: Seq<char>) -> Seq<char>;

/// The line for a push that the bridge ran, from the quoted paths and the
/// bridge's output.
pub open spec fn sent_line_of(
    quoted_source: Seq<char>,
    quoted_destination: Seq<char>,
    output: Seq<char>,
) -> Seq<char> {
    "Sent "@ + quoted_source + " to "@ + quoted_destination + ": "@ + output
}

/// The line for a push that could not be started, from the quoted source
/// path and the reason.
pub open spec fn failed_line_of(quoted_source: Seq<char>, reason: Seq<char>) -> Seq<char> {
    "Failed to send "@ + quoted_source + ": "@ + reason
}

impl OutcomeView {
    /// The line that stands for this outcome.
    pub open spec fn line(self) -> Seq<char> {
        match self.reply {
            ReplyView::Completed(output) => sent_line_of(
                debug_quoted(self.source),
                debug_quoted(self.destination),
                output,
            ),
            ReplyView::LaunchFailed(reason) => failed_line_of(debug_quoted(self.source), reason),
        }
    }
}

impl LogEntryView {
    /// Whether the entry reports a send that was refused before it started.
    pub open spec fn is_precondition_unmet(self) -> bool {
        self is NoFilesToSend || self is NoValidDevice
    }

    /// The line that stands for this entry.
    pub open spec fn line(self) -> Seq<char> {
        match self {
            LogEntryView::Transfer(outcome) => outcome.line(),
            LogEntryView::NoFilesToSend => "No files to send."@,
            LogEntryView::NoValidDevice => "No valid device connected."@,
            LogEntryView::InvalidDrop(path) => path + " is a directory"@,
        }
    }
}

/// Calls std's `Debug` formatting for `str` (through `format!`). The result
/// is a function of the text alone; the contract gives it a name and claims
/// nothing else of it.
#[verifier::external_body]
fn quote(text: &str) -> (quoted: String)
    ensures
        quoted@ == debug_quoted(text@),
{
    format!("{:?}", text)
}

/// Writes the line for a push that the bridge ran.
pub fn sent_line(quoted_source: &str, quoted_destination: &str, output: &str) -> (line: String)
    ensures
        line@ == sent_line_of(quoted_source@, quoted_destination@, output@),
{
    let mut line = "Sent ".to_owned();
    line.append(quoted_source);
    line.append(" to ");
    line.append(quoted_destination);
    line.append(": ");
    line.append(output);
    line
}

/// Writes the line for a push that could not be started.
pub fn failed_line(quoted_source: &str, reason: &str) -> (line: String)
    ensures
        line@ == failed_line_of(quoted_source@, reason@),
{
    let mut line = "Failed to send ".to_owned();
    line.append(quoted_source);
    line.append(": ");
    line.append(reason);
    line
}

impl TransferOutcome {
    /// The line that stands for this outcome on screen.
    pub fn line(&self) -> (line: String)
        ensures
            line@ == self@.line(),
    {
        let source = quote(self.source.as_str());
        match &self.reply {
            BridgeReply::Completed(output) => {
                let destination = quote(self.destination.as_str());
                sent_line(source.as_str(), destination.as_str(), output.as_str())
            },
            BridgeReply::LaunchFailed(reason) => failed_line(source.as_str(), reason.as_str()),
        }
    }
}

impl LogEntry {
    /// The line that stands for this entry on screen.
    pub fn line(&self) -> (line: String)
        ensures
            line@ == self@.line(),
    {
        match self {
            LogEntry::Transfer(outcome) => outcome.line(),
            LogEntry::NoFilesToSend => "No files to send.".to_owned(),
            LogEntry::NoValidDevice => "No valid device connected.".to_owned(),
            LogEntry::InvalidDrop(path) => {
                let mut line = path.clone();
                line.append(" is a directory");
                line
            },
        }
    }
}

} // verus!
