//! What is shown on the terminal while jobs run: lines of status, and the
//! line of an error.

use crate::errors::JobRunnerError;
use vstd::prelude::*;
use vstd::string::*;

verus! {

/// What a line reports, by which a terminal picks the colour of its label.
#[derive(Debug, Clone, Copy, PartialEq, Eq, Structural)]
pub enum Emphasis {
    Progress,
    Failure,
}

/// A line for the terminal: a label that is set off, and plain text behind
/// it.
#[derive(Debug, PartialEq, Eq)]
pub struct StatusLine {
    pub emphasis: Emphasis,
    pub label: String,
    pub text: String,
}

impl StatusLine {
    /// The line as it reads without colour.
    pub open spec fn plain(&self) -> Seq<char> {
        self.label@ + self.text@
    }
}

/// Shows lines on the terminal.
pub trait Printer {
    /// Writes `line`, followed by a line break.
    fn print(&self, line: &StatusLine) -> Result<(), JobRunnerError>;
}

/// The label of a line of status: `prefix`, behind four spaces where the
/// line is indented.
pub open spec fn status_label(prefix: Seq<char>, is_indented: bool) -> Seq<char> {
    if is_indented {
        "    "@ + prefix
    } else {
        prefix
    }
}

/// The line that reports `msg` under the label `prefix`.
pub fn status(prefix: &str, msg: &str, is_indented: bool) -> (line: StatusLine)
    ensures
        line.emphasis == Emphasis::Progress,
        line.label@ == status_label(prefix@, is_indented),
        line.text@ == " "@ + msg@,
{
    let label = if is_indented {
        let mut label = String::from_str("    ");
        label.append(prefix);
        label
    } else {
        String::from_str(prefix)
    };
    let mut text = String::from_str(" ");
    text.append(msg);
    StatusLine { emphasis: Emphasis::Progress, label, text }
}

/// The line that reports the failure `msg`.
pub fn error(msg: &str) -> (line: StatusLine)
    ensures
        line.emphasis == Emphasis::Failure,
        line.label@ == "error: "@,
        line.text@ == msg@,
{
    StatusLine {
        emphasis: Emphasis::Failure,
        label: String::from_str("error: "),
        text: String::from_str(msg),
    }
}

} // verus!
