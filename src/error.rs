//! The errors that end one session's reconciliation.
use vstd::prelude::*;

verus! {

/// Why a session could not be reconciled. Each variant carries a message.
#[derive(Clone, Debug, PartialEq, Eq)]
pub enum ReportError {
    /// The remote timesheet service failed or refused a call.
    Kimai(String),
    /// The session report could not be read.
    Timewarrior(String),
    /// An identifier tag did not end in an unsigned integer.
    ParseInt(String),
    /// Writing to the local tracker, or reading the console, failed.
    IO(String),
    /// A concurrent task could not be joined.
    Join(String),
    /// Anything else.
    Other(String),
}

impl ReportError {
    /// The label that introduces this kind of error in its description.
    pub open spec fn label(&self) -> Seq<char> {
        match self {
            ReportError::Kimai(_) => "Kimai Error: "@,
            ReportError::Timewarrior(_) => "Timewarrior Error: "@,
            ReportError::ParseInt(_) => "Parse Int Error: "@,
            ReportError::IO(_) => "IO Error: "@,
            ReportError::Join(_) => "Join Error: "@,
            ReportError::Other(_) => "Other Error: "@,
        }
    }

    pub open spec fn detail(&self) -> Seq<char> {
        match self {
            ReportError::Kimai(m) => m@,
            ReportError::Timewarrior(m) => m@,
            ReportError::ParseInt(m) => m@,
            ReportError::IO(m) => m@,
            ReportError::Join(m) => m@,
            ReportError::Other(m) => m@,
        }
    }

    /// The description of the error: its label followed by its message.
    pub fn message(&self) -> (r: String)
        ensures
            r@ == self.label() + self.detail(),
    {
        let (label, detail) = match self {
            ReportError::Kimai(m) => ("Kimai Error: ", m),
            ReportError::Timewarrior(m) => ("Timewarrior Error: ", m),
            ReportError::ParseInt(m) => ("Parse Int Error: ", m),
            ReportError::IO(m) => ("IO Error: ", m),
            ReportError::Join(m) => ("Join Error: ", m),
            ReportError::Other(m) => ("Other Error: ", m),
        };
        let mut r = String::from_str(label);
        r.append(detail.as_str());
        r
    }
}

} // verus!
