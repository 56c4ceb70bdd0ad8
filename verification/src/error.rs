//! The run's error taxonomy. Every failure is fatal: the first error aborts
//! the run, its diagnostic goes to standard error, and the process exits with
//! a non-zero status.

use vstd::prelude::*;

verus! {

/// One fatal failure, each variant carrying the failing resource or field
/// where one is available.
#[derive(Debug)]
pub enum ReportError {
    /// The configuration document could not be opened or read.
    ConfigIo(String),
    /// The configuration document is not valid JSON.
    ConfigParse,
    /// The configuration is valid JSON but a required field is missing or is
    /// not a string.
    ConfigShape(String),
    /// A date string does not match the required `YYYY-MM-DDTHH:MM:SS`
    /// format; the field name says which one failed.
    DateFormat(String),
    /// The configured directory could not be opened.
    ScanOpen(String),
    /// Enumeration or metadata retrieval failed for an entry mid-scan.
    ScanEntry(String),
}

/// The diagnostic text of an error: its kind's name, what went wrong, and
/// the failing resource or field.
pub open spec fn spec_message(e: ReportError) -> Seq<char> {
    match e {
        ReportError::ConfigIo(p) => "config-io: cannot open or read "@ + p@,
        ReportError::ConfigParse => "config-parse: configuration is not valid JSON"@,
        ReportError::ConfigShape(f) => "config-shape: missing or non-string field "@ + f@,
        ReportError::DateFormat(f) => "date-format: invalid timestamp in "@ + f@,
        ReportError::ScanOpen(p) => "scan-open: cannot open directory "@ + p@,
        ReportError::ScanEntry(p) => "scan-entry: cannot read an entry of "@ + p@,
    }
}

impl ReportError {
    /// Renders the diagnostic that belongs on standard error.
    pub fn message(&self) -> (r: String)
        ensures
            r@ == spec_message(*self),
    {
        match self {
            ReportError::ConfigIo(p) => {
                let mut s = String::from_str("config-io: cannot open or read ");
                s.append(p.as_str());
                s
            },
            ReportError::ConfigParse => {
                String::from_str("config-parse: configuration is not valid JSON")
            },
            ReportError::ConfigShape(f) => {
                let mut s = String::from_str("config-shape: missing or non-string field ");
                s.append(f.as_str());
                s
            },
            ReportError::DateFormat(f) => {
                let mut s = String::from_str("date-format: invalid timestamp in ");
                s.append(f.as_str());
                s
            },
            ReportError::ScanOpen(p) => {
                let mut s = String::from_str("scan-open: cannot open directory ");
                s.append(p.as_str());
                s
            },
            ReportError::ScanEntry(p) => {
                let mut s = String::from_str("scan-entry: cannot read an entry of ");
                s.append(p.as_str());
                s
            },
        }
    }
}

} // verus!
