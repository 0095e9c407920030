//! Errors a renderer can report.

use vstd::prelude::*;
use crate::text::push_str;

verus! {

/// Why a report could not be rendered.
#[derive(Debug)]
pub enum ReportError {
    Template(String),
    Io(String),
    Serde(String),
    Fmt,
}

impl ReportError {
    pub open spec fn spec_message(&self) -> Seq<char> {
        match self {
            ReportError::Template(m) => "template rendering failed: "@ + m@,
            ReportError::Io(m) => "io error: "@ + m@,
            ReportError::Serde(m) => "serialisation failed: "@ + m@,
            ReportError::Fmt => "format failed: an error occurred when formatting an argument"@,
        }
    }

    /// The error's message.
    pub fn message(&self) -> (s: String)
        ensures
            s@ == self.spec_message(),
    {
        let mut s = String::new();
        match self {
            ReportError::Template(m) => {
                push_str(&mut s, "template rendering failed: ");
                push_str(&mut s, m.as_str());
            },
            ReportError::Io(m) => {
                push_str(&mut s, "io error: ");
                push_str(&mut s, m.as_str());
            },
            ReportError::Serde(m) => {
                push_str(&mut s, "serialisation failed: ");
                push_str(&mut s, m.as_str());
            },
            ReportError::Fmt => {
                push_str(&mut s, "format failed: an error occurred when formatting an argument");
            },
        }
        s
    }
}

} // verus!
