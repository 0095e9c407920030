//! Errors of the terminal front-end.

use vstd::prelude::*;
use crate::text::push_str;

verus! {

/// What can go wrong in the front-end. A fatal error stops it; a
/// recoverable one is listed with the diagnostics.
#[derive(Debug)]
pub enum TuiError {
    Terminal(String),
    EventSource(String),
    Component(String),
    Io(String),
}

impl TuiError {
    pub open spec fn spec_is_fatal(&self) -> bool {
        match self {
            TuiError::Terminal(_) | TuiError::Io(_) | TuiError::EventSource(_) => true,
            TuiError::Component(_) => false,
        }
    }

    /// True if the front-end cannot keep running.
    pub fn is_fatal(&self) -> (b: bool)
        ensures
            b == self.spec_is_fatal(),
    {
        match self {
            TuiError::Terminal(_) | TuiError::Io(_) | TuiError::EventSource(_) => true,
            TuiError::Component(_) => false,
        }
    }

    pub open spec fn spec_message(&self) -> Seq<char> {
        match self {
            TuiError::Terminal(m) => "terminal setup failed: "@ + m@,
            TuiError::EventSource(m) => "event polling failed: "@ + m@,
            TuiError::Component(m) => "component state invalid: "@ + m@,
            TuiError::Io(m) => "I/O failure: "@ + m@,
        }
    }

    /// The error's message.
    pub fn message(&self) -> (s: String)
        ensures
            s@ == self.spec_message(),
    {
        let mut s = String::new();
        match self {
            TuiError::Terminal(m) => {
                push_str(&mut s, "terminal setup failed: ");
                push_str(&mut s, m.as_str());
            },
            TuiError::EventSource(m) => {
                push_str(&mut s, "event polling failed: ");
                push_str(&mut s, m.as_str());
            },
            TuiError::Component(m) => {
                push_str(&mut s, "component state invalid: ");
                push_str(&mut s, m.as_str());
            },
            TuiError::Io(m) => {
                push_str(&mut s, "I/O failure: ");
                push_str(&mut s, m.as_str());
            },
        }
        s
    }
}

} // verus!
