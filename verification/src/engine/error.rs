//! Errors of rule compilation and evaluation.

use vstd::prelude::*;

verus! {

/// A rule that cannot be compiled or evaluated.
#[derive(Debug)]
pub enum EngineError {
    Compile { rule_id: String, message: String },
    Evaluate { rule_id: String, message: String },
}

/// Mathematical view of an [`EngineError`].
pub enum EngineErrorView {
    Compile { rule_id: Seq<char>, message: Seq<char> },
    Evaluate { rule_id: Seq<char>, message: Seq<char> },
}

impl View for EngineError {
    type V = EngineErrorView;

    open spec fn view(&self) -> EngineErrorView {
        match self {
            EngineError::Compile { rule_id, message } => EngineErrorView::Compile {
                rule_id: rule_id@,
                message: message@,
            },
            EngineError::Evaluate { rule_id, message } => EngineErrorView::Evaluate {
                rule_id: rule_id@,
                message: message@,
            },
        }
    }
}

impl Clone for EngineError {
    fn clone(&self) -> (r: Self)
        ensures
            r == *self,
    {
        match self {
            EngineError::Compile { rule_id, message } => EngineError::Compile {
                rule_id: rule_id.clone(),
                message: message.clone(),
            },
            EngineError::Evaluate { rule_id, message } => EngineError::Evaluate {
                rule_id: rule_id.clone(),
                message: message.clone(),
            },
        }
    }
}

pub open spec fn compile_display(rule_id: Seq<char>, message: Seq<char>) -> Seq<char> {
    "rule compilation failed for `"@ + rule_id + "`: "@ + message
}

pub open spec fn evaluate_display(rule_id: Seq<char>, message: Seq<char>) -> Seq<char> {
    "rule evaluation failed for `"@ + rule_id + "`: "@ + message
}

impl EngineErrorView {
    /// The error's display text.
    pub open spec fn display(self) -> Seq<char> {
        match self {
            EngineErrorView::Compile { rule_id, message } => compile_display(rule_id, message),
            EngineErrorView::Evaluate { rule_id, message } => evaluate_display(rule_id, message),
        }
    }
}

impl EngineError {
    /// The error's display text.
    pub fn to_text(&self) -> (s: String)
        ensures
            s@ == self@.display(),
    {
        let mut s = String::new();
        match self {
            EngineError::Compile { rule_id, message } => {
                s.append("rule compilation failed for `");
                s.append(rule_id.as_str());
                s.append("`: ");
                s.append(message.as_str());
            },
            EngineError::Evaluate { rule_id, message } => {
                s.append("rule evaluation failed for `");
                s.append(rule_id.as_str());
                s.append("`: ");
                s.append(message.as_str());
            },
        }
        s
    }
}

/// A rule that did not compile, reported beside the compiled set.
#[derive(Debug, PartialEq)]
pub struct CompileIssue {
    pub rule_id: String,
    pub message: String,
}

} // verus!
