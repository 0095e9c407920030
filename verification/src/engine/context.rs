//! Evaluation context: the entity a rule is looking at and the project
//! it belongs to.

use vstd::prelude::*;
use crate::json::{JsonValue, JsonView};
use crate::model::{
    DataWeaveBlock, FlowRef, MuleComponent, MuleFlow, ParsedProject, ProjectDescriptor, SourceFile,
};

verus! {

/// The entity a rule is being evaluated against; it borrows from the
/// parsed project.
#[derive(Debug)]
pub enum EvalTarget<'a> {
    Project(&'a ProjectDescriptor),
    File(&'a SourceFile),
    Flow(&'a MuleFlow),
    Component(&'a MuleComponent),
    PropertyRef { flow_name: &'a String, value: &'a String },
    FlowRef(&'a FlowRef),
    DataweaveBlock(&'a DataWeaveBlock),
}

impl<'a> Clone for EvalTarget<'a> {
    fn clone(&self) -> (r: Self)
        ensures
            r == *self,
    {
        match self {
            EvalTarget::Project(p) => EvalTarget::Project(p),
            EvalTarget::File(f) => EvalTarget::File(f),
            EvalTarget::Flow(f) => EvalTarget::Flow(f),
            EvalTarget::Component(c) => EvalTarget::Component(c),
            EvalTarget::PropertyRef { flow_name, value } => EvalTarget::PropertyRef {
                flow_name,
                value,
            },
            EvalTarget::FlowRef(r) => EvalTarget::FlowRef(r),
            EvalTarget::DataweaveBlock(b) => EvalTarget::DataweaveBlock(b),
        }
    }
}

/// What the engine reads while a rule fires: the target, the project,
/// and the expected value of the condition being evaluated (some facts,
/// such as `project.required-files`, depend on it).
#[derive(Debug)]
pub struct EvalContext<'a> {
    pub project: &'a ParsedProject,
    pub target: EvalTarget<'a>,
    pub current_expected: Option<JsonValue>,
}

pub open spec fn opt_json_view(o: Option<JsonValue>) -> Option<JsonView> {
    match o {
        Some(v) => Some(v@),
        None => None,
    }
}

/// What a target denotes, by value.
pub enum TargetView {
    Project(ProjectDescriptor),
    File(SourceFile),
    Flow(MuleFlow),
    Component(MuleComponent),
    PropertyRef { flow_name: Seq<char>, value: Seq<char> },
    FlowRef(FlowRef),
    DataweaveBlock(DataWeaveBlock),
}

pub open spec fn target_view(t: EvalTarget) -> TargetView {
    match t {
        EvalTarget::Project(p) => TargetView::Project(*p),
        EvalTarget::File(f) => TargetView::File(*f),
        EvalTarget::Flow(f) => TargetView::Flow(*f),
        EvalTarget::Component(c) => TargetView::Component(*c),
        EvalTarget::PropertyRef { flow_name, value } => TargetView::PropertyRef {
            flow_name: flow_name@,
            value: value@,
        },
        EvalTarget::FlowRef(r) => TargetView::FlowRef(*r),
        EvalTarget::DataweaveBlock(b) => TargetView::DataweaveBlock(*b),
    }
}

pub open spec fn spec_target_label(t: EvalTarget) -> Seq<char> {
    match t {
        EvalTarget::Project(_) => "project"@,
        EvalTarget::File(_) => "file"@,
        EvalTarget::Flow(_) => "flow"@,
        EvalTarget::Component(_) => "component"@,
        EvalTarget::PropertyRef { .. } => "property-reference"@,
        EvalTarget::FlowRef(_) => "flow-reference"@,
        EvalTarget::DataweaveBlock(_) => "dataweave-block"@,
    }
}

impl<'a> EvalContext<'a> {
    /// A context with no expected value set.
    pub fn new(project: &'a ParsedProject, target: EvalTarget<'a>) -> (c: Self)
        ensures
            c.project == project,
            c.target == target,
            c.current_expected is None,
    {
        EvalContext { project, target, current_expected: None }
    }

    /// The kind of the target, as the rule DSL names it.
    pub fn target_label(&self) -> (s: &'static str)
        ensures
            s@ == spec_target_label(self.target),
    {
        match self.target {
            EvalTarget::Project(_) => "project",
            EvalTarget::File(_) => "file",
            EvalTarget::Flow(_) => "flow",
            EvalTarget::Component(_) => "component",
            EvalTarget::PropertyRef { .. } => "property-reference",
            EvalTarget::FlowRef(_) => "flow-reference",
            EvalTarget::DataweaveBlock(_) => "dataweave-block",
        }
    }
}

} // verus!
