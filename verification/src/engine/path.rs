//! The whitelist of fact paths per target kind.

use vstd::prelude::*;
use crate::engine::error::EngineError;
use crate::ruleset::{FactPath, RuleTargetEntity};
use crate::text::{chars_of, is_prefix, starts_with, str_eq};

verus! {

/// The fact paths each target kind may read, in ascending order.
pub open spec fn spec_whitelist(target: RuleTargetEntity) -> Seq<Seq<char>> {
    match target {
        RuleTargetEntity::Project => seq![
            "project.flow-count"@,
            "project.name"@,
            "project.required-files"@,
            "project.subflow-count"@,
            "project.unresolved-flow-refs"@,
        ],
        RuleTargetEntity::File => seq!["file.extension"@, "file.kind"@, "file.path"@],
        RuleTargetEntity::Flow | RuleTargetEntity::Subflow => seq![
            "flow.component-count"@,
            "flow.flow-refs"@,
            "flow.has-effective-error-handler"@,
            "flow.has-local-error-handler"@,
            "flow.kind"@,
            "flow.max-component-depth"@,
            "flow.name"@,
            "flow.property-refs"@,
            "flow.source-component"@,
        ],
        RuleTargetEntity::Component => seq![
            "component.cdata"@,
            "component.local-name"@,
            "component.namespace-uri"@,
            "component.qualified-name"@,
            "component.text"@,
        ],
        RuleTargetEntity::PropertyReference => seq!["property.name"@, "property.value"@],
        RuleTargetEntity::FlowReference => seq!["reference.resolved"@, "reference.target"@],
        RuleTargetEntity::DataweaveBlock => seq!["dataweave.content"@, "dataweave.language"@],
    }
}

fn whitelist_strs(target: RuleTargetEntity) -> (v: Vec<&'static str>)
    ensures
        v@.len() == spec_whitelist(target).len(),
        forall|i: int| 0 <= i < v@.len() ==> (#[trigger] v@[i])@ == spec_whitelist(target)[i],
{
    match target {
        RuleTargetEntity::Project => vec![
            "project.flow-count",
            "project.name",
            "project.required-files",
            "project.subflow-count",
            "project.unresolved-flow-refs",
        ],
        RuleTargetEntity::File => vec!["file.extension", "file.kind", "file.path"],
        RuleTargetEntity::Flow | RuleTargetEntity::Subflow => vec![
            "flow.component-count",
            "flow.flow-refs",
            "flow.has-effective-error-handler",
            "flow.has-local-error-handler",
            "flow.kind",
            "flow.max-component-depth",
            "flow.name",
            "flow.property-refs",
            "flow.source-component",
        ],
        RuleTargetEntity::Component => vec![
            "component.cdata",
            "component.local-name",
            "component.namespace-uri",
            "component.qualified-name",
            "component.text",
        ],
        RuleTargetEntity::PropertyReference => vec!["property.name", "property.value"],
        RuleTargetEntity::FlowReference => vec!["reference.resolved", "reference.target"],
        RuleTargetEntity::DataweaveBlock => vec!["dataweave.content", "dataweave.language"],
    }
}

/// The whole whitelist of a target kind.
pub fn whitelist(target: RuleTargetEntity) -> (v: Vec<FactPath>)
    ensures
        v@.len() == spec_whitelist(target).len(),
        forall|i: int| 0 <= i < v@.len() ==> (#[trigger] v@[i]).0@ == spec_whitelist(target)[i],
{
    let strs = whitelist_strs(target);
    let mut v: Vec<FactPath> = Vec::new();
    let mut i: usize = 0;
    while i < strs.len()
        invariant
            i <= strs.len(),
            strs@.len() == spec_whitelist(target).len(),
            forall|k: int| 0 <= k < strs@.len() ==> (#[trigger] strs@[k])@ == spec_whitelist(target)[k],
            v@.len() == i,
            forall|k: int| 0 <= k < i ==> (#[trigger] v@[k]).0@ == spec_whitelist(target)[k],
        decreases strs.len() - i,
    {
        v.push(FactPath(strs[i].to_owned()));
        i = i + 1;
    }
    v
}

/// Whether `path` is in the whitelist of `target`.
fn in_whitelist(target: RuleTargetEntity, path: &str) -> (r: bool)
    ensures
        r == spec_whitelist(target).contains(path@),
{
    let strs = whitelist_strs(target);
    let mut i: usize = 0;
    while i < strs.len()
        invariant
            i <= strs.len(),
            strs@.len() == spec_whitelist(target).len(),
            forall|k: int| 0 <= k < strs@.len() ==> (#[trigger] strs@[k])@ == spec_whitelist(target)[k],
            forall|k: int| 0 <= k < i ==> spec_whitelist(target)[k] != path@,
        decreases strs.len() - i,
    {
        if str_eq(strs[i], path) {
            assert(spec_whitelist(target)[i as int] == path@);
            return true;
        }
        i = i + 1;
    }
    false
}

/// `path` is in the whitelist of some target kind.
pub open spec fn spec_any(path: Seq<char>) -> bool {
    exists|t: RuleTargetEntity| #[trigger] spec_whitelist(t).contains(path)
}

/// True if the path is legal for some target kind.
pub fn any(path: &FactPath) -> (r: bool)
    ensures
        r == spec_any(path.0@),
{
    let p = path.as_str();
    let r = in_whitelist(RuleTargetEntity::Project, p) || in_whitelist(RuleTargetEntity::File, p)
        || in_whitelist(RuleTargetEntity::Flow, p) || in_whitelist(RuleTargetEntity::Component, p)
        || in_whitelist(RuleTargetEntity::PropertyReference, p) || in_whitelist(
        RuleTargetEntity::FlowReference,
        p,
    ) || in_whitelist(RuleTargetEntity::DataweaveBlock, p);
    proof {
        if spec_any(path.0@) {
            let t = choose|t: RuleTargetEntity| #[trigger] spec_whitelist(t).contains(path.0@);
            assert(spec_whitelist(t) == spec_whitelist(RuleTargetEntity::Flow)
                || spec_whitelist(t) == spec_whitelist(RuleTargetEntity::Project)
                || spec_whitelist(t) == spec_whitelist(RuleTargetEntity::File)
                || spec_whitelist(t) == spec_whitelist(RuleTargetEntity::Component)
                || spec_whitelist(t) == spec_whitelist(RuleTargetEntity::PropertyReference)
                || spec_whitelist(t) == spec_whitelist(RuleTargetEntity::FlowReference)
                || spec_whitelist(t) == spec_whitelist(RuleTargetEntity::DataweaveBlock));
        }
    }
    r
}

/// The whitelist is built on demand; there is nothing to prepare.
pub fn warm() {
}

/// A path is allowed for a target if it is whitelisted, or, for
/// components, if it reads an attribute (`component.attributes.<name>`).
pub open spec fn path_allowed(target: RuleTargetEntity, path: Seq<char>) -> bool {
    spec_whitelist(target).contains(path) || (target == RuleTargetEntity::Component && is_prefix(
        "component.attributes."@,
        path,
    ))
}

pub open spec fn spec_target_label(target: RuleTargetEntity) -> Seq<char> {
    match target {
        RuleTargetEntity::Project => "project"@,
        RuleTargetEntity::File => "file"@,
        RuleTargetEntity::Flow => "flow"@,
        RuleTargetEntity::Subflow => "subflow"@,
        RuleTargetEntity::Component => "component"@,
        RuleTargetEntity::PropertyReference => "property-reference"@,
        RuleTargetEntity::FlowReference => "flow-reference"@,
        RuleTargetEntity::DataweaveBlock => "dataweave-block"@,
    }
}

pub fn target_label(target: RuleTargetEntity) -> (s: &'static str)
    ensures
        s@ == spec_target_label(target),
{
    match target {
        RuleTargetEntity::Project => "project",
        RuleTargetEntity::File => "file",
        RuleTargetEntity::Flow => "flow",
        RuleTargetEntity::Subflow => "subflow",
        RuleTargetEntity::Component => "component",
        RuleTargetEntity::PropertyReference => "property-reference",
        RuleTargetEntity::FlowReference => "flow-reference",
        RuleTargetEntity::DataweaveBlock => "dataweave-block",
    }
}

pub open spec fn unknown_path_message(target: RuleTargetEntity, path: Seq<char>) -> Seq<char> {
    "unknown fact path `"@ + path + "` for target `"@ + spec_target_label(target) + "`"@
}

/// `Ok` exactly when the path is allowed for the target; otherwise a
/// compile error naming the path and the target.
pub fn ensure_allowed(target: RuleTargetEntity, path: &FactPath) -> (r: Result<(), EngineError>)
    ensures
        r is Ok <==> path_allowed(target, path.0@),
        r matches Err(e) ==> e@ == (crate::engine::error::EngineErrorView::Compile {
            rule_id: Seq::empty(),
            message: unknown_path_message(target, path.0@),
        }),
{
    let p = path.as_str();
    if in_whitelist(target, p) {
        return Ok(());
    }
    if target == RuleTargetEntity::Component {
        let cs = chars_of(p);
        let prefix = chars_of("component.attributes.");
        if starts_with(cs.as_slice(), prefix.as_slice()) {
            return Ok(());
        }
    }
    let mut message = String::new();
    message.append("unknown fact path `");
    message.append(p);
    message.append("` for target `");
    message.append(target_label(target));
    message.append("`");
    Err(EngineError::Compile { rule_id: String::new(), message })
}

} // verus!
