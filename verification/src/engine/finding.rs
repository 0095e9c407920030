//! Building findings from rule evaluations. Every finding the engine
//! emits has origin `DeterministicRule`, the rule's id, severity, title
//! and version, the entity it is about and, where the entity has one, its
//! source location.

use vstd::prelude::*;
use crate::engine::compile::CompiledRule;
use crate::engine::context::{opt_json_view, target_view, EvalContext, EvalTarget, TargetView};
use crate::engine::template::{render, span_of, spec_render, target_span};
use crate::json::{lemma_member_views_index, lemma_member_views_len, member_views, JsonValue, JsonView};
use crate::model::{
    opt_span_view, opt_str_view, Finding, FindingOrigin, FindingView, MuleFlowKind, Severity,
    SourceSpan,
};
use crate::ruleset::Operator;
use crate::text::push_str;

verus! {

/// The id of the entity a target denotes.
pub open spec fn spec_entity_id(t: TargetView) -> Seq<char> {
    match t {
        TargetView::Project(p) => p.id@,
        TargetView::File(f) => "file:"@ + f.path@,
        TargetView::Flow(f) => f.id@,
        TargetView::Component(c) => c.id@,
        TargetView::PropertyRef { flow_name, value } => "property:"@ + flow_name + ":"@ + value,
        TargetView::FlowRef(r) => "reference:"@ + r.target@,
        TargetView::DataweaveBlock(b) => "dataweave:"@ + b.content_hash@,
    }
}

/// The evidence of a leaf finding: `{"actual", "expected", "operator"}`,
/// keys in ascending order; a missing expected value is `null`.
pub open spec fn evidence_view(op: Operator, actual: JsonView, expected: Option<JsonView>) -> JsonView {
    JsonView::Object(
        seq![
            ("actual"@, actual),
            (
                "expected"@,
                match expected {
                    Some(e) => e,
                    None => JsonView::Null,
                },
            ),
            ("operator"@, JsonView::Str(op.spec_as_str())),
        ],
    )
}

pub open spec fn opt_render(
    t: Option<String>,
    project: crate::model::ParsedProject,
    target: TargetView,
    actual: Option<JsonView>,
    expected: Option<JsonView>,
) -> Option<Seq<char>> {
    match t {
        Some(s) => Some(spec_render(s@, project, target, actual, expected)),
        None => None,
    }
}

/// The finding a failed leaf assertion produces.
pub open spec fn leaf_finding(
    rule: CompiledRule,
    project: crate::model::ParsedProject,
    target: TargetView,
    op: Operator,
    actual: JsonView,
    expected: Option<JsonView>,
) -> FindingView {
    FindingView {
        rule_id: rule.id@,
        severity: rule.severity,
        title: rule.title@,
        message: spec_render(rule.message@, project, target, Some(actual), expected),
        recommendation: opt_render(rule.recommendation, project, target, Some(actual), expected),
        entity_id: Some(spec_entity_id(target)),
        source: opt_span_view(target_span(target)),
        evidence: evidence_view(op, actual, expected),
        origin: FindingOrigin::DeterministicRule,
        rule_version: Some(rule.version@),
    }
}

fn join2(a: &str, b: &str) -> (s: String)
    ensures
        s@ == a@ + b@,
{
    let mut s = String::new();
    push_str(&mut s, a);
    push_str(&mut s, b);
    s
}

/// The id of the context's entity.
pub fn entity_id(ctx: &EvalContext<'_>) -> (r: Option<String>)
    ensures
        r matches Some(s) && s@ == spec_entity_id(target_view(ctx.target)),
{
    match &ctx.target {
        EvalTarget::Project(p) => Some(p.id.clone()),
        EvalTarget::File(f) => Some(join2("file:", f.path.as_str())),
        EvalTarget::Flow(f) => Some(f.id.clone()),
        EvalTarget::Component(c) => Some(c.id.clone()),
        EvalTarget::PropertyRef { flow_name, value } => {
            let mut s = String::new();
            push_str(&mut s, "property:");
            push_str(&mut s, flow_name.as_str());
            push_str(&mut s, ":");
            push_str(&mut s, value.as_str());
            Some(s)
        },
        EvalTarget::FlowRef(r) => Some(join2("reference:", r.target.as_str())),
        EvalTarget::DataweaveBlock(b) => Some(join2("dataweave:", b.content_hash.as_str())),
    }
}

/// Where the context's entity is, if it has a location.
pub fn source_location(ctx: &EvalContext<'_>) -> (r: Option<SourceSpan>)
    ensures
        r == target_span(target_view(ctx.target)),
{
    span_of(&ctx.target)
}

/// `{"actual": .., "expected": .., "operator": ..}`.
pub fn evidence(op: Operator, actual: JsonValue, expected: &Option<JsonValue>) -> (v: JsonValue)
    ensures
        v@ == evidence_view(op, actual@, opt_json_view(*expected)),
{
    let e = match expected {
        Some(x) => x.copy(),
        None => JsonValue::Null,
    };
    let ghost ev = e@;
    let ghost av = actual@;
    assert(ev == match opt_json_view(*expected) {
        Some(x) => x,
        None => JsonView::Null,
    });
    let mut members: Vec<(String, JsonValue)> = Vec::new();
    members.push(("actual".to_owned(), actual));
    members.push(("expected".to_owned(), e));
    members.push(("operator".to_owned(), JsonValue::String(op.as_str().to_owned())));
    proof {
        lemma_member_views_len(members@);
        lemma_member_views_index(members@, 0);
        lemma_member_views_index(members@, 1);
        lemma_member_views_index(members@, 2);
        assert(member_views(members@) =~= seq![
            ("actual"@, av),
            ("expected"@, ev),
            ("operator"@, JsonView::Str(op.spec_as_str())),
        ]);
    }
    let ghost mv = members@;
    let v = JsonValue::Object(members);
    assert(v@ == JsonView::Object(member_views(mv)));
    assert(member_views(mv) =~= evidence_view(op, av, opt_json_view(*expected))->Object_0);
    v
}

fn opt_render_of(
    t: &Option<String>,
    ctx: &EvalContext<'_>,
    actual: &JsonValue,
    expected: &Option<JsonValue>,
) -> (r: Option<String>)
    ensures
        opt_str_view(r) == opt_render(
            *t,
            *ctx.project,
            target_view(ctx.target),
            Some(actual@),
            opt_json_view(*expected),
        ),
{
    match t {
        Some(s) => {
            let e = match expected {
                Some(x) => Some(x),
                None => None,
            };
            Some(render(s.as_str(), ctx, Some(actual), e))
        },
        None => None,
    }
}

/// The finding for a failed leaf assertion of `rule` in `ctx`.
pub fn build(
    rule: &CompiledRule,
    ctx: &EvalContext<'_>,
    operator: Operator,
    actual: JsonValue,
    expected: Option<JsonValue>,
) -> (f: Finding)
    ensures
        f@ == leaf_finding(
            *rule,
            *ctx.project,
            target_view(ctx.target),
            operator,
            actual@,
            opt_json_view(expected),
        ),
{
    let e = match &expected {
        Some(x) => Some(x),
        None => None,
    };
    let message = render(rule.message.as_str(), ctx, Some(&actual), e);
    let recommendation = opt_render_of(&rule.recommendation, ctx, &actual, &expected);
    let entity_id = entity_id(ctx);
    let source = source_location(ctx);
    let evidence = evidence(operator, actual, &expected);
    Finding {
        rule_id: rule.id.clone(),
        severity: rule.severity,
        title: rule.title.clone(),
        message,
        recommendation,
        entity_id,
        source,
        evidence,
        origin: FindingOrigin::DeterministicRule,
        rule_version: Some(rule.version.clone()),
    }
}

/// A finding with only a rule id (also its title), severity and message.
pub fn bare(rule_id: &str, severity: Severity, message: &str) -> (f: Finding)
    ensures
        f@.rule_id == rule_id@,
        f@.severity == severity,
        f@.title == rule_id@,
        f@.message == message@,
        f@.recommendation is None,
        f@.entity_id is None,
        f@.source is None,
        f@.evidence == JsonView::Null,
        f@.origin == FindingOrigin::DeterministicRule,
        f@.rule_version is None,
{
    Finding::deterministic(rule_id, severity, rule_id, message)
}

/// `flow` or `sub-flow` when the context is a flow.
pub fn flow_kind_label(ctx: &EvalContext<'_>) -> (r: Option<&'static str>)
    ensures
        match target_view(ctx.target) {
            TargetView::Flow(f) => r matches Some(s) && s@ == f.kind.spec_as_str(),
            _ => r is None,
        },
{
    match &ctx.target {
        EvalTarget::Flow(f) => Some(
            match f.kind {
                MuleFlowKind::Flow => f.kind.as_str(),
                MuleFlowKind::SubFlow => f.kind.as_str(),
            },
        ),
        _ => None,
    }
}

} // verus!
