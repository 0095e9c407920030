//! Evaluating a compiled rule set against a parsed project.
//!
//! For each rule, the candidates of its target kinds are enumerated and
//! ordered; each one that passes the `match_` and `when` conditions has
//! the rule's `assert` tree visited, and every failed assertion becomes a
//! finding. A rule whose evaluation errs is skipped and its error kept.
//! The findings of all rules are finally ordered by severity (most severe
//! first), rule id, file, line and entity id.

use vstd::prelude::*;
use crate::engine::compile::{CompiledRule, CompiledRuleSet};
use crate::engine::condition::{self, any_holds, condition_holds, single_holds};
use crate::engine::context::{opt_json_view, target_view, EvalContext, TargetView};
use crate::engine::error::{EngineError, EngineErrorView};
use crate::engine::facts::{resolve, spec_resolve};
use crate::engine::finding::{entity_id, leaf_finding, source_location, spec_entity_id};
use crate::engine::operator::result_view;
use crate::engine::target::{self, candidate_after, candidate_views, spec_candidates, Candidate};
use crate::engine::template::target_span;
use crate::json::{JsonValue, JsonView};
use crate::model::{finding_views, opt_span_view, opt_str_view, clone_opt_string, Finding, FindingOrigin, FindingView, ParsedProject};
use crate::ruleset::{
    condition_views, lemma_condition_views_index, lemma_condition_views_len, opt_condition_view,
    opt_value_view, Condition, ConditionCombinator, ConditionView, Rule,
};
use crate::sorting::{
    law_stable_sort_keeps_ties, law_stable_sort_permutes, law_stable_sort_sorted, lemma_insert_at, sorted_by,
    stable_sort, strict_weak_order, tied_with,
};
use crate::text::{compare_str, lemma_seq_lt_asymmetric, lemma_seq_lt_irreflexive, lemma_seq_lt_total, lemma_seq_lt_transitive, push_str, seq_lt, str_eq, Order};

verus! {

broadcast use vstd::std_specs::vec::axiom_vec_index_decreases;

/// What one evaluation pass produced.
#[derive(Debug)]
pub struct EvaluationResult {
    pub findings: Vec<Finding>,
    pub evaluated_rules: usize,
    pub skipped_rules: usize,
    pub errors: Vec<EngineError>,
}

impl Default for EvaluationResult {
    fn default() -> (r: Self)
        ensures
            r.findings@.len() == 0,
            r.evaluated_rules == 0,
            r.skipped_rules == 0,
            r.errors@.len() == 0,
    {
        EvaluationResult { findings: Vec::new(), evaluated_rules: 0, skipped_rules: 0, errors: Vec::new() }
    }
}

pub open spec fn error_views(es: Seq<EngineError>) -> Seq<EngineErrorView> {
    es.map_values(|e: EngineError| e@)
}

/// The finding a combinator produces: `any` when no branch held, `not`
/// when its branch held.
pub open spec fn combinator_finding(rule: CompiledRule, target: TargetView, any: bool) -> FindingView {
    FindingView {
        rule_id: rule.id@,
        severity: rule.severity,
        title: rule.title@,
        message: if any {
            "any branch of rule `"@ + rule.id@ + "` failed"@
        } else {
            "not branch of rule `"@ + rule.id@ + "` unexpectedly matched"@
        },
        recommendation: opt_str_view(rule.recommendation),
        entity_id: Some(spec_entity_id(target)),
        source: opt_span_view(target_span(target)),
        evidence: JsonView::Object(seq![("operator"@, JsonView::Str(if any { "any"@ } else { "not"@ }))]),
        origin: FindingOrigin::DeterministicRule,
        rule_version: Some(rule.version@),
    }
}

/// The findings of visiting an `assert` tree: a failed leaf yields its
/// finding (its fact resolved with the leaf's own expected value); `all`
/// visits every child in order; `any` yields one finding when no child
/// holds; `not` yields one when its child holds. The first error stops
/// the visit.
pub open spec fn visit_spec(
    rule: CompiledRule,
    project: ParsedProject,
    target: TargetView,
    expected: Option<JsonView>,
    c: ConditionView,
) -> Result<Seq<FindingView>, EngineErrorView>
    decreases c,
{
    match c {
        ConditionView::Single { fact, op, value } => match single_holds(project, target, value, fact, op, value) {
            Err(e) => Err(e),
            Ok(true) => Ok(Seq::empty()),
            Ok(false) => Ok(
                seq![leaf_finding(rule, project, target, op, spec_resolve(project, target, value, fact), value)],
            ),
        },
        ConditionView::All(cs) => visit_all_spec(rule, project, target, expected, cs),
        ConditionView::Any(cs) => match any_holds(project, target, expected, cs) {
            Err(e) => Err(e),
            Ok(true) => Ok(Seq::empty()),
            Ok(false) => Ok(seq![combinator_finding(rule, target, true)]),
        },
        ConditionView::Not(inner) => match condition_holds(project, target, expected, *inner) {
            Err(e) => Err(e),
            Ok(true) => Ok(seq![combinator_finding(rule, target, false)]),
            Ok(false) => Ok(Seq::empty()),
        },
    }
}

pub open spec fn visit_all_spec(
    rule: CompiledRule,
    project: ParsedProject,
    target: TargetView,
    expected: Option<JsonView>,
    cs: Seq<ConditionView>,
) -> Result<Seq<FindingView>, EngineErrorView>
    decreases cs,
{
    if cs.len() == 0 {
        Ok(Seq::empty())
    } else {
        match visit_all_spec(rule, project, target, expected, cs.drop_last()) {
            Err(e) => Err(e),
            Ok(fs) => match visit_spec(rule, project, target, expected, cs.last()) {
                Err(e) => Err(e),
                Ok(gs) => Ok(fs + gs),
            },
        }
    }
}

/// The findings of one candidate: none unless it passes `match_` and the
/// source rule's `when`; then those of the `assert` tree.
pub open spec fn candidate_outcome(
    rule: CompiledRule,
    original: Option<Rule>,
    project: ParsedProject,
    t: TargetView,
) -> Result<Seq<FindingView>, EngineErrorView> {
    let gate_match = match opt_condition_view(rule.target.match_) {
        Some(m) => condition_holds(project, t, None, m),
        None => Ok(true),
    };
    match gate_match {
        Err(e) => Err(e),
        Ok(false) => Ok(Seq::empty()),
        Ok(true) => {
            let gate_when = match original {
                Some(o) => match o.when {
                    Some(w) => condition_holds(project, t, None, w@),
                    None => Ok(true),
                },
                None => Ok(true),
            };
            match gate_when {
                Err(e) => Err(e),
                Ok(false) => Ok(Seq::empty()),
                Ok(true) => visit_spec(rule, project, t, None, rule.assert@),
            }
        },
    }
}

pub open spec fn candidates_outcome(
    rule: CompiledRule,
    original: Option<Rule>,
    project: ParsedProject,
    cands: Seq<TargetView>,
) -> Result<Seq<FindingView>, EngineErrorView>
    decreases cands.len(),
{
    if cands.len() == 0 {
        Ok(Seq::empty())
    } else {
        match candidates_outcome(rule, original, project, cands.drop_last()) {
            Err(e) => Err(e),
            Ok(fs) => match candidate_outcome(rule, original, project, cands.last()) {
                Err(e) => Err(e),
                Ok(gs) => Ok(fs + gs),
            },
        }
    }
}

pub open spec fn candidate_order() -> spec_fn(TargetView, TargetView) -> bool {
    |a: TargetView, b: TargetView| candidate_after(a, b)
}

/// The findings of one rule: none when its source rule is disabled;
/// otherwise those of its ordered candidates, or the first error.
pub open spec fn rule_outcome(rule: CompiledRule, original: Option<Rule>, project: ParsedProject) -> Result<
    Seq<FindingView>,
    EngineErrorView,
> {
    if original matches Some(o) && !o.enabled {
        Ok(Seq::empty())
    } else {
        candidates_outcome(
            rule,
            original,
            project,
            stable_sort(spec_candidates(project, rule.target.entity@), candidate_order()),
        )
    }
}

/// The first rule of `source` with the given id.
pub open spec fn find_rule(source: Seq<Rule>, id: Seq<char>) -> Option<Rule>
    decreases source.len(),
{
    if source.len() == 0 {
        None
    } else if source[0].id@ == id {
        Some(source[0])
    } else {
        find_rule(source.drop_first(), id)
    }
}

/// The outcome of evaluating a list of rules, before the final ordering.
pub struct RunView {
    pub findings: Seq<FindingView>,
    pub evaluated: nat,
    pub skipped: nat,
    pub errors: Seq<EngineErrorView>,
}

pub open spec fn run_rules(rules: Seq<CompiledRule>, source: Seq<Rule>, project: ParsedProject) -> RunView
    decreases rules.len(),
{
    if rules.len() == 0 {
        RunView { findings: Seq::empty(), evaluated: 0, skipped: 0, errors: Seq::empty() }
    } else {
        let prev = run_rules(rules.drop_last(), source, project);
        let rule = rules.last();
        match rule_outcome(rule, find_rule(source, rule.id@), project) {
            Ok(fs) => RunView { findings: prev.findings + fs, evaluated: prev.evaluated + 1, ..prev },
            Err(e) => RunView { errors: prev.errors.push(e), skipped: prev.skipped + 1, ..prev },
        }
    }
}

pub open spec fn finding_file(f: FindingView) -> Seq<char> {
    match f.source {
        Some(s) => s.file,
        None => Seq::empty(),
    }
}

pub open spec fn finding_line(f: FindingView) -> int {
    match f.source {
        Some(s) => s.start_line as int,
        None => 0,
    }
}

pub open spec fn finding_entity(f: FindingView) -> Seq<char> {
    match f.entity_id {
        Some(e) => e,
        None => Seq::empty(),
    }
}

/// `a` is listed after `b`: less severe, or as severe and after it by
/// rule id, then file, then line, then entity id.
pub open spec fn finding_after(a: FindingView, b: FindingView) -> bool {
    if a.severity.spec_rank() != b.severity.spec_rank() {
        a.severity.spec_rank() < b.severity.spec_rank()
    } else if a.rule_id != b.rule_id {
        seq_lt(b.rule_id, a.rule_id)
    } else if finding_file(a) != finding_file(b) {
        seq_lt(finding_file(b), finding_file(a))
    } else if finding_line(a) != finding_line(b) {
        finding_line(a) > finding_line(b)
    } else {
        seq_lt(finding_entity(b), finding_entity(a))
    }
}

pub open spec fn finding_order() -> spec_fn(FindingView, FindingView) -> bool {
    |a: FindingView, b: FindingView| finding_after(a, b)
}

/// Evaluates every rule of `set` with no source rules.
pub fn evaluate(set: &CompiledRuleSet, project: &ParsedProject) -> (r: EvaluationResult)
    ensures
        finding_views(r.findings@) == stable_sort(run_rules(set.rules@, Seq::empty(), *project).findings, finding_order()),
        r.evaluated_rules == run_rules(set.rules@, Seq::empty(), *project).evaluated,
        r.skipped_rules == run_rules(set.rules@, Seq::empty(), *project).skipped,
        error_views(r.errors@) == run_rules(set.rules@, Seq::empty(), *project).errors,
{
    let empty: Vec<Rule> = Vec::new();
    evaluate_with_source(set, empty.as_slice(), project)
}

fn find_source<'b>(source: &'b [Rule], id: &str) -> (r: Option<&'b Rule>)
    ensures
        match r {
            Some(x) => find_rule(source@, id@) == Some(*x),
            None => find_rule(source@, id@) is None,
        },
{
    assert(source@.subrange(0, source@.len() as int) =~= source@);
    let mut i: usize = 0;
    while i < source.len()
        invariant
            i <= source@.len(),
            find_rule(source@, id@) == find_rule(source@.subrange(i as int, source@.len() as int), id@),
        decreases source.len() - i,
    {
        let ghost rest = source@.subrange(i as int, source@.len() as int);
        assert(rest[0] == source@[i as int]);
        if str_eq(source[i].id.as_str(), id) {
            return Some(&source[i]);
        }
        assert(rest.drop_first() =~= source@.subrange(i + 1, source@.len() as int));
        i = i + 1;
    }
    None
}

/// Evaluates every rule of `set`; `source` holds the rules as written,
/// whose `enabled` flag and `when` condition apply to the rule with the
/// same id. The findings come out in the listing order.
pub fn evaluate_with_source(set: &CompiledRuleSet, source: &[Rule], project: &ParsedProject) -> (r: EvaluationResult)
    ensures
        finding_views(r.findings@) == stable_sort(run_rules(set.rules@, source@, *project).findings, finding_order()),
        r.evaluated_rules == run_rules(set.rules@, source@, *project).evaluated,
        r.skipped_rules == run_rules(set.rules@, source@, *project).skipped,
        error_views(r.errors@) == run_rules(set.rules@, source@, *project).errors,
{
    let mut out = EvaluationResult::default();
    let mut i: usize = 0;
    while i < set.rules.len()
        invariant
            i <= set.rules@.len(),
            finding_views(out.findings@) == run_rules(set.rules@.subrange(0, i as int), source@, *project).findings,
            out.evaluated_rules == run_rules(set.rules@.subrange(0, i as int), source@, *project).evaluated,
            out.skipped_rules == run_rules(set.rules@.subrange(0, i as int), source@, *project).skipped,
            out.evaluated_rules + out.skipped_rules == i,
            error_views(out.errors@) == run_rules(set.rules@.subrange(0, i as int), source@, *project).errors,
        decreases set.rules.len() - i,
    {
        let rule = &set.rules[i];
        let original = find_source(source, rule.id.as_str());
        let ghost orig_view = find_rule(source@, rule.id@);
        proof {
            let next = set.rules@.subrange(0, i + 1);
            assert(next.drop_last() =~= set.rules@.subrange(0, i as int));
            assert(next.last() == *rule);
        }
        match evaluate_rule(rule, original, project) {
            Ok(mut findings) => {
                let ghost before = finding_views(out.findings@);
                let ghost added = finding_views(findings@);
                out.findings.append(&mut findings);
                assert(finding_views(out.findings@) =~= before + added);
                out.evaluated_rules = out.evaluated_rules + 1;
            },
            Err(e) => {
                let ghost before = error_views(out.errors@);
                out.errors.push(e);
                assert(error_views(out.errors@) =~= before.push(e@));
                out.skipped_rules = out.skipped_rules + 1;
            },
        }
        i = i + 1;
    }
    assert(set.rules@.subrange(0, set.rules@.len() as int) =~= set.rules@);
    sort(&mut out.findings);
    out
}

pub open spec fn opt_rule(o: Option<&Rule>) -> Option<Rule> {
    match o {
        Some(r) => Some(*r),
        None => None,
    }
}

fn evaluate_rule(rule: &CompiledRule, original: Option<&Rule>, project: &ParsedProject) -> (r: Result<Vec<Finding>, EngineError>)
    ensures
        match rule_outcome(*rule, opt_rule(original), *project) {
            Ok(fs) => r matches Ok(v) && finding_views(v@) == fs,
            Err(e) => r matches Err(x) && x@ == e,
        },
{
    match original {
        Some(o) => {
            if !o.enabled {
                return Ok(Vec::new());
            }
        },
        None => {},
    }
    let mut candidates = target::candidates(project, &rule.target);
    target::sort(&mut candidates);
    let ghost cands = candidate_views(candidates@);
    let mut out: Vec<Finding> = Vec::new();
    assert(finding_views(out@) =~= Seq::<FindingView>::empty());
    assert(cands.subrange(0, 0) =~= Seq::<TargetView>::empty());
    let mut k: usize = 0;
    while k < candidates.len()
        invariant
            k <= candidates@.len(),
            cands == candidate_views(candidates@),
            cands == stable_sort(spec_candidates(*project, rule.target.entity@), candidate_order()),
            !(opt_rule(original) matches Some(o) && !o.enabled),
            candidates_outcome(*rule, opt_rule(original), *project, cands.subrange(0, k as int)) == Ok::<
                Seq<FindingView>,
                EngineErrorView,
            >(finding_views(out@)),
        decreases candidates.len() - k,
    {
        let ghost next = cands.subrange(0, k + 1);
        proof {
            assert(next.drop_last() =~= cands.subrange(0, k as int));
            assert(next.last() == target_view(candidates@[k as int].target));
        }
        let ctx = EvalContext::new(project, candidates[k].target.clone());
        match evaluate_candidate(rule, original, &ctx) {
            Ok(mut fs) => {
                let ghost before = finding_views(out@);
                let ghost added = finding_views(fs@);
                out.append(&mut fs);
                assert(finding_views(out@) =~= before + added);
            },
            Err(e) => {
                proof {
                    lemma_candidates_error_stays(*rule, opt_rule(original), *project, cands, k + 1);
                    assert(cands.subrange(0, cands.len() as int) =~= cands);
                }
                return Err(e);
            },
        }
        k = k + 1;
    }
    assert(cands.subrange(0, cands.len() as int) =~= cands);
    Ok(out)
}

proof fn lemma_candidates_error_stays(
    rule: CompiledRule,
    original: Option<Rule>,
    project: ParsedProject,
    cands: Seq<TargetView>,
    n: int,
)
    requires
        0 <= n <= cands.len(),
        candidates_outcome(rule, original, project, cands.subrange(0, n)) is Err,
    ensures
        candidates_outcome(rule, original, project, cands) == candidates_outcome(rule, original, project, cands.subrange(0, n)),
    decreases cands.len() - n,
{
    if n < cands.len() {
        let next = cands.subrange(0, n + 1);
        assert(next.drop_last() =~= cands.subrange(0, n));
        lemma_candidates_error_stays(rule, original, project, cands, n + 1);
    } else {
        assert(cands.subrange(0, n) =~= cands);
    }
}

fn evaluate_candidate(rule: &CompiledRule, original: Option<&Rule>, ctx: &EvalContext<'_>) -> (r: Result<Vec<Finding>, EngineError>)
    requires
        ctx.current_expected is None,
    ensures
        match candidate_outcome(*rule, opt_rule(original), *ctx.project, target_view(ctx.target)) {
            Ok(fs) => r matches Ok(v) && finding_views(v@) == fs,
            Err(e) => r matches Err(x) && x@ == e,
        },
{
    match target::match_clause(&rule.target) {
        Some(m) => match condition::evaluate(ctx, m) {
            Ok(true) => {},
            Ok(false) => {
                return Ok(Vec::new());
            },
            Err(e) => {
                return Err(e);
            },
        },
        None => {},
    }
    match original {
        Some(o) => match &o.when {
            Some(w) => match condition::evaluate(ctx, w) {
                Ok(true) => {},
                Ok(false) => {
                    return Ok(Vec::new());
                },
                Err(e) => {
                    return Err(e);
                },
            },
            None => {},
        },
        None => {},
    }
    check_assert(rule, ctx, &rule.assert)
}

fn check_assert(rule: &CompiledRule, ctx: &EvalContext<'_>, cond: &Condition) -> (r: Result<Vec<Finding>, EngineError>)
    ensures
        match visit_spec(*rule, *ctx.project, target_view(ctx.target), opt_json_view(ctx.current_expected), cond@) {
            Ok(fs) => r matches Ok(v) && finding_views(v@) == fs,
            Err(e) => r matches Err(x) && x@ == e,
        },
{
    let mut findings: Vec<Finding> = Vec::new();
    match visit(rule, cond, ctx, &mut findings) {
        Ok(()) => {
            assert(finding_views(findings@) =~= Seq::<FindingView>::empty() + finding_views(findings@));
            Ok(findings)
        },
        Err(e) => Err(e),
    }
}

fn combinator_finding_of(rule: &CompiledRule, ctx: &EvalContext<'_>, any: bool) -> (f: Finding)
    ensures
        f@ == combinator_finding(*rule, target_view(ctx.target), any),
{
    let mut message = String::new();
    if any {
        push_str(&mut message, "any branch of rule `");
        push_str(&mut message, rule.id.as_str());
        push_str(&mut message, "` failed");
    } else {
        push_str(&mut message, "not branch of rule `");
        push_str(&mut message, rule.id.as_str());
        push_str(&mut message, "` unexpectedly matched");
    }
    let label = if any {
        "any"
    } else {
        "not"
    };
    let mut members: Vec<(String, JsonValue)> = Vec::new();
    members.push(("operator".to_owned(), JsonValue::String(label.to_owned())));
    let ghost mv = members@;
    proof {
        crate::json::lemma_member_views_index(mv, 0);
        assert(crate::json::member_views(mv) =~= combinator_finding(*rule, target_view(ctx.target), any).evidence->Object_0);
    }
    let evidence = JsonValue::Object(members);
    let eid = entity_id(ctx);
    let source = source_location(ctx);
    Finding {
        rule_id: rule.id.clone(),
        severity: rule.severity,
        title: rule.title.clone(),
        message,
        recommendation: clone_opt_string(&rule.recommendation),
        entity_id: eid,
        source,
        evidence,
        origin: FindingOrigin::DeterministicRule,
        rule_version: Some(rule.version.clone()),
    }
}

/// Visits an `assert` tree, appending the findings of failed assertions.
fn visit(rule: &CompiledRule, cond: &Condition, ctx: &EvalContext<'_>, findings: &mut Vec<Finding>) -> (r: Result<(), EngineError>)
    ensures
        match visit_spec(*rule, *ctx.project, target_view(ctx.target), opt_json_view(ctx.current_expected), cond@) {
            Ok(fs) => r is Ok && finding_views(final(findings)@) == finding_views(old(findings)@) + fs,
            Err(e) => r matches Err(x) && x@ == e,
        },
    decreases cond,
{
    let ghost start = finding_views(findings@);
    match cond {
        Condition::Single(s) => {
            let leaf = EvalContext {
                project: ctx.project,
                target: ctx.target.clone(),
                current_expected: match &s.value {
                    Some(v) => Some(v.copy()),
                    None => None,
                },
            };
            match condition::evaluate(&leaf, cond) {
                Err(e) => Err(e),
                Ok(true) => {
                    assert(finding_views(findings@) =~= start + Seq::<FindingView>::empty());
                    Ok(())
                },
                Ok(false) => {
                    let actual = resolve(&leaf, &s.fact);
                    let expected = match &s.value {
                        Some(v) => Some(v.copy()),
                        None => None,
                    };
                    let f = crate::engine::finding::build(rule, &leaf, s.op, actual, expected);
                    findings.push(f);
                    assert(finding_views(findings@) =~= start + seq![f@]);
                    Ok(())
                },
            }
        },
        Condition::Combinator(ConditionCombinator::All { all }) => visit_all(rule, all, ctx, findings),
        Condition::Combinator(ConditionCombinator::Any { any }) => {
            let ghost views = condition_views(any@);
            match any_child_holds(ctx, any) {
                Err(e) => Err(e),
                Ok(true) => {
                    assert(finding_views(findings@) =~= start + Seq::<FindingView>::empty());
                    Ok(())
                },
                Ok(false) => {
                    let f = combinator_finding_of(rule, ctx, true);
                    findings.push(f);
                    assert(finding_views(findings@) =~= start + seq![f@]);
                    Ok(())
                },
            }
        },
        Condition::Combinator(ConditionCombinator::Not { not }) => {
            match condition::evaluate(ctx, not) {
                Err(e) => Err(e),
                Ok(true) => {
                    let f = combinator_finding_of(rule, ctx, false);
                    findings.push(f);
                    assert(finding_views(findings@) =~= start + seq![f@]);
                    Ok(())
                },
                Ok(false) => {
                    assert(finding_views(findings@) =~= start + Seq::<FindingView>::empty());
                    Ok(())
                },
            }
        },
    }
}

/// Whether some child of an `any` holds, evaluated in order.
fn any_child_holds(ctx: &EvalContext<'_>, conds: &Vec<Condition>) -> (r: Result<bool, EngineError>)
    ensures
        result_view(r) == any_holds(
            *ctx.project,
            target_view(ctx.target),
            opt_json_view(ctx.current_expected),
            condition_views(conds@),
        ),
{
    let c = Condition::Combinator(ConditionCombinator::Any { any: copy_list(conds) });
    condition::evaluate(ctx, &c)
}

fn copy_list(conds: &Vec<Condition>) -> (r: Vec<Condition>)
    ensures
        condition_views(r@) == condition_views(conds@),
{
    let c = Condition::Combinator(ConditionCombinator::All { all: Vec::new() });
    let mut out: Vec<Condition> = Vec::new();
    let mut i: usize = 0;
    while i < conds.len()
        invariant
            i <= conds.len(),
            out.len() == i,
            forall|k: int| 0 <= k < i ==> (#[trigger] out@[k])@ == conds@[k]@,
        decreases conds.len() - i,
    {
        out.push(conds[i].copy());
        i = i + 1;
    }
    proof {
        crate::ruleset::lemma_condition_views_ext(out@, conds@);
    }
    out
}

fn visit_all(rule: &CompiledRule, conds: &Vec<Condition>, ctx: &EvalContext<'_>, findings: &mut Vec<Finding>) -> (r: Result<(), EngineError>)
    ensures
        match visit_all_spec(*rule, *ctx.project, target_view(ctx.target), opt_json_view(ctx.current_expected), condition_views(conds@)) {
            Ok(fs) => r is Ok && finding_views(final(findings)@) == finding_views(old(findings)@) + fs,
            Err(e) => r matches Err(x) && x@ == e,
        },
    decreases conds,
{
    let ghost start = finding_views(findings@);
    let ghost views = condition_views(conds@);
    let ghost p = *ctx.project;
    let ghost t = target_view(ctx.target);
    let ghost x = opt_json_view(ctx.current_expected);
    proof {
        lemma_condition_views_len(conds@);
    }
    let mut i: usize = 0;
    while i < conds.len()
        invariant
            i <= conds@.len(),
            views == condition_views(conds@),
            views.len() == conds@.len(),
            p == *ctx.project,
            t == target_view(ctx.target),
            x == opt_json_view(ctx.current_expected),
            visit_all_spec(*rule, p, t, x, views.subrange(0, i as int)) matches Ok(fs) && finding_views(findings@) == start + fs,
        decreases conds.len() - i,
    {
        assert(decreases_to!(conds => conds[i as int]));
        proof {
            lemma_condition_views_index(conds@, i as int);
            assert(views.subrange(0, i + 1).drop_last() =~= views.subrange(0, i as int));
        }
        let ghost prev = finding_views(findings@);
        match visit(rule, &conds[i], ctx, findings) {
            Ok(()) => {
                proof {
                    let fs = visit_all_spec(*rule, p, t, x, views.subrange(0, i as int))->Ok_0;
                    let gs = visit_spec(*rule, p, t, x, views[i as int])->Ok_0;
                    assert(finding_views(findings@) =~= start + (fs + gs));
                }
            },
            Err(e) => {
                proof {
                    lemma_visit_all_error_stays(*rule, p, t, x, views, i + 1);
                    assert(views.subrange(0, views.len() as int) =~= views);
                }
                return Err(e);
            },
        }
        i = i + 1;
    }
    assert(views.subrange(0, views.len() as int) =~= views);
    Ok(())
}

proof fn lemma_visit_all_error_stays(
    rule: CompiledRule,
    p: ParsedProject,
    t: TargetView,
    x: Option<JsonView>,
    cs: Seq<ConditionView>,
    n: int,
)
    requires
        0 <= n <= cs.len(),
        visit_all_spec(rule, p, t, x, cs.subrange(0, n)) is Err,
    ensures
        visit_all_spec(rule, p, t, x, cs) == visit_all_spec(rule, p, t, x, cs.subrange(0, n)),
    decreases cs.len() - n,
{
    if n < cs.len() {
        let next = cs.subrange(0, n + 1);
        assert(next.drop_last() =~= cs.subrange(0, n));
        lemma_visit_all_error_stays(rule, p, t, x, cs, n + 1);
    } else {
        assert(cs.subrange(0, n) =~= cs);
    }
}

fn finding_file_str(f: &Finding) -> (s: &str)
    ensures
        s@ == finding_file(f@),
{
    match &f.source {
        Some(s) => s.file.as_str(),
        None => {
            proof {
                reveal_strlit("");
            }
            ""
        },
    }
}

fn finding_entity_str(f: &Finding) -> (s: &str)
    ensures
        s@ == finding_entity(f@),
{
    match &f.entity_id {
        Some(e) => e.as_str(),
        None => {
            proof {
                reveal_strlit("");
            }
            ""
        },
    }
}

fn finding_line_of(f: &Finding) -> (n: u32)
    ensures
        n as int == finding_line(f@),
{
    match &f.source {
        Some(s) => s.start_line,
        None => 0,
    }
}

fn after_by_text(a: &str, b: &str) -> (r: bool)
    ensures
        r == seq_lt(b@, a@),
{
    let o = compare_str(a, b);
    proof {
        lemma_seq_lt_asymmetric(a@, b@);
        lemma_seq_lt_irreflexive(a@);
        lemma_seq_lt_total(a@, b@);
    }
    o == Order::Greater
}

/// Whether `a` is listed after `b`.
fn listed_after(a: &Finding, b: &Finding) -> (r: bool)
    ensures
        r == finding_after(a@, b@),
{
    let (ra, rb) = (a.severity.rank(), b.severity.rank());
    if ra != rb {
        return ra < rb;
    }
    if !str_eq(a.rule_id.as_str(), b.rule_id.as_str()) {
        return after_by_text(a.rule_id.as_str(), b.rule_id.as_str());
    }
    let (fa, fb) = (finding_file_str(a), finding_file_str(b));
    if !str_eq(fa, fb) {
        return after_by_text(fa, fb);
    }
    let (la, lb) = (finding_line_of(a), finding_line_of(b));
    if la != lb {
        return la > lb;
    }
    after_by_text(finding_entity_str(a), finding_entity_str(b))
}

fn finding_insertion_point(out: &Vec<Finding>, x: &Finding) -> (p: usize)
    ensures
        p <= out@.len(),
        forall|j: int| p <= j < out@.len() ==> finding_after(#[trigger] finding_views(out@)[j], x@),
        p == 0 || !finding_after(finding_views(out@)[p - 1], x@),
{
    let mut p = out.len();
    while p > 0
        invariant
            p <= out@.len(),
            forall|j: int| p <= j < out@.len() ==> finding_after(#[trigger] finding_views(out@)[j], x@),
        decreases p,
    {
        assert(finding_views(out@)[p - 1] == out@[p - 1]@);
        if !listed_after(&out[p - 1], x) {
            return p;
        }
        p = p - 1;
    }
    p
}

/// Orders findings: most severe first, then by rule id, file, line and
/// entity id; equal findings keep their order.
pub(crate) fn sort(findings: &mut Vec<Finding>)
    ensures
        finding_views(final(findings)@) == stable_sort(finding_views(old(findings)@), finding_order()),
{
    let ghost order = finding_order();
    let mut items: Vec<Finding> = Vec::new();
    std::mem::swap(&mut items, findings);
    let ghost orig = finding_views(items@);
    let mut out: Vec<Finding> = Vec::new();
    let ghost mut i: int = 0;
    while items.len() > 0
        invariant
            0 <= i <= orig.len(),
            order == finding_order(),
            finding_views(items@) == orig.subrange(i, orig.len() as int),
            finding_views(out@) == stable_sort(orig.subrange(0, i), order),
        decreases items.len(),
    {
        let ghost before_items = items@;
        proof {
            assert(finding_views(before_items).len() == before_items.len());
            assert(finding_views(before_items)[0] == orig.subrange(i, orig.len() as int)[0]);
        }
        let x = items.remove(0);
        let p = finding_insertion_point(&out, &x);
        let ghost before = finding_views(out@);
        proof {
            lemma_insert_at(before, x@, order, p as int);
            let next = orig.subrange(0, i + 1);
            assert(next.drop_last() =~= orig.subrange(0, i));
        }
        out.insert(p, x);
        proof {
            assert(finding_views(out@) =~= before.insert(p as int, x@));
            assert forall|k: int| 0 <= k < items@.len() implies #[trigger] finding_views(items@)[k]
                == orig.subrange(i + 1, orig.len() as int)[k] by {
                assert(items@[k] == before_items[k + 1]);
                assert(finding_views(before_items)[k + 1] == orig.subrange(i, orig.len() as int)[k + 1]);
            }
            assert(finding_views(items@) =~= orig.subrange(i + 1, orig.len() as int));
            i = i + 1;
        }
    }
    assert(orig.subrange(0, i) =~= orig);
    *findings = out;
}

proof fn lemma_text_facts(x: Seq<char>, y: Seq<char>, z: Seq<char>)
    ensures
        seq_lt(x, y) ==> !seq_lt(y, x),
        x != y ==> seq_lt(x, y) || seq_lt(y, x),
        !seq_lt(x, x),
        seq_lt(x, y) && seq_lt(y, z) ==> seq_lt(x, z),
{
    lemma_seq_lt_asymmetric(x, y);
    lemma_seq_lt_total(x, y);
    lemma_seq_lt_irreflexive(x);
    if seq_lt(x, y) && seq_lt(y, z) {
        lemma_seq_lt_transitive(x, y, z);
    }
}

proof fn lemma_finding_after_asymmetric(a: FindingView, b: FindingView)
    ensures
        finding_after(a, b) ==> !finding_after(b, a),
{
    lemma_text_facts(a.rule_id, b.rule_id, a.rule_id);
    lemma_text_facts(finding_file(a), finding_file(b), finding_file(a));
    lemma_text_facts(finding_entity(a), finding_entity(b), finding_entity(a));
}

proof fn lemma_finding_not_after_transitive(a: FindingView, b: FindingView, c: FindingView)
    requires
        !finding_after(a, b),
        !finding_after(b, c),
    ensures
        !finding_after(a, c),
{
    lemma_text_facts(a.rule_id, b.rule_id, c.rule_id);
    lemma_text_facts(c.rule_id, b.rule_id, a.rule_id);
    lemma_text_facts(b.rule_id, c.rule_id, a.rule_id);
    lemma_text_facts(c.rule_id, a.rule_id, b.rule_id);
    lemma_text_facts(a.rule_id, c.rule_id, b.rule_id);
    lemma_text_facts(b.rule_id, a.rule_id, c.rule_id);
    let (fa, fb, fc) = (finding_file(a), finding_file(b), finding_file(c));
    lemma_text_facts(fa, fb, fc);
    lemma_text_facts(fc, fb, fa);
    lemma_text_facts(fb, fc, fa);
    lemma_text_facts(fc, fa, fb);
    lemma_text_facts(fa, fc, fb);
    lemma_text_facts(fb, fa, fc);
    let (ea, eb, ec) = (finding_entity(a), finding_entity(b), finding_entity(c));
    lemma_text_facts(ea, eb, ec);
    lemma_text_facts(ec, eb, ea);
    lemma_text_facts(eb, ec, ea);
    lemma_text_facts(ec, ea, eb);
    lemma_text_facts(ea, ec, eb);
    lemma_text_facts(eb, ea, ec);
}

/// The listing order of findings is a strict weak order.
pub proof fn lemma_finding_order_is_strict_weak()
    ensures
        strict_weak_order(finding_order()),
{
    let gt = finding_order();
    assert forall|a: FindingView, b: FindingView| #[trigger] gt(a, b) implies !gt(b, a) by {
        lemma_finding_after_asymmetric(a, b);
    }
    assert forall|a: FindingView, b: FindingView, c: FindingView|
        #![trigger gt(a, b), gt(b, c)]
        !gt(a, b) && !gt(b, c) implies !gt(a, c) by {
        lemma_finding_not_after_transitive(a, b, c);
    }
}

/// Findings come out ordered: most severe first, then by rule id, file,
/// line and entity id; findings equal on all of these keep the order in
/// which they were found.
pub proof fn law_findings_are_listed_in_order(raw: Seq<FindingView>)
    ensures
        sorted_by(stable_sort(raw, finding_order()), finding_order()),
        stable_sort(raw, finding_order()).to_multiset() == raw.to_multiset(),
        forall|e: FindingView|
            #[trigger] tied_with(stable_sort(raw, finding_order()), e, finding_order()) == tied_with(
                raw,
                e,
                finding_order(),
            ),
{
    lemma_finding_order_is_strict_weak();
    law_stable_sort_sorted(raw, finding_order());
    law_stable_sort_permutes(raw, finding_order());
    assert forall|e: FindingView|
        #[trigger] tied_with(stable_sort(raw, finding_order()), e, finding_order()) == tied_with(
            raw,
            e,
            finding_order(),
        ) by {
        law_stable_sort_keeps_ties(raw, e, finding_order());
    }
}

/// `a` is a more severe level than `b`: critical over error over warning
/// over info.
pub open spec fn more_severe(a: crate::model::Severity, b: crate::model::Severity) -> bool {
    ||| a == crate::model::Severity::Critical && b != crate::model::Severity::Critical
    ||| a == crate::model::Severity::Error && (b == crate::model::Severity::Warning || b == crate::model::Severity::Info)
    ||| a == crate::model::Severity::Warning && b == crate::model::Severity::Info
}

/// In the order findings are listed, no finding comes before a more
/// severe one, and among findings of one severity the rule ids never
/// decrease; within one rule the files, then the lines, never decrease.
pub proof fn law_most_severe_first(raw: Seq<FindingView>)
    ensures
        forall|i: int, j: int|
            0 <= i < j < stable_sort(raw, finding_order()).len() ==> {
                let a = #[trigger] stable_sort(raw, finding_order())[i];
                let b = #[trigger] stable_sort(raw, finding_order())[j];
                &&& !more_severe(b.severity, a.severity)
                &&& a.severity == b.severity ==> !seq_lt(b.rule_id, a.rule_id)
                &&& a.severity == b.severity && a.rule_id == b.rule_id ==> !seq_lt(finding_file(b), finding_file(a))
                &&& a.severity == b.severity && a.rule_id == b.rule_id && finding_file(a) == finding_file(b)
                    ==> finding_line(a) <= finding_line(b)
            },
{
    law_findings_are_listed_in_order(raw);
    let s = stable_sort(raw, finding_order());
    assert forall|i: int, j: int| 0 <= i < j < s.len() implies {
        let a = #[trigger] s[i];
        let b = #[trigger] s[j];
        &&& !more_severe(b.severity, a.severity)
        &&& a.severity == b.severity ==> !seq_lt(b.rule_id, a.rule_id)
        &&& a.severity == b.severity && a.rule_id == b.rule_id ==> !seq_lt(finding_file(b), finding_file(a))
        &&& a.severity == b.severity && a.rule_id == b.rule_id && finding_file(a) == finding_file(b)
            ==> finding_line(a) <= finding_line(b)
    } by {
        assert(!finding_order()(s[i], s[j]));
        assert(!finding_after(s[i], s[j]));
        lemma_seq_lt_irreflexive(s[j].rule_id);
        lemma_seq_lt_irreflexive(finding_file(s[j]));
        if s[i].rule_id != s[j].rule_id {
            lemma_seq_lt_asymmetric(s[i].rule_id, s[j].rule_id);
            lemma_seq_lt_total(s[i].rule_id, s[j].rule_id);
        }
        if finding_file(s[i]) != finding_file(s[j]) {
            lemma_seq_lt_asymmetric(finding_file(s[i]), finding_file(s[j]));
            lemma_seq_lt_total(finding_file(s[i]), finding_file(s[j]));
        }
    }
}

/// Every rule of the set is counted once, as evaluated or as skipped, and
/// each skipped rule leaves exactly one error.
pub proof fn law_every_rule_is_evaluated_or_skipped(rules: Seq<CompiledRule>, source: Seq<Rule>, project: ParsedProject)
    ensures
        run_rules(rules, source, project).evaluated + run_rules(rules, source, project).skipped == rules.len(),
        run_rules(rules, source, project).errors.len() == run_rules(rules, source, project).skipped,
    decreases rules.len(),
{
    if rules.len() > 0 {
        law_every_rule_is_evaluated_or_skipped(rules.drop_last(), source, project);
    }
}

pub open spec fn all_deterministic(fs: Seq<FindingView>) -> bool {
    forall|i: int| 0 <= i < fs.len() ==> (#[trigger] fs[i]).origin == FindingOrigin::DeterministicRule
}

/// Every finding is of origin `DeterministicRule` and carries the id of `rule`.
pub open spec fn made_by(fs: Seq<FindingView>, rule: CompiledRule) -> bool {
    forall|i: int|
        0 <= i < fs.len() ==> (#[trigger] fs[i]).origin == FindingOrigin::DeterministicRule && fs[i].rule_id
            == rule.id@
}

/// `rule` is not switched off by a source rule with its id.
pub open spec fn rule_enabled(rule: CompiledRule, source: Seq<Rule>) -> bool {
    !(find_rule(source, rule.id@) matches Some(o) && !o.enabled)
}

/// Every finding is of origin `DeterministicRule` and carries the id of a
/// rule of `rules` that no source rule with that id disables.
pub open spec fn made_by_enabled(fs: Seq<FindingView>, rules: Seq<CompiledRule>, source: Seq<Rule>) -> bool {
    forall|i: int|
        0 <= i < fs.len() ==> (#[trigger] fs[i]).origin == FindingOrigin::DeterministicRule && exists|j: int|
            0 <= j < rules.len() && rule_enabled(#[trigger] rules[j], source) && fs[i].rule_id == rules[j].id@
}

proof fn lemma_made_by_concat(a: Seq<FindingView>, b: Seq<FindingView>, rule: CompiledRule)
    requires
        made_by(a, rule),
        made_by(b, rule),
    ensures
        made_by(a + b, rule),
{
    assert forall|i: int| 0 <= i < (a + b).len() implies (#[trigger] (a + b)[i]).origin == FindingOrigin::DeterministicRule
        && (a + b)[i].rule_id == rule.id@ by {
        if i < a.len() {
            assert((a + b)[i] == a[i]);
        } else {
            assert((a + b)[i] == b[i - a.len()]);
        }
    }
}

proof fn lemma_visit_made_by(rule: CompiledRule, p: ParsedProject, t: TargetView, x: Option<JsonView>, c: ConditionView)
    ensures
        visit_spec(rule, p, t, x, c) matches Ok(fs) ==> made_by(fs, rule),
    decreases c,
{
    match c {
        ConditionView::All(cs) => lemma_visit_all_made_by(rule, p, t, x, cs),
        _ => {},
    }
}

proof fn lemma_visit_all_made_by(rule: CompiledRule, p: ParsedProject, t: TargetView, x: Option<JsonView>, cs: Seq<ConditionView>)
    ensures
        visit_all_spec(rule, p, t, x, cs) matches Ok(fs) ==> made_by(fs, rule),
    decreases cs,
{
    if cs.len() > 0 {
        lemma_visit_all_made_by(rule, p, t, x, cs.drop_last());
        lemma_visit_made_by(rule, p, t, x, cs.last());
        if let Ok(fs) = visit_all_spec(rule, p, t, x, cs) {
            lemma_made_by_concat(
                visit_all_spec(rule, p, t, x, cs.drop_last())->Ok_0,
                visit_spec(rule, p, t, x, cs.last())->Ok_0,
                rule,
            );
        }
    }
}

proof fn lemma_candidates_made_by(rule: CompiledRule, original: Option<Rule>, p: ParsedProject, cands: Seq<TargetView>)
    ensures
        candidates_outcome(rule, original, p, cands) matches Ok(fs) ==> made_by(fs, rule),
    decreases cands.len(),
{
    if cands.len() > 0 {
        lemma_candidates_made_by(rule, original, p, cands.drop_last());
        lemma_visit_made_by(rule, p, cands.last(), None, rule.assert@);
        if let Ok(fs) = candidates_outcome(rule, original, p, cands) {
            lemma_made_by_concat(
                candidates_outcome(rule, original, p, cands.drop_last())->Ok_0,
                candidate_outcome(rule, original, p, cands.last())->Ok_0,
                rule,
            );
        }
    }
}

/// Every finding the engine emits is of origin `DeterministicRule` and
/// carries the id of one of the compiled rules that no source rule with
/// the same id disables; listing them in order keeps this.
pub proof fn law_findings_come_from_enabled_rules(rules: Seq<CompiledRule>, source: Seq<Rule>, project: ParsedProject)
    ensures
        made_by_enabled(run_rules(rules, source, project).findings, rules, source),
        made_by_enabled(stable_sort(run_rules(rules, source, project).findings, finding_order()), rules, source),
    decreases rules.len(),
{
    let raw = run_rules(rules, source, project).findings;
    if rules.len() > 0 {
        let rest = rules.drop_last();
        law_findings_come_from_enabled_rules(rest, source, project);
        let rule = rules.last();
        let original = find_rule(source, rule.id@);
        lemma_candidates_made_by(
            rule,
            original,
            project,
            stable_sort(spec_candidates(project, rule.target.entity@), candidate_order()),
        );
        let prev = run_rules(rest, source, project).findings;
        if let Ok(fs) = rule_outcome(rule, original, project) {
            assert(raw == prev + fs);
            assert forall|i: int| 0 <= i < raw.len() implies (#[trigger] raw[i]).origin == FindingOrigin::DeterministicRule
                && exists|j: int| 0 <= j < rules.len() && rule_enabled(#[trigger] rules[j], source) && raw[i].rule_id
                    == rules[j].id@ by {
                if i < prev.len() {
                    assert(raw[i] == prev[i]);
                    let j = choose|j: int|
                        0 <= j < rest.len() && rule_enabled(#[trigger] rest[j], source) && prev[i].rule_id == rest[j].id@;
                    assert(rules[j] == rest[j]);
                } else {
                    assert(raw[i] == fs[i - prev.len()]);
                    assert(fs.len() > 0);
                    assert(rule_enabled(rule, source));
                    assert(rules[rules.len() - 1] == rule);
                }
            }
        } else {
            assert forall|i: int| 0 <= i < raw.len() implies (#[trigger] raw[i]).origin == FindingOrigin::DeterministicRule
                && exists|j: int| 0 <= j < rules.len() && rule_enabled(#[trigger] rules[j], source) && raw[i].rule_id
                    == rules[j].id@ by {
                let j = choose|j: int|
                    0 <= j < rest.len() && rule_enabled(#[trigger] rest[j], source) && prev[i].rule_id == rest[j].id@;
                assert(rules[j] == rest[j]);
            }
        }
    }
    law_stable_sort_permutes(raw, finding_order());
    let sorted = stable_sort(raw, finding_order());
    assert forall|i: int| 0 <= i < sorted.len() implies (#[trigger] sorted[i]).origin == FindingOrigin::DeterministicRule
        && exists|j: int| 0 <= j < rules.len() && rule_enabled(#[trigger] rules[j], source) && sorted[i].rule_id
            == rules[j].id@ by {
        broadcast use vstd::seq_lib::group_to_multiset_ensures;
        assert(sorted.to_multiset().count(sorted[i]) > 0);
        assert(raw.to_multiset().count(sorted[i]) > 0);
        assert(raw.contains(sorted[i]));
        let k = choose|k: int| 0 <= k < raw.len() && raw[k] == sorted[i];
        assert(raw[k].origin == FindingOrigin::DeterministicRule);
    }
}

/// The engine only emits findings of origin `DeterministicRule`.
pub proof fn law_engine_findings_are_deterministic(rules: Seq<CompiledRule>, source: Seq<Rule>, project: ParsedProject)
    ensures
        all_deterministic(run_rules(rules, source, project).findings),
        all_deterministic(stable_sort(run_rules(rules, source, project).findings, finding_order())),
{
    law_findings_come_from_enabled_rules(rules, source, project);
    let raw = run_rules(rules, source, project).findings;
    let sorted = stable_sort(raw, finding_order());
    assert forall|i: int| 0 <= i < raw.len() implies (#[trigger] raw[i]).origin == FindingOrigin::DeterministicRule by {}
    assert forall|i: int| 0 <= i < sorted.len() implies (#[trigger] sorted[i]).origin == FindingOrigin::DeterministicRule by {}
}

} // verus!
