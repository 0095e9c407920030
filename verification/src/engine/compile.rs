//! Compiling a rule set: every check that needs no project (ids, target
//! lists, fact-path whitelisting, required values, and the patterns of
//! `matches` and `not-matches`, compiled ahead of evaluation). A rule that fails a
//! check becomes an issue; the others are compiled. Compilation never
//! stops at the first problem.

use vstd::prelude::*;
use crate::engine::condition::{
    collect_facts, facts_of, path_views, requires_value, spec_requires_value,
};
use crate::engine::error::{compile_display, CompileIssue, EngineError, EngineErrorView};
use crate::engine::path::{ensure_allowed, path_allowed};
use crate::model::{clone_opt_string, opt_str_view, Severity};
use crate::ruleset::{
    condition_views, lemma_condition_views_index, lemma_condition_views_len, opt_condition_view,
    Condition, ConditionCombinator, ConditionView, FactPath, Operator, Rule, RuleSet, RuleTarget,
    RuleTargetEntity,
};
use crate::engine::regex_support::{regex_compile_error, Pattern};
use crate::json::{JsonValue, JsonView};
use crate::text::{push_str, str_eq};

verus! {

broadcast use vstd::std_specs::vec::axiom_vec_index_decreases;

/// One rule, checked and ready for evaluation.
#[derive(Debug)]
pub struct CompiledRule {
    pub id: String,
    pub title: String,
    pub description: Option<String>,
    pub severity: Severity,
    pub tags: Vec<String>,
    pub target: RuleTarget,
    pub assert: Condition,
    pub message: String,
    pub recommendation: Option<String>,
    pub version: String,
    pub when_facts: Vec<FactPath>,
    pub assert_facts: Vec<FactPath>,
}

/// The compiled rules of a set, with the issues of the rules that did not compile.
#[derive(Debug)]
pub struct CompiledRuleSet {
    pub id: String,
    pub name: String,
    pub version: String,
    pub description: Option<String>,
    pub rules: Vec<CompiledRule>,
    pub issues: Vec<CompileIssue>,
}

/// The fact paths of a rule's `when` condition, if it has one.
pub open spec fn when_facts_of(rule: Rule) -> Seq<Seq<char>> {
    match rule.when {
        Some(w) => facts_of(w@),
        None => Seq::empty(),
    }
}

/// `s` without repetitions, each kept at its first position.
pub open spec fn dedup_spec(s: Seq<Seq<char>>) -> Seq<Seq<char>>
    decreases s.len(),
{
    if s.len() == 0 {
        Seq::empty()
    } else {
        let d = dedup_spec(s.drop_last());
        if d.contains(s.last()) {
            d
        } else {
            d.push(s.last())
        }
    }
}

/// The first path of `s` that `target` does not allow.
pub open spec fn first_disallowed(target: RuleTargetEntity, s: Seq<Seq<char>>) -> Option<Seq<char>>
    decreases s.len(),
{
    if s.len() == 0 {
        None
    } else if !path_allowed(target, s[0]) {
        Some(s[0])
    } else {
        first_disallowed(target, s.drop_first())
    }
}

/// The operator of the first leaf, left to right, that needs a value and has none.
pub open spec fn first_missing_value(c: ConditionView) -> Option<Operator>
    decreases c,
{
    match c {
        ConditionView::Single { op, value, .. } => if spec_requires_value(op) && value is None {
            Some(op)
        } else {
            None
        },
        ConditionView::All(cs) => first_missing_all(cs),
        ConditionView::Any(cs) => first_missing_all(cs),
        ConditionView::Not(inner) => first_missing_value(*inner),
    }
}

pub open spec fn first_missing_all(cs: Seq<ConditionView>) -> Option<Operator>
    decreases cs,
{
    if cs.len() == 0 {
        None
    } else {
        match first_missing_all(cs.drop_last()) {
            Some(op) => Some(op),
            None => first_missing_value(cs.last()),
        }
    }
}

/// The pattern and error text of the first `matches` or `not-matches`
/// leaf, left to right, whose pattern does not compile.
pub open spec fn first_bad_regex(c: ConditionView) -> Option<(Seq<char>, Seq<char>)>
    decreases c,
{
    match c {
        ConditionView::Single { op, value, .. } => if op == Operator::Matches || op == Operator::NotMatches {
            match value {
                Some(JsonView::Str(p)) => match regex_compile_error(p) {
                    Some(e) => Some((p, e)),
                    None => None,
                },
                _ => None,
            }
        } else {
            None
        },
        ConditionView::All(cs) => first_bad_regex_all(cs),
        ConditionView::Any(cs) => first_bad_regex_all(cs),
        ConditionView::Not(inner) => first_bad_regex(*inner),
    }
}

pub open spec fn first_bad_regex_all(cs: Seq<ConditionView>) -> Option<(Seq<char>, Seq<char>)>
    decreases cs,
{
    if cs.len() == 0 {
        None
    } else {
        match first_bad_regex_all(cs.drop_last()) {
            Some(pe) => Some(pe),
            None => first_bad_regex(cs.last()),
        }
    }
}

pub open spec fn bad_regex_message(pattern: Seq<char>, error: Seq<char>) -> Seq<char> {
    "invalid regex `"@ + pattern + "`: "@ + error
}

/// The operator of the first leaf of the `when` condition that needs a value and has none.
pub open spec fn when_missing_value(rule: Rule) -> Option<Operator> {
    match rule.when {
        Some(w) => first_missing_value(w@),
        None => None,
    }
}

/// The first pattern of the `when` condition that does not compile.
pub open spec fn when_bad_regex(rule: Rule) -> Option<(Seq<char>, Seq<char>)> {
    match rule.when {
        Some(w) => first_bad_regex(w@),
        None => None,
    }
}

/// The name `Debug` prints for a target kind.
pub open spec fn entity_debug_name(e: RuleTargetEntity) -> Seq<char> {
    match e {
        RuleTargetEntity::Project => "Project"@,
        RuleTargetEntity::File => "File"@,
        RuleTargetEntity::Flow => "Flow"@,
        RuleTargetEntity::Subflow => "Subflow"@,
        RuleTargetEntity::Component => "Component"@,
        RuleTargetEntity::PropertyReference => "PropertyReference"@,
        RuleTargetEntity::FlowReference => "FlowReference"@,
        RuleTargetEntity::DataweaveBlock => "DataweaveBlock"@,
    }
}

pub open spec fn disallowed_message(fact: Seq<char>, target: RuleTargetEntity) -> Seq<char> {
    "fact path `"@ + fact + "` is not allowed for target `"@ + entity_debug_name(target) + "`"@
}

pub open spec fn missing_value_message(op: Operator) -> Seq<char> {
    "operator `"@ + op.spec_as_str() + "` requires a `value` field"@
}

/// Why a rule does not compile, or `None` when it does.
pub open spec fn rule_problem(rule: Rule) -> Option<Seq<char>> {
    if rule.id@.len() == 0 {
        Some("rule id must not be empty"@)
    } else if rule.target.entity@.len() == 0 {
        Some("rule target must list at least one entity"@)
    } else {
        let target = rule.target.entity@[0];
        match first_disallowed(target, dedup_spec(when_facts_of(rule) + facts_of(rule.assert@))) {
            Some(f) => Some(disallowed_message(f, target)),
            None => match first_missing_value(rule.assert@) {
                Some(op) => Some(missing_value_message(op)),
                None => match when_missing_value(rule) {
                    Some(op) => Some(missing_value_message(op)),
                    None => match first_bad_regex(rule.assert@) {
                        Some(pe) => Some(bad_regex_message(pe.0, pe.1)),
                        None => match when_bad_regex(rule) {
                            Some(pe) => Some(bad_regex_message(pe.0, pe.1)),
                            None => None,
                        },
                    },
                },
            },
        }
    }
}

pub open spec fn string_views(v: Seq<String>) -> Seq<Seq<char>> {
    v.map_values(|s: String| s@)
}

/// `c` is the compiled form of `rule` from `set`.
pub open spec fn compiled_from(c: CompiledRule, set: RuleSet, rule: Rule) -> bool {
    &&& c.id@ == rule.id@
    &&& c.title@ == rule.title@
    &&& opt_str_view(c.description) == opt_str_view(rule.description)
    &&& c.severity == rule.severity
    &&& string_views(c.tags@) == string_views(rule.tags@)
    &&& c.target.entity@ == rule.target.entity@
    &&& opt_condition_view(c.target.match_) == opt_condition_view(rule.target.match_)
    &&& c.assert@ == rule.assert@
    &&& c.message@ == rule.message@
    &&& opt_str_view(c.recommendation) == opt_str_view(rule.recommendation)
    &&& c.version@ == set.version@
    &&& path_views(c.when_facts@) == when_facts_of(rule)
    &&& path_views(c.assert_facts@) == facts_of(rule.assert@)
}

/// The rules of `rules` that compile, in order.
pub open spec fn accepted(rules: Seq<Rule>) -> Seq<Rule>
    decreases rules.len(),
{
    if rules.len() == 0 {
        Seq::empty()
    } else if rule_problem(rules.last()) is None {
        accepted(rules.drop_last()).push(rules.last())
    } else {
        accepted(rules.drop_last())
    }
}

/// The issue of each rule that does not compile, in order: its id and
/// the error's display text.
pub open spec fn issues_of(rules: Seq<Rule>) -> Seq<(Seq<char>, Seq<char>)>
    decreases rules.len(),
{
    if rules.len() == 0 {
        Seq::empty()
    } else {
        match rule_problem(rules.last()) {
            Some(m) => issues_of(rules.drop_last()).push(
                (rules.last().id@, compile_display(rules.last().id@, m)),
            ),
            None => issues_of(rules.drop_last()),
        }
    }
}

pub open spec fn issue_views(v: Seq<CompileIssue>) -> Seq<(Seq<char>, Seq<char>)> {
    v.map_values(|i: CompileIssue| (i.rule_id@, i.message@))
}

/// Compiles every rule of `set`; the rules that fail a check are
/// reported as issues, in order, and the others compiled, in order.
pub fn compile(set: &RuleSet) -> (r: CompiledRuleSet)
    ensures
        r.id@ == set.id@,
        r.name@ == set.name@,
        r.version@ == set.version@,
        opt_str_view(r.description) == opt_str_view(set.description),
        r.rules@.len() == accepted(set.rules@).len(),
        forall|i: int|
            0 <= i < r.rules@.len() ==> compiled_from(
                #[trigger] r.rules@[i],
                *set,
                accepted(set.rules@)[i],
            ),
        issue_views(r.issues@) == issues_of(set.rules@),
{
    crate::engine::path::warm();
    let mut rules: Vec<CompiledRule> = Vec::new();
    let mut issues: Vec<CompileIssue> = Vec::new();
    let mut i: usize = 0;
    while i < set.rules.len()
        invariant
            i <= set.rules@.len(),
            rules@.len() == accepted(set.rules@.subrange(0, i as int)).len(),
            forall|k: int|
                0 <= k < rules@.len() ==> compiled_from(
                    #[trigger] rules@[k],
                    *set,
                    accepted(set.rules@.subrange(0, i as int))[k],
                ),
            issue_views(issues@) == issues_of(set.rules@.subrange(0, i as int)),
        decreases set.rules.len() - i,
    {
        let rule = &set.rules[i];
        let ghost prefix = set.rules@.subrange(0, i as int);
        let ghost next = set.rules@.subrange(0, i + 1);
        proof {
            assert(next.drop_last() =~= prefix);
            assert(next.last() == *rule);
        }
        match compile_one(set, rule) {
            Ok(c) => {
                let ghost before = rules@;
                rules.push(c);
                proof {
                    assert forall|k: int| 0 <= k < rules@.len() implies compiled_from(
                        #[trigger] rules@[k],
                        *set,
                        accepted(next)[k],
                    ) by {
                        if k < rules@.len() - 1 {
                            assert(rules@[k] == before[k]);
                        }
                    }
                }
            },
            Err(e) => {
                let message = e.to_text();
                let ghost before = issues@;
                issues.push(CompileIssue { rule_id: rule.id.clone(), message });
                proof {
                    assert(issue_views(issues@) =~= issue_views(before).push(
                        (rule.id@, message@),
                    ));
                }
            },
        }
        i = i + 1;
    }
    assert(set.rules@.subrange(0, set.rules@.len() as int) =~= set.rules@);
    CompiledRuleSet {
        id: set.id.clone(),
        name: set.name.clone(),
        version: set.version.clone(),
        description: clone_opt_string(&set.description),
        rules,
        issues,
    }
}

fn compile_failure(rule: &Rule, message: String) -> (e: EngineError)
    ensures
        e@ == (EngineErrorView::Compile { rule_id: rule.id@, message: message@ }),
{
    EngineError::Compile { rule_id: rule.id.clone(), message }
}

fn clone_strings(v: &Vec<String>) -> (r: Vec<String>)
    ensures
        r@ == v@,
{
    let mut out: Vec<String> = Vec::new();
    let mut i: usize = 0;
    while i < v.len()
        invariant
            i <= v.len(),
            out@ == v@.subrange(0, i as int),
        decreases v.len() - i,
    {
        out.push(v[i].clone());
        i = i + 1;
    }
    assert(out@ =~= v@);
    out
}

fn clone_paths(v: &Vec<FactPath>, out: &mut Vec<FactPath>)
    ensures
        final(out)@ == old(out)@ + v@,
{
    let mut i: usize = 0;
    while i < v.len()
        invariant
            i <= v.len(),
            out@ == old(out)@ + v@.subrange(0, i as int),
        decreases v.len() - i,
    {
        out.push(v[i].clone());
        i = i + 1;
        assert(out@ =~= old(out)@ + v@.subrange(0, i as int));
    }
    assert(v@.subrange(0, v@.len() as int) =~= v@);
}

/// The fact paths without repetitions, each at its first position.
fn dedup(facts: &Vec<FactPath>) -> (r: Vec<FactPath>)
    ensures
        path_views(r@) == dedup_spec(path_views(facts@)),
{
    let mut out: Vec<FactPath> = Vec::new();
    let mut i: usize = 0;
    while i < facts.len()
        invariant
            i <= facts@.len(),
            path_views(out@) == dedup_spec(path_views(facts@).subrange(0, i as int)),
        decreases facts.len() - i,
    {
        let f = &facts[i];
        let mut seen = false;
        let mut j: usize = 0;
        while j < out.len()
            invariant
                j <= out@.len(),
                seen == path_views(out@).subrange(0, j as int).contains(f.0@),
            decreases out.len() - j,
        {
            if !seen && str_eq(out[j].as_str(), f.as_str()) {
                seen = true;
            }
            proof {
                let pv = path_views(out@);
                let x = f.0@;
                assert(pv.subrange(0, j + 1) =~= pv.subrange(0, j as int).push(pv[j as int]));
                if pv.subrange(0, j + 1).contains(x) && !pv.subrange(0, j as int).contains(x) {
                    let k = choose|k: int| 0 <= k < j + 1 && #[trigger] pv.subrange(0, j + 1)[k] == x;
                    if k < j {
                        assert(pv.subrange(0, j as int)[k] == x);
                    }
                }
                if pv.subrange(0, j as int).contains(x) {
                    let k = choose|k: int| 0 <= k < j && #[trigger] pv.subrange(0, j as int)[k] == x;
                    assert(pv.subrange(0, j + 1)[k] == x);
                }
                if pv[j as int] == x {
                    assert(pv.subrange(0, j + 1)[j as int] == x);
                }
            }
            j = j + 1;
        }
        proof {
            let pv = path_views(out@);
            assert(pv.subrange(0, pv.len() as int) =~= pv);
            let s = path_views(facts@).subrange(0, i + 1);
            assert(s.drop_last() =~= path_views(facts@).subrange(0, i as int));
            assert(s.last() == f.0@);
        }
        if !seen {
            let ghost before = out@;
            out.push(f.clone());
            proof {
                assert(path_views(out@) =~= path_views(before).push(f.0@));
            }
        }
        i = i + 1;
    }
    assert(path_views(facts@).subrange(0, facts@.len() as int) =~= path_views(facts@));
    out
}

fn entity_debug(e: RuleTargetEntity) -> (s: &'static str)
    ensures
        s@ == entity_debug_name(e),
{
    match e {
        RuleTargetEntity::Project => "Project",
        RuleTargetEntity::File => "File",
        RuleTargetEntity::Flow => "Flow",
        RuleTargetEntity::Subflow => "Subflow",
        RuleTargetEntity::Component => "Component",
        RuleTargetEntity::PropertyReference => "PropertyReference",
        RuleTargetEntity::FlowReference => "FlowReference",
        RuleTargetEntity::DataweaveBlock => "DataweaveBlock",
    }
}

/// `Err` with the whitelist message for `fact` unless the rule's first
/// target kind allows it.
fn ensure_paths_allowed(rule: &Rule, fact: &FactPath) -> (r: Result<(), EngineError>)
    requires
        rule.target.entity@.len() > 0,
    ensures
        r is Ok <==> path_allowed(rule.target.entity@[0], fact.0@),
        r matches Err(e) ==> e@ == (EngineErrorView::Compile {
            rule_id: rule.id@,
            message: disallowed_message(fact.0@, rule.target.entity@[0]),
        }),
{
    let target_entity = rule.target.entity[0];
    match ensure_allowed(target_entity, fact) {
        Ok(()) => Ok(()),
        Err(_) => {
            let mut m = String::new();
            push_str(&mut m, "fact path `");
            push_str(&mut m, fact.as_str());
            push_str(&mut m, "` is not allowed for target `");
            push_str(&mut m, entity_debug(target_entity));
            push_str(&mut m, "`");
            Err(compile_failure(rule, m))
        },
    }
}

/// The operator of the first leaf of `cond`, left to right, that needs a
/// value and has none.
fn walk(cond: &Condition) -> (r: Option<Operator>)
    ensures
        r == first_missing_value(cond@),
    decreases cond,
{
    match cond {
        Condition::Single(s) => {
            if requires_value(s.op) && s.value.is_none() {
                Some(s.op)
            } else {
                None
            }
        },
        Condition::Combinator(ConditionCombinator::All { all }) => walk_all(all),
        Condition::Combinator(ConditionCombinator::Any { any }) => walk_all(any),
        Condition::Combinator(ConditionCombinator::Not { not }) => {
            assert(decreases_to!(cond => **not));
            walk(not)
        },
    }
}

fn walk_all(conds: &Vec<Condition>) -> (r: Option<Operator>)
    ensures
        r == first_missing_all(condition_views(conds@)),
    decreases conds,
{
    let ghost views = condition_views(conds@);
    proof {
        lemma_condition_views_len(conds@);
    }
    let mut i: usize = 0;
    while i < conds.len()
        invariant
            i <= conds@.len(),
            views == condition_views(conds@),
            views.len() == conds@.len(),
            first_missing_all(views.subrange(0, i as int)) is None,
        decreases conds.len() - i,
    {
        assert(decreases_to!(conds => conds[i as int]));
        let r = walk(&conds[i]);
        proof {
            lemma_condition_views_index(conds@, i as int);
            assert(views.subrange(0, i + 1).drop_last() =~= views.subrange(0, i as int));
        }
        if r.is_some() {
            proof {
                lemma_missing_decided(views, i + 1, views.len() as int);
                assert(views.subrange(0, views.len() as int) =~= views);
            }
            return r;
        }
        i = i + 1;
    }
    assert(views.subrange(0, views.len() as int) =~= views);
    None
}

proof fn lemma_missing_decided(cs: Seq<ConditionView>, i: int, n: int)
    requires
        0 <= i <= n <= cs.len(),
        first_missing_all(cs.subrange(0, i)) is Some,
    ensures
        first_missing_all(cs.subrange(0, n)) == first_missing_all(cs.subrange(0, i)),
    decreases n - i,
{
    if n > i {
        lemma_missing_decided(cs, i, n - 1);
        assert(cs.subrange(0, n).drop_last() =~= cs.subrange(0, n - 1));
    }
}

/// `Err` naming the first operator of `cond` that needs a value and has none.
fn ensure_values_present(rule: &Rule, cond: &Condition) -> (r: Result<(), EngineError>)
    ensures
        match first_missing_value(cond@) {
            Some(op) => r matches Err(e) && e@ == (EngineErrorView::Compile {
                rule_id: rule.id@,
                message: missing_value_message(op),
            }),
            None => r is Ok,
        },
{
    match walk(cond) {
        Some(op) => {
            let mut m = String::new();
            push_str(&mut m, "operator `");
            push_str(&mut m, op.as_str());
            push_str(&mut m, "` requires a `value` field");
            Err(compile_failure(rule, m))
        },
        None => Ok(()),
    }
}

/// The pattern and error text of the first leaf of `cond` whose pattern
/// does not compile.
fn walk_regex(cond: &Condition) -> (r: Option<(String, String)>)
    ensures
        match r {
            Some(pe) => first_bad_regex(cond@) == Some((pe.0@, pe.1@)),
            None => first_bad_regex(cond@) is None,
        },
    decreases cond,
{
    match cond {
        Condition::Single(s) => {
            if s.op == Operator::Matches || s.op == Operator::NotMatches {
                match &s.value {
                    Some(JsonValue::String(p)) => match Pattern::new(p.as_str()) {
                        Err(e) => Some((p.clone(), e)),
                        Ok(_) => None,
                    },
                    _ => None,
                }
            } else {
                None
            }
        },
        Condition::Combinator(ConditionCombinator::All { all }) => walk_regex_all(all),
        Condition::Combinator(ConditionCombinator::Any { any }) => walk_regex_all(any),
        Condition::Combinator(ConditionCombinator::Not { not }) => {
            assert(decreases_to!(cond => **not));
            walk_regex(not)
        },
    }
}

fn walk_regex_all(conds: &Vec<Condition>) -> (r: Option<(String, String)>)
    ensures
        match r {
            Some(pe) => first_bad_regex_all(condition_views(conds@)) == Some((pe.0@, pe.1@)),
            None => first_bad_regex_all(condition_views(conds@)) is None,
        },
    decreases conds,
{
    let ghost views = condition_views(conds@);
    proof {
        lemma_condition_views_len(conds@);
    }
    let mut i: usize = 0;
    while i < conds.len()
        invariant
            i <= conds@.len(),
            views == condition_views(conds@),
            views.len() == conds@.len(),
            first_bad_regex_all(views.subrange(0, i as int)) is None,
        decreases conds.len() - i,
    {
        assert(decreases_to!(conds => conds[i as int]));
        let r = walk_regex(&conds[i]);
        proof {
            lemma_condition_views_index(conds@, i as int);
            assert(views.subrange(0, i + 1).drop_last() =~= views.subrange(0, i as int));
        }
        if r.is_some() {
            proof {
                lemma_bad_regex_decided(views, i + 1, views.len() as int);
                assert(views.subrange(0, views.len() as int) =~= views);
            }
            return r;
        }
        i = i + 1;
    }
    assert(views.subrange(0, views.len() as int) =~= views);
    None
}

proof fn lemma_bad_regex_decided(cs: Seq<ConditionView>, i: int, n: int)
    requires
        0 <= i <= n <= cs.len(),
        first_bad_regex_all(cs.subrange(0, i)) is Some,
    ensures
        first_bad_regex_all(cs.subrange(0, n)) == first_bad_regex_all(cs.subrange(0, i)),
    decreases n - i,
{
    if n > i {
        lemma_bad_regex_decided(cs, i, n - 1);
        assert(cs.subrange(0, n).drop_last() =~= cs.subrange(0, n - 1));
    }
}

/// `Err` naming the first pattern of `cond` that does not compile.
fn ensure_patterns_compile(rule: &Rule, cond: &Condition) -> (r: Result<(), EngineError>)
    ensures
        match first_bad_regex(cond@) {
            Some(pe) => r matches Err(e) && e@ == (EngineErrorView::Compile {
                rule_id: rule.id@,
                message: bad_regex_message(pe.0, pe.1),
            }),
            None => r is Ok,
        },
{
    match walk_regex(cond) {
        Some((p, e)) => {
            let mut m = String::new();
            push_str(&mut m, "invalid regex `");
            push_str(&mut m, p.as_str());
            push_str(&mut m, "`: ");
            push_str(&mut m, e.as_str());
            Err(compile_failure(rule, m))
        },
        None => Ok(()),
    }
}

/// Compiles one rule, or reports the first problem found in it.
fn compile_one(set: &RuleSet, rule: &Rule) -> (r: Result<CompiledRule, EngineError>)
    ensures
        match r {
            Ok(c) => rule_problem(*rule) is None && compiled_from(c, *set, *rule),
            Err(e) => rule_problem(*rule) matches Some(m) && e@ == (EngineErrorView::Compile {
                rule_id: rule.id@,
                message: m,
            }),
        },
{
    if rule.id.as_str().unicode_len() == 0 {
        proof {
            reveal_strlit("rule id must not be empty");
        }
        return Err(compile_failure(rule, String::from_str("rule id must not be empty")));
    }
    if rule.target.entity.len() == 0 {
        return Err(compile_failure(rule, String::from_str("rule target must list at least one entity")));
    }
    let mut when_facts: Vec<FactPath> = Vec::new();
    match &rule.when {
        Some(w) => collect_facts(w, &mut when_facts),
        None => {},
    }
    assert(path_views(when_facts@) =~= when_facts_of(*rule));
    let mut assert_facts: Vec<FactPath> = Vec::new();
    collect_facts(&rule.assert, &mut assert_facts);
    assert(path_views(assert_facts@) =~= facts_of(rule.assert@));
    let mut all_facts: Vec<FactPath> = Vec::new();
    clone_paths(&when_facts, &mut all_facts);
    clone_paths(&assert_facts, &mut all_facts);
    assert(path_views(all_facts@) =~= when_facts_of(*rule) + facts_of(rule.assert@));
    let checked = dedup(&all_facts);
    let ghost target = rule.target.entity@[0];
    let ghost cs = path_views(checked@);
    assert(cs.subrange(0, cs.len() as int) =~= cs);
    let mut k: usize = 0;
    while k < checked.len()
        invariant
            k <= checked@.len(),
            rule.id@.len() > 0,
            cs == path_views(checked@),
            cs == dedup_spec(when_facts_of(*rule) + facts_of(rule.assert@)),
            rule.target.entity@.len() > 0,
            target == rule.target.entity@[0],
            first_disallowed(target, cs) == first_disallowed(target, cs.subrange(k as int, cs.len() as int)),
        decreases checked.len() - k,
    {
        let ghost rest = cs.subrange(k as int, cs.len() as int);
        assert(rest[0] == checked@[k as int].0@);
        match ensure_paths_allowed(rule, &checked[k]) {
            Ok(()) => {},
            Err(e) => {
                return Err(e);
            },
        }
        assert(rest.drop_first() =~= cs.subrange(k + 1, cs.len() as int));
        k = k + 1;
    }
    assert(cs.subrange(k as int, cs.len() as int) =~= Seq::<Seq<char>>::empty());
    match ensure_values_present(rule, &rule.assert) {
        Ok(()) => {},
        Err(e) => {
            return Err(e);
        },
    }
    match &rule.when {
        Some(w) => match ensure_values_present(rule, w) {
            Ok(()) => {},
            Err(e) => {
                return Err(e);
            },
        },
        None => {},
    }
    match ensure_patterns_compile(rule, &rule.assert) {
        Ok(()) => {},
        Err(e) => {
            return Err(e);
        },
    }
    match &rule.when {
        Some(w) => match ensure_patterns_compile(rule, w) {
            Ok(()) => {},
            Err(e) => {
                return Err(e);
            },
        },
        None => {},
    }
    Ok(
        CompiledRule {
            id: rule.id.clone(),
            title: rule.title.clone(),
            description: clone_opt_string(&rule.description),
            severity: rule.severity,
            tags: clone_strings(&rule.tags),
            target: rule.target.copy(),
            assert: rule.assert.copy(),
            message: rule.message.clone(),
            recommendation: clone_opt_string(&rule.recommendation),
            version: set.version.clone(),
            when_facts,
            assert_facts,
        },
    )
}

/// Every rule of a set is either compiled or reported as an issue, never
/// both and never neither.
pub proof fn law_compile_accounts_for_every_rule(rules: Seq<Rule>)
    ensures
        accepted(rules).len() + issues_of(rules).len() == rules.len(),
    decreases rules.len(),
{
    if rules.len() > 0 {
        law_compile_accounts_for_every_rule(rules.drop_last());
    }
}

} // verus!
