//! Boolean evaluation of condition trees. A condition "holds" when none
//! of its leaf operators fires.

use vstd::prelude::*;
use crate::engine::context::{opt_json_view, target_view, EvalContext, TargetView};
use crate::engine::error::{EngineError, EngineErrorView};
use crate::engine::facts::{resolve, spec_resolve};
use crate::model::ParsedProject;
use crate::engine::operator::{self, op_fires, op_result, result_view};
use crate::json::JsonView;
use crate::ruleset::{
    condition_views, lemma_condition_views_index, lemma_condition_views_len, opt_value_view, Condition,
    ConditionCombinator, ConditionView, FactPath, Operator, SingleCondition,
};

verus! {

broadcast use vstd::std_specs::vec::axiom_vec_index_decreases;

/// Whether a leaf condition holds in `ctx`, or the error its operator reports.
pub open spec fn single_holds(
    project: ParsedProject,
    target: TargetView,
    expected: Option<JsonView>,
    fact: Seq<char>,
    op: Operator,
    value: Option<JsonView>,
) -> Result<bool, EngineErrorView> {
    match op_result(op_fires(op, spec_resolve(project, target, expected, fact), value, project, target)) {
        Ok(fires) => Ok(!fires),
        Err(e) => Err(e),
    }
}

/// Whether a condition tree holds in `ctx`. Children of `all` and `any`
/// are evaluated left to right and stop at the first that decides the
/// answer or reports an error.
pub open spec fn condition_holds(
    project: ParsedProject,
    target: TargetView,
    expected: Option<JsonView>,
    c: ConditionView,
) -> Result<bool, EngineErrorView>
    decreases c,
{
    match c {
        ConditionView::Single { fact, op, value } => single_holds(project, target, expected, fact, op, value),
        ConditionView::All(cs) => all_hold(project, target, expected, cs),
        ConditionView::Any(cs) => any_holds(project, target, expected, cs),
        ConditionView::Not(inner) => match condition_holds(project, target, expected, *inner) {
            Ok(b) => Ok(!b),
            Err(e) => Err(e),
        },
    }
}

/// `all`: the first child that fails or errs decides; true when none does.
pub open spec fn all_hold(
    project: ParsedProject,
    target: TargetView,
    expected: Option<JsonView>,
    cs: Seq<ConditionView>,
) -> Result<bool, EngineErrorView>
    decreases cs,
{
    if cs.len() == 0 {
        Ok(true)
    } else {
        match all_hold(project, target, expected, cs.drop_last()) {
            Ok(true) => condition_holds(project, target, expected, cs.last()),
            other => other,
        }
    }
}

/// `any`: the first child that holds or errs decides; false when none does.
pub open spec fn any_holds(
    project: ParsedProject,
    target: TargetView,
    expected: Option<JsonView>,
    cs: Seq<ConditionView>,
) -> Result<bool, EngineErrorView>
    decreases cs,
{
    if cs.len() == 0 {
        Ok(false)
    } else {
        match any_holds(project, target, expected, cs.drop_last()) {
            Ok(false) => condition_holds(project, target, expected, cs.last()),
            other => other,
        }
    }
}

/// Every child holds.
pub open spec fn every_holds(project: ParsedProject, target: TargetView, expected: Option<JsonView>, cs: Seq<ConditionView>) -> bool {
    forall|i: int| 0 <= i < cs.len() ==> #[trigger] condition_holds(project, target, expected, cs[i]) == Ok::<
        bool,
        EngineErrorView,
    >(true)
}

/// Some child holds.
pub open spec fn some_holds(project: ParsedProject, target: TargetView, expected: Option<JsonView>, cs: Seq<ConditionView>) -> bool {
    exists|i: int| 0 <= i < cs.len() && #[trigger] condition_holds(project, target, expected, cs[i]) == Ok::<
        bool,
        EngineErrorView,
    >(true)
}

/// When no child of a combinator reports an error, `all` holds exactly
/// when every child holds and `any` exactly when some child holds.
pub proof fn law_combinators_without_errors(
    project: ParsedProject,
    target: TargetView,
    expected: Option<JsonView>,
    cs: Seq<ConditionView>,
)
    requires
        forall|i: int| 0 <= i < cs.len() ==> (#[trigger] condition_holds(project, target, expected, cs[i])) is Ok,
    ensures
        all_hold(project, target, expected, cs) == Ok::<bool, EngineErrorView>(every_holds(project, target, expected, cs)),
        any_holds(project, target, expected, cs) == Ok::<bool, EngineErrorView>(some_holds(project, target, expected, cs)),
    decreases cs.len(),
{
    if cs.len() > 0 {
        let rest = cs.drop_last();
        let n = cs.len() - 1;
        assert forall|i: int| 0 <= i < rest.len() implies (#[trigger] condition_holds(project, target, expected, rest[i])) is Ok by {
            assert(rest[i] == cs[i]);
        }
        law_combinators_without_errors(project, target, expected, rest);
        assert(cs.last() == cs[n]);
        let b = condition_holds(project, target, expected, cs[n]) == Ok::<bool, EngineErrorView>(true);
        assert(condition_holds(project, target, expected, cs[n]) is Ok);
        let last = condition_holds(project, target, expected, cs[n]);
        assert(last == Ok::<bool, EngineErrorView>(last->Ok_0));
        assert(b == last->Ok_0);
        assert(all_hold(project, target, expected, cs) == if every_holds(project, target, expected, rest) {
            last
        } else {
            Ok::<bool, EngineErrorView>(false)
        });
        assert(any_holds(project, target, expected, cs) == if some_holds(project, target, expected, rest) {
            Ok::<bool, EngineErrorView>(true)
        } else {
            last
        });
        if every_holds(project, target, expected, rest) {
            if b {
                assert forall|i: int| 0 <= i < cs.len() implies #[trigger] condition_holds(project, target, expected, cs[i])
                    == Ok::<bool, EngineErrorView>(true) by {
                    if i < n {
                        assert(rest[i] == cs[i]);
                        assert(condition_holds(project, target, expected, rest[i]) == Ok::<bool, EngineErrorView>(true));
                    }
                }
            } else {
                assert(!every_holds(project, target, expected, cs));
            }
        } else {
            let k = choose|k: int| 0 <= k < rest.len() && condition_holds(project, target, expected, rest[k]) != Ok::<
                bool,
                EngineErrorView,
            >(true);
            assert(rest[k] == cs[k]);
            assert(!every_holds(project, target, expected, cs));
        }
        if some_holds(project, target, expected, rest) {
            let k = choose|k: int| 0 <= k < rest.len() && #[trigger] condition_holds(project, target, expected, rest[k]) == Ok::<
                bool,
                EngineErrorView,
            >(true);
            assert(rest[k] == cs[k]);
            assert(some_holds(project, target, expected, cs));
        } else if b {
            assert(some_holds(project, target, expected, cs));
        } else {
            assert forall|i: int| 0 <= i < cs.len() implies #[trigger] condition_holds(project, target, expected, cs[i])
                != Ok::<bool, EngineErrorView>(true) by {
                if i < n {
                    assert(rest[i] == cs[i]);
                    assert(!(condition_holds(project, target, expected, rest[i]) == Ok::<bool, EngineErrorView>(true)));
                }
            }
        }
    }
}

/// Once a prefix of `all` children is decided, longer prefixes keep that answer.
proof fn lemma_all_decided(
    project: ParsedProject,
    target: TargetView,
    expected: Option<JsonView>,
    cs: Seq<ConditionView>, i: int, n: int)
    requires
        0 <= i <= n <= cs.len(),
        all_hold(project, target, expected, cs.subrange(0, i)) != Ok::<bool, EngineErrorView>(true),
    ensures
        all_hold(project, target, expected, cs.subrange(0, n)) == all_hold(project, target, expected, cs.subrange(0, i)),
    decreases n - i,
{
    if n > i {
        lemma_all_decided(project, target, expected, cs, i, n - 1);
        assert(cs.subrange(0, n).drop_last() =~= cs.subrange(0, n - 1));
    }
}

/// Once a prefix of `any` children is decided, longer prefixes keep that answer.
proof fn lemma_any_decided(
    project: ParsedProject,
    target: TargetView,
    expected: Option<JsonView>,
    cs: Seq<ConditionView>, i: int, n: int)
    requires
        0 <= i <= n <= cs.len(),
        any_holds(project, target, expected, cs.subrange(0, i)) != Ok::<bool, EngineErrorView>(false),
    ensures
        any_holds(project, target, expected, cs.subrange(0, n)) == any_holds(project, target, expected, cs.subrange(0, i)),
    decreases n - i,
{
    if n > i {
        lemma_any_decided(project, target, expected, cs, i, n - 1);
        assert(cs.subrange(0, n).drop_last() =~= cs.subrange(0, n - 1));
    }
}

/// Evaluates a condition tree; `Ok(true)` when every assertion in it holds.
pub fn evaluate(ctx: &EvalContext<'_>, cond: &Condition) -> (r: Result<bool, EngineError>)
    ensures
        result_view(r) == condition_holds(*ctx.project, target_view(ctx.target), opt_json_view(ctx.current_expected), cond@),
    decreases cond,
{
    match cond {
        Condition::Single(s) => evaluate_single(ctx, s),
        Condition::Combinator(ConditionCombinator::All { all }) => eval_all(ctx, all),
        Condition::Combinator(ConditionCombinator::Any { any }) => eval_any(ctx, any),
        Condition::Combinator(ConditionCombinator::Not { not }) => {
            assert(decreases_to!(cond => **not));
            match evaluate(ctx, not) {
                Ok(b) => Ok(!b),
                Err(e) => Err(e),
            }
        },
    }
}

fn evaluate_single(ctx: &EvalContext<'_>, single: &SingleCondition) -> (r: Result<bool, EngineError>)
    ensures
        result_view(r) == single_holds(
            *ctx.project, target_view(ctx.target), opt_json_view(ctx.current_expected),
            single.fact.0@,
            single.op,
            opt_value_view(single.value),
        ),
{
    let actual = resolve(ctx, &single.fact);
    match operator::evaluate(single.op, &actual, &single.value, ctx) {
        Ok(fires) => Ok(!fires),
        Err(e) => Err(e),
    }
}

fn eval_all(ctx: &EvalContext<'_>, conds: &Vec<Condition>) -> (r: Result<bool, EngineError>)
    ensures
        result_view(r) == all_hold(*ctx.project, target_view(ctx.target), opt_json_view(ctx.current_expected), condition_views(conds@)),
    decreases conds,
{
    let ghost views = condition_views(conds@);
    proof {
        lemma_condition_views_len(conds@);
    }
    let mut i: usize = 0;
    while i < conds.len()
        invariant
            i <= conds@.len(),
            views == condition_views(conds@),
            views.len() == conds@.len(),
            all_hold(*ctx.project, target_view(ctx.target), opt_json_view(ctx.current_expected), views.subrange(0, i as int)) == Ok::<bool, EngineErrorView>(true),
        decreases conds.len() - i,
    {
        assert(decreases_to!(conds => conds[i as int]));
        let r = evaluate(ctx, &conds[i]);
        proof {
            lemma_condition_views_index(conds@, i as int);
            assert(views.subrange(0, i + 1).drop_last() =~= views.subrange(0, i as int));
        }
        match r {
            Ok(true) => {},
            Ok(false) => {
                proof {
                    lemma_all_decided(*ctx.project, target_view(ctx.target), opt_json_view(ctx.current_expected), views, i + 1, views.len() as int);
                    assert(views.subrange(0, views.len() as int) =~= views);
                }
                return Ok(false);
            },
            Err(e) => {
                proof {
                    lemma_all_decided(*ctx.project, target_view(ctx.target), opt_json_view(ctx.current_expected), views, i + 1, views.len() as int);
                    assert(views.subrange(0, views.len() as int) =~= views);
                }
                return Err(e);
            },
        }
        i = i + 1;
    }
    assert(views.subrange(0, views.len() as int) =~= views);
    Ok(true)
}

fn eval_any(ctx: &EvalContext<'_>, conds: &Vec<Condition>) -> (r: Result<bool, EngineError>)
    ensures
        result_view(r) == any_holds(*ctx.project, target_view(ctx.target), opt_json_view(ctx.current_expected), condition_views(conds@)),
    decreases conds,
{
    let ghost views = condition_views(conds@);
    proof {
        lemma_condition_views_len(conds@);
    }
    let mut i: usize = 0;
    while i < conds.len()
        invariant
            i <= conds@.len(),
            views == condition_views(conds@),
            views.len() == conds@.len(),
            any_holds(*ctx.project, target_view(ctx.target), opt_json_view(ctx.current_expected), views.subrange(0, i as int)) == Ok::<bool, EngineErrorView>(false),
        decreases conds.len() - i,
    {
        assert(decreases_to!(conds => conds[i as int]));
        let r = evaluate(ctx, &conds[i]);
        proof {
            lemma_condition_views_index(conds@, i as int);
            assert(views.subrange(0, i + 1).drop_last() =~= views.subrange(0, i as int));
        }
        match r {
            Ok(false) => {},
            Ok(true) => {
                proof {
                    lemma_any_decided(*ctx.project, target_view(ctx.target), opt_json_view(ctx.current_expected), views, i + 1, views.len() as int);
                    assert(views.subrange(0, views.len() as int) =~= views);
                }
                return Ok(true);
            },
            Err(e) => {
                proof {
                    lemma_any_decided(*ctx.project, target_view(ctx.target), opt_json_view(ctx.current_expected), views, i + 1, views.len() as int);
                    assert(views.subrange(0, views.len() as int) =~= views);
                }
                return Err(e);
            },
        }
        i = i + 1;
    }
    assert(views.subrange(0, views.len() as int) =~= views);
    Ok(false)
}

/// Every leaf fact path of a condition tree, left to right.
pub open spec fn facts_of(c: ConditionView) -> Seq<Seq<char>>
    decreases c,
{
    match c {
        ConditionView::Single { fact, .. } => seq![fact],
        ConditionView::All(cs) => facts_of_all(cs),
        ConditionView::Any(cs) => facts_of_all(cs),
        ConditionView::Not(inner) => facts_of(*inner),
    }
}

pub open spec fn facts_of_all(cs: Seq<ConditionView>) -> Seq<Seq<char>>
    decreases cs,
{
    if cs.len() == 0 {
        Seq::empty()
    } else {
        facts_of_all(cs.drop_last()) + facts_of(cs.last())
    }
}

/// The texts of a list of fact paths.
pub open spec fn path_views(ps: Seq<FactPath>) -> Seq<Seq<char>> {
    ps.map_values(|p: FactPath| p.0@)
}

/// Appends every leaf fact path of `cond` to `out`.
pub fn collect_facts(cond: &Condition, out: &mut Vec<FactPath>)
    ensures
        path_views(final(out)@) == path_views(old(out)@) + facts_of(cond@),
    decreases cond,
{
    match cond {
        Condition::Single(s) => {
            out.push(s.fact.clone());
            assert(path_views(out@) =~= path_views(old(out)@) + facts_of(cond@));
        },
        Condition::Combinator(ConditionCombinator::All { all }) => {
            collect_all(all, out);
        },
        Condition::Combinator(ConditionCombinator::Any { any }) => {
            collect_all(any, out);
        },
        Condition::Combinator(ConditionCombinator::Not { not }) => {
            assert(decreases_to!(cond => **not));
            collect_facts(not, out);
        },
    }
}

fn collect_all(conds: &Vec<Condition>, out: &mut Vec<FactPath>)
    ensures
        path_views(final(out)@) == path_views(old(out)@) + facts_of_all(condition_views(conds@)),
    decreases conds,
{
    let ghost start = path_views(out@);
    let ghost views = condition_views(conds@);
    proof {
        lemma_condition_views_len(conds@);
    }
    let mut i: usize = 0;
    while i < conds.len()
        invariant
            i <= conds@.len(),
            views == condition_views(conds@),
            views.len() == conds@.len(),
            path_views(out@) == start + facts_of_all(views.subrange(0, i as int)),
        decreases conds.len() - i,
    {
        assert(decreases_to!(conds => conds[i as int]));
        collect_facts(&conds[i], out);
        proof {
            lemma_condition_views_index(conds@, i as int);
            assert(views.subrange(0, i + 1).drop_last() =~= views.subrange(0, i as int));
            assert(path_views(out@) =~= start + facts_of_all(views.subrange(0, i + 1)));
        }
        i = i + 1;
    }
    assert(views.subrange(0, views.len() as int) =~= views);
}

/// Operators that demand a literal `value` in the rule.
pub open spec fn spec_requires_value(op: Operator) -> bool {
    match op {
        Operator::Equals | Operator::NotEquals | Operator::Matches | Operator::NotMatches
        | Operator::Contains | Operator::NotContains | Operator::In | Operator::NotIn
        | Operator::GreaterThan | Operator::GreaterThanOrEqual | Operator::LessThan
        | Operator::LessThanOrEqual | Operator::CountEquals | Operator::CountLessThanOrEqual
        | Operator::ContainsComponent | Operator::NotContainsComponent => true,
        _ => false,
    }
}

pub fn requires_value(op: Operator) -> (r: bool)
    ensures
        r == spec_requires_value(op),
{
    match op {
        Operator::Equals | Operator::NotEquals | Operator::Matches | Operator::NotMatches
        | Operator::Contains | Operator::NotContains | Operator::In | Operator::NotIn
        | Operator::GreaterThan | Operator::GreaterThanOrEqual | Operator::LessThan
        | Operator::LessThanOrEqual | Operator::CountEquals | Operator::CountLessThanOrEqual
        | Operator::ContainsComponent | Operator::NotContainsComponent => true,
        _ => false,
    }
}

} // verus!
