//! The rule DSL: rule sets, rules, targets and condition trees.

use vstd::prelude::*;
use crate::json::{JsonValue, JsonView};
use crate::model::Severity;

verus! {

broadcast use vstd::std_specs::vec::axiom_vec_index_decreases;

/// A dotted fact path such as `flow.name`.
#[derive(Debug)]
pub struct FactPath(pub String);

impl FactPath {
    pub fn as_str(&self) -> (s: &str)
        ensures
            s@ == self.0@,
    {
        self.0.as_str()
    }
}

impl Clone for FactPath {
    fn clone(&self) -> (r: Self)
        ensures
            r == *self,
    {
        FactPath(self.0.clone())
    }
}

/// The closed whitelist of operators.
#[derive(Clone, Copy, Debug, PartialEq, Eq, Structural)]
pub enum Operator {
    Exists,
    NotExists,
    Equals,
    NotEquals,
    Matches,
    NotMatches,
    Contains,
    NotContains,
    In,
    NotIn,
    GreaterThan,
    GreaterThanOrEqual,
    LessThan,
    LessThanOrEqual,
    CountEquals,
    CountLessThanOrEqual,
    IsPlaceholder,
    IsNotPlaceholder,
    ContainsComponent,
    NotContainsComponent,
    ReferenceResolves,
    AllReferencesResolve,
    RequiredFilesExist,
}

impl Operator {
    pub open spec fn spec_as_str(self) -> Seq<char> {
        match self {
            Operator::Exists => "exists"@,
            Operator::NotExists => "not-exists"@,
            Operator::Equals => "equals"@,
            Operator::NotEquals => "not-equals"@,
            Operator::Matches => "matches"@,
            Operator::NotMatches => "not-matches"@,
            Operator::Contains => "contains"@,
            Operator::NotContains => "not-contains"@,
            Operator::In => "in"@,
            Operator::NotIn => "not-in"@,
            Operator::GreaterThan => "greater-than"@,
            Operator::GreaterThanOrEqual => "greater-than-or-equal"@,
            Operator::LessThan => "less-than"@,
            Operator::LessThanOrEqual => "less-than-or-equal"@,
            Operator::CountEquals => "count-equals"@,
            Operator::CountLessThanOrEqual => "count-less-than-or-equal"@,
            Operator::IsPlaceholder => "is-placeholder"@,
            Operator::IsNotPlaceholder => "is-not-placeholder"@,
            Operator::ContainsComponent => "contains-component"@,
            Operator::NotContainsComponent => "not-contains-component"@,
            Operator::ReferenceResolves => "reference-resolves"@,
            Operator::AllReferencesResolve => "all-references-resolve"@,
            Operator::RequiredFilesExist => "required-files-exist"@,
        }
    }

    /// The operator's name in the rule DSL.
    pub fn as_str(self) -> (s: &'static str)
        ensures
            s@ == self.spec_as_str(),
    {
        match self {
            Operator::Exists => "exists",
            Operator::NotExists => "not-exists",
            Operator::Equals => "equals",
            Operator::NotEquals => "not-equals",
            Operator::Matches => "matches",
            Operator::NotMatches => "not-matches",
            Operator::Contains => "contains",
            Operator::NotContains => "not-contains",
            Operator::In => "in",
            Operator::NotIn => "not-in",
            Operator::GreaterThan => "greater-than",
            Operator::GreaterThanOrEqual => "greater-than-or-equal",
            Operator::LessThan => "less-than",
            Operator::LessThanOrEqual => "less-than-or-equal",
            Operator::CountEquals => "count-equals",
            Operator::CountLessThanOrEqual => "count-less-than-or-equal",
            Operator::IsPlaceholder => "is-placeholder",
            Operator::IsNotPlaceholder => "is-not-placeholder",
            Operator::ContainsComponent => "contains-component",
            Operator::NotContainsComponent => "not-contains-component",
            Operator::ReferenceResolves => "reference-resolves",
            Operator::AllReferencesResolve => "all-references-resolve",
            Operator::RequiredFilesExist => "required-files-exist",
        }
    }
}

/// One leaf assertion: `op` applied to the fact at `fact` and `value`.
#[derive(Debug)]
pub struct SingleCondition {
    pub fact: FactPath,
    pub op: Operator,
    pub value: Option<JsonValue>,
}

/// A condition tree.
#[derive(Debug)]
pub enum Condition {
    Single(SingleCondition),
    Combinator(ConditionCombinator),
}

/// `all`, `any` and `not` nodes of a condition tree.
#[derive(Debug)]
pub enum ConditionCombinator {
    All { all: Vec<Condition> },
    Any { any: Vec<Condition> },
    Not { not: Box<Condition> },
}

/// Mathematical view of a condition tree.
pub enum ConditionView {
    Single { fact: Seq<char>, op: Operator, value: Option<JsonView> },
    All(Seq<ConditionView>),
    Any(Seq<ConditionView>),
    Not(Box<ConditionView>),
}

pub open spec fn opt_value_view(o: Option<JsonValue>) -> Option<JsonView> {
    match o {
        Some(v) => Some(v@),
        None => None,
    }
}

pub open spec fn condition_view(c: Condition) -> ConditionView
    decreases c,
{
    match c {
        Condition::Single(s) => ConditionView::Single {
            fact: s.fact.0@,
            op: s.op,
            value: opt_value_view(s.value),
        },
        Condition::Combinator(ConditionCombinator::All { all }) => {
            proof {
                assert(decreases_to!(all => all@));
            }
            ConditionView::All(condition_views(all@))
        },
        Condition::Combinator(ConditionCombinator::Any { any }) => {
            proof {
                assert(decreases_to!(any => any@));
            }
            ConditionView::Any(condition_views(any@))
        },
        Condition::Combinator(ConditionCombinator::Not { not }) => ConditionView::Not(
            Box::new(condition_view(*not)),
        ),
    }
}

pub open spec fn condition_views(cs: Seq<Condition>) -> Seq<ConditionView>
    decreases cs,
{
    if cs.len() == 0 {
        Seq::empty()
    } else {
        condition_views(cs.drop_last()).push(condition_view(cs.last()))
    }
}

impl View for Condition {
    type V = ConditionView;

    open spec fn view(&self) -> ConditionView {
        condition_view(*self)
    }
}

pub proof fn lemma_condition_views_len(cs: Seq<Condition>)
    ensures
        condition_views(cs).len() == cs.len(),
    decreases cs.len(),
{
    if cs.len() > 0 {
        lemma_condition_views_len(cs.drop_last());
    }
}

pub proof fn lemma_condition_views_index(cs: Seq<Condition>, k: int)
    requires
        0 <= k < cs.len(),
    ensures
        condition_views(cs).len() == cs.len(),
        condition_views(cs)[k] == condition_view(cs[k]),
    decreases cs.len(),
{
    lemma_condition_views_len(cs);
    if k < cs.len() - 1 {
        lemma_condition_views_index(cs.drop_last(), k);
    }
}

pub proof fn lemma_condition_views_ext(a: Seq<Condition>, b: Seq<Condition>)
    requires
        a.len() == b.len(),
        forall|k: int| 0 <= k < a.len() ==> condition_view(#[trigger] a[k]) == condition_view(b[k]),
    ensures
        condition_views(a) == condition_views(b),
    decreases a.len(),
{
    if a.len() > 0 {
        assert forall|k: int| 0 <= k < a.len() - 1 implies condition_view(
            #[trigger] a.drop_last()[k],
        ) == condition_view(b.drop_last()[k]) by {
            assert(a.drop_last()[k] == a[k]);
            assert(b.drop_last()[k] == b[k]);
        }
        lemma_condition_views_ext(a.drop_last(), b.drop_last());
        assert(condition_view(a.last()) == condition_view(b.last()));
    }
}

impl SingleCondition {
    /// A copy with the same fact, operator and value view.
    pub fn copy(&self) -> (r: Self)
        ensures
            r.fact == self.fact,
            r.op == self.op,
            opt_value_view(r.value) == opt_value_view(self.value),
    {
        let value = match &self.value {
            Some(v) => Some(v.copy()),
            None => None,
        };
        SingleCondition { fact: self.fact.clone(), op: self.op, value }
    }
}

fn copy_conditions(cs: &Vec<Condition>) -> (r: Vec<Condition>)
    ensures
        condition_views(r@) == condition_views(cs@),
    decreases cs,
{
    let mut out: Vec<Condition> = Vec::new();
    let mut i: usize = 0;
    while i < cs.len()
        invariant
            i <= cs.len(),
            out.len() == i,
            forall|k: int| 0 <= k < i ==> condition_view(#[trigger] out@[k]) == condition_view(cs@[k]),
        decreases cs.len() - i,
    {
        assert(decreases_to!(cs => cs[i as int]));
        let c = cs[i].copy();
        out.push(c);
        i = i + 1;
    }
    proof {
        lemma_condition_views_ext(out@, cs@);
    }
    out
}

impl Condition {
    /// A copy with the same view.
    pub fn copy(&self) -> (r: Self)
        ensures
            r@ == self@,
        decreases self,
    {
        match self {
            Condition::Single(s) => Condition::Single(s.copy()),
            Condition::Combinator(ConditionCombinator::All { all }) => {
                Condition::Combinator(ConditionCombinator::All { all: copy_conditions(all) })
            },
            Condition::Combinator(ConditionCombinator::Any { any }) => {
                Condition::Combinator(ConditionCombinator::Any { any: copy_conditions(any) })
            },
            Condition::Combinator(ConditionCombinator::Not { not }) => {
                assert(decreases_to!(self => **not));
                let inner = (**not).copy();
                Condition::Combinator(ConditionCombinator::Not { not: Box::new(inner) })
            },
        }
    }
}

impl Clone for Condition {
    fn clone(&self) -> (r: Self)
        ensures
            r@ == self@,
    {
        self.copy()
    }
}

/// The kinds of entity a rule can target.
#[derive(Clone, Copy, Debug, PartialEq, Eq, Structural)]
pub enum RuleTargetEntity {
    Project,
    File,
    Flow,
    Subflow,
    Component,
    PropertyReference,
    FlowReference,
    DataweaveBlock,
}

/// What a rule iterates over, with an optional narrowing condition.
#[derive(Debug)]
pub struct RuleTarget {
    pub entity: Vec<RuleTargetEntity>,
    pub match_: Option<Box<Condition>>,
}

pub open spec fn opt_condition_view(o: Option<Box<Condition>>) -> Option<ConditionView> {
    match o {
        Some(c) => Some(condition_view(*c)),
        None => None,
    }
}

impl RuleTarget {
    /// A copy with the same entities and the same `match_` view.
    pub fn copy(&self) -> (r: Self)
        ensures
            r.entity@ == self.entity@,
            opt_condition_view(r.match_) == opt_condition_view(self.match_),
    {
        let mut entity: Vec<RuleTargetEntity> = Vec::new();
        let mut i: usize = 0;
        while i < self.entity.len()
            invariant
                i <= self.entity.len(),
                entity@ == self.entity@.subrange(0, i as int),
            decreases self.entity.len() - i,
        {
            entity.push(self.entity[i]);
            i = i + 1;
        }
        assert(entity@ =~= self.entity@);
        let match_ = match &self.match_ {
            Some(c) => Some(Box::new((**c).copy())),
            None => None,
        };
        RuleTarget { entity, match_ }
    }
}

/// One rule of a rule set.
#[derive(Debug)]
pub struct Rule {
    pub id: String,
    pub title: String,
    pub description: Option<String>,
    pub severity: Severity,
    pub enabled: bool,
    pub tags: Vec<String>,
    pub target: RuleTarget,
    pub when: Option<Condition>,
    pub assert: Condition,
    pub message: String,
    pub recommendation: Option<String>,
}

/// Set-level defaults (none are read by the engine).
#[derive(Debug, Default)]
pub struct RuleDefaults {}

/// A rule file.
#[derive(Debug)]
pub struct RuleSet {
    pub schema_version: String,
    pub id: String,
    pub name: String,
    pub version: String,
    pub description: Option<String>,
    pub defaults: RuleDefaults,
    pub rules: Vec<Rule>,
}

} // verus!
