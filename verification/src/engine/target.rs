//! The entities a rule is evaluated against, and their deterministic order.

use vstd::prelude::*;
use crate::engine::context::{target_view, EvalTarget, TargetView};
use crate::model::{
    DataWeaveBlock, FlowRef, MuleComponent, MuleDocument, MuleFlow, MuleFlowKind, ParsedProject,
    ProjectDescriptor, SourceFile,
};
use crate::ruleset::{Condition, RuleTarget, RuleTargetEntity};
use crate::sorting::{insert_stable, lemma_insert_at, stable_sort};
use crate::text::{
    compare_str, lemma_seq_lt_asymmetric, lemma_seq_lt_irreflexive, lemma_seq_lt_total,
    lemma_seq_lt_transitive, push_str, seq_lt, Order,
};

verus! {

broadcast use vstd::std_specs::vec::axiom_vec_index_decreases;

/// One entity selected for a rule.
#[derive(Debug)]
pub struct Candidate<'a> {
    pub target: EvalTarget<'a>,
}

pub open spec fn candidate_views(cs: Seq<Candidate>) -> Seq<TargetView> {
    cs.map_values(|c: Candidate| target_view(c.target))
}

/// The flows (or the sub-flows) of every document, in order.
pub open spec fn doc_flows(docs: Seq<MuleDocument>, sub: bool) -> Seq<MuleFlow>
    decreases docs.len(),
{
    if docs.len() == 0 {
        Seq::empty()
    } else {
        doc_flows(docs.drop_last(), sub) + if sub {
            docs.last().sub_flows@
        } else {
            docs.last().flows@
        }
    }
}

/// For each document, its flows then its sub-flows.
pub open spec fn all_flows(docs: Seq<MuleDocument>) -> Seq<MuleFlow>
    decreases docs.len(),
{
    if docs.len() == 0 {
        Seq::empty()
    } else {
        all_flows(docs.drop_last()) + docs.last().flows@ + docs.last().sub_flows@
    }
}

/// A component followed by its descendants, depth first.
pub open spec fn preorder(c: MuleComponent) -> Seq<MuleComponent>
    decreases c,
{
    proof {
        assert(decreases_to!(c => c.children));
        assert(decreases_to!(c.children => c.children@));
    }
    seq![c] + preorder_all(c.children@)
}

pub open spec fn preorder_all(cs: Seq<MuleComponent>) -> Seq<MuleComponent>
    decreases cs,
{
    if cs.len() == 0 {
        Seq::empty()
    } else {
        preorder_all(cs.drop_last()) + preorder(cs.last())
    }
}

/// The components of each flow, depth first.
pub open spec fn flow_components(fs: Seq<MuleFlow>) -> Seq<MuleComponent>
    decreases fs.len(),
{
    if fs.len() == 0 {
        Seq::empty()
    } else {
        flow_components(fs.drop_last()) + preorder_all(fs.last().components@)
    }
}

/// The property references of each flow, paired with the flow's name.
pub open spec fn flow_properties(fs: Seq<MuleFlow>) -> Seq<TargetView>
    decreases fs.len(),
{
    if fs.len() == 0 {
        Seq::empty()
    } else {
        let f = fs.last();
        flow_properties(fs.drop_last()) + f.facts.property_refs@.map_values(
            |p: String| TargetView::PropertyRef { flow_name: f.name@, value: p@ },
        )
    }
}

pub open spec fn flow_references(fs: Seq<MuleFlow>) -> Seq<FlowRef>
    decreases fs.len(),
{
    if fs.len() == 0 {
        Seq::empty()
    } else {
        flow_references(fs.drop_last()) + fs.last().facts.flow_refs@
    }
}

pub open spec fn flow_dataweave(fs: Seq<MuleFlow>) -> Seq<DataWeaveBlock>
    decreases fs.len(),
{
    if fs.len() == 0 {
        Seq::empty()
    } else {
        flow_dataweave(fs.drop_last()) + fs.last().facts.dataweave_blocks@
    }
}

/// The candidates of one target kind, in walk order.
pub open spec fn entity_targets(p: ParsedProject, e: RuleTargetEntity) -> Seq<TargetView> {
    let docs = p.documents@;
    match e {
        RuleTargetEntity::Project => seq![TargetView::Project(p.project)],
        RuleTargetEntity::File => p.project.files@.map_values(|f: SourceFile| TargetView::File(f)),
        RuleTargetEntity::Flow => doc_flows(docs, false).map_values(|f: MuleFlow| TargetView::Flow(f)),
        RuleTargetEntity::Subflow => doc_flows(docs, true).map_values(|f: MuleFlow| TargetView::Flow(f)),
        RuleTargetEntity::Component => flow_components(all_flows(docs)).map_values(
            |c: MuleComponent| TargetView::Component(c),
        ),
        RuleTargetEntity::PropertyReference => flow_properties(all_flows(docs)),
        RuleTargetEntity::FlowReference => flow_references(all_flows(docs)).map_values(
            |r: FlowRef| TargetView::FlowRef(r),
        ),
        RuleTargetEntity::DataweaveBlock => flow_dataweave(all_flows(docs)).map_values(
            |b: DataWeaveBlock| TargetView::DataweaveBlock(b),
        ),
    }
}

/// The candidates of every listed kind, kind by kind.
pub open spec fn spec_candidates(p: ParsedProject, es: Seq<RuleTargetEntity>) -> Seq<TargetView>
    decreases es.len(),
{
    if es.len() == 0 {
        Seq::empty()
    } else {
        spec_candidates(p, es.drop_last()) + entity_targets(p, es.last())
    }
}

fn push_candidate<'a>(out: &mut Vec<Candidate<'a>>, t: EvalTarget<'a>)
    ensures
        candidate_views(final(out)@) == candidate_views(old(out)@).push(target_view(t)),
{
    out.push(Candidate { target: t });
    assert(candidate_views(out@) =~= candidate_views(old(out)@).push(target_view(t)));
}

/// Appends `root` and its descendants, depth first.
fn push_components<'a>(root: &'a MuleComponent, out: &mut Vec<Candidate<'a>>)
    ensures
        candidate_views(final(out)@) == candidate_views(old(out)@) + preorder(*root).map_values(
            |c: MuleComponent| TargetView::Component(c),
        ),
    decreases root,
{
    push_candidate(out, EvalTarget::Component(root));
    let ghost after_root = candidate_views(out@);
    push_component_list(&root.children, out);
    proof {
        let f = |c: MuleComponent| TargetView::Component(c);
        assert(preorder(*root).map_values(f) =~= seq![TargetView::Component(*root)]
            + preorder_all(root.children@).map_values(f));
    }
}

fn push_component_list<'a>(cs: &'a Vec<MuleComponent>, out: &mut Vec<Candidate<'a>>)
    ensures
        candidate_views(final(out)@) == candidate_views(old(out)@) + preorder_all(cs@).map_values(
            |c: MuleComponent| TargetView::Component(c),
        ),
    decreases cs,
{
    let ghost start = candidate_views(out@);
    let ghost f = |c: MuleComponent| TargetView::Component(c);
    let mut i: usize = 0;
    while i < cs.len()
        invariant
            i <= cs@.len(),
            f == (|c: MuleComponent| TargetView::Component(c)),
            candidate_views(out@) == start + preorder_all(cs@.subrange(0, i as int)).map_values(f),
        decreases cs.len() - i,
    {
        assert(decreases_to!(cs => cs[i as int]));
        push_components(&cs[i], out);
        proof {
            let next = cs@.subrange(0, i + 1);
            assert(next.drop_last() =~= cs@.subrange(0, i as int));
            assert(preorder_all(next).map_values(f) =~= preorder_all(cs@.subrange(0, i as int)).map_values(f)
                + preorder(cs@[i as int]).map_values(f));
            assert(candidate_views(out@) =~= start + preorder_all(next).map_values(f));
        }
        i = i + 1;
    }
    assert(cs@.subrange(0, cs@.len() as int) =~= cs@);
}

/// Which part of a flow a walk over flows collects.
#[derive(Clone, Copy, Debug, PartialEq, Eq, Structural)]
enum FlowPart {
    Components,
    Properties,
    References,
    Dataweave,
}

spec fn part_views(f: MuleFlow, part: FlowPart) -> Seq<TargetView> {
    match part {
        FlowPart::Components => preorder_all(f.components@).map_values(
            |c: MuleComponent| TargetView::Component(c),
        ),
        FlowPart::Properties => f.facts.property_refs@.map_values(
            |p: String| TargetView::PropertyRef { flow_name: f.name@, value: p@ },
        ),
        FlowPart::References => f.facts.flow_refs@.map_values(|r: FlowRef| TargetView::FlowRef(r)),
        FlowPart::Dataweave => f.facts.dataweave_blocks@.map_values(
            |b: DataWeaveBlock| TargetView::DataweaveBlock(b),
        ),
    }
}

spec fn parts_views(fs: Seq<MuleFlow>, part: FlowPart) -> Seq<TargetView>
    decreases fs.len(),
{
    if fs.len() == 0 {
        Seq::empty()
    } else {
        parts_views(fs.drop_last(), part) + part_views(fs.last(), part)
    }
}

proof fn lemma_parts_views(fs: Seq<MuleFlow>, part: FlowPart)
    ensures
        parts_views(fs, part) == match part {
            FlowPart::Components => flow_components(fs).map_values(
                |c: MuleComponent| TargetView::Component(c),
            ),
            FlowPart::Properties => flow_properties(fs),
            FlowPart::References => flow_references(fs).map_values(|r: FlowRef| TargetView::FlowRef(r)),
            FlowPart::Dataweave => flow_dataweave(fs).map_values(
                |b: DataWeaveBlock| TargetView::DataweaveBlock(b),
            ),
        },
    decreases fs.len(),
{
    if fs.len() > 0 {
        lemma_parts_views(fs.drop_last(), part);
        match part {
            FlowPart::Components => {
                let g = |c: MuleComponent| TargetView::Component(c);
                assert(flow_components(fs).map_values(g) =~= flow_components(fs.drop_last()).map_values(g)
                    + preorder_all(fs.last().components@).map_values(g));
            },
            FlowPart::Properties => {},
            FlowPart::References => {
                let g = |r: FlowRef| TargetView::FlowRef(r);
                assert(flow_references(fs).map_values(g) =~= flow_references(fs.drop_last()).map_values(g)
                    + fs.last().facts.flow_refs@.map_values(g));
            },
            FlowPart::Dataweave => {
                let g = |b: DataWeaveBlock| TargetView::DataweaveBlock(b);
                assert(flow_dataweave(fs).map_values(g) =~= flow_dataweave(fs.drop_last()).map_values(g)
                    + fs.last().facts.dataweave_blocks@.map_values(g));
            },
        }
    } else {
        assert(flow_components(fs).map_values(|c: MuleComponent| TargetView::Component(c)) =~= Seq::<TargetView>::empty());
        assert(flow_references(fs).map_values(|r: FlowRef| TargetView::FlowRef(r)) =~= Seq::<TargetView>::empty());
        assert(flow_dataweave(fs).map_values(|b: DataWeaveBlock| TargetView::DataweaveBlock(b)) =~= Seq::<TargetView>::empty());
    }
}

fn push_part<'a>(f: &'a MuleFlow, part: FlowPart, out: &mut Vec<Candidate<'a>>)
    ensures
        candidate_views(final(out)@) == candidate_views(old(out)@) + part_views(*f, part),
{
    match part {
        FlowPart::Components => {
            push_component_list(&f.components, out);
        },
        FlowPart::Properties => {
            let ghost start = candidate_views(out@);
            let ghost g = |p: String| TargetView::PropertyRef { flow_name: f.name@, value: p@ };
            let mut i: usize = 0;
            while i < f.facts.property_refs.len()
                invariant
                    i <= f.facts.property_refs@.len(),
                    g == (|p: String| TargetView::PropertyRef { flow_name: f.name@, value: p@ }),
                    candidate_views(out@) == start + f.facts.property_refs@.subrange(0, i as int).map_values(g),
                decreases f.facts.property_refs.len() - i,
            {
                push_candidate(out, EvalTarget::PropertyRef { flow_name: &f.name, value: &f.facts.property_refs[i] });
                proof {
                    assert(f.facts.property_refs@.subrange(0, i + 1).map_values(g) =~= f.facts.property_refs@.subrange(0, i as int).map_values(g).push(g(f.facts.property_refs@[i as int])));
                }
                i = i + 1;
            }
            assert(f.facts.property_refs@.subrange(0, f.facts.property_refs@.len() as int) =~= f.facts.property_refs@);
        },
        FlowPart::References => {
            let ghost start = candidate_views(out@);
            let ghost g = |r: FlowRef| TargetView::FlowRef(r);
            let mut i: usize = 0;
            while i < f.facts.flow_refs.len()
                invariant
                    i <= f.facts.flow_refs@.len(),
                    g == (|r: FlowRef| TargetView::FlowRef(r)),
                    candidate_views(out@) == start + f.facts.flow_refs@.subrange(0, i as int).map_values(g),
                decreases f.facts.flow_refs.len() - i,
            {
                push_candidate(out, EvalTarget::FlowRef(&f.facts.flow_refs[i]));
                proof {
                    assert(f.facts.flow_refs@.subrange(0, i + 1).map_values(g) =~= f.facts.flow_refs@.subrange(0, i as int).map_values(g).push(g(f.facts.flow_refs@[i as int])));
                }
                i = i + 1;
            }
            assert(f.facts.flow_refs@.subrange(0, f.facts.flow_refs@.len() as int) =~= f.facts.flow_refs@);
        },
        FlowPart::Dataweave => {
            let ghost start = candidate_views(out@);
            let ghost g = |b: DataWeaveBlock| TargetView::DataweaveBlock(b);
            let mut i: usize = 0;
            while i < f.facts.dataweave_blocks.len()
                invariant
                    i <= f.facts.dataweave_blocks@.len(),
                    g == (|b: DataWeaveBlock| TargetView::DataweaveBlock(b)),
                    candidate_views(out@) == start + f.facts.dataweave_blocks@.subrange(0, i as int).map_values(g),
                decreases f.facts.dataweave_blocks.len() - i,
            {
                push_candidate(out, EvalTarget::DataweaveBlock(&f.facts.dataweave_blocks[i]));
                proof {
                    assert(f.facts.dataweave_blocks@.subrange(0, i + 1).map_values(g) =~= f.facts.dataweave_blocks@.subrange(0, i as int).map_values(g).push(g(f.facts.dataweave_blocks@[i as int])));
                }
                i = i + 1;
            }
            assert(f.facts.dataweave_blocks@.subrange(0, f.facts.dataweave_blocks@.len() as int) =~= f.facts.dataweave_blocks@);
        },
    }
}

fn push_flow_list_parts<'a>(fs: &'a Vec<MuleFlow>, part: FlowPart, out: &mut Vec<Candidate<'a>>)
    ensures
        candidate_views(final(out)@) == candidate_views(old(out)@) + parts_views(fs@, part),
{
    let ghost start = candidate_views(out@);
    let mut i: usize = 0;
    while i < fs.len()
        invariant
            i <= fs@.len(),
            candidate_views(out@) == start + parts_views(fs@.subrange(0, i as int), part),
        decreases fs.len() - i,
    {
        push_part(&fs[i], part, out);
        proof {
            let next = fs@.subrange(0, i + 1);
            assert(next.drop_last() =~= fs@.subrange(0, i as int));
            assert(candidate_views(out@) =~= start + parts_views(next, part));
        }
        i = i + 1;
    }
    assert(fs@.subrange(0, fs@.len() as int) =~= fs@);
}

proof fn lemma_parts_views_append(a: Seq<MuleFlow>, b: Seq<MuleFlow>, part: FlowPart)
    ensures
        parts_views(a + b, part) == parts_views(a, part) + parts_views(b, part),
    decreases b.len(),
{
    if b.len() == 0 {
        assert(a + b =~= a);
        assert(parts_views(a, part) + parts_views(b, part) =~= parts_views(a, part));
    } else {
        lemma_parts_views_append(a, b.drop_last(), part);
        assert((a + b).drop_last() =~= a + b.drop_last());
        assert(parts_views(a + b, part) =~= parts_views(a, part) + parts_views(b, part));
    }
}

/// Walks every flow and sub-flow of every document, collecting `part`.
fn push_all_flow_parts<'a>(docs: &'a Vec<MuleDocument>, part: FlowPart, out: &mut Vec<Candidate<'a>>)
    ensures
        candidate_views(final(out)@) == candidate_views(old(out)@) + parts_views(all_flows(docs@), part),
{
    let ghost start = candidate_views(out@);
    let mut d: usize = 0;
    while d < docs.len()
        invariant
            d <= docs@.len(),
            candidate_views(out@) == start + parts_views(all_flows(docs@.subrange(0, d as int)), part),
        decreases docs.len() - d,
    {
        let ghost before = candidate_views(out@);
        push_flow_list_parts(&docs[d].flows, part, out);
        push_flow_list_parts(&docs[d].sub_flows, part, out);
        proof {
            let next = docs@.subrange(0, d + 1);
            assert(next.drop_last() =~= docs@.subrange(0, d as int));
            let prev_flows = all_flows(docs@.subrange(0, d as int));
            lemma_parts_views_append(prev_flows, docs@[d as int].flows@, part);
            lemma_parts_views_append(prev_flows + docs@[d as int].flows@, docs@[d as int].sub_flows@, part);
            assert(candidate_views(out@) =~= start + parts_views(all_flows(next), part));
        }
        d = d + 1;
    }
    assert(docs@.subrange(0, docs@.len() as int) =~= docs@);
}

fn push_doc_flows<'a>(docs: &'a Vec<MuleDocument>, sub: bool, out: &mut Vec<Candidate<'a>>)
    ensures
        candidate_views(final(out)@) == candidate_views(old(out)@) + doc_flows(docs@, sub).map_values(
            |f: MuleFlow| TargetView::Flow(f),
        ),
{
    let ghost start = candidate_views(out@);
    let ghost g = |f: MuleFlow| TargetView::Flow(f);
    let mut d: usize = 0;
    while d < docs.len()
        invariant
            d <= docs@.len(),
            g == (|f: MuleFlow| TargetView::Flow(f)),
            candidate_views(out@) == start + doc_flows(docs@.subrange(0, d as int), sub).map_values(g),
        decreases docs.len() - d,
    {
        let fs = if sub {
            &docs[d].sub_flows
        } else {
            &docs[d].flows
        };
        let ghost mid = candidate_views(out@);
        let mut i: usize = 0;
        while i < fs.len()
            invariant
                i <= fs@.len(),
                g == (|f: MuleFlow| TargetView::Flow(f)),
                candidate_views(out@) == mid + fs@.subrange(0, i as int).map_values(g),
            decreases fs.len() - i,
        {
            push_candidate(out, EvalTarget::Flow(&fs[i]));
            proof {
                assert(fs@.subrange(0, i + 1).map_values(g) =~= fs@.subrange(0, i as int).map_values(g).push(g(fs@[i as int])));
            }
            i = i + 1;
        }
        proof {
            assert(fs@.subrange(0, fs@.len() as int) =~= fs@);
            let next = docs@.subrange(0, d + 1);
            assert(next.drop_last() =~= docs@.subrange(0, d as int));
            assert(doc_flows(next, sub).map_values(g) =~= doc_flows(docs@.subrange(0, d as int), sub).map_values(g) + fs@.map_values(g));
            assert(candidate_views(out@) =~= start + doc_flows(next, sub).map_values(g));
        }
        d = d + 1;
    }
    assert(docs@.subrange(0, docs@.len() as int) =~= docs@);
}

/// The number of components in a tree.
pub open spec fn node_count(c: MuleComponent) -> nat
    decreases c,
{
    proof {
        assert(decreases_to!(c => c.children));
        assert(decreases_to!(c.children => c.children@));
    }
    1 + nodes_count(c.children@)
}

pub open spec fn nodes_count(cs: Seq<MuleComponent>) -> nat
    decreases cs,
{
    if cs.len() == 0 {
        0
    } else {
        nodes_count(cs.drop_last()) + node_count(cs.last())
    }
}

/// The number of components in the trees of the flows.
pub open spec fn flows_node_count(fs: Seq<MuleFlow>) -> nat
    decreases fs.len(),
{
    if fs.len() == 0 {
        0
    } else {
        flows_node_count(fs.drop_last()) + nodes_count(fs.last().components@)
    }
}

proof fn lemma_preorder_len(c: MuleComponent)
    ensures
        preorder(c).len() == node_count(c),
    decreases c,
{
    assert(decreases_to!(c => c.children));
    assert(decreases_to!(c.children => c.children@));
    lemma_preorder_all_len(c.children@);
}

proof fn lemma_preorder_all_len(cs: Seq<MuleComponent>)
    ensures
        preorder_all(cs).len() == nodes_count(cs),
    decreases cs,
{
    if cs.len() > 0 {
        lemma_preorder_all_len(cs.drop_last());
        lemma_preorder_len(cs.last());
    }
}

proof fn lemma_flow_components_len(fs: Seq<MuleFlow>)
    ensures
        flow_components(fs).len() == flows_node_count(fs),
    decreases fs.len(),
{
    if fs.len() > 0 {
        lemma_flow_components_len(fs.drop_last());
        lemma_preorder_all_len(fs.last().components@);
    }
}

/// The candidates of several kinds are those of each kind, in the order
/// the kinds are listed; the project is one candidate; the flows (and the
/// sub-flows) are those of each document in order; the components are
/// one per node of every flow's and sub-flow's tree, in pre-order.
pub proof fn law_candidates_per_entity(p: ParsedProject, a: Seq<RuleTargetEntity>, b: Seq<RuleTargetEntity>, e: RuleTargetEntity)
    ensures
        spec_candidates(p, a + b) == spec_candidates(p, a) + spec_candidates(p, b),
        spec_candidates(p, seq![e]) == entity_targets(p, e),
        spec_candidates(p, seq![RuleTargetEntity::Project]) == seq![TargetView::Project(p.project)],
        spec_candidates(p, seq![RuleTargetEntity::Flow]) == doc_flows(p.documents@, false).map_values(
            |f: MuleFlow| TargetView::Flow(f),
        ),
        spec_candidates(p, seq![RuleTargetEntity::Subflow]) == doc_flows(p.documents@, true).map_values(
            |f: MuleFlow| TargetView::Flow(f),
        ),
        spec_candidates(p, seq![RuleTargetEntity::Component]) == flow_components(all_flows(p.documents@)).map_values(
            |c: MuleComponent| TargetView::Component(c),
        ),
        spec_candidates(p, seq![RuleTargetEntity::Component]).len() == flows_node_count(all_flows(p.documents@)),
    decreases b.len(),
{
    lemma_candidates_single(p, e);
    lemma_candidates_single(p, RuleTargetEntity::Project);
    lemma_candidates_single(p, RuleTargetEntity::Flow);
    lemma_candidates_single(p, RuleTargetEntity::Subflow);
    lemma_candidates_single(p, RuleTargetEntity::Component);
    lemma_flow_components_len(all_flows(p.documents@));
    if b.len() == 0 {
        assert(a + b =~= a);
        assert(spec_candidates(p, a) + spec_candidates(p, b) =~= spec_candidates(p, a));
    } else {
        law_candidates_per_entity(p, a, b.drop_last(), e);
        assert((a + b).drop_last() =~= a + b.drop_last());
        assert((a + b).last() == b.last());
        assert(spec_candidates(p, a) + spec_candidates(p, b.drop_last()) + entity_targets(p, b.last())
            =~= spec_candidates(p, a) + spec_candidates(p, b));
    }
}

proof fn lemma_candidates_single(p: ParsedProject, e: RuleTargetEntity)
    ensures
        spec_candidates(p, seq![e]) == entity_targets(p, e),
{
    let s = seq![e];
    assert(s.drop_last() =~= Seq::<RuleTargetEntity>::empty());
    assert(s.last() == e);
    assert(spec_candidates(p, s.drop_last()) == Seq::<TargetView>::empty());
    assert(spec_candidates(p, s) == spec_candidates(p, s.drop_last()) + entity_targets(p, e));
    assert(Seq::<TargetView>::empty() + entity_targets(p, e) =~= entity_targets(p, e));
}

/// One candidate per entity of each kind the rule targets, kind by kind
/// in the order listed.
pub fn candidates<'a>(project: &'a ParsedProject, target: &RuleTarget) -> (r: Vec<Candidate<'a>>)
    ensures
        candidate_views(r@) == spec_candidates(*project, target.entity@),
{
    let mut out: Vec<Candidate<'a>> = Vec::new();
    let mut k: usize = 0;
    while k < target.entity.len()
        invariant
            k <= target.entity@.len(),
            candidate_views(out@) == spec_candidates(*project, target.entity@.subrange(0, k as int)),
        decreases target.entity.len() - k,
    {
        let ghost before = candidate_views(out@);
        let e = target.entity[k];
        match e {
            RuleTargetEntity::Project => {
                push_candidate(&mut out, EvalTarget::Project(&project.project));
            },
            RuleTargetEntity::File => {
                let files = &project.project.files;
                let ghost g = |f: SourceFile| TargetView::File(f);
                let mut i: usize = 0;
                while i < files.len()
                    invariant
                        i <= files@.len(),
                        g == (|f: SourceFile| TargetView::File(f)),
                        candidate_views(out@) == before + files@.subrange(0, i as int).map_values(g),
                    decreases files.len() - i,
                {
                    push_candidate(&mut out, EvalTarget::File(&files[i]));
                    proof {
                        assert(files@.subrange(0, i + 1).map_values(g) =~= files@.subrange(0, i as int).map_values(g).push(g(files@[i as int])));
                    }
                    i = i + 1;
                }
                assert(files@.subrange(0, files@.len() as int) =~= files@);
            },
            RuleTargetEntity::Flow => {
                push_doc_flows(&project.documents, false, &mut out);
            },
            RuleTargetEntity::Subflow => {
                push_doc_flows(&project.documents, true, &mut out);
            },
            RuleTargetEntity::Component => {
                push_all_flow_parts(&project.documents, FlowPart::Components, &mut out);
                proof {
                    lemma_parts_views(all_flows(project.documents@), FlowPart::Components);
                }
            },
            RuleTargetEntity::PropertyReference => {
                push_all_flow_parts(&project.documents, FlowPart::Properties, &mut out);
                proof {
                    lemma_parts_views(all_flows(project.documents@), FlowPart::Properties);
                }
            },
            RuleTargetEntity::FlowReference => {
                push_all_flow_parts(&project.documents, FlowPart::References, &mut out);
                proof {
                    lemma_parts_views(all_flows(project.documents@), FlowPart::References);
                }
            },
            RuleTargetEntity::DataweaveBlock => {
                push_all_flow_parts(&project.documents, FlowPart::Dataweave, &mut out);
                proof {
                    lemma_parts_views(all_flows(project.documents@), FlowPart::Dataweave);
                }
            },
        }
        proof {
            let next = target.entity@.subrange(0, k + 1);
            assert(next.drop_last() =~= target.entity@.subrange(0, k as int));
            assert(candidate_views(out@) =~= spec_candidates(*project, next));
        }
        k = k + 1;
    }
    assert(target.entity@.subrange(0, target.entity@.len() as int) =~= target.entity@);
    out
}

/// The sort key of a candidate: its kind, then its location and identity.
pub open spec fn spec_key(t: TargetView) -> Seq<char> {
    match t {
        TargetView::Project(p) => "project::"@ + p.id@,
        TargetView::File(f) => "file::"@ + f.path@,
        TargetView::Flow(f) => "flow::"@ + f.source.file@ + "::"@ + f.id@,
        TargetView::Component(c) => "component::"@ + c.source.file@ + "::"@ + c.id@,
        TargetView::PropertyRef { flow_name, value } => "property::"@ + flow_name + "::"@ + value,
        TargetView::FlowRef(r) => "reference::"@ + r.source.file@ + "::"@ + r.target@,
        TargetView::DataweaveBlock(b) => "dataweave::"@ + b.source.file@ + "::"@ + b.content_hash@,
    }
}

/// `a` sorts after `b`: its key is greater.
pub open spec fn candidate_after(a: TargetView, b: TargetView) -> bool {
    seq_lt(spec_key(b), spec_key(a))
}

fn key1(a: &str, b: &str) -> (s: String)
    ensures
        s@ == a@ + b@,
{
    let mut s = String::new();
    push_str(&mut s, a);
    push_str(&mut s, b);
    s
}

fn key3(a: &str, b: &str, c: &str, d: &str) -> (s: String)
    ensures
        s@ == a@ + b@ + c@ + d@,
{
    let mut s = String::new();
    push_str(&mut s, a);
    push_str(&mut s, b);
    push_str(&mut s, c);
    push_str(&mut s, d);
    s
}

/// The sort key of a candidate.
pub fn key(c: &Candidate<'_>) -> (s: String)
    ensures
        s@ == spec_key(target_view(c.target)),
{
    match &c.target {
        EvalTarget::Project(p) => key1("project::", p.id.as_str()),
        EvalTarget::File(f) => key1("file::", f.path.as_str()),
        EvalTarget::Flow(f) => key3("flow::", f.source.file.as_str(), "::", f.id.as_str()),
        EvalTarget::Component(c) => key3("component::", c.source.file.as_str(), "::", c.id.as_str()),
        EvalTarget::PropertyRef { flow_name, value } => key3("property::", flow_name.as_str(), "::", value.as_str()),
        EvalTarget::FlowRef(r) => key3("reference::", r.source.file.as_str(), "::", r.target.as_str()),
        EvalTarget::DataweaveBlock(b) => key3("dataweave::", b.source.file.as_str(), "::", b.content_hash.as_str()),
    }
}

fn insertion_point(out: &Vec<Candidate<'_>>, x: &Candidate<'_>) -> (p: usize)
    ensures
        p <= out@.len(),
        forall|j: int| p <= j < out@.len() ==> candidate_after(
            #[trigger] candidate_views(out@)[j],
            target_view(x.target),
        ),
        p == 0 || !candidate_after(candidate_views(out@)[p - 1], target_view(x.target)),
{
    let kx = key(x);
    let mut p = out.len();
    while p > 0
        invariant
            p <= out@.len(),
            kx@ == spec_key(target_view(x.target)),
            forall|j: int| p <= j < out@.len() ==> candidate_after(
                #[trigger] candidate_views(out@)[j],
                target_view(x.target),
            ),
        decreases p,
    {
        let kp = key(&out[p - 1]);
        let o = compare_str(kp.as_str(), kx.as_str());
        proof {
            assert(candidate_views(out@)[p - 1] == target_view(out@[p - 1].target));
            lemma_seq_lt_asymmetric(kp@, kx@);
            lemma_seq_lt_irreflexive(kx@);
            lemma_seq_lt_total(kp@, kx@);
        }
        if o != Order::Greater {
            return p;
        }
        p = p - 1;
    }
    p
}

/// Orders candidates by key, keeping the walk order among equal keys, so
/// two scans of one project list candidates identically.
pub fn sort<'a>(candidates: &mut Vec<Candidate<'a>>)
    ensures
        candidate_views(final(candidates)@) == stable_sort(
            candidate_views(old(candidates)@),
            |a: TargetView, b: TargetView| candidate_after(a, b),
        ),
{
    let ghost after = |a: TargetView, b: TargetView| candidate_after(a, b);
    let mut items: Vec<Candidate<'a>> = Vec::new();
    std::mem::swap(&mut items, candidates);
    let ghost orig = candidate_views(items@);
    let mut out: Vec<Candidate<'a>> = Vec::new();
    let ghost mut i: int = 0;
    while items.len() > 0
        invariant
            0 <= i <= orig.len(),
            after == (|a: TargetView, b: TargetView| candidate_after(a, b)),
            candidate_views(items@) == orig.subrange(i, orig.len() as int),
            candidate_views(out@) == stable_sort(orig.subrange(0, i), after),
        decreases items.len(),
    {
        let ghost before_items = items@;
        proof {
            assert(candidate_views(before_items).len() == before_items.len());
            assert(candidate_views(before_items)[0] == orig.subrange(i, orig.len() as int)[0]);
        }
        let x = items.remove(0);
        let p = insertion_point(&out, &x);
        let ghost before = candidate_views(out@);
        proof {
            lemma_insert_at(before, target_view(x.target), after, p as int);
            assert(orig[i] == target_view(x.target)) by {
                assert(candidate_views(before_items)[0] == target_view(x.target));
            }
            let next = orig.subrange(0, i + 1);
            assert(next.drop_last() =~= orig.subrange(0, i));
        }
        out.insert(p, x);
        proof {
            assert(candidate_views(out@) =~= before.insert(p as int, target_view(x.target)));
            assert forall|k: int| 0 <= k < items@.len() implies #[trigger] candidate_views(items@)[k]
                == orig.subrange(i + 1, orig.len() as int)[k] by {
                assert(items@[k] == before_items[k + 1]);
                assert(candidate_views(before_items)[k + 1] == orig.subrange(i, orig.len() as int)[k + 1]);
            }
            assert(candidate_views(items@) =~= orig.subrange(i + 1, orig.len() as int));
            i = i + 1;
        }
    }
    assert(orig.subrange(0, i) =~= orig);
    *candidates = out;
}

/// The rule's optional `match_` condition.
pub fn match_clause(target: &RuleTarget) -> (r: Option<&Condition>)
    ensures
        match target.match_ {
            Some(c) => r == Some(&*c),
            None => r is None,
        },
{
    match &target.match_ {
        Some(c) => Some(&**c),
        None => None,
    }
}

/// The kind of entity a target is.
pub open spec fn target_kind(t: TargetView) -> RuleTargetEntity {
    match t {
        TargetView::Project(_) => RuleTargetEntity::Project,
        TargetView::File(_) => RuleTargetEntity::File,
        TargetView::Flow(f) => if f.kind == MuleFlowKind::SubFlow {
            RuleTargetEntity::Subflow
        } else {
            RuleTargetEntity::Flow
        },
        TargetView::Component(_) => RuleTargetEntity::Component,
        TargetView::PropertyRef { .. } => RuleTargetEntity::PropertyReference,
        TargetView::FlowRef(_) => RuleTargetEntity::FlowReference,
        TargetView::DataweaveBlock(_) => RuleTargetEntity::DataweaveBlock,
    }
}

/// Whether the candidate's kind is listed (a sub-flow is a `Subflow`).
pub fn entity_in(entities: &[RuleTargetEntity], candidate: &Candidate<'_>) -> (r: bool)
    ensures
        r == entities@.contains(target_kind(target_view(candidate.target))),
{
    let kind = match &candidate.target {
        EvalTarget::Project(_) => RuleTargetEntity::Project,
        EvalTarget::File(_) => RuleTargetEntity::File,
        EvalTarget::Flow(f) => match f.kind {
            MuleFlowKind::SubFlow => RuleTargetEntity::Subflow,
            MuleFlowKind::Flow => RuleTargetEntity::Flow,
        },
        EvalTarget::Component(_) => RuleTargetEntity::Component,
        EvalTarget::PropertyRef { .. } => RuleTargetEntity::PropertyReference,
        EvalTarget::FlowRef(_) => RuleTargetEntity::FlowReference,
        EvalTarget::DataweaveBlock(_) => RuleTargetEntity::DataweaveBlock,
    };
    let mut i: usize = 0;
    while i < entities.len()
        invariant
            i <= entities@.len(),
            kind == target_kind(target_view(candidate.target)),
            forall|k: int| 0 <= k < i ==> entities@[k] != kind,
        decreases entities.len() - i,
    {
        if entities[i] == kind {
            assert(entities@[i as int] == kind);
            return true;
        }
        i = i + 1;
    }
    false
}

/// The target kind a flow answers to.
pub fn flow_kind(flow: &MuleFlow) -> (r: RuleTargetEntity)
    ensures
        r == (match flow.kind {
            MuleFlowKind::Flow => RuleTargetEntity::Flow,
            MuleFlowKind::SubFlow => RuleTargetEntity::Subflow,
        }),
{
    match flow.kind {
        MuleFlowKind::Flow => RuleTargetEntity::Flow,
        MuleFlowKind::SubFlow => RuleTargetEntity::Subflow,
    }
}

/// Strictly ascending: sorted with no repetitions.
pub open spec fn strictly_ascending(s: Seq<Seq<char>>) -> bool {
    forall|i: int, j: int| 0 <= i < j < s.len() ==> seq_lt(#[trigger] s[i], #[trigger] s[j])
}

/// The distinct names, in ascending order (what a `BTreeSet` iterates).
pub fn unique_names(values: Vec<String>) -> (r: Vec<String>)
    ensures
        strictly_ascending(r@.map_values(|s: String| s@)),
        r@.map_values(|s: String| s@).to_set() == values@.map_values(|s: String| s@).to_set(),
{
    let ghost sv = |s: String| s@;
    let mut out: Vec<String> = Vec::new();
    let mut i: usize = 0;
    while i < values.len()
        invariant
            i <= values@.len(),
            sv == (|s: String| s@),
            strictly_ascending(out@.map_values(sv)),
            out@.map_values(sv).to_set() == values@.subrange(0, i as int).map_values(sv).to_set(),
        decreases values.len() - i,
    {
        let v = &values[i];
        let ghost before = out@.map_values(sv);
        let mut p: usize = 0;
        let mut found = false;
        while p < out.len()
            invariant_except_break
                !found,
            invariant
                p <= out@.len(),
                sv == (|s: String| s@),
                before == out@.map_values(sv),
                forall|k: int| 0 <= k < p ==> seq_lt(#[trigger] before[k], v@),
            ensures
                p <= out@.len(),
                found ==> p < out@.len() && before[p as int] == v@,
                !found ==> p == out@.len() || seq_lt(v@, before[p as int]),
                forall|k: int| 0 <= k < p ==> seq_lt(#[trigger] before[k], v@),
            decreases out.len() - p,
        {
            let o = compare_str(out[p].as_str(), v.as_str());
            assert(before[p as int] == out@[p as int]@);
            if o == Order::Equal {
                found = true;
                break;
            }
            if o == Order::Greater {
                proof {
                    lemma_seq_lt_total(before[p as int], v@);
                }
                break;
            }
            p = p + 1;
        }
        let ghost prefix = values@.subrange(0, i as int).map_values(sv);
        let ghost next = values@.subrange(0, i + 1).map_values(sv);
        proof {
            assert(next =~= prefix.push(v@));
        }
        if !found {
            out.insert(p, v.clone());
            proof {
                let after = out@.map_values(sv);
                assert(after =~= before.insert(p as int, v@));
                assert forall|x: int, y: int| 0 <= x < y < after.len() implies seq_lt(
                    #[trigger] after[x],
                    #[trigger] after[y],
                ) by {
                    if y < p {
                        assert(after[x] == before[x] && after[y] == before[y]);
                    } else if y == p {
                        assert(after[x] == before[x]);
                    } else if x == p {
                        assert(after[y] == before[y - 1]);
                        if y - 1 > p {
                            lemma_seq_lt_transitive(v@, before[p as int], before[y - 1]);
                        }
                    } else if x < p {
                        assert(after[x] == before[x] && after[y] == before[y - 1]);
                    } else {
                        assert(after[x] == before[x - 1] && after[y] == before[y - 1]);
                    }
                }
                assert forall|z: Seq<char>| after.to_set().contains(z) <==> next.to_set().contains(z) by {
                    if after.to_set().contains(z) {
                        let k = choose|k: int| 0 <= k < after.len() && after[k] == z;
                        if k < p {
                            assert(before[k] == z);
                            assert(before.to_set().contains(z));
                        } else if k > p {
                            assert(before[k - 1] == z);
                            assert(before.to_set().contains(z));
                        }
                        assert(next.to_set().contains(z)) by {
                            if z == v@ {
                                assert(next[i as int] == z);
                            } else {
                                let m = choose|m: int| 0 <= m < prefix.len() && prefix[m] == z;
                                assert(next[m] == z);
                            }
                        }
                    }
                    if next.to_set().contains(z) {
                        let k = choose|k: int| 0 <= k < next.len() && next[k] == z;
                        if k == i {
                            assert(after[p as int] == z);
                        } else {
                            assert(prefix[k] == z);
                            assert(prefix.to_set().contains(z));
                            let m = choose|m: int| 0 <= m < before.len() && before[m] == z;
                            if m < p {
                                assert(after[m] == z);
                            } else {
                                assert(after[m + 1] == z);
                            }
                        }
                    }
                }
                assert(after.to_set() =~= next.to_set());
            }
        } else {
            proof {
                assert forall|z: Seq<char>| before.to_set().contains(z) <==> next.to_set().contains(z) by {
                    if before.to_set().contains(z) {
                        let m = choose|m: int| 0 <= m < prefix.len() && prefix[m] == z;
                        assert(next[m] == z);
                    }
                    if next.to_set().contains(z) {
                        let k = choose|k: int| 0 <= k < next.len() && next[k] == z;
                        if k == i {
                            assert(before[p as int] == z);
                        } else {
                            assert(prefix[k] == z);
                        }
                    }
                }
                assert(before.to_set() =~= next.to_set());
            }
        }
        i = i + 1;
    }
    assert(values@.subrange(0, values@.len() as int) =~= values@);
    out
}

} // verus!
