//! Resolving `flow-ref`s against the names of the project's flows and
//! sub-flows.

use vstd::prelude::*;
use crate::engine::facts::lookup_attribute;
use crate::engine::target::all_flows;
use crate::model::{
    component_view, component_views, lemma_component_views_index, lemma_component_views_len,
    ComponentView, FlowRef, MuleComponent, MuleDocument, MuleFlow, SpanView,
};
use crate::parser::facts::{attr_get, lemma_attr_lookup_view};
use crate::text::str_eq;

verus! {

broadcast use vstd::std_specs::vec::axiom_vec_index_decreases;

/// The names of every flow and sub-flow, document by document.
pub open spec fn known_names(docs: Seq<MuleDocument>) -> Seq<Seq<char>> {
    all_flows(docs).map_values(|f: MuleFlow| f.name@)
}

/// The names of all flows and sub-flows of the documents, in document
/// order (flows before sub-flows within a document).
pub fn collect_known_names(documents: &[MuleDocument]) -> (names: Vec<String>)
    ensures
        names@.map_values(|s: String| s@) == known_names(documents@),
{
    let ghost f = |s: String| s@;
    let ghost g = |fl: MuleFlow| fl.name@;
    let mut names: Vec<String> = Vec::new();
    let mut d: usize = 0;
    while d < documents.len()
        invariant
            d <= documents@.len(),
            f == (|s: String| s@),
            g == (|fl: MuleFlow| fl.name@),
            names@.map_values(f) == all_flows(documents@.subrange(0, d as int)).map_values(g),
        decreases documents.len() - d,
    {
        let doc = &documents[d];
        let ghost start = names@.map_values(f);
        let mut i: usize = 0;
        while i < doc.flows.len()
            invariant
                i <= doc.flows@.len(),
                f == (|s: String| s@),
                g == (|fl: MuleFlow| fl.name@),
                names@.map_values(f) == start + doc.flows@.subrange(0, i as int).map_values(g),
            decreases doc.flows.len() - i,
        {
            let ghost before = names@.map_values(f);
            names.push(doc.flows[i].name.clone());
            assert(names@.map_values(f) =~= before.push(doc.flows@[i as int].name@));
            assert(doc.flows@.subrange(0, i + 1).map_values(g) =~= doc.flows@.subrange(0, i as int).map_values(g).push(doc.flows@[i as int].name@));
            i = i + 1;
        }
        let ghost mid = names@.map_values(f);
        let mut j: usize = 0;
        while j < doc.sub_flows.len()
            invariant
                j <= doc.sub_flows@.len(),
                f == (|s: String| s@),
                g == (|fl: MuleFlow| fl.name@),
                names@.map_values(f) == mid + doc.sub_flows@.subrange(0, j as int).map_values(g),
            decreases doc.sub_flows.len() - j,
        {
            let ghost before = names@.map_values(f);
            names.push(doc.sub_flows[j].name.clone());
            assert(names@.map_values(f) =~= before.push(doc.sub_flows@[j as int].name@));
            assert(doc.sub_flows@.subrange(0, j + 1).map_values(g) =~= doc.sub_flows@.subrange(0, j as int).map_values(g).push(doc.sub_flows@[j as int].name@));
            j = j + 1;
        }
        proof {
            assert(doc.flows@.subrange(0, doc.flows@.len() as int) =~= doc.flows@);
            assert(doc.sub_flows@.subrange(0, doc.sub_flows@.len() as int) =~= doc.sub_flows@);
            let next = documents@.subrange(0, d + 1);
            assert(next.drop_last() =~= documents@.subrange(0, d as int));
            assert(all_flows(next).map_values(g) =~= all_flows(documents@.subrange(0, d as int)).map_values(g)
                + doc.flows@.map_values(g) + doc.sub_flows@.map_values(g));
            assert(names@.map_values(f) =~= all_flows(next).map_values(g));
        }
        d = d + 1;
    }
    assert(documents@.subrange(0, documents@.len() as int) =~= documents@);
    names
}

/// A reference to `target` records whether `target` is known; any other
/// reference is left as it is.
pub open spec fn mark_ref(r: FlowRef, target: Seq<char>, known: Seq<Seq<char>>) -> FlowRef {
    if r.target@ == target {
        FlowRef { resolved: known.contains(target), ..r }
    } else {
        r
    }
}

/// The references after one `flow-ref` component with name `target` is
/// marked: every reference to `target` records whether it is known.
pub open spec fn mark_one(refs: Seq<FlowRef>, target: Seq<char>, known: Seq<Seq<char>>) -> Seq<FlowRef> {
    Seq::new(refs.len(), |i: int| mark_ref(refs[i], target, known))
}

/// The references after marking every `flow-ref` of a tree, depth first.
pub open spec fn mark_tree(refs: Seq<FlowRef>, c: ComponentView, known: Seq<Seq<char>>) -> Seq<FlowRef>
    decreases c,
{
    let target = match attr_get(c.attributes, "name"@) {
        Some(n) => n,
        None => Seq::empty(),
    };
    let after = if c.local_name == "flow-ref"@ {
        mark_one(refs, target, known)
    } else {
        refs
    };
    mark_trees(after, c.children, known)
}

pub open spec fn mark_trees(refs: Seq<FlowRef>, cs: Seq<ComponentView>, known: Seq<Seq<char>>) -> Seq<FlowRef>
    decreases cs,
{
    if cs.len() == 0 {
        refs
    } else {
        mark_tree(mark_trees(refs, cs.drop_last(), known), cs.last(), known)
    }
}

pub fn is_known(known: &Vec<String>, target: &str) -> (r: bool)
    ensures
        r == known@.map_values(|s: String| s@).contains(target@),
{
    let ghost kv = known@.map_values(|s: String| s@);
    let mut i: usize = 0;
    while i < known.len()
        invariant
            i <= known@.len(),
            kv == known@.map_values(|s: String| s@),
            forall|j: int| 0 <= j < i ==> kv[j] != target@,
        decreases known.len() - i,
    {
        if str_eq(known[i].as_str(), target) {
            assert(kv[i as int] == target@);
            return true;
        }
        i = i + 1;
    }
    false
}

/// Marks each `flow-ref` of the tree rooted at `flow` as resolved or not
/// against the known names, on every fact reference with the same target.
pub fn mark_resolved_in_flow(flow: &MuleComponent, facts: &mut Vec<FlowRef>, known_names: &Vec<String>)
    ensures
        final(facts)@ == mark_tree(old(facts)@, flow@, known_names@.map_values(|s: String| s@)),
    decreases flow,
{
    let ghost kv = known_names@.map_values(|s: String| s@);
    proof {
        lemma_attr_lookup_view(flow.attributes@, "name"@);
        lemma_component_views_len(flow.children@);
    }
    let target = match lookup_attribute(&flow.attributes, "name") {
        Some(n) => n.clone(),
        None => String::new(),
    };
    let ghost tv = match attr_get(flow@.attributes, "name"@) {
        Some(n) => n,
        None => Seq::<char>::empty(),
    };
    assert(target@ == tv);
    let ghost before = facts@;
    if str_eq(flow.local_name.as_str(), "flow-ref") {
        let resolved = is_known(known_names, target.as_str());
        let mut k: usize = 0;
        while k < facts.len()
            invariant
                k <= facts@.len(),
                facts@.len() == before.len(),
                resolved == kv.contains(target@),
                forall|j: int| 0 <= j < k ==> #[trigger] facts@[j] == mark_ref(before[j], target@, kv),
                forall|j: int| k <= j < facts@.len() ==> #[trigger] facts@[j] == before[j],
            decreases facts.len() - k,
        {
            if str_eq(facts[k].target.as_str(), target.as_str()) {
                let ghost prev = facts@;
                let old_ref = facts.remove(k);
                let updated = FlowRef { target: old_ref.target, resolved, source: old_ref.source };
                facts.insert(k, updated);
                assert(facts@ =~= prev.update(k as int, mark_ref(before[k as int], target@, kv)));
            }
            k = k + 1;
        }
        assert(facts@ =~= mark_one(before, tv, kv));
    }
    let ghost start = facts@;
    let ghost c = flow@;
    let mut i: usize = 0;
    while i < flow.children.len()
        invariant
            i <= flow.children@.len(),
            c == flow@,
            c.children.len() == flow.children@.len(),
            kv == known_names@.map_values(|s: String| s@),
            facts@ == mark_trees(start, c.children.subrange(0, i as int), kv),
        decreases flow.children.len() - i,
    {
        assert(decreases_to!(flow => flow.children[i as int]));
        proof {
            lemma_component_views_index(flow.children@, i as int);
        }
        mark_resolved_in_flow(&flow.children[i], facts, known_names);
        proof {
            let next = c.children.subrange(0, i + 1);
            assert(next.drop_last() =~= c.children.subrange(0, i as int));
        }
        i = i + 1;
    }
    assert(c.children.subrange(0, c.children.len() as int) =~= c.children);
}

} // verus!
