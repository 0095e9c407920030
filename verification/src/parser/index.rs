//! The project-wide index of flows, sub-flows, global configurations and
//! unresolved references.

use vstd::prelude::*;
use crate::model::{
    FlowIndexEntry, FlowRef, GlobalConfigIndex, MuleDocument, MuleFlow, MuleFlowKind, ProjectIndex,
    UnresolvedFlowRef,
};
use crate::parser::reference::{collect_known_names, is_known, known_names};

verus! {

/// The index entry of a flow of a document.
pub open spec fn entry_of(d: MuleDocument, f: MuleFlow, kind: MuleFlowKind) -> FlowIndexEntry {
    FlowIndexEntry { name: f.name, document_id: d.id, flow_id: f.id, kind, source: f.source }
}

/// The entries of every document's flows (or sub-flows), in order.
pub open spec fn index_entries(docs: Seq<MuleDocument>, sub: bool) -> Seq<FlowIndexEntry>
    decreases docs.len(),
{
    if docs.len() == 0 {
        Seq::empty()
    } else {
        let d = docs.last();
        index_entries(docs.drop_last(), sub) + if sub {
            d.sub_flows@.map_values(|f: MuleFlow| entry_of(d, f, MuleFlowKind::SubFlow))
        } else {
            d.flows@.map_values(|f: MuleFlow| entry_of(d, f, MuleFlowKind::Flow))
        }
    }
}

/// The references of a flow whose target is not a known name.
pub open spec fn refs_unresolved(
    refs: Seq<FlowRef>,
    d: MuleDocument,
    f: MuleFlow,
    kind: MuleFlowKind,
    names: Seq<Seq<char>>,
) -> Seq<UnresolvedFlowRef>
    decreases refs.len(),
{
    if refs.len() == 0 {
        Seq::empty()
    } else {
        let r = refs.last();
        refs_unresolved(refs.drop_last(), d, f, kind, names) + if names.contains(r.target@) {
            Seq::empty()
        } else {
            seq![
                UnresolvedFlowRef {
                    target: r.target,
                    referenced_from: FlowIndexEntry {
                        name: f.name,
                        document_id: d.id,
                        flow_id: f.id,
                        kind,
                        source: r.source,
                    },
                    source: r.source,
                },
            ]
        }
    }
}

pub open spec fn flows_unresolved(
    d: MuleDocument,
    fs: Seq<MuleFlow>,
    kind: MuleFlowKind,
    names: Seq<Seq<char>>,
) -> Seq<UnresolvedFlowRef>
    decreases fs.len(),
{
    if fs.len() == 0 {
        Seq::empty()
    } else {
        flows_unresolved(d, fs.drop_last(), kind, names) + refs_unresolved(
            fs.last().facts.flow_refs@,
            d,
            fs.last(),
            kind,
            names,
        )
    }
}

/// Every unresolved reference, document by document, flows first.
pub open spec fn all_unresolved(docs: Seq<MuleDocument>, names: Seq<Seq<char>>) -> Seq<UnresolvedFlowRef>
    decreases docs.len(),
{
    if docs.len() == 0 {
        Seq::empty()
    } else {
        let d = docs.last();
        all_unresolved(docs.drop_last(), names) + flows_unresolved(d, d.flows@, MuleFlowKind::Flow, names)
            + flows_unresolved(d, d.sub_flows@, MuleFlowKind::SubFlow, names)
    }
}

/// Every document's global configurations, in order.
pub open spec fn all_globals(docs: Seq<MuleDocument>) -> Seq<GlobalConfigIndex>
    decreases docs.len(),
{
    if docs.len() == 0 {
        Seq::empty()
    } else {
        all_globals(docs.drop_last()) + docs.last().global_configurations@
    }
}

/// The number of flows (or sub-flows) of all documents.
pub open spec fn flow_count(docs: Seq<MuleDocument>, sub: bool) -> nat
    decreases docs.len(),
{
    if docs.len() == 0 {
        0
    } else {
        flow_count(docs.drop_last(), sub) + if sub {
            docs.last().sub_flows@.len()
        } else {
            docs.last().flows@.len()
        }
    }
}

/// The references of the flows, in order.
pub open spec fn flow_refs_of(fs: Seq<MuleFlow>) -> Seq<FlowRef>
    decreases fs.len(),
{
    if fs.len() == 0 {
        Seq::empty()
    } else {
        flow_refs_of(fs.drop_last()) + fs.last().facts.flow_refs@
    }
}

/// Every reference of the project: document by document, those of the
/// flows and then those of the sub-flows.
pub open spec fn project_refs(docs: Seq<MuleDocument>) -> Seq<FlowRef>
    decreases docs.len(),
{
    if docs.len() == 0 {
        Seq::empty()
    } else {
        project_refs(docs.drop_last()) + flow_refs_of(docs.last().flows@) + flow_refs_of(docs.last().sub_flows@)
    }
}

/// The targets of the references that name none of `names`, in order.
pub open spec fn missing_targets(refs: Seq<FlowRef>, names: Seq<Seq<char>>) -> Seq<Seq<char>>
    decreases refs.len(),
{
    if refs.len() == 0 {
        Seq::empty()
    } else {
        missing_targets(refs.drop_last(), names) + if names.contains(refs.last().target@) {
            Seq::<Seq<char>>::empty()
        } else {
            seq![refs.last().target@]
        }
    }
}

pub open spec fn unresolved_targets(us: Seq<UnresolvedFlowRef>) -> Seq<Seq<char>> {
    us.map_values(|u: UnresolvedFlowRef| u.target@)
}

proof fn lemma_missing_concat(a: Seq<FlowRef>, b: Seq<FlowRef>, names: Seq<Seq<char>>)
    ensures
        missing_targets(a + b, names) == missing_targets(a, names) + missing_targets(b, names),
    decreases b.len(),
{
    if b.len() == 0 {
        assert(a + b =~= a);
        assert(missing_targets(a, names) + missing_targets(b, names) =~= missing_targets(a, names));
    } else {
        lemma_missing_concat(a, b.drop_last(), names);
        assert((a + b).drop_last() =~= a + b.drop_last());
        assert((a + b).last() == b.last());
        let t = if names.contains(b.last().target@) {
            Seq::<Seq<char>>::empty()
        } else {
            seq![b.last().target@]
        };
        assert(missing_targets(a, names) + missing_targets(b.drop_last(), names) + t =~= missing_targets(a, names)
            + (missing_targets(b.drop_last(), names) + t));
    }
}

proof fn lemma_targets_concat(a: Seq<UnresolvedFlowRef>, b: Seq<UnresolvedFlowRef>)
    ensures
        unresolved_targets(a + b) == unresolved_targets(a) + unresolved_targets(b),
{
    assert(unresolved_targets(a + b) =~= unresolved_targets(a) + unresolved_targets(b));
}

proof fn lemma_refs_targets(
    refs: Seq<FlowRef>,
    d: MuleDocument,
    f: MuleFlow,
    kind: MuleFlowKind,
    names: Seq<Seq<char>>,
)
    ensures
        unresolved_targets(refs_unresolved(refs, d, f, kind, names)) == missing_targets(refs, names),
    decreases refs.len(),
{
    if refs.len() > 0 {
        lemma_refs_targets(refs.drop_last(), d, f, kind, names);
        let r = refs.last();
        let tail = if names.contains(r.target@) {
            Seq::empty()
        } else {
            seq![
                UnresolvedFlowRef {
                    target: r.target,
                    referenced_from: FlowIndexEntry {
                        name: f.name,
                        document_id: d.id,
                        flow_id: f.id,
                        kind,
                        source: r.source,
                    },
                    source: r.source,
                },
            ]
        };
        lemma_targets_concat(refs_unresolved(refs.drop_last(), d, f, kind, names), tail);
        assert(unresolved_targets(tail) =~= if names.contains(r.target@) {
            Seq::<Seq<char>>::empty()
        } else {
            seq![r.target@]
        });
    }
}

proof fn lemma_flows_targets(d: MuleDocument, fs: Seq<MuleFlow>, kind: MuleFlowKind, names: Seq<Seq<char>>)
    ensures
        unresolved_targets(flows_unresolved(d, fs, kind, names)) == missing_targets(flow_refs_of(fs), names),
    decreases fs.len(),
{
    if fs.len() == 0 {
        assert(unresolved_targets(Seq::empty()) =~= Seq::<Seq<char>>::empty());
    } else {
        lemma_flows_targets(d, fs.drop_last(), kind, names);
        lemma_refs_targets(fs.last().facts.flow_refs@, d, fs.last(), kind, names);
        lemma_targets_concat(
            flows_unresolved(d, fs.drop_last(), kind, names),
            refs_unresolved(fs.last().facts.flow_refs@, d, fs.last(), kind, names),
        );
        lemma_missing_concat(flow_refs_of(fs.drop_last()), fs.last().facts.flow_refs@, names);
    }
}

proof fn lemma_entries_len(docs: Seq<MuleDocument>, sub: bool)
    ensures
        index_entries(docs, sub).len() == flow_count(docs, sub),
    decreases docs.len(),
{
    if docs.len() > 0 {
        lemma_entries_len(docs.drop_last(), sub);
    }
}

/// The index lists every flow and every sub-flow once, and its unresolved
/// references are exactly the references, document by document (flows
/// before sub-flows), whose target names no flow or sub-flow of the project.
pub proof fn law_index_counts_and_unresolved(docs: Seq<MuleDocument>, names: Seq<Seq<char>>)
    ensures
        index_entries(docs, false).len() == flow_count(docs, false),
        index_entries(docs, true).len() == flow_count(docs, true),
        unresolved_targets(all_unresolved(docs, names)) == missing_targets(project_refs(docs), names),
    decreases docs.len(),
{
    lemma_entries_len(docs, false);
    lemma_entries_len(docs, true);
    if docs.len() == 0 {
        assert(unresolved_targets(Seq::empty()) =~= Seq::<Seq<char>>::empty());
    } else {
        let d = docs.last();
        law_index_counts_and_unresolved(docs.drop_last(), names);
        lemma_flows_targets(d, d.flows@, MuleFlowKind::Flow, names);
        lemma_flows_targets(d, d.sub_flows@, MuleFlowKind::SubFlow, names);
        let a = all_unresolved(docs.drop_last(), names);
        let b = flows_unresolved(d, d.flows@, MuleFlowKind::Flow, names);
        let c = flows_unresolved(d, d.sub_flows@, MuleFlowKind::SubFlow, names);
        lemma_targets_concat(a + b, c);
        lemma_targets_concat(a, b);
        lemma_missing_concat(project_refs(docs.drop_last()) + flow_refs_of(d.flows@), flow_refs_of(d.sub_flows@), names);
        lemma_missing_concat(project_refs(docs.drop_last()), flow_refs_of(d.flows@), names);
    }
}

fn push_entries(d: &MuleDocument, sub: bool, out: &mut Vec<FlowIndexEntry>)
    ensures
        final(out)@ == old(out)@ + if sub {
            d.sub_flows@.map_values(|f: MuleFlow| entry_of(*d, f, MuleFlowKind::SubFlow))
        } else {
            d.flows@.map_values(|f: MuleFlow| entry_of(*d, f, MuleFlowKind::Flow))
        },
{
    let fs = if sub {
        &d.sub_flows
    } else {
        &d.flows
    };
    let kind = if sub {
        MuleFlowKind::SubFlow
    } else {
        MuleFlowKind::Flow
    };
    let ghost g = |f: MuleFlow| entry_of(*d, f, kind);
    let mut i: usize = 0;
    while i < fs.len()
        invariant
            i <= fs@.len(),
            g == (|f: MuleFlow| entry_of(*d, f, kind)),
            out@ == old(out)@ + fs@.subrange(0, i as int).map_values(g),
        decreases fs.len() - i,
    {
        let f = &fs[i];
        out.push(
            FlowIndexEntry {
                name: f.name.clone(),
                document_id: d.id.clone(),
                flow_id: f.id.clone(),
                kind,
                source: f.source.clone(),
            },
        );
        assert(fs@.subrange(0, i + 1).map_values(g) =~= fs@.subrange(0, i as int).map_values(g).push(g(fs@[i as int])));
        assert(out@ =~= old(out)@ + fs@.subrange(0, i + 1).map_values(g));
        i = i + 1;
    }
    assert(fs@.subrange(0, fs@.len() as int) =~= fs@);
}

fn push_flow_unresolved(
    d: &MuleDocument,
    f: &MuleFlow,
    kind: MuleFlowKind,
    names: &Vec<String>,
    out: &mut Vec<UnresolvedFlowRef>,
)
    ensures
        final(out)@ == old(out)@ + refs_unresolved(
            f.facts.flow_refs@,
            *d,
            *f,
            kind,
            names@.map_values(|s: String| s@),
        ),
{
    let ghost nv = names@.map_values(|s: String| s@);
    let refs = &f.facts.flow_refs;
    let mut i: usize = 0;
    while i < refs.len()
        invariant
            i <= refs@.len(),
            nv == names@.map_values(|s: String| s@),
            out@ == old(out)@ + refs_unresolved(refs@.subrange(0, i as int), *d, *f, kind, nv),
        decreases refs.len() - i,
    {
        let r = &refs[i];
        let ghost before = out@;
        if !is_known(names, r.target.as_str()) {
            out.push(
                UnresolvedFlowRef {
                    target: r.target.clone(),
                    referenced_from: FlowIndexEntry {
                        name: f.name.clone(),
                        document_id: d.id.clone(),
                        flow_id: f.id.clone(),
                        kind,
                        source: r.source.clone(),
                    },
                    source: r.source.clone(),
                },
            );
        }
        proof {
            let next = refs@.subrange(0, i + 1);
            assert(next.drop_last() =~= refs@.subrange(0, i as int));
            assert(next.last() == refs@[i as int]);
            assert(out@ =~= old(out)@ + refs_unresolved(next, *d, *f, kind, nv));
        }
        i = i + 1;
    }
    assert(refs@.subrange(0, refs@.len() as int) =~= refs@);
}

fn push_flows_unresolved(
    d: &MuleDocument,
    sub: bool,
    names: &Vec<String>,
    out: &mut Vec<UnresolvedFlowRef>,
)
    ensures
        final(out)@ == old(out)@ + if sub {
            flows_unresolved(*d, d.sub_flows@, MuleFlowKind::SubFlow, names@.map_values(|s: String| s@))
        } else {
            flows_unresolved(*d, d.flows@, MuleFlowKind::Flow, names@.map_values(|s: String| s@))
        },
{
    let ghost nv = names@.map_values(|s: String| s@);
    let fs = if sub {
        &d.sub_flows
    } else {
        &d.flows
    };
    let kind = if sub {
        MuleFlowKind::SubFlow
    } else {
        MuleFlowKind::Flow
    };
    let mut i: usize = 0;
    while i < fs.len()
        invariant
            i <= fs@.len(),
            nv == names@.map_values(|s: String| s@),
            out@ == old(out)@ + flows_unresolved(*d, fs@.subrange(0, i as int), kind, nv),
        decreases fs.len() - i,
    {
        push_flow_unresolved(d, &fs[i], kind, names, out);
        proof {
            let next = fs@.subrange(0, i + 1);
            assert(next.drop_last() =~= fs@.subrange(0, i as int));
            assert(out@ =~= old(out)@ + flows_unresolved(*d, next, kind, nv));
        }
        i = i + 1;
    }
    assert(fs@.subrange(0, fs@.len() as int) =~= fs@);
}

/// The project index: flows and sub-flows by document, the global
/// configurations, and each reference to a name no flow or sub-flow has.
pub fn build(documents: &[MuleDocument]) -> (idx: ProjectIndex)
    ensures
        idx.flows@ == index_entries(documents@, false),
        idx.sub_flows@ == index_entries(documents@, true),
        idx.global_configurations@ == all_globals(documents@),
        idx.unresolved_flow_refs@ == all_unresolved(documents@, known_names(documents@)),
        idx.flows@.len() == flow_count(documents@, false),
        idx.sub_flows@.len() == flow_count(documents@, true),
        unresolved_targets(idx.unresolved_flow_refs@) == missing_targets(
            project_refs(documents@),
            known_names(documents@),
        ),
{
    let names = collect_known_names(documents);
    let ghost nv = known_names(documents@);
    let mut flows: Vec<FlowIndexEntry> = Vec::new();
    let mut sub_flows: Vec<FlowIndexEntry> = Vec::new();
    let mut globals: Vec<GlobalConfigIndex> = Vec::new();
    let mut unresolved: Vec<UnresolvedFlowRef> = Vec::new();
    let mut d: usize = 0;
    while d < documents.len()
        invariant
            d <= documents@.len(),
            nv == names@.map_values(|s: String| s@),
            flows@ == index_entries(documents@.subrange(0, d as int), false),
            sub_flows@ == index_entries(documents@.subrange(0, d as int), true),
            globals@ == all_globals(documents@.subrange(0, d as int)),
            unresolved@ == all_unresolved(documents@.subrange(0, d as int), nv),
        decreases documents.len() - d,
    {
        let doc = &documents[d];
        push_entries(doc, false, &mut flows);
        push_entries(doc, true, &mut sub_flows);
        let ghost gbefore = globals@;
        let mut g: usize = 0;
        while g < doc.global_configurations.len()
            invariant
                g <= doc.global_configurations@.len(),
                globals@ == gbefore + doc.global_configurations@.subrange(0, g as int),
            decreases doc.global_configurations.len() - g,
        {
            globals.push(doc.global_configurations[g].clone());
            assert(globals@ =~= gbefore + doc.global_configurations@.subrange(0, g + 1));
            g = g + 1;
        }
        assert(doc.global_configurations@.subrange(0, doc.global_configurations@.len() as int) =~= doc.global_configurations@);
        push_flows_unresolved(doc, false, &names, &mut unresolved);
        push_flows_unresolved(doc, true, &names, &mut unresolved);
        proof {
            let next = documents@.subrange(0, d + 1);
            assert(next.drop_last() =~= documents@.subrange(0, d as int));
            assert(next.last() == *doc);
            assert(flows@ =~= index_entries(next, false));
            assert(sub_flows@ =~= index_entries(next, true));
            assert(globals@ =~= all_globals(next));
            assert(unresolved@ =~= all_unresolved(next, nv));
        }
        d = d + 1;
    }
    assert(documents@.subrange(0, documents@.len() as int) =~= documents@);
    proof {
        law_index_counts_and_unresolved(documents@, known_names(documents@));
    }
    ProjectIndex { flows, sub_flows, global_configurations: globals, unresolved_flow_refs: unresolved }
}

} // verus!
