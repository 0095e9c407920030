//! Turning a closed `flow` or `sub-flow` element into a [`MuleFlow`].

use vstd::prelude::*;
use crate::engine::facts::lookup_attribute;
use crate::model::{
    component_view, component_views, current_schema_version, lemma_component_views_index,
    lemma_component_views_len, lemma_component_views_push, pair_views, ComponentView, MuleComponent,
    MuleFlow, MuleFlowKind,
};
use crate::parser::digest::{digest_of_text, hex_lower, hex_text, sha256_digest};
use crate::parser::facts::{
    attr_get, compute, facts_acc, facts_ok, lemma_attr_lookup_view, tree_size, walk_spec, FactsAcc,
};
use crate::text::push_str;

verus! {

broadcast use vstd::std_specs::vec::axiom_vec_index_decreases;

/// The text whose SHA-256 fingerprints a component tree: the qualified
/// name and a newline, each attribute as `key=value` and a newline, the
/// CDATA sections, then each child's text.
pub open spec fn hash_text(c: ComponentView) -> Seq<char>
    decreases c,
{
    c.qualified_name + "\n"@ + attrs_text(c.attributes) + cdata_text(c.cdata) + children_text(c.children)
}

pub open spec fn attrs_text(a: Seq<(Seq<char>, Seq<char>)>) -> Seq<char>
    decreases a.len(),
{
    if a.len() == 0 {
        Seq::empty()
    } else {
        attrs_text(a.drop_last()) + a.last().0 + "="@ + a.last().1 + "\n"@
    }
}

pub open spec fn cdata_text(a: Seq<Seq<char>>) -> Seq<char>
    decreases a.len(),
{
    if a.len() == 0 {
        Seq::empty()
    } else {
        cdata_text(a.drop_last()) + a.last()
    }
}

pub open spec fn children_text(cs: Seq<ComponentView>) -> Seq<char>
    decreases cs,
{
    if cs.len() == 0 {
        Seq::empty()
    } else {
        children_text(cs.drop_last()) + hash_text(cs.last())
    }
}

/// The value of the `name` attribute, or the empty text.
pub open spec fn name_of(c: ComponentView) -> Seq<char> {
    match attr_get(c.attributes, "name"@) {
        Some(n) => n,
        None => Seq::empty(),
    }
}

/// The facts of a fresh walk from the root at depth 1.
pub open spec fn root_facts(c: ComponentView) -> FactsAcc {
    walk_spec(
        c,
        1,
        FactsAcc {
            count: 0,
            max_depth: 0,
            has_local: false,
            refs: Seq::empty(),
            props: Seq::empty(),
            source: None,
            blocks: Seq::empty(),
        },
    )
}

/// `f` is the flow made from the element `c`.
pub open spec fn flow_built(f: MuleFlow, c: ComponentView, kind: MuleFlowKind) -> bool {
    &&& f.schema_version@ == seq!['1', '.', '0']
    &&& f.id@ == "flow:"@ + name_of(c)
    &&& f.project_id@ == Seq::<char>::empty()
    &&& f.kind == kind
    &&& f.name@ == name_of(c)
    &&& f.source@ == c.source
    &&& pair_views(f.attributes@) == c.attributes
    &&& component_views(f.components@) == seq![c]
    &&& facts_ok(f.facts)
    &&& facts_acc(f.facts) == root_facts(c)
    &&& f.source_xml_sha256@ == "sha256:"@ + hex_text(sha256_digest(vstd::utf8::encode_utf8(hash_text(c))))
}

fn push_hash_text(c: &MuleComponent, out: &mut String)
    ensures
        final(out)@ == old(out)@ + hash_text(c@),
    decreases c,
{
    let ghost cv = c@;
    proof {
        lemma_component_views_len(c.children@);
    }
    push_str(out, c.qualified_name.as_str());
    push_str(out, "\n");
    let ghost after_name = out@;
    let mut i: usize = 0;
    while i < c.attributes.len()
        invariant
            i <= c.attributes@.len(),
            cv == c@,
            out@ == after_name + attrs_text(pair_views(c.attributes@.subrange(0, i as int))),
        decreases c.attributes.len() - i,
    {
        push_str(out, c.attributes[i].0.as_str());
        push_str(out, "=");
        push_str(out, c.attributes[i].1.as_str());
        push_str(out, "\n");
        proof {
            let next = c.attributes@.subrange(0, i + 1);
            assert(pair_views(next).drop_last() =~= pair_views(c.attributes@.subrange(0, i as int)));
            assert(out@ =~= after_name + attrs_text(pair_views(next)));
        }
        i = i + 1;
    }
    assert(c.attributes@.subrange(0, c.attributes@.len() as int) =~= c.attributes@);
    let ghost after_attrs = out@;
    let mut j: usize = 0;
    while j < c.cdata.len()
        invariant
            j <= c.cdata@.len(),
            cv == c@,
            out@ == after_attrs + cdata_text(c.cdata@.subrange(0, j as int).map_values(|s: String| s@)),
        decreases c.cdata.len() - j,
    {
        push_str(out, c.cdata[j].as_str());
        proof {
            let next = c.cdata@.subrange(0, j + 1).map_values(|s: String| s@);
            assert(next.drop_last() =~= c.cdata@.subrange(0, j as int).map_values(|s: String| s@));
            assert(out@ =~= after_attrs + cdata_text(next));
        }
        j = j + 1;
    }
    assert(c.cdata@.subrange(0, c.cdata@.len() as int).map_values(|s: String| s@) =~= cv.cdata);
    let ghost after_cdata = out@;
    let mut k: usize = 0;
    while k < c.children.len()
        invariant
            k <= c.children@.len(),
            cv == c@,
            cv.children.len() == c.children@.len(),
            out@ == after_cdata + children_text(cv.children.subrange(0, k as int)),
        decreases c.children.len() - k,
    {
        assert(decreases_to!(c => c.children[k as int]));
        proof {
            lemma_component_views_index(c.children@, k as int);
        }
        push_hash_text(&c.children[k], out);
        proof {
            let next = cv.children.subrange(0, k + 1);
            assert(next.drop_last() =~= cv.children.subrange(0, k as int));
            assert(out@ =~= after_cdata + children_text(next));
        }
        k = k + 1;
    }
    assert(cv.children.subrange(0, cv.children.len() as int) =~= cv.children);
    assert(out@ =~= old(out)@ + hash_text(c@));
}

/// `sha256:` and the hexadecimal SHA-256 of the component tree's text.
pub fn component_source_hash(component: &MuleComponent) -> (s: String)
    ensures
        s@ == "sha256:"@ + hex_text(sha256_digest(vstd::utf8::encode_utf8(hash_text(component@)))),
{
    let mut text = String::new();
    push_hash_text(component, &mut text);
    assert(text@ =~= hash_text(component@));
    let digest = digest_of_text(text.as_str());
    let mut s = String::new();
    push_str(&mut s, "sha256:");
    let hex = hex_lower(digest.as_slice());
    push_str(&mut s, hex.as_str());
    s
}

/// The flow made from a closed `flow` or `sub-flow` element.
pub fn into_flow(component: MuleComponent, kind: MuleFlowKind) -> (f: MuleFlow)
    requires
        tree_size(component@) < usize::MAX,
    ensures
        flow_built(f, component@, kind),
{
    proof {
        lemma_attr_lookup_view(component.attributes@, "name"@);
    }
    let name = match lookup_attribute(&component.attributes, "name") {
        Some(n) => n.clone(),
        None => String::new(),
    };
    let facts = compute(&component);
    let source_xml_sha256 = component_source_hash(&component);
    let mut id = String::new();
    push_str(&mut id, "flow:");
    push_str(&mut id, name.as_str());
    let mut attributes: Vec<(String, String)> = Vec::new();
    let mut i: usize = 0;
    while i < component.attributes.len()
        invariant
            i <= component.attributes@.len(),
            attributes@ == component.attributes@.subrange(0, i as int),
        decreases component.attributes.len() - i,
    {
        attributes.push((component.attributes[i].0.clone(), component.attributes[i].1.clone()));
        assert(attributes@ =~= component.attributes@.subrange(0, i + 1));
        i = i + 1;
    }
    assert(attributes@ =~= component.attributes@);
    let source = component.source.clone();
    let ghost cv = component@;
    let mut components: Vec<MuleComponent> = Vec::new();
    components.push(component);
    proof {
        lemma_component_views_push(Seq::empty(), components@[0]);
        assert(Seq::<MuleComponent>::empty().push(components@[0]) =~= components@);
        assert(component_views(Seq::<MuleComponent>::empty()) =~= Seq::<ComponentView>::empty());
        assert(component_views(components@) =~= seq![cv]);
    }
    MuleFlow {
        schema_version: current_schema_version().to_owned(),
        id,
        project_id: String::new(),
        kind,
        name,
        source,
        attributes,
        components,
        facts,
        source_xml_sha256,
    }
}

} // verus!
