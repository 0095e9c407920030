//! The facts of a flow, computed once from its component tree so the rule
//! engine does not walk the tree again: component count and depth,
//! `flow-ref`s, property placeholders, the message source, error
//! handling and embedded DataWeave scripts.

use vstd::prelude::*;
use crate::engine::facts::{attr_lookup, lookup_attribute};
use crate::model::{
    component_view, component_views, lemma_component_views_index, lemma_component_views_len,
    opt_str_view, pair_views, ComponentView, DataWeaveBlock, FlowFacts, FlowRef, MuleComponent,
    SourceSpan, SpanView,
};
use crate::parser::digest::{digest_of_text, hex_lower, hex_text, sha256_digest};
use crate::text::{chars_of, contains, contains_seq, push_str, str_eq, string_of};

verus! {

broadcast use vstd::std_specs::vec::axiom_vec_index_decreases;

/// The value of the first attribute named `key`.
pub open spec fn attr_get(attrs: Seq<(Seq<char>, Seq<char>)>, key: Seq<char>) -> Option<Seq<char>>
    decreases attrs.len(),
{
    if attrs.len() == 0 {
        None
    } else if attrs[0].0 == key {
        Some(attrs[0].1)
    } else {
        attr_get(attrs.drop_first(), key)
    }
}

pub proof fn lemma_attr_lookup_view(attrs: Seq<(String, String)>, key: Seq<char>)
    ensures
        attr_lookup(attrs, key) == attr_get(pair_views(attrs), key),
    decreases attrs.len(),
{
    if attrs.len() > 0 {
        assert(pair_views(attrs.drop_first()) =~= pair_views(attrs).drop_first());
        lemma_attr_lookup_view(attrs.drop_first(), key);
    }
}

/// The number of components in a tree.
pub open spec fn tree_size(c: ComponentView) -> nat
    decreases c,
{
    1 + trees_size(c.children)
}

pub open spec fn trees_size(cs: Seq<ComponentView>) -> nat
    decreases cs,
{
    if cs.len() == 0 {
        0
    } else {
        trees_size(cs.drop_last()) + tree_size(cs.last())
    }
}

/// Position of the first `}` at or after `from`.
pub open spec fn first_close(s: Seq<char>, from: int) -> Option<int>
    decreases s.len() - from,
{
    if from < 0 || from >= s.len() {
        None
    } else if s[from] == '}' {
        Some(from)
    } else {
        first_close(s, from + 1)
    }
}

pub proof fn lemma_first_close_bounds(s: Seq<char>, from: int)
    ensures
        first_close(s, from) matches Some(e) ==> from <= e < s.len() && s[e] == '}',
    decreases s.len() - from,
{
    if 0 <= from < s.len() && s[from] != '}' {
        lemma_first_close_bounds(s, from + 1);
    }
}

/// The names of the `${name}` placeholders of `s` from position `i` on.
pub open spec fn scan_from(s: Seq<char>, i: int) -> Seq<Seq<char>>
    decreases s.len() - i,
{
    if i < 0 || i + 1 >= s.len() {
        Seq::empty()
    } else if s[i] == '$' && s[i + 1] == '{' && first_close(s, i + 2) is Some {
        let end = first_close(s, i + 2)->0;
        proof {
            lemma_first_close_bounds(s, i + 2);
        }
        seq![s.subrange(i + 2, end)] + scan_from(s, end + 1)
    } else {
        scan_from(s, i + 1)
    }
}

proof fn lemma_first_close_plain(s: Seq<char>, from: int, to: int)
    requires
        0 <= from <= to < s.len(),
        forall|k: int| from <= k < to ==> s[k] != '}',
    ensures
        first_close(s, from) == first_close(s, to),
    decreases to - from,
{
    if from < to {
        lemma_first_close_plain(s, from + 1, to);
    }
}

proof fn lemma_first_close_shift(a: Seq<char>, b: Seq<char>, j: int)
    requires
        j >= 0,
    ensures
        first_close(a + b, a.len() + j) == match first_close(b, j) {
            Some(e) => Some(a.len() + e),
            None => None::<int>,
        },
    decreases b.len() - j,
{
    if j < b.len() {
        assert((a + b)[a.len() + j] == b[j]);
        lemma_first_close_shift(a, b, j + 1);
    }
}

proof fn lemma_scan_shift(a: Seq<char>, b: Seq<char>, j: int)
    requires
        j >= 0,
    ensures
        scan_from(a + b, a.len() + j) == scan_from(b, j),
    decreases b.len() - j,
{
    let t = a + b;
    let i = a.len() + j;
    if j + 1 < b.len() {
        assert(t[i] == b[j] && t[i + 1] == b[j + 1]);
        lemma_first_close_shift(a, b, j + 2);
        if b[j] == '$' && b[j + 1] == '{' && first_close(b, j + 2) is Some {
            let e = first_close(b, j + 2)->0;
            lemma_first_close_bounds(b, j + 2);
            assert(t.subrange(i + 2, a.len() + e) =~= b.subrange(j + 2, e));
            lemma_scan_shift(a, b, e + 1);
        } else {
            lemma_scan_shift(a, b, j + 1);
        }
    }
}

proof fn lemma_scan_plain(t: Seq<char>, i: int, j: int)
    requires
        0 <= i <= j <= t.len(),
        forall|k: int| i <= k < j ==> t[k] != '$',
    ensures
        scan_from(t, i) == scan_from(t, j),
    decreases j - i,
{
    if i < j {
        lemma_scan_plain(t, i + 1, j);
    }
}

/// The names of `${...}` placeholders: a value that holds `${name}` after
/// text without `$` gives `name` (when it holds no `}`) first, and then
/// the names found after that placeholder's closing `}`.
pub proof fn law_placeholder_names(pre: Seq<char>, name: Seq<char>, post: Seq<char>)
    requires
        forall|k: int| 0 <= k < pre.len() ==> pre[k] != '$',
        forall|k: int| 0 <= k < name.len() ==> name[k] != '}',
    ensures
        placeholders(pre + "${"@ + name + "}"@ + post) == seq![name] + placeholders(post),
{
    reveal_strlit("${");
    reveal_strlit("}");
    let head = pre + "${"@ + name + "}"@;
    let t = head + post;
    let n = pre.len() as int;
    let e = n + 2 + name.len();
    assert(t == pre + "${"@ + name + "}"@ + post);
    assert forall|k: int| 0 <= k < n implies t[k] != '$' by {
        assert(t[k] == pre[k]);
    }
    lemma_scan_plain(t, 0, n);
    assert(t[n] == '$' && t[n + 1] == '{');
    assert(t[e] == '}');
    assert forall|k: int| n + 2 <= k < e implies t[k] != '}' by {
        assert(t[k] == name[k - n - 2]);
    }
    lemma_first_close_plain(t, n + 2, e);
    assert(first_close(t, e) == Some(e));
    assert(t.subrange(n + 2, e) =~= name);
    assert(head.len() == e + 1);
    lemma_scan_shift(head, post, 0);
}

/// The placeholder names of a value, in order.
pub open spec fn placeholders(s: Seq<char>) -> Seq<Seq<char>> {
    scan_from(s, 0)
}

/// `x` appended to `seen` unless already there.
pub open spec fn add_one(seen: Seq<Seq<char>>, x: Seq<char>) -> Seq<Seq<char>> {
    if seen.contains(x) {
        seen
    } else {
        seen.push(x)
    }
}

/// `names` appended to `seen`, skipping those already there.
pub open spec fn add_unique(seen: Seq<Seq<char>>, names: Seq<Seq<char>>) -> Seq<Seq<char>>
    decreases names.len(),
{
    if names.len() == 0 {
        seen
    } else {
        let p = add_unique(seen, names.drop_last());
        if p.contains(names.last()) {
            p
        } else {
            p.push(names.last())
        }
    }
}

/// The placeholders of every attribute value, in attribute order, added to `seen`.
pub open spec fn attr_placeholders(seen: Seq<Seq<char>>, attrs: Seq<(Seq<char>, Seq<char>)>) -> Seq<
    Seq<char>,
>
    decreases attrs.len(),
{
    if attrs.len() == 0 {
        seen
    } else {
        add_unique(attr_placeholders(seen, attrs.drop_last()), placeholders(attrs.last().1))
    }
}

/// Qualified names of the elements that start a flow.
pub open spec fn is_source_name(q: Seq<char>) -> bool {
    q == "http:listener"@ || q == "http:request"@ || q == "vm:listener"@ || q == "vm:inbound-endpoint"@
        || q == "file:listener"@ || q == "jms:listener"@ || q == "db:listener"@
        || q == "scheduler:scheduling-strategy"@ || q == "sub-flow"@
}

pub open spec fn qualified_or_local(c: ComponentView) -> Seq<char> {
    if c.qualified_name.len() == 0 {
        c.local_name
    } else {
        c.qualified_name
    }
}

/// What the facts record while the tree is walked.
pub struct FactsAcc {
    pub count: int,
    pub max_depth: int,
    pub has_local: bool,
    pub refs: Seq<(Seq<char>, SpanView)>,
    pub props: Seq<Seq<char>>,
    pub source: Option<Seq<char>>,
    pub blocks: Seq<(Seq<char>, SpanView)>,
}

/// The facts one component adds, before its children are walked.
pub open spec fn visit_node(c: ComponentView, depth: int, acc: FactsAcc) -> FactsAcc {
    let a1 = FactsAcc {
        count: acc.count + 1,
        max_depth: if depth > acc.max_depth { depth } else { acc.max_depth },
        ..acc
    };
    let a2 = match attr_get(c.attributes, "name"@) {
        Some(n) => {
            let b = if c.local_name == "flow-ref"@ {
                FactsAcc { refs: a1.refs.push((n, c.source)), ..a1 }
            } else {
                a1
            };
            if c.local_name == "sub-flow"@ {
                FactsAcc { source: Some(qualified_or_local(c) + ":"@ + n), ..b }
            } else {
                b
            }
        },
        None => a1,
    };
    let a3 = if c.local_name == "error-handler"@ {
        FactsAcc { has_local: true, ..a2 }
    } else {
        a2
    };
    let a4 = if a3.source is None && is_source_name(c.qualified_name) {
        FactsAcc { source: Some(c.qualified_name), ..a3 }
    } else {
        a3
    };
    let a5 = FactsAcc {
        blocks: a4.blocks + c.cdata.map_values(|s: Seq<char>| (s, c.source)),
        ..a4
    };
    FactsAcc { props: attr_placeholders(a5.props, c.attributes), ..a5 }
}

/// The facts after walking `c` (at `depth`) and its descendants, depth first.
pub open spec fn walk_spec(c: ComponentView, depth: int, acc: FactsAcc) -> FactsAcc
    decreases c,
{
    walk_children(c.children, depth + 1, visit_node(c, depth, acc))
}

pub open spec fn walk_children(cs: Seq<ComponentView>, depth: int, acc: FactsAcc) -> FactsAcc
    decreases cs,
{
    if cs.len() == 0 {
        acc
    } else {
        walk_spec(cs.last(), depth, walk_children(cs.drop_last(), depth, acc))
    }
}

pub proof fn lemma_walk_count(c: ComponentView, depth: int, acc: FactsAcc)
    ensures
        walk_spec(c, depth, acc).count == acc.count + tree_size(c),
    decreases c,
{
    lemma_walk_children_count(c.children, depth + 1, visit_node(c, depth, acc));
}

pub proof fn lemma_walk_children_count(cs: Seq<ComponentView>, depth: int, acc: FactsAcc)
    ensures
        walk_children(cs, depth, acc).count == acc.count + trees_size(cs),
    decreases cs,
{
    if cs.len() > 0 {
        lemma_walk_children_count(cs.drop_last(), depth, acc);
        lemma_walk_count(cs.last(), depth, walk_children(cs.drop_last(), depth, acc));
    }
}

pub open spec fn max_of(a: int, b: int) -> int {
    if a >= b { a } else { b }
}

/// The number of components on the longest path from `c` down to a leaf.
pub open spec fn tree_height(c: ComponentView) -> int
    decreases c,
{
    1 + trees_height(c.children)
}

pub open spec fn trees_height(cs: Seq<ComponentView>) -> int
    decreases cs,
{
    if cs.len() == 0 {
        0
    } else {
        max_of(trees_height(cs.drop_last()), tree_height(cs.last()))
    }
}

/// The reference a component makes: a `flow-ref` with a name.
pub open spec fn node_ref(c: ComponentView) -> Seq<(Seq<char>, SpanView)> {
    match attr_get(c.attributes, "name"@) {
        Some(n) => if c.local_name == "flow-ref"@ {
            seq![(n, c.source)]
        } else {
            Seq::empty()
        },
        None => Seq::empty(),
    }
}

/// The references of a tree, in pre-order: each target with its place.
pub open spec fn tree_refs(c: ComponentView) -> Seq<(Seq<char>, SpanView)>
    decreases c,
{
    node_ref(c) + trees_refs(c.children)
}

pub open spec fn trees_refs(cs: Seq<ComponentView>) -> Seq<(Seq<char>, SpanView)>
    decreases cs,
{
    if cs.len() == 0 {
        Seq::empty()
    } else {
        trees_refs(cs.drop_last()) + tree_refs(cs.last())
    }
}

/// Whether some component of the tree is an `error-handler`.
pub open spec fn tree_has_handler(c: ComponentView) -> bool
    decreases c,
{
    c.local_name == "error-handler"@ || trees_have_handler(c.children)
}

pub open spec fn trees_have_handler(cs: Seq<ComponentView>) -> bool
    decreases cs,
{
    cs.len() > 0 && (trees_have_handler(cs.drop_last()) || tree_has_handler(cs.last()))
}

/// The CDATA sections of a tree, in pre-order, each with its component's place.
pub open spec fn tree_blocks(c: ComponentView) -> Seq<(Seq<char>, SpanView)>
    decreases c,
{
    c.cdata.map_values(|s: Seq<char>| (s, c.source)) + trees_blocks(c.children)
}

pub open spec fn trees_blocks(cs: Seq<ComponentView>) -> Seq<(Seq<char>, SpanView)>
    decreases cs,
{
    if cs.len() == 0 {
        Seq::empty()
    } else {
        trees_blocks(cs.drop_last()) + tree_blocks(cs.last())
    }
}

/// The number of CDATA sections in a tree.
pub open spec fn tree_cdata_count(c: ComponentView) -> nat
    decreases c,
{
    c.cdata.len() + trees_cdata_count(c.children)
}

pub open spec fn trees_cdata_count(cs: Seq<ComponentView>) -> nat
    decreases cs,
{
    if cs.len() == 0 {
        0
    } else {
        trees_cdata_count(cs.drop_last()) + tree_cdata_count(cs.last())
    }
}

/// The placeholder names of every attribute value, in attribute order, repeats kept.
pub open spec fn attr_names(attrs: Seq<(Seq<char>, Seq<char>)>) -> Seq<Seq<char>>
    decreases attrs.len(),
{
    if attrs.len() == 0 {
        Seq::empty()
    } else {
        attr_names(attrs.drop_last()) + placeholders(attrs.last().1)
    }
}

/// The placeholder names of a tree, in pre-order and then attribute order, repeats kept.
pub open spec fn tree_placeholders(c: ComponentView) -> Seq<Seq<char>>
    decreases c,
{
    attr_names(c.attributes) + trees_placeholders(c.children)
}

pub open spec fn trees_placeholders(cs: Seq<ComponentView>) -> Seq<Seq<char>>
    decreases cs,
{
    if cs.len() == 0 {
        Seq::empty()
    } else {
        trees_placeholders(cs.drop_last()) + tree_placeholders(cs.last())
    }
}

proof fn lemma_trees_height_nonneg(cs: Seq<ComponentView>)
    ensures
        trees_height(cs) >= 0,
    decreases cs.len(),
{
    if cs.len() > 0 {
        lemma_trees_height_nonneg(cs.drop_last());
    }
}

proof fn lemma_add_unique_concat(seen: Seq<Seq<char>>, a: Seq<Seq<char>>, b: Seq<Seq<char>>)
    ensures
        add_unique(seen, a + b) == add_unique(add_unique(seen, a), b),
    decreases b.len(),
{
    if b.len() == 0 {
        assert(a + b =~= a);
    } else {
        lemma_add_unique_concat(seen, a, b.drop_last());
        assert((a + b).drop_last() =~= a + b.drop_last());
        assert((a + b).last() == b.last());
    }
}

proof fn lemma_attr_placeholders(seen: Seq<Seq<char>>, attrs: Seq<(Seq<char>, Seq<char>)>)
    ensures
        attr_placeholders(seen, attrs) == add_unique(seen, attr_names(attrs)),
    decreases attrs.len(),
{
    if attrs.len() > 0 {
        lemma_attr_placeholders(seen, attrs.drop_last());
        lemma_add_unique_concat(seen, attr_names(attrs.drop_last()), placeholders(attrs.last().1));
    }
}

/// What the walk of a tree records, stated per field without the walk:
/// one count per component, the depth of its deepest component, its
/// references and CDATA sections in pre-order, whether it holds an error
/// handler, and each placeholder name the first time it appears.
pub proof fn law_walk_facts(c: ComponentView, depth: int, acc: FactsAcc)
    requires
        depth >= 1,
    ensures
        walk_spec(c, depth, acc).count == acc.count + tree_size(c),
        walk_spec(c, depth, acc).max_depth == max_of(acc.max_depth, depth - 1 + tree_height(c)),
        walk_spec(c, depth, acc).refs == acc.refs + tree_refs(c),
        walk_spec(c, depth, acc).has_local == (acc.has_local || tree_has_handler(c)),
        walk_spec(c, depth, acc).blocks == acc.blocks + tree_blocks(c),
        walk_spec(c, depth, acc).props == add_unique(acc.props, tree_placeholders(c)),
    decreases c,
{
    lemma_walk_count(c, depth, acc);
    lemma_trees_height_nonneg(c.children);
    let v = visit_node(c, depth, acc);
    assert(v.max_depth == max_of(acc.max_depth, depth));
    lemma_attr_placeholders(acc.props, c.attributes);
    assert(v.refs == acc.refs + node_ref(c));
    law_walk_children_facts(c.children, depth + 1, v);
    assert(acc.refs + node_ref(c) + trees_refs(c.children) =~= acc.refs + tree_refs(c));
    assert(acc.blocks + c.cdata.map_values(|s: Seq<char>| (s, c.source)) + trees_blocks(c.children) =~= acc.blocks
        + tree_blocks(c));
    lemma_add_unique_concat(acc.props, attr_names(c.attributes), trees_placeholders(c.children));
}

pub proof fn law_walk_children_facts(cs: Seq<ComponentView>, depth: int, acc: FactsAcc)
    requires
        depth >= 1,
        acc.max_depth >= depth - 1,
    ensures
        walk_children(cs, depth, acc).count == acc.count + trees_size(cs),
        walk_children(cs, depth, acc).max_depth == max_of(acc.max_depth, depth - 1 + trees_height(cs)),
        walk_children(cs, depth, acc).refs == acc.refs + trees_refs(cs),
        walk_children(cs, depth, acc).has_local == (acc.has_local || trees_have_handler(cs)),
        walk_children(cs, depth, acc).blocks == acc.blocks + trees_blocks(cs),
        walk_children(cs, depth, acc).props == add_unique(acc.props, trees_placeholders(cs)),
    decreases cs,
{
    lemma_walk_children_count(cs, depth, acc);
    if cs.len() == 0 {
        assert(acc.refs + trees_refs(cs) =~= acc.refs);
        assert(acc.blocks + trees_blocks(cs) =~= acc.blocks);
    } else {
        let mid = walk_children(cs.drop_last(), depth, acc);
        law_walk_children_facts(cs.drop_last(), depth, acc);
        law_walk_facts(cs.last(), depth, mid);
        assert(acc.refs + trees_refs(cs.drop_last()) + tree_refs(cs.last()) =~= acc.refs + trees_refs(cs));
        assert(acc.blocks + trees_blocks(cs.drop_last()) + tree_blocks(cs.last()) =~= acc.blocks + trees_blocks(cs));
        lemma_add_unique_concat(acc.props, trees_placeholders(cs.drop_last()), tree_placeholders(cs.last()));
    }
}

/// The components of a tree in pre-order: each before its descendants.
pub open spec fn tree_nodes(c: ComponentView) -> Seq<ComponentView>
    decreases c,
{
    seq![c] + trees_nodes(c.children)
}

pub open spec fn trees_nodes(cs: Seq<ComponentView>) -> Seq<ComponentView>
    decreases cs,
{
    if cs.len() == 0 {
        Seq::empty()
    } else {
        trees_nodes(cs.drop_last()) + tree_nodes(cs.last())
    }
}

/// A `sub-flow` element with a name.
pub open spec fn names_sub_flow(c: ComponentView) -> bool {
    c.local_name == "sub-flow"@ && attr_get(c.attributes, "name"@) is Some
}

spec fn node_source(c: ComponentView) -> Option<Seq<char>> {
    if is_source_name(c.qualified_name) {
        Some(c.qualified_name)
    } else {
        None
    }
}

spec fn first_of(a: Option<Seq<char>>, b: Option<Seq<char>>) -> Option<Seq<char>> {
    if a is Some {
        a
    } else {
        b
    }
}

spec fn first_source(s: Seq<ComponentView>) -> Option<Seq<char>>
    decreases s.len(),
{
    if s.len() == 0 {
        None
    } else {
        first_of(first_source(s.drop_last()), node_source(s.last()))
    }
}

proof fn lemma_first_source_concat(a: Seq<ComponentView>, b: Seq<ComponentView>)
    ensures
        first_source(a + b) == first_of(first_source(a), first_source(b)),
    decreases b.len(),
{
    if b.len() == 0 {
        assert(a + b =~= a);
    } else {
        lemma_first_source_concat(a, b.drop_last());
        assert((a + b).drop_last() =~= a + b.drop_last());
        assert((a + b).last() == b.last());
    }
}

proof fn lemma_first_source_is_first(s: Seq<ComponentView>)
    ensures
        first_source(s) matches Some(q) ==> exists|i: int|
            0 <= i < s.len() && is_source_name(#[trigger] s[i].qualified_name) && q == s[i].qualified_name && forall|j: int|
                0 <= j < i ==> !is_source_name(#[trigger] s[j].qualified_name),
        first_source(s) is None ==> forall|i: int| 0 <= i < s.len() ==> !is_source_name(#[trigger] s[i].qualified_name),
    decreases s.len(),
{
    if s.len() > 0 {
        let t = s.drop_last();
        lemma_first_source_is_first(t);
        assert forall|j: int| 0 <= j < t.len() implies #[trigger] t[j] == s[j] by {}
        if let Some(q) = first_source(t) {
            let i = choose|i: int|
                0 <= i < t.len() && is_source_name(#[trigger] t[i].qualified_name) && q == t[i].qualified_name && forall|j: int|
                    0 <= j < i ==> !is_source_name(#[trigger] t[j].qualified_name);
            assert(s[i] == t[i]);
            assert forall|j: int| 0 <= j < i implies !is_source_name(#[trigger] s[j].qualified_name) by {
                assert(s[j] == t[j]);
            }
        } else {
            assert forall|j: int| 0 <= j < t.len() implies !is_source_name(#[trigger] s[j].qualified_name) by {
                assert(s[j] == t[j]);
            }
            assert(s[s.len() - 1] == s.last());
        }
    }
}

proof fn lemma_walk_source(c: ComponentView, depth: int, acc: FactsAcc)
    requires
        forall|i: int| 0 <= i < tree_nodes(c).len() ==> !names_sub_flow(#[trigger] tree_nodes(c)[i]),
    ensures
        walk_spec(c, depth, acc).source == first_of(acc.source, first_source(tree_nodes(c))),
    decreases c,
{
    assert(tree_nodes(c)[0] == c);
    let v = visit_node(c, depth, acc);
    assert(v.source == first_of(acc.source, node_source(c)));
    assert forall|i: int| 0 <= i < trees_nodes(c.children).len() implies !names_sub_flow(
        #[trigger] trees_nodes(c.children)[i],
    ) by {
        assert(tree_nodes(c)[i + 1] == trees_nodes(c.children)[i]);
    }
    lemma_walk_children_source(c.children, depth + 1, v);
    lemma_first_source_concat(seq![c], trees_nodes(c.children));
    assert(seq![c].drop_last() =~= Seq::<ComponentView>::empty());
    assert(seq![c].last() == c);
    assert(first_source(Seq::<ComponentView>::empty()) is None);
    assert(first_source(seq![c]) == node_source(c));
}

proof fn lemma_walk_children_source(cs: Seq<ComponentView>, depth: int, acc: FactsAcc)
    requires
        forall|i: int| 0 <= i < trees_nodes(cs).len() ==> !names_sub_flow(#[trigger] trees_nodes(cs)[i]),
    ensures
        walk_children(cs, depth, acc).source == first_of(acc.source, first_source(trees_nodes(cs))),
    decreases cs,
{
    if cs.len() > 0 {
        let a = trees_nodes(cs.drop_last());
        let b = tree_nodes(cs.last());
        assert(trees_nodes(cs) == a + b);
        assert forall|i: int| 0 <= i < a.len() implies !names_sub_flow(#[trigger] a[i]) by {
            assert((a + b)[i] == a[i]);
        }
        assert forall|i: int| 0 <= i < b.len() implies !names_sub_flow(#[trigger] b[i]) by {
            assert((a + b)[a.len() + i] == b[i]);
        }
        lemma_walk_children_source(cs.drop_last(), depth, acc);
        lemma_walk_source(cs.last(), depth, walk_children(cs.drop_last(), depth, acc));
        lemma_first_source_concat(a, b);
    }
}

/// The facts a flow starts from.
pub open spec fn empty_acc() -> FactsAcc {
    FactsAcc {
        count: 0,
        max_depth: 0,
        has_local: false,
        refs: Seq::empty(),
        props: Seq::empty(),
        source: None,
        blocks: Seq::empty(),
    }
}

/// The source component of a tree without named sub-flows is the
/// qualified name of its first message-source element in pre-order; once
/// found, later elements do not change it; with none there is none.
pub proof fn law_source_is_first_source_element(c: ComponentView)
    requires
        forall|i: int| 0 <= i < tree_nodes(c).len() ==> !names_sub_flow(#[trigger] tree_nodes(c)[i]),
    ensures
        walk_spec(c, 1, empty_acc()).source matches Some(q) ==> exists|i: int|
            0 <= i < tree_nodes(c).len() && is_source_name(#[trigger] tree_nodes(c)[i].qualified_name) && q
                == tree_nodes(c)[i].qualified_name && forall|j: int|
                0 <= j < i ==> !is_source_name(#[trigger] tree_nodes(c)[j].qualified_name),
        walk_spec(c, 1, empty_acc()).source is None ==> forall|i: int|
            0 <= i < tree_nodes(c).len() ==> !is_source_name(#[trigger] tree_nodes(c)[i].qualified_name),
{
    lemma_walk_source(c, 1, empty_acc());
    lemma_first_source_is_first(tree_nodes(c));
}

/// A named sub-flow's source component is its qualified name and its
/// name, whatever source elements lie below it (when none of them is a
/// named sub-flow).
pub proof fn law_sub_flow_source(c: ComponentView)
    requires
        names_sub_flow(c),
        forall|i: int| 0 <= i < trees_nodes(c.children).len() ==> !names_sub_flow(#[trigger] trees_nodes(c.children)[i]),
    ensures
        walk_spec(c, 1, empty_acc()).source == Some(
            qualified_or_local(c) + ":"@ + attr_get(c.attributes, "name"@)->Some_0,
        ),
{
    let v = visit_node(c, 1, empty_acc());
    assert(v.source is Some);
    lemma_walk_children_source(c.children, 2, v);
}

proof fn lemma_blocks_count(c: ComponentView)
    ensures
        tree_blocks(c).len() == tree_cdata_count(c),
    decreases c,
{
    lemma_blocks_count_children(c.children);
}

proof fn lemma_blocks_count_children(cs: Seq<ComponentView>)
    ensures
        trees_blocks(cs).len() == trees_cdata_count(cs),
    decreases cs,
{
    if cs.len() > 0 {
        lemma_blocks_count_children(cs.drop_last());
        lemma_blocks_count(cs.last());
    }
}

/// A DataWeave block made from `content` at `span`.
pub open spec fn block_from(b: DataWeaveBlock, content: Seq<char>, span: SpanView) -> bool {
    &&& b.language@ == "dataweave"@
    &&& opt_str_view(b.version) == if contains_seq(content, "%dw 2.0"@) {
        Some("2.0"@)
    } else {
        None
    }
    &&& b.content_hash@ == "sha256:"@ + hex_text(sha256_digest(vstd::utf8::encode_utf8(content)))
    &&& b.content@ == content
    &&& b.source@ == span
}

/// The record of a facts value.
pub open spec fn facts_acc(f: FlowFacts) -> FactsAcc {
    FactsAcc {
        count: f.component_count as int,
        max_depth: f.max_component_depth as int,
        has_local: f.has_local_error_handler,
        refs: f.flow_refs@.map_values(|r: FlowRef| (r.target@, r.source@)),
        props: f.property_refs@.map_values(|s: String| s@),
        source: opt_str_view(f.source_component),
        blocks: f.dataweave_blocks@.map_values(|b: DataWeaveBlock| (b.content@, b.source@)),
    }
}

/// Facts as the walk builds them: references start unresolved, an error
/// handler found is also effective, blocks are well formed.
pub open spec fn facts_ok(f: FlowFacts) -> bool {
    &&& f.has_effective_error_handler == f.has_local_error_handler
    &&& forall|k: int| 0 <= k < f.flow_refs@.len() ==> !(#[trigger] f.flow_refs@[k]).resolved
    &&& forall|k: int| 0 <= k < f.dataweave_blocks@.len() ==> block_from(
        #[trigger] f.dataweave_blocks@[k],
        f.dataweave_blocks@[k].content@,
        f.dataweave_blocks@[k].source@,
    )
}

fn index_of_close(s: &[char], from: usize) -> (r: Option<usize>)
    requires
        from <= s@.len(),
    ensures
        match r {
            Some(e) => first_close(s@, from as int) == Some(e as int),
            None => first_close(s@, from as int) is None,
        },
{
    let mut j = from;
    while j < s.len()
        invariant
            from <= j <= s@.len(),
            first_close(s@, from as int) == first_close(s@, j as int),
        decreases s.len() - j,
    {
        if s[j] == '}' {
            return Some(j);
        }
        j = j + 1;
    }
    None
}

/// The names of the `${name}` placeholders of `value`, in order.
pub fn scan_placeholders(value: &str) -> (r: Vec<String>)
    ensures
        r@.map_values(|s: String| s@) == placeholders(value@),
{
    let s = chars_of(value);
    let mut out: Vec<String> = Vec::new();
    let mut i: usize = 0;
    let ghost f = |x: String| x@;
    while i < s.len() && s.len() - i > 1
        invariant
            s@ == value@,
            i <= s@.len(),
            f == (|x: String| x@),
            out@.map_values(f) + scan_from(s@, i as int) == placeholders(value@),
        decreases s.len() - i,
    {
        if s[i] == '$' && s[i + 1] == '{' {
            match index_of_close(s.as_slice(), i + 2) {
                Some(end) => {
                    proof {
                        lemma_first_close_bounds(s@, i + 2);
                    }
                    let name = string_of(&s.as_slice()[i + 2..end]);
                    let ghost before = out@.map_values(f);
                    out.push(name);
                    assert(out@.map_values(f) =~= before.push(name@));
                    assert(before.push(name@) + scan_from(s@, end + 1) =~= before + scan_from(s@, i as int));
                    i = end + 1;
                    continue;
                },
                None => {},
            }
        }
        i = i + 1;
    }
    assert(scan_from(s@, i as int) =~= Seq::<Seq<char>>::empty());
    assert(out@.map_values(f) =~= placeholders(value@));
    out
}

/// A DataWeave block holding `content`, hashed with SHA-256 and marked as
/// version 2.0 when it declares `%dw 2.0`.
pub fn make_dataweave_block(content: &str, source: &SourceSpan) -> (b: DataWeaveBlock)
    ensures
        block_from(b, content@, source@),
{
    let digest = digest_of_text(content);
    let mut hash = String::new();
    push_str(&mut hash, "sha256:");
    let hex = hex_lower(digest.as_slice());
    push_str(&mut hash, hex.as_str());
    let cs = chars_of(content);
    let marker = chars_of("%dw 2.0");
    let version = if contains(cs.as_slice(), marker.as_slice()) {
        Some("2.0".to_owned())
    } else {
        None
    };
    DataWeaveBlock {
        language: "dataweave".to_owned(),
        version,
        content_hash: hash,
        content: content.to_owned(),
        source: source.clone(),
    }
}

/// The qualified name, or the local name when it is empty.
pub fn qualified_name_or_local(c: &MuleComponent) -> (s: &str)
    ensures
        s@ == qualified_or_local(c@),
{
    if c.qualified_name.as_str().unicode_len() == 0 {
        c.local_name.as_str()
    } else {
        c.qualified_name.as_str()
    }
}

fn is_source(q: &str) -> (r: bool)
    ensures
        r == is_source_name(q@),
{
    str_eq(q, "http:listener") || str_eq(q, "http:request") || str_eq(q, "vm:listener") || str_eq(
        q,
        "vm:inbound-endpoint",
    ) || str_eq(q, "file:listener") || str_eq(q, "jms:listener") || str_eq(q, "db:listener")
        || str_eq(q, "scheduler:scheduling-strategy") || str_eq(q, "sub-flow")
}

fn add_placeholder(props: &mut Vec<String>, p: String)
    ensures
        final(props)@.map_values(|s: String| s@) == add_one(old(props)@.map_values(|s: String| s@), p@),
{
    let ghost f = |s: String| s@;
    let mut i: usize = 0;
    while i < props.len()
        invariant
            i <= props@.len(),
            f == (|s: String| s@),
            forall|k: int| 0 <= k < i ==> (#[trigger] props@[k])@ != p@,
        decreases props.len() - i,
    {
        if str_eq(props[i].as_str(), p.as_str()) {
            proof {
                assert(props@.map_values(f)[i as int] == p@);
            }
            return;
        }
        i = i + 1;
    }
    let ghost before = props@.map_values(f);
    proof {
        assert(!before.contains(p@)) by {
            if before.contains(p@) {
                let k = choose|k: int| 0 <= k < before.len() && before[k] == p@;
                assert(props@[k]@ == p@);
            }
        }
    }
    props.push(p);
    assert(props@.map_values(f) =~= before.push(p@));
}

proof fn lemma_add_unique_append(seen: Seq<Seq<char>>, a: Seq<Seq<char>>, x: Seq<char>)
    ensures
        add_unique(seen, a.push(x)) == add_one(add_unique(seen, a), x),
{
    assert(a.push(x).drop_last() =~= a);
}

/// Records the placeholders of every attribute value.
fn add_attribute_placeholders(props: &mut Vec<String>, attrs: &Vec<(String, String)>)
    ensures
        final(props)@.map_values(|s: String| s@) == attr_placeholders(
            old(props)@.map_values(|s: String| s@),
            pair_views(attrs@),
        ),
{
    let ghost f = |s: String| s@;
    let ghost start = props@.map_values(f);
    let mut i: usize = 0;
    while i < attrs.len()
        invariant
            i <= attrs@.len(),
            f == (|s: String| s@),
            props@.map_values(f) == attr_placeholders(start, pair_views(attrs@.subrange(0, i as int))),
        decreases attrs.len() - i,
    {
        let names = scan_placeholders(attrs[i].1.as_str());
        let ghost at_start = props@.map_values(f);
        let ghost ns = names@.map_values(f);
        let mut j: usize = 0;
        while j < names.len()
            invariant
                j <= names@.len(),
                f == (|s: String| s@),
                ns == names@.map_values(f),
                props@.map_values(f) == add_unique(at_start, ns.subrange(0, j as int)),
            decreases names.len() - j,
        {
            add_placeholder(props, names[j].clone());
            proof {
                assert(ns.subrange(0, j + 1) =~= ns.subrange(0, j as int).push(ns[j as int]));
                lemma_add_unique_append(at_start, ns.subrange(0, j as int), ns[j as int]);
            }
            j = j + 1;
        }
        proof {
            assert(ns.subrange(0, ns.len() as int) =~= ns);
            let next = attrs@.subrange(0, i + 1);
            assert(pair_views(next).drop_last() =~= pair_views(attrs@.subrange(0, i as int)));
            assert(pair_views(next).last() == (attrs@[i as int].0@, attrs@[i as int].1@));
        }
        i = i + 1;
    }
    assert(attrs@.subrange(0, attrs@.len() as int) =~= attrs@);
}

/// Records what `component` itself contributes.
fn visit_component(component: &MuleComponent, depth: usize, facts: &mut FlowFacts)
    requires
        facts_ok(*old(facts)),
        old(facts).component_count < usize::MAX,
    ensures
        facts_ok(*final(facts)),
        facts_acc(*final(facts)) == visit_node(component@, depth as int, facts_acc(*old(facts))),
{
    let ghost c = component@;
    let ghost acc = facts_acc(*facts);
    facts.component_count = facts.component_count + 1;
    if depth > facts.max_component_depth {
        facts.max_component_depth = depth;
    }
    let ghost a1 = facts_acc(*facts);
    assert(a1 == FactsAcc {
        count: acc.count + 1,
        max_depth: if depth > acc.max_depth { depth as int } else { acc.max_depth },
        ..acc
    });
    proof {
        lemma_attr_lookup_view(component.attributes@, "name"@);
    }
    match lookup_attribute(&component.attributes, "name") {
        Some(name) => {
            if str_eq(component.local_name.as_str(), "flow-ref") {
                let ghost before = facts.flow_refs@;
                facts.flow_refs.push(
                    FlowRef { target: name.clone(), resolved: false, source: component.source.clone() },
                );
                assert(facts.flow_refs@.map_values(|r: FlowRef| (r.target@, r.source@)) =~= before.map_values(
                    |r: FlowRef| (r.target@, r.source@),
                ).push((name@, c.source)));
            }
            if str_eq(component.local_name.as_str(), "sub-flow") {
                let mut s = String::new();
                push_str(&mut s, qualified_name_or_local(component));
                push_str(&mut s, ":");
                push_str(&mut s, name.as_str());
                facts.source_component = Some(s);
            }
        },
        None => {},
    }
    if str_eq(component.local_name.as_str(), "error-handler") {
        facts.has_local_error_handler = true;
        facts.has_effective_error_handler = true;
    }
    if facts.source_component.is_none() {
        let q = component.qualified_name.as_str();
        if is_source(q) {
            facts.source_component = Some(q.to_owned());
        }
    }
    let ghost a4 = facts_acc(*facts);
    let mut k: usize = 0;
    while k < component.cdata.len()
        invariant
            k <= component.cdata@.len(),
            c == component@,
            facts_ok(*facts),
            facts_acc(*facts) == (FactsAcc {
                blocks: a4.blocks + c.cdata.subrange(0, k as int).map_values(|s: Seq<char>| (s, c.source)),
                ..a4
            }),
        decreases component.cdata.len() - k,
    {
        let ghost before = facts.dataweave_blocks@;
        let b = make_dataweave_block(component.cdata[k].as_str(), &component.source);
        facts.dataweave_blocks.push(b);
        proof {
            lemma_component_views_len(component.children@);
            assert(c.cdata[k as int] == component.cdata@[k as int]@);
            let g = |s: Seq<char>| (s, c.source);
            assert(c.cdata.subrange(0, k + 1).map_values(g) =~= c.cdata.subrange(0, k as int).map_values(g).push(
                (component.cdata@[k as int]@, c.source),
            ));
            assert(facts.dataweave_blocks@.map_values(|b: DataWeaveBlock| (b.content@, b.source@))
                =~= before.map_values(|b: DataWeaveBlock| (b.content@, b.source@)).push(
                (component.cdata@[k as int]@, c.source),
            ));
        }
        k = k + 1;
    }
    assert(c.cdata.subrange(0, c.cdata.len() as int) =~= c.cdata);
    add_attribute_placeholders(&mut facts.property_refs, &component.attributes);
}

/// Walks `component` and its descendants depth first, `component` at `depth`.
pub fn walk(component: &MuleComponent, depth: usize, facts: &mut FlowFacts)
    requires
        facts_ok(*old(facts)),
        old(facts).component_count + tree_size(component@) <= usize::MAX,
        depth + tree_size(component@) <= usize::MAX,
    ensures
        facts_ok(*final(facts)),
        facts_acc(*final(facts)) == walk_spec(component@, depth as int, facts_acc(*old(facts))),
    decreases component,
{
    let ghost c = component@;
    proof {
        lemma_component_views_len(component.children@);
    }
    visit_component(component, depth, facts);
    let ghost start = facts_acc(*facts);
    let mut i: usize = 0;
    while i < component.children.len()
        invariant
            i <= component.children@.len(),
            c == component@,
            c.children.len() == component.children@.len(),
            facts_ok(*facts),
            facts_acc(*facts) == walk_children(c.children.subrange(0, i as int), depth + 1, start),
            start.count + trees_size(c.children) <= usize::MAX,
            depth + 1 + trees_size(c.children) <= usize::MAX,
        decreases component.children.len() - i,
    {
        assert(decreases_to!(component => component.children[i as int]));
        proof {
            lemma_component_views_index(component.children@, i as int);
            lemma_walk_children_count(c.children.subrange(0, i as int), depth + 1, start);
            lemma_trees_size_prefix(c.children, i as int);
        }
        walk(&component.children[i], depth + 1, facts);
        proof {
            let next = c.children.subrange(0, i + 1);
            assert(next.drop_last() =~= c.children.subrange(0, i as int));
        }
        i = i + 1;
    }
    assert(c.children.subrange(0, c.children.len() as int) =~= c.children);
}

/// The size of a prefix plus the next tree is at most the size of all.
proof fn lemma_trees_size_prefix(cs: Seq<ComponentView>, i: int)
    requires
        0 <= i < cs.len(),
    ensures
        trees_size(cs.subrange(0, i)) + tree_size(cs[i]) <= trees_size(cs),
        tree_size(cs[i]) <= trees_size(cs),
    decreases cs.len() - i,
{
    if i == cs.len() - 1 {
        assert(cs.drop_last() =~= cs.subrange(0, i));
    } else {
        lemma_trees_size_prefix(cs.drop_last(), i);
        assert(cs.drop_last().subrange(0, i) =~= cs.subrange(0, i));
        assert(cs.drop_last()[i] == cs[i]);
    }
}

/// The size of a prefix plus the next tree is at most the size of all.
pub proof fn lemma_trees_size_prefix_pub(cs: Seq<ComponentView>, i: int)
    requires
        0 <= i < cs.len(),
    ensures
        trees_size(cs.subrange(0, i)) + tree_size(cs[i]) <= trees_size(cs),
        tree_size(cs[i]) <= trees_size(cs),
{
    lemma_trees_size_prefix(cs, i);
}

/// The facts of a flow's component tree.
pub fn compute(component: &MuleComponent) -> (f: FlowFacts)
    requires
        tree_size(component@) < usize::MAX,
    ensures
        facts_ok(f),
        facts_acc(f) == walk_spec(
            component@,
            1,
            FactsAcc {
                count: 0,
                max_depth: 0,
                has_local: false,
                refs: Seq::empty(),
                props: Seq::empty(),
                source: None,
                blocks: Seq::empty(),
            },
        ),
        f.component_count == tree_size(component@),
        f.max_component_depth == tree_height(component@),
        f.flow_refs@.map_values(|r: FlowRef| (r.target@, r.source@)) == tree_refs(component@),
        f.has_local_error_handler == tree_has_handler(component@),
        f.has_effective_error_handler == tree_has_handler(component@),
        f.property_refs@.map_values(|s: String| s@) == add_unique(Seq::empty(), tree_placeholders(component@)),
        f.dataweave_blocks@.map_values(|b: DataWeaveBlock| (b.content@, b.source@)) == tree_blocks(component@),
        f.dataweave_blocks@.len() == tree_cdata_count(component@),
{
    let mut facts = FlowFacts::empty();
    assert(facts_acc(facts).refs =~= Seq::<(Seq<char>, SpanView)>::empty());
    assert(facts_acc(facts).props =~= Seq::<Seq<char>>::empty());
    assert(facts_acc(facts).blocks =~= Seq::<(Seq<char>, SpanView)>::empty());
    assert(facts_acc(facts) == FactsAcc {
        count: 0,
        max_depth: 0,
        has_local: false,
        refs: Seq::empty(),
        props: Seq::empty(),
        source: None,
        blocks: Seq::empty(),
    });
    let ghost start = facts_acc(facts);
    walk(component, 1, &mut facts);
    proof {
        law_walk_facts(component@, 1, start);
        lemma_trees_height_nonneg(component@.children);
        lemma_blocks_count(component@);
        assert(start.refs + tree_refs(component@) =~= tree_refs(component@));
        assert(start.blocks + tree_blocks(component@) =~= tree_blocks(component@));
    }
    facts
}

} // verus!
