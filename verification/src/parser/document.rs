//! Building a [`MuleDocument`] from the tokens of one XML file.
//!
//! Elements are kept on a stack while open; a closed element becomes a
//! child of the element below it, or, at the top, a flow, a sub-flow or
//! a global element. The `<mule>` root is transparent: when it closes its
//! children are placed as if they had been at the top.

use vstd::prelude::*;
use crate::engine::facts::lookup_attribute;
use crate::model::{
    component_view, current_schema_version, opt_str_view, pair_views, ComponentView,
    Diagnostic, DiagnosticLevel, DiagnosticStage, GlobalConfigIndex, MuleComponent, MuleDocument,
    MuleFlow, MuleFlowKind, SourceSpan, SpanView,
};
use crate::parser::facts::{attr_get, lemma_attr_lookup_view, tree_size, trees_size};
use crate::parser::flow::{flow_built, into_flow};
use crate::parser::xml::{
    attr_map, collect_attributes, component_id, line_column_for, local_part, pad4,
    position_of, qualified_part, split_name, item_view, items_view, XmlItem, XmlItemView, XmlToken,
    XmlTokenView,
};
use crate::text::{decimal, push_str, push_u64, str_eq};

verus! {

broadcast use vstd::std_specs::vec::axiom_vec_index_decreases;

/// Where closed elements have gone so far.
pub struct Tree {
    pub stack: Seq<ComponentView>,
    pub top: Seq<ComponentView>,
    pub flows: Seq<ComponentView>,
    pub subs: Seq<ComponentView>,
}

/// `c` closed: it joins the element below it, or is placed at the top.
pub open spec fn finish(t: Tree, c: ComponentView) -> Tree
    decreases c,
{
    if t.stack.len() > 0 {
        let p = t.stack.last();
        Tree {
            stack: t.stack.update(t.stack.len() - 1, ComponentView { children: p.children.push(c), ..p }),
            ..t
        }
    } else if c.local_name == "mule"@ {
        finish_all(t, c.children)
    } else if c.local_name == "flow"@ {
        Tree { flows: t.flows.push(c), ..t }
    } else if c.local_name == "sub-flow"@ {
        Tree { subs: t.subs.push(c), ..t }
    } else {
        Tree { top: t.top.push(c), ..t }
    }
}

pub open spec fn finish_all(t: Tree, cs: Seq<ComponentView>) -> Tree
    decreases cs,
{
    if cs.len() == 0 {
        t
    } else {
        finish(finish_all(t, cs.drop_last()), cs.last())
    }
}

/// The number of components held anywhere in the tree.
pub open spec fn live(t: Tree) -> nat {
    trees_size(t.stack) + trees_size(t.top) + trees_size(t.flows) + trees_size(t.subs)
}

proof fn lemma_trees_size_update_last(s: Seq<ComponentView>, x: ComponentView)
    requires
        s.len() > 0,
    ensures
        trees_size(s.update(s.len() - 1, x)) == trees_size(s.drop_last()) + tree_size(x),
        trees_size(s) == trees_size(s.drop_last()) + tree_size(s.last()),
{
    assert(s.update(s.len() - 1, x).drop_last() =~= s.drop_last());
}

proof fn lemma_finish_live(t: Tree, c: ComponentView)
    ensures
        live(finish(t, c)) <= live(t) + tree_size(c),
        finish(t, c).stack.len() == t.stack.len(),
        t.stack.len() > 0 ==> finish(t, c).stack.drop_last() == t.stack.drop_last(),
    decreases c,
{
    if t.stack.len() > 0 {
        let p = t.stack.last();
        let np = ComponentView { children: p.children.push(c), ..p };
        lemma_trees_size_update_last(t.stack, np);
        assert(p.children.push(c).drop_last() =~= p.children);
        assert(t.stack.update(t.stack.len() - 1, np).drop_last() =~= t.stack.drop_last());
        assert(tree_size(np) == tree_size(p) + tree_size(c));
    } else if c.local_name == "mule"@ {
        lemma_finish_all_live(t, c.children);
    } else {
        assert(t.top.push(c).drop_last() =~= t.top);
        assert(t.flows.push(c).drop_last() =~= t.flows);
        assert(t.subs.push(c).drop_last() =~= t.subs);
    }
}

proof fn lemma_finish_all_live(t: Tree, cs: Seq<ComponentView>)
    ensures
        live(finish_all(t, cs)) <= live(t) + trees_size(cs),
        finish_all(t, cs).stack.len() == t.stack.len(),
        t.stack.len() > 0 ==> finish_all(t, cs).stack.drop_last() == t.stack.drop_last(),
    decreases cs,
{
    if cs.len() > 0 {
        lemma_finish_all_live(t, cs.drop_last());
        lemma_finish_live(finish_all(t, cs.drop_last()), cs.last());
    }
}

/// The state of the builder between tokens.
pub struct BuildState {
    pub tree: Tree,
    pub counter: nat,
    pub depth: nat,
    pub line: nat,
    pub line_start: nat,
}

/// The element a start or empty tag opens, numbered `counter` and
/// located at `line` and `col` of `file`.
pub open spec fn new_component(
    raw: Seq<char>,
    attrs: Seq<(Seq<char>, Seq<char>)>,
    counter: nat,
    file: Seq<char>,
    line: int,
    col: int,
) -> ComponentView {
    ComponentView {
        id: "component:"@ + pad4(counter),
        qualified_name: qualified_part(raw),
        local_name: local_part(raw),
        namespace_uri: None,
        attributes: attr_map(attrs),
        text: None,
        cdata: Seq::empty(),
        children: Seq::empty(),
        source: SpanView {
            file,
            start_line: line as u32,
            start_column: col as u32,
            end_line: line as u32,
            end_column: col as u32,
        },
    }
}

/// A diagnostic of the XML stage: its code and message.
pub struct XmlProblem {
    pub code: Seq<char>,
    pub message: Seq<char>,
}

pub open spec fn depth_problem(max_depth: nat, file: Seq<char>) -> XmlProblem {
    XmlProblem { code: "XML-002"@, message: "XML depth exceeds "@ + decimal(max_depth) + " in "@ + file }
}

pub open spec fn syntax_problem(file: Seq<char>, error: Seq<char>) -> XmlProblem {
    XmlProblem { code: "XML-001"@, message: "XML syntax error in "@ + file + ": "@ + error }
}

/// The state after one token (end of input excluded).
pub open spec fn step(st: BuildState, item: XmlItemView, bytes: Seq<u8>, file: Seq<char>, max_depth: nat) -> Result<
    BuildState,
    XmlProblem,
> {
    let t = st.tree;
    match item.token {
        XmlTokenView::Start { name, attributes } => {
            if st.depth + 1 > max_depth {
                Err(depth_problem(max_depth, file))
            } else {
                let (l, s, col) = position_of(bytes, item.offset as int, st.line as int, st.line_start as int);
                let c = new_component(name, attributes, st.counter + 1, file, l, col);
                Ok(
                    BuildState {
                        tree: Tree { stack: t.stack.push(c), ..t },
                        counter: st.counter + 1,
                        depth: st.depth + 1,
                        line: l as nat,
                        line_start: s as nat,
                    },
                )
            }
        },
        XmlTokenView::Empty { name, attributes } => {
            let (l, s, col) = position_of(bytes, item.offset as int, st.line as int, st.line_start as int);
            let c = new_component(name, attributes, st.counter + 1, file, l, col);
            Ok(
                BuildState {
                    tree: finish(t, c),
                    counter: st.counter + 1,
                    line: l as nat,
                    line_start: s as nat,
                    ..st
                },
            )
        },
        XmlTokenView::End => {
            let depth = (st.depth - 1) as nat;
            if t.stack.len() > 0 {
                Ok(
                    BuildState {
                        tree: finish(Tree { stack: t.stack.drop_last(), ..t }, t.stack.last()),
                        depth,
                        ..st
                    },
                )
            } else {
                Ok(BuildState { depth, ..st })
            }
        },
        XmlTokenView::Text(piece) => {
            if t.stack.len() > 0 && piece.len() > 0 {
                let p = t.stack.last();
                let text = match p.text {
                    Some(e) => e + piece,
                    None => piece,
                };
                Ok(
                    BuildState {
                        tree: Tree {
                            stack: t.stack.update(t.stack.len() - 1, ComponentView { text: Some(text), ..p }),
                            ..t
                        },
                        ..st
                    },
                )
            } else {
                Ok(st)
            }
        },
        XmlTokenView::CData(raw) => {
            if t.stack.len() > 0 {
                let p = t.stack.last();
                Ok(
                    BuildState {
                        tree: Tree {
                            stack: t.stack.update(
                                t.stack.len() - 1,
                                ComponentView { cdata: p.cdata.push(raw), ..p },
                            ),
                            ..t
                        },
                        ..st
                    },
                )
            } else {
                Ok(st)
            }
        },
        XmlTokenView::Error(e) => Err(syntax_problem(file, e)),
        _ => Ok(st),
    }
}

pub open spec fn initial_state() -> BuildState {
    BuildState {
        tree: Tree { stack: Seq::empty(), top: Seq::empty(), flows: Seq::empty(), subs: Seq::empty() },
        counter: 0,
        depth: 0,
        line: 1,
        line_start: 0,
    }
}

/// The state after the tokens up to the end of input, and whether the
/// end was reached; or the first problem.
pub open spec fn run(items: Seq<XmlItemView>, bytes: Seq<u8>, file: Seq<char>, max_depth: nat) -> Result<
    (BuildState, bool),
    XmlProblem,
>
    decreases items.len(),
{
    if items.len() == 0 {
        Ok((initial_state(), false))
    } else {
        match run(items.drop_last(), bytes, file, max_depth) {
            Err(p) => Err(p),
            Ok((st, true)) => Ok((st, true)),
            Ok((st, false)) => if items.last().token is Eof {
                Ok((st, true))
            } else {
                match step(st, items.last(), bytes, file, max_depth) {
                    Err(p) => Err(p),
                    Ok(next) => Ok((next, false)),
                }
            },
        }
    }
}

/// The nesting depth after the first `n` tokens.
pub open spec fn depth_after(items: Seq<XmlItemView>, n: int) -> int
    decreases n,
{
    if n <= 0 {
        0
    } else {
        depth_after(items, n - 1) + match items[n - 1].token {
            XmlTokenView::Start { .. } => 1int,
            XmlTokenView::End => -1int,
            _ => 0int,
        }
    }
}

/// Tokens as a reader produces them: offsets never decrease and stay
/// within the input, and no end tag closes more than was opened.
pub open spec fn well_formed_items(items: Seq<XmlItemView>, bytes: Seq<u8>) -> bool {
    &&& forall|i: int, j: int| 0 <= i <= j < items.len() ==> #[trigger] items[i].offset <= #[trigger] items[j].offset
    &&& forall|i: int| 0 <= i < items.len() ==> #[trigger] items[i].offset <= bytes.len()
    &&& forall|n: int| 0 <= n <= items.len() ==> #[trigger] depth_after(items, n) >= 0
}

/// The global configuration entries: every top-level element with a `name`.
pub open spec fn globals_of(top: Seq<ComponentView>) -> Seq<(Seq<char>, Seq<char>, SpanView)>
    decreases top.len(),
{
    if top.len() == 0 {
        Seq::empty()
    } else {
        let c = top.last();
        globals_of(top.drop_last()) + match attr_get(c.attributes, "name"@) {
            Some(n) => seq![(c.qualified_name, n, c.source)],
            None => Seq::empty(),
        }
    }
}

pub open spec fn flows_built(fs: Seq<MuleFlow>, cs: Seq<ComponentView>, kind: MuleFlowKind) -> bool {
    fs.len() == cs.len() && forall|i: int| 0 <= i < fs.len() ==> flow_built(#[trigger] fs[i], cs[i], kind)
}

/// `d` is the document of `file` whose tree ended as `t`.
pub open spec fn document_built(d: MuleDocument, t: Tree, file: Seq<char>) -> bool {
    &&& d.schema_version@ == seq!['1', '.', '0']
    &&& d.id@ == "document:"@ + file
    &&& d.project_id@ == Seq::<char>::empty()
    &&& d.source@ == (SpanView { file, start_line: 1, start_column: 1, end_line: 1, end_column: 1 })
    &&& flows_built(d.flows@, t.flows, MuleFlowKind::Flow)
    &&& flows_built(d.sub_flows@, t.subs, MuleFlowKind::SubFlow)
    &&& d.global_configurations@.map_values(|g: GlobalConfigIndex| (g.qualified_name@, g.name@, g.source@))
        == globals_of(t.top)
}

pub open spec fn problem_is(d: Diagnostic, p: XmlProblem) -> bool {
    &&& d.stage == DiagnosticStage::Xml
    &&& d.level == DiagnosticLevel::Error
    &&& d.code@ == p.code
    &&& d.message@ == p.message
}

struct ElementFrame {
    component: MuleComponent,
}

spec fn frames_view(s: Seq<ElementFrame>) -> Seq<ComponentView> {
    s.map_values(|f: ElementFrame| f.component@)
}

spec fn comps_view(s: Seq<MuleComponent>) -> Seq<ComponentView> {
    s.map_values(|c: MuleComponent| c@)
}

spec fn tree_matches(
    t: Tree,
    stack: Seq<ElementFrame>,
    top: Seq<MuleComponent>,
    flows: Seq<MuleFlow>,
    subs: Seq<MuleFlow>,
) -> bool {
    &&& frames_view(stack) == t.stack
    &&& comps_view(top) == t.top
    &&& flows_built(flows, t.flows, MuleFlowKind::Flow)
    &&& flows_built(subs, t.subs, MuleFlowKind::SubFlow)
}

/// Places a closed element: under the open element below it, or at the
/// top, where `<mule>` passes its children through.
#[verifier::loop_isolation(false)]
fn finish_component(
    stack: &mut Vec<ElementFrame>,
    top: &mut Vec<MuleComponent>,
    flows: &mut Vec<MuleFlow>,
    sub_flows: &mut Vec<MuleFlow>,
    component: MuleComponent,
    Ghost(t): Ghost<Tree>,
)
    requires
        tree_matches(t, old(stack)@, old(top)@, old(flows)@, old(sub_flows)@),
        tree_size(component@) < usize::MAX,
    ensures
        tree_matches(finish(t, component@), final(stack)@, final(top)@, final(flows)@, final(sub_flows)@),
    decreases component,
{
    let ghost cv = component@;
    if stack.len() > 0 {
        let mut parent = stack.pop().unwrap();
        let ghost pv = parent.component@;
        let ghost comp = component;
        let ghost old_children = parent.component.children@;
        parent.component.children.push(component);
        proof {
            crate::model::lemma_component_views_push(old_children, comp);
            assert(parent.component@ == (ComponentView { children: pv.children.push(cv), ..pv }));
        }
        stack.push(parent);
        proof {
            assert(frames_view(stack@) =~= t.stack.update(t.stack.len() - 1, ComponentView { children: pv.children.push(cv), ..pv }));
        }
        return;
    }
    if str_eq(component.local_name.as_str(), "mule") {
        let ghost orig = component;
        let ghost kids = cv.children;
        proof {
            crate::model::lemma_component_views_len(component.children@);
        }
        let mut children = component.children;
        let ghost all = children@;
        let total = children.len();
        let mut k: usize = 0;
        while children.len() > 0
            invariant
                k <= all.len(),
                all.len() == total,
                children@ == all.subrange(k as int, all.len() as int),
                all == orig.children@,
                kids == crate::model::component_views(all),
                kids.len() == all.len(),
                tree_size(cv) < usize::MAX,
                cv == component_view(orig),
                stack@.len() == 0,
                tree_matches(finish_all(t, kids.subrange(0, k as int)), stack@, top@, flows@, sub_flows@),
            decreases children.len(),
        {
            let child = children.remove(0);
            proof {
                assert(child == all[k as int]);
                crate::model::lemma_component_views_index(all, k as int);
                crate::parser::facts::lemma_trees_size_prefix_pub(kids, k as int);
                lemma_finish_all_live(t, kids.subrange(0, k as int));
                assert(decreases_to!(orig => orig.children));
                assert(decreases_to!(orig.children => orig.children@[k as int]));
                assert(decreases_to!(orig => child));
            }
            finish_component(stack, top, flows, sub_flows, child, Ghost(finish_all(t, kids.subrange(0, k as int))));
            proof {
                lemma_finish_live(finish_all(t, kids.subrange(0, k as int)), kids[k as int]);
                let next = kids.subrange(0, k + 1);
                assert(next.drop_last() =~= kids.subrange(0, k as int));
                assert(children@ =~= all.subrange(k + 1, all.len() as int));
            }
            k = k + 1;
        }
        assert(kids.subrange(0, kids.len() as int) =~= kids);
        return;
    }
    if str_eq(component.local_name.as_str(), "flow") {
        let f = into_flow(component, MuleFlowKind::Flow);
        flows.push(f);
        assert(flows_built(flows@, t.flows.push(cv), MuleFlowKind::Flow)) by {
            assert forall|i: int| 0 <= i < flows@.len() implies flow_built(#[trigger] flows@[i], t.flows.push(cv)[i], MuleFlowKind::Flow) by {
                if i < flows@.len() - 1 {
                    assert(flows@[i] == old(flows)@[i]);
                }
            }
        }
    } else if str_eq(component.local_name.as_str(), "sub-flow") {
        let f = into_flow(component, MuleFlowKind::SubFlow);
        sub_flows.push(f);
        assert(flows_built(sub_flows@, t.subs.push(cv), MuleFlowKind::SubFlow)) by {
            assert forall|i: int| 0 <= i < sub_flows@.len() implies flow_built(#[trigger] sub_flows@[i], t.subs.push(cv)[i], MuleFlowKind::SubFlow) by {
                if i < sub_flows@.len() - 1 {
                    assert(sub_flows@[i] == old(sub_flows)@[i]);
                }
            }
        }
    } else {
        top.push(component);
        assert(comps_view(top@) =~= t.top.push(cv));
    }
}

struct Builder {
    stack: Vec<ElementFrame>,
    top: Vec<MuleComponent>,
    flows: Vec<MuleFlow>,
    sub_flows: Vec<MuleFlow>,
    counter: usize,
    depth: usize,
    line: u64,
    line_start: u64,
}

impl Builder {
    spec fn matches(&self, st: BuildState) -> bool {
        &&& tree_matches(st.tree, self.stack@, self.top@, self.flows@, self.sub_flows@)
        &&& self.counter as nat == st.counter
        &&& self.depth as nat == st.depth
        &&& self.line as nat == st.line
        &&& self.line_start as nat == st.line_start
    }
}

proof fn lemma_trees_size_last(s: Seq<ComponentView>)
    requires
        s.len() > 0,
    ensures
        tree_size(s.last()) <= trees_size(s),
        trees_size(s) == trees_size(s.drop_last()) + tree_size(s.last()),
{
}

fn xml_diagnostic(code: &str, message: String) -> (d: Diagnostic)
    ensures
        d.stage == DiagnosticStage::Xml,
        d.level == DiagnosticLevel::Error,
        d.code@ == code@,
        d.message == message,
{
    Diagnostic::new(DiagnosticStage::Xml, code, DiagnosticLevel::Error, message)
}

fn new_element(
    b: &mut Builder,
    name: &String,
    attributes: &Vec<(String, String)>,
    offset: u64,
    bytes: &[u8],
    relative: &str,
) -> (c: MuleComponent)
    requires
        old(b).line_start <= offset <= bytes@.len(),
        old(b).line <= 1 + old(b).line_start,
        bytes@.len() < 0x4000_0000_0000_0000,
        old(b).counter < usize::MAX,
    ensures
        ({
            let (l, s, col) = position_of(bytes@, offset as int, old(b).line as int, old(b).line_start as int);
            &&& c@ == new_component(name@, pair_views(attributes@), (old(b).counter + 1) as nat, relative@, l, col)
            &&& final(b).line as int == l
            &&& final(b).line_start as int == s
        }),
        final(b).counter == old(b).counter + 1,
        final(b).line_start <= offset,
        final(b).line <= 1 + final(b).line_start,
        final(b).stack == old(b).stack,
        final(b).top == old(b).top,
        final(b).flows == old(b).flows,
        final(b).sub_flows == old(b).sub_flows,
        final(b).depth == old(b).depth,
{
    let (qualified_name, local_name) = split_name(name.as_str());
    let attrs = collect_attributes(attributes);
    let (line, col) = line_column_for(bytes, offset, &mut b.line, &mut b.line_start);
    b.counter = b.counter + 1;
    let id = component_id(b.counter as u64);
    let source = SourceSpan::point(relative, line as u32, col as u32);
    let c = MuleComponent {
        id,
        qualified_name,
        local_name,
        namespace_uri: None,
        attributes: attrs,
        text: None,
        cdata: Vec::new(),
        children: Vec::new(),
        source,
    };
    proof {
        assert(c@.cdata =~= Seq::<Seq<char>>::empty());
        assert(c@.children =~= Seq::<ComponentView>::empty());
    }
    c
}

/// Applies one token (not the end of input) to the builder.
fn apply(
    b: &mut Builder,
    item: &XmlItem,
    bytes: &[u8],
    relative: &str,
    max_depth: usize,
    Ghost(st): Ghost<BuildState>,
) -> (r: Result<(), Diagnostic>)
    requires
        old(b).matches(st),
        !(item.token is Eof),
        live(st.tree) <= st.counter,
        st.counter < usize::MAX,
        st.tree.stack.len() <= st.depth,
        item.token is End ==> st.depth >= 1,
        st.line_start <= item.offset <= bytes@.len(),
        st.line <= 1 + st.line_start,
        bytes@.len() < 0x4000_0000_0000_0000,
    ensures
        match step(st, item_view(*item), bytes@, relative@, max_depth as nat) {
            Err(p) => r matches Err(d) && problem_is(d, p),
            Ok(next) => {
                &&& r is Ok
                &&& final(b).matches(next)
                &&& live(next.tree) <= next.counter
                &&& next.counter <= st.counter + 1
                &&& next.tree.stack.len() <= next.depth
                &&& next.line_start <= item.offset
                &&& next.line <= 1 + next.line_start
            },
        },
{
    match &item.token {
        XmlToken::Start { name, attributes } => {
            if b.depth >= max_depth {
                let mut m = String::new();
                push_str(&mut m, "XML depth exceeds ");
                push_u64(&mut m, max_depth as u64);
                push_str(&mut m, " in ");
                push_str(&mut m, relative);
                return Err(xml_diagnostic("XML-002", m));
            }
            let c = new_element(b, name, attributes, item.offset, bytes, relative);
            let ghost cv = c@;
            b.stack.push(ElementFrame { component: c });
            b.depth = b.depth + 1;
            proof {
                assert(frames_view(b.stack@) =~= st.tree.stack.push(cv));
                assert(st.tree.stack.push(cv).drop_last() =~= st.tree.stack);
                assert(tree_size(cv) == 1);
                assert(trees_size(st.tree.stack.push(cv)) == trees_size(st.tree.stack) + 1);
            }
            Ok(())
        },
        XmlToken::Empty { name, attributes } => {
            let c = new_element(b, name, attributes, item.offset, bytes, relative);
            let ghost cv = c@;
            proof {
                assert(tree_size(cv) == 1);
                lemma_finish_live(st.tree, cv);
            }
            finish_component(&mut b.stack, &mut b.top, &mut b.flows, &mut b.sub_flows, c, Ghost(st.tree));
            Ok(())
        },
        XmlToken::End => {
            b.depth = b.depth - 1;
            if b.stack.len() > 0 {
                let frame = b.stack.pop().unwrap();
                let ghost rest = Tree { stack: st.tree.stack.drop_last(), ..st.tree };
                proof {
                    assert(frames_view(b.stack@) =~= st.tree.stack.drop_last());
                    lemma_trees_size_last(st.tree.stack);
                    lemma_finish_live(rest, st.tree.stack.last());
                }
                finish_component(&mut b.stack, &mut b.top, &mut b.flows, &mut b.sub_flows, frame.component, Ghost(rest));
            }
            Ok(())
        },
        XmlToken::Text(piece) => {
            if b.stack.len() > 0 && piece.as_str().unicode_len() > 0 {
                let mut frame = b.stack.pop().unwrap();
                let ghost pv = frame.component@;
                let text = match &frame.component.text {
                    Some(e) => {
                        let mut t = e.clone();
                        push_str(&mut t, piece.as_str());
                        t
                    },
                    None => piece.clone(),
                };
                frame.component.text = Some(text);
                let ghost nv = frame.component@;
                b.stack.push(frame);
                proof {
                    assert(frames_view(b.stack@) =~= st.tree.stack.update(st.tree.stack.len() - 1, nv));
                    lemma_trees_size_update_last_pub(st.tree.stack, nv);
                    lemma_trees_size_last(st.tree.stack);
                    assert(tree_size(nv) == tree_size(pv));
                }
            }
            Ok(())
        },
        XmlToken::CData(raw) => {
            if b.stack.len() > 0 {
                let mut frame = b.stack.pop().unwrap();
                let ghost pv = frame.component@;
                frame.component.cdata.push(raw.clone());
                let ghost nv = frame.component@;
                assert(nv.cdata =~= pv.cdata.push(raw@));
                b.stack.push(frame);
                proof {
                    assert(frames_view(b.stack@) =~= st.tree.stack.update(st.tree.stack.len() - 1, nv));
                    lemma_trees_size_update_last_pub(st.tree.stack, nv);
                    lemma_trees_size_last(st.tree.stack);
                    assert(tree_size(nv) == tree_size(pv));
                }
            }
            Ok(())
        },
        XmlToken::Error(e) => {
            let mut m = String::new();
            push_str(&mut m, "XML syntax error in ");
            push_str(&mut m, relative);
            push_str(&mut m, ": ");
            push_str(&mut m, e.as_str());
            Err(xml_diagnostic("XML-001", m))
        },
        _ => Ok(()),
    }
}

proof fn lemma_trees_size_update_last_pub(s: Seq<ComponentView>, x: ComponentView)
    requires
        s.len() > 0,
    ensures
        trees_size(s.update(s.len() - 1, x)) == trees_size(s.drop_last()) + tree_size(x),
{
    lemma_trees_size_update_last(s, x);
}

proof fn lemma_run_stays(items: Seq<XmlItemView>, bytes: Seq<u8>, file: Seq<char>, max_depth: nat, n: int)
    requires
        0 <= n <= items.len(),
        run(items.subrange(0, n), bytes, file, max_depth) matches Ok((_, true)),
    ensures
        run(items, bytes, file, max_depth) == run(items.subrange(0, n), bytes, file, max_depth),
    decreases items.len() - n,
{
    if n < items.len() {
        let next = items.subrange(0, n + 1);
        assert(next.drop_last() =~= items.subrange(0, n));
        lemma_run_stays(items, bytes, file, max_depth, n + 1);
    } else {
        assert(items.subrange(0, n) =~= items);
    }
}

proof fn lemma_run_err_stays(items: Seq<XmlItemView>, bytes: Seq<u8>, file: Seq<char>, max_depth: nat, n: int)
    requires
        0 <= n <= items.len(),
        run(items.subrange(0, n), bytes, file, max_depth) is Err,
    ensures
        run(items, bytes, file, max_depth) == run(items.subrange(0, n), bytes, file, max_depth),
    decreases items.len() - n,
{
    if n < items.len() {
        let next = items.subrange(0, n + 1);
        assert(next.drop_last() =~= items.subrange(0, n));
        lemma_run_err_stays(items, bytes, file, max_depth, n + 1);
    } else {
        assert(items.subrange(0, n) =~= items);
    }
}

fn global_configurations(top: &Vec<MuleComponent>) -> (g: Vec<GlobalConfigIndex>)
    ensures
        g@.map_values(|x: GlobalConfigIndex| (x.qualified_name@, x.name@, x.source@)) == globals_of(
            top@.map_values(|c: MuleComponent| c@),
        ),
{
    let ghost f = |x: GlobalConfigIndex| (x.qualified_name@, x.name@, x.source@);
    let ghost tv = top@.map_values(|c: MuleComponent| c@);
    let mut out: Vec<GlobalConfigIndex> = Vec::new();
    let mut i: usize = 0;
    while i < top.len()
        invariant
            i <= top@.len(),
            f == (|x: GlobalConfigIndex| (x.qualified_name@, x.name@, x.source@)),
            tv == top@.map_values(|c: MuleComponent| c@),
            out@.map_values(f) == globals_of(tv.subrange(0, i as int)),
        decreases top.len() - i,
    {
        let c = &top[i];
        proof {
            lemma_attr_lookup_view(c.attributes@, "name"@);
        }
        let ghost before = out@.map_values(f);
        match lookup_attribute(&c.attributes, "name") {
            Some(n) => {
                out.push(GlobalConfigIndex { qualified_name: c.qualified_name.clone(), name: n.clone(), source: c.source.clone() });
                assert(out@.map_values(f) =~= before.push((c.qualified_name@, n@, c.source@)));
            },
            None => {},
        }
        proof {
            let next = tv.subrange(0, i + 1);
            assert(next.drop_last() =~= tv.subrange(0, i as int));
            assert(next.last() == c@);
            assert(out@.map_values(f) =~= globals_of(next));
        }
        i = i + 1;
    }
    assert(tv.subrange(0, tv.len() as int) =~= tv);
    out
}

/// Builds the document of `relative` from its tokens: the first problem
/// (too deep, or a syntax error) is reported; otherwise the document
/// holds the flows, sub-flows and named global elements found before the
/// end of input.
pub fn build_document(items: &Vec<XmlItem>, bytes: &[u8], relative: &str, max_depth: usize) -> (r: Result<
    MuleDocument,
    Diagnostic,
>)
    requires
        well_formed_items(items_view(items@), bytes@),
        items@.len() < usize::MAX,
        bytes@.len() < 0x4000_0000_0000_0000,
    ensures
        match run(items_view(items@), bytes@, relative@, max_depth as nat) {
            Err(p) => r matches Err(d) && problem_is(d, p),
            Ok((st, _)) => r matches Ok(doc) && document_built(doc, st.tree, relative@),
        },
{
    let mut b = Builder {
        stack: Vec::new(),
        top: Vec::new(),
        flows: Vec::new(),
        sub_flows: Vec::new(),
        counter: 0,
        depth: 0,
        line: 1,
        line_start: 0,
    };
    let ghost mut st = initial_state();
    let ghost iv = items_view(items@);
    proof {
        assert(frames_view(b.stack@) =~= Seq::<ComponentView>::empty());
        assert(comps_view(b.top@) =~= Seq::<ComponentView>::empty());
        assert(iv.subrange(0, 0) =~= Seq::<XmlItemView>::empty());
    }
    let mut i: usize = 0;
    let mut done = false;
    while i < items.len()
        invariant_except_break
            run(iv.subrange(0, i as int), bytes@, relative@, max_depth as nat) == Ok::<(BuildState, bool), XmlProblem>((st, false)),
            !done,
        invariant
            i <= items@.len(),
            items@.len() < usize::MAX,
            bytes@.len() < 0x4000_0000_0000_0000,
            iv == items_view(items@),
            well_formed_items(iv, bytes@),
            b.matches(st),
            live(st.tree) <= st.counter,
            st.counter <= i,
            st.depth == depth_after(iv, i as int),
            st.tree.stack.len() <= st.depth,
            forall|k: int| i <= k < iv.len() ==> st.line_start <= #[trigger] iv[k].offset,
            st.line <= 1 + st.line_start,
            st.line_start <= bytes@.len(),
        ensures
            b.matches(st),
            done ==> run(iv.subrange(0, i as int), bytes@, relative@, max_depth as nat) == Ok::<(BuildState, bool), XmlProblem>((st, true)),
            !done ==> i == items@.len() && run(iv.subrange(0, i as int), bytes@, relative@, max_depth as nat) == Ok::<(BuildState, bool), XmlProblem>((st, false)),
            done ==> i <= items@.len(),
        decreases items.len() - i,
    {
        let item = &items[i];
        let ghost prefix = iv.subrange(0, i as int);
        let ghost next = iv.subrange(0, i + 1);
        proof {
            assert(next.drop_last() =~= prefix);
            assert(next.last() == item_view(*item));
        }
        let at_end = match &item.token {
            XmlToken::Eof => true,
            _ => false,
        };
        if at_end {
            done = true;
            i = i + 1;
            break;
        }
        proof {
            assert(depth_after(iv, i + 1) >= 0);
        }
        match apply(&mut b, item, bytes, relative, max_depth, Ghost(st)) {
            Ok(()) => {},
            Err(d) => {
                proof {
                    lemma_run_err_stays(iv, bytes@, relative@, max_depth as nat, i + 1);
                }
                return Err(d);
            },
        }
        proof {
            st = step(st, item_view(*item), bytes@, relative@, max_depth as nat)->Ok_0;
        }
        i = i + 1;
    }
    proof {
        if done {
            lemma_run_stays(iv, bytes@, relative@, max_depth as nat, i as int);
        } else {
            assert(iv.subrange(0, i as int) =~= iv);
        }
    }
    let global_configurations = global_configurations(&b.top);
    let mut id = String::new();
    push_str(&mut id, "document:");
    push_str(&mut id, relative);
    Ok(MuleDocument {
        schema_version: current_schema_version().to_owned(),
        id,
        project_id: String::new(),
        source: SourceSpan::point(relative, 1, 1),
        flows: b.flows,
        sub_flows: b.sub_flows,
        global_configurations,
    })
}

} // verus!
