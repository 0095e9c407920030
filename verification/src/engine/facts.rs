//! Resolve fact paths against an evaluation context. Missing facts
//! resolve to `null`, which is what `exists` / `not-exists` test.

use vstd::prelude::*;
use crate::engine::context::{opt_json_view, target_view, EvalContext, EvalTarget, TargetView};
use crate::json::{JsonValue, JsonView};
use crate::model::{
    DataWeaveBlock, FlowRef, MuleComponent, MuleDocument, MuleFlow, ParsedProject, SourceFile,
};
use crate::ruleset::FactPath;
use crate::text::{
    chars_of, decimal, ends_with, is_prefix, is_suffix, push_u128, starts_with, str_eq, string_of,
};

verus! {

/// A count as JSON: an integer, or its decimal text when it does not
/// fit a signed 64-bit integer.
pub open spec fn count_json(n: int) -> JsonView {
    if n <= i64::MAX {
        JsonView::Number(n)
    } else {
        JsonView::OtherNumber(decimal(n as nat))
    }
}

pub fn json_count(n: u128) -> (v: JsonValue)
    ensures
        v@ == count_json(n as int),
{
    if n <= 9223372036854775807u128 {
        JsonValue::Number(n as i64)
    } else {
        let mut s = String::new();
        push_u128(&mut s, n);
        JsonValue::OtherNumber(s)
    }
}

/// The file name's extension as `std::path::Path::extension` finds it
/// (empty when there is none or it is not valid Unicode). Which characters
/// separate path components is fixed by the target platform, so this is a
/// function of the path for any one build.
pub uninterp spec fn path_extension(path: Seq<char>) -> Seq<char>;

/// Calls `std::path::Path::new(path).extension()`; claims the result is
/// `path_extension(path)`, a function of the path alone.
#[verifier::external_body]
fn extension_of(path: &str) -> (e: String)
    ensures
        e@ == path_extension(path@),
{
    std::path::Path::new(path).extension().and_then(|s| s.to_str()).unwrap_or("").to_string()
}

/// The value of the first attribute named `key`.
pub open spec fn attr_lookup(attrs: Seq<(String, String)>, key: Seq<char>) -> Option<Seq<char>>
    decreases attrs.len(),
{
    if attrs.len() == 0 {
        None
    } else if attrs[0].0@ == key {
        Some(attrs[0].1@)
    } else {
        attr_lookup(attrs.drop_first(), key)
    }
}

/// Looks up an attribute by key.
pub fn lookup_attribute<'a>(attrs: &'a Vec<(String, String)>, key: &str) -> (r: Option<&'a String>)
    ensures
        match r {
            Some(v) => attr_lookup(attrs@, key@) == Some(v@),
            None => attr_lookup(attrs@, key@) is None,
        },
{
    let mut i: usize = 0;
    assert(attrs@.subrange(0, attrs@.len() as int) =~= attrs@);
    while i < attrs.len()
        invariant
            i <= attrs.len(),
            attr_lookup(attrs@, key@) == attr_lookup(attrs@.subrange(i as int, attrs@.len() as int), key@),
        decreases attrs.len() - i,
    {
        let ghost rest = attrs@.subrange(i as int, attrs@.len() as int);
        assert(rest.drop_first() =~= attrs@.subrange(i + 1, attrs@.len() as int));
        if str_eq(attrs[i].0.as_str(), key) {
            return Some(&attrs[i].1);
        }
        i = i + 1;
    }
    None
}

/// A required entry is satisfied by the present paths: an entry ending in
/// `/` by any path starting with the entry minus that `/`, any other
/// entry by an equal path.
pub open spec fn required_satisfied(req: Seq<char>, present: Seq<Seq<char>>) -> bool {
    if req.len() > 0 && req.last() == '/' {
        exists|k: int| 0 <= k < present.len() && is_prefix(req.drop_last(), #[trigger] present[k])
    } else {
        present.contains(req)
    }
}

/// The paths of the project's files.
pub open spec fn present_paths(files: Seq<SourceFile>) -> Seq<Seq<char>> {
    files.map_values(|f: SourceFile| f.path@)
}

/// The string entries of `required` that the present paths do not satisfy.
pub open spec fn missing_required(required: Seq<JsonView>, present: Seq<Seq<char>>) -> Seq<JsonView>
    decreases required.len(),
{
    if required.len() == 0 {
        Seq::empty()
    } else {
        let rest = missing_required(required.drop_last(), present);
        match required.last() {
            JsonView::Str(s) => if required_satisfied(s, present) {
                rest
            } else {
                rest.push(JsonView::Str(s))
            },
            _ => rest,
        }
    }
}

/// Whether `req` is satisfied by the paths of `files`.
pub fn is_required_satisfied(req: &str, files: &Vec<SourceFile>) -> (r: bool)
    ensures
        r == required_satisfied(req@, present_paths(files@)),
{
    let rc = chars_of(req);
    let n = rc.len();
    let dir = n > 0 && rc[n - 1] == '/';
    let stripped: Vec<char> = if dir {
        let mut v: Vec<char> = Vec::new();
        let mut i: usize = 0;
        while i < n - 1
            invariant
                n == rc@.len(),
                n > 0,
                i <= n - 1,
                v@ == rc@.subrange(0, i as int),
            decreases n - 1 - i,
        {
            v.push(rc[i]);
            i = i + 1;
            assert(v@ =~= rc@.subrange(0, i as int));
        }
        assert(v@ =~= req@.drop_last());
        v
    } else {
        Vec::new()
    };
    let ghost present = present_paths(files@);
    let mut k: usize = 0;
    while k < files.len()
        invariant
            k <= files.len(),
            present == present_paths(files@),
            rc@ == req@,
            dir == (req@.len() > 0 && req@.last() == '/'),
            dir ==> stripped@ == req@.drop_last(),
            forall|j: int|
                0 <= j < k ==> if dir {
                    !is_prefix(req@.drop_last(), #[trigger] present[j])
                } else {
                    present[j] != req@
                },
        decreases files.len() - k,
    {
        let pc = chars_of(files[k].path.as_str());
        assert(present[k as int] == files@[k as int].path@);
        if dir {
            if starts_with(pc.as_slice(), stripped.as_slice()) {
                return true;
            }
        } else {
            if str_eq(files[k].path.as_str(), req) {
                assert(present[k as int] == req@);
                return true;
            }
        }
        k = k + 1;
    }
    proof {
        if !dir {
            assert forall|j: int| 0 <= j < present.len() implies present[j] != req@ by {
                assert(present[j] != req@);
            }
        }
    }
    false
}

/// The `project.required-files` fact: the unsatisfied string entries of
/// the expected array (empty when there is no expected array).
pub open spec fn required_files_fact(files: Seq<SourceFile>, expected: Option<JsonView>) -> JsonView {
    match expected {
        Some(JsonView::Array(reqs)) => JsonView::Array(missing_required(reqs, present_paths(files))),
        _ => JsonView::Array(Seq::empty()),
    }
}

fn missing_files(files: &Vec<SourceFile>, expected: &Option<JsonValue>) -> (v: JsonValue)
    ensures
        v@ == required_files_fact(files@, opt_json_view(*expected)),
{
    match expected {
        Some(JsonValue::Array(reqs)) => {
            let mut out: Vec<JsonValue> = Vec::new();
            let ghost present = present_paths(files@);
            let mut i: usize = 0;
            while i < reqs.len()
                invariant
                    i <= reqs.len(),
                    present == present_paths(files@),
                    crate::json::json_views(out@) == missing_required(
                        crate::json::json_views(reqs@.subrange(0, i as int)),
                        present,
                    ),
                decreases reqs.len() - i,
            {
                proof {
                    let next = reqs@.subrange(0, i + 1);
                    assert(next.drop_last() =~= reqs@.subrange(0, i as int));
                    crate::json::lemma_json_views_len(next);
                    crate::json::lemma_json_views_len(next.drop_last());
                    assert(crate::json::json_views(next).drop_last() =~= crate::json::json_views(
                        next.drop_last(),
                    ));
                    assert(next.last() == reqs@[i as int]);
                    assert(crate::json::json_views(next).last() == reqs@[i as int]@);
                }
                let ghost before = out@;
                match &reqs[i] {
                    JsonValue::String(s) => {
                        if !is_required_satisfied(s.as_str(), files) {
                            out.push(JsonValue::String(s.clone()));
                            assert(out@.drop_last() =~= before);
                            assert(crate::json::json_views(out@) == crate::json::json_views(before).push(
                                JsonView::Str(s@),
                            ));
                        }
                    },
                    _ => {},
                }
                i = i + 1;
            }
            assert(reqs@.subrange(0, reqs@.len() as int) =~= reqs@);
            JsonValue::Array(out)
        },
        _ => JsonValue::Array(Vec::new()),
    }
}

/// Total number of flows (or of sub-flows) over all documents.
pub open spec fn flows_total(docs: Seq<MuleDocument>, sub: bool) -> int
    decreases docs.len(),
{
    if docs.len() == 0 {
        0
    } else {
        flows_total(docs.drop_last(), sub) + if sub {
            docs.last().sub_flows@.len() as int
        } else {
            docs.last().flows@.len() as int
        }
    }
}

fn count_flows(docs: &Vec<MuleDocument>, sub: bool) -> (n: u128)
    ensures
        n as int == flows_total(docs@, sub),
{
    let mut total: u128 = 0;
    let mut i: usize = 0;
    while i < docs.len()
        invariant
            i <= docs.len(),
            total as int == flows_total(docs@.subrange(0, i as int), sub),
            total <= i * 18446744073709551615,
        decreases docs.len() - i,
    {
        let len = if sub {
            docs[i].sub_flows.len()
        } else {
            docs[i].flows.len()
        };
        assert(len <= 18446744073709551615);
        assert(i * 18446744073709551615 + len <= (i + 1) * 18446744073709551615) by (nonlinear_arith)
            requires
                len <= 18446744073709551615,
        ;
        assert((i + 1) * 18446744073709551615 < 340282366920938463463374607431768211455) by (
        nonlinear_arith)
            requires
                i < 18446744073709551615,
        ;
        total = total + len as u128;
        proof {
            let next = docs@.subrange(0, i + 1);
            assert(next.drop_last() =~= docs@.subrange(0, i as int));
        }
        i = i + 1;
    }
    assert(docs@.subrange(0, docs@.len() as int) =~= docs@);
    total
}

/// The `project.*` facts.
pub open spec fn project_fact(p: ParsedProject, expected: Option<JsonView>, path: Seq<char>) -> JsonView {
    if path == "project.name"@ {
        JsonView::Str(p.project.name@)
    } else if path == "project.required-files"@ {
        required_files_fact(p.project.files@, expected)
    } else if path == "project.unresolved-flow-refs"@ {
        count_json(p.index.unresolved_flow_refs@.len() as int)
    } else if path == "project.flow-count"@ {
        count_json(flows_total(p.documents@, false))
    } else if path == "project.subflow-count"@ {
        count_json(flows_total(p.documents@, true))
    } else {
        JsonView::Null
    }
}

/// The `file.*` facts.
pub open spec fn file_fact(f: SourceFile, path: Seq<char>) -> JsonView {
    if path == "file.path"@ {
        JsonView::Str(f.path@)
    } else if path == "file.extension"@ {
        JsonView::Str(path_extension(f.path@))
    } else if path == "file.kind"@ {
        JsonView::Str(f.kind.spec_label())
    } else {
        JsonView::Null
    }
}

pub open spec fn opt_str_json(o: Option<String>) -> JsonView {
    match o {
        Some(s) => JsonView::Str(s@),
        None => JsonView::Null,
    }
}

/// The `flow.*` facts.
pub open spec fn flow_fact(f: MuleFlow, path: Seq<char>) -> JsonView {
    if path == "flow.name"@ {
        JsonView::Str(f.name@)
    } else if path == "flow.kind"@ {
        JsonView::Str(f.kind.spec_as_str())
    } else if path == "flow.component-count"@ {
        count_json(f.facts.component_count as int)
    } else if path == "flow.max-component-depth"@ {
        count_json(f.facts.max_component_depth as int)
    } else if path == "flow.has-local-error-handler"@ {
        JsonView::Bool(f.facts.has_local_error_handler)
    } else if path == "flow.has-effective-error-handler"@ {
        JsonView::Bool(f.facts.has_effective_error_handler)
    } else if path == "flow.flow-refs"@ {
        count_json(f.facts.flow_refs@.len() as int)
    } else if path == "flow.property-refs"@ {
        count_json(f.facts.property_refs@.len() as int)
    } else if path == "flow.source-component"@ {
        opt_str_json(f.facts.source_component)
    } else {
        JsonView::Null
    }
}

pub open spec fn cdata_json(cdata: Seq<String>) -> Seq<JsonView>
    decreases cdata.len(),
{
    if cdata.len() == 0 {
        Seq::empty()
    } else {
        cdata_json(cdata.drop_last()).push(JsonView::Str(cdata.last()@))
    }
}

pub open spec fn attrs_json(attrs: Seq<(String, String)>) -> Seq<(Seq<char>, JsonView)>
    decreases attrs.len(),
{
    if attrs.len() == 0 {
        Seq::empty()
    } else {
        attrs_json(attrs.drop_last()).push((attrs.last().0@, JsonView::Str(attrs.last().1@)))
    }
}

pub open spec fn attribute_prefix() -> Seq<char> {
    "component.attributes."@
}

/// The `component.*` facts.
pub open spec fn component_fact(c: MuleComponent, path: Seq<char>) -> JsonView {
    if path == "component.qualified-name"@ {
        JsonView::Str(c.qualified_name@)
    } else if path == "component.local-name"@ {
        JsonView::Str(c.local_name@)
    } else if path == "component.namespace-uri"@ {
        opt_str_json(c.namespace_uri)
    } else if path == "component.text"@ {
        opt_str_json(c.text)
    } else if path == "component.cdata"@ {
        JsonView::Array(cdata_json(c.cdata@))
    } else if is_prefix(attribute_prefix(), path) {
        match attr_lookup(c.attributes@, path.subrange(attribute_prefix().len() as int, path.len() as int)) {
            Some(v) => JsonView::Str(v),
            None => JsonView::Null,
        }
    } else if path == "component.attributes"@ {
        JsonView::Object(attrs_json(c.attributes@))
    } else {
        JsonView::Null
    }
}

/// The `property.*` facts (name and value are both the placeholder name).
pub open spec fn property_fact(value: Seq<char>, path: Seq<char>) -> JsonView {
    if path == "property.name"@ || path == "property.value"@ {
        JsonView::Str(value)
    } else {
        JsonView::Null
    }
}

/// The `reference.*` facts.
pub open spec fn reference_fact(r: FlowRef, path: Seq<char>) -> JsonView {
    if path == "reference.target"@ {
        JsonView::Str(r.target@)
    } else if path == "reference.resolved"@ {
        JsonView::Bool(r.resolved)
    } else {
        JsonView::Null
    }
}

/// The `dataweave.*` facts.
pub open spec fn dataweave_fact(b: DataWeaveBlock, path: Seq<char>) -> JsonView {
    if path == "dataweave.language"@ {
        JsonView::Str(b.language@)
    } else if path == "dataweave.content"@ {
        JsonView::Str(b.content@)
    } else {
        JsonView::Null
    }
}

/// The value of the fact at `path` for `target` in `project`; each target
/// kind answers only its own paths.
pub open spec fn spec_resolve(
    project: ParsedProject,
    target: TargetView,
    expected: Option<JsonView>,
    path: Seq<char>,
) -> JsonView {
    match target {
        TargetView::Project(_) => project_fact(project, expected, path),
        TargetView::File(f) => file_fact(f, path),
        TargetView::Flow(f) => flow_fact(f, path),
        TargetView::Component(c) => component_fact(c, path),
        TargetView::PropertyRef { value, .. } => property_fact(value, path),
        TargetView::FlowRef(r) => reference_fact(r, path),
        TargetView::DataweaveBlock(b) => dataweave_fact(b, path),
    }
}

proof fn lemma_attr_lookup_first(attrs: Seq<(String, String)>, key: Seq<char>)
    ensures
        attr_lookup(attrs, key) matches Some(v) ==> exists|j: int|
            0 <= j < attrs.len() && (#[trigger] attrs[j]).0@ == key && attrs[j].1@ == v && forall|i: int|
                0 <= i < j ==> (#[trigger] attrs[i]).0@ != key,
        attr_lookup(attrs, key) is None ==> forall|j: int| 0 <= j < attrs.len() ==> (#[trigger] attrs[j]).0@ != key,
    decreases attrs.len(),
{
    if attrs.len() > 0 {
        let rest = attrs.drop_first();
        lemma_attr_lookup_first(rest, key);
        assert forall|j: int| 0 <= j < rest.len() implies #[trigger] rest[j] == attrs[j + 1] by {}
        if attrs[0].0@ != key {
            if let Some(v) = attr_lookup(rest, key) {
                let j = choose|j: int|
                    0 <= j < rest.len() && (#[trigger] rest[j]).0@ == key && rest[j].1@ == v && forall|i: int|
                        0 <= i < j ==> (#[trigger] rest[i]).0@ != key;
                assert(attrs[j + 1] == rest[j]);
                assert forall|i: int| 0 <= i < j + 1 implies (#[trigger] attrs[i]).0@ != key by {
                    if i > 0 {
                        assert(attrs[i] == rest[i - 1]);
                    }
                }
            } else {
                assert forall|j: int| 0 <= j < attrs.len() implies (#[trigger] attrs[j]).0@ != key by {
                    if j > 0 {
                        assert(attrs[j] == rest[j - 1]);
                    }
                }
            }
        }
    }
}

/// What the facts of a flow, a component and a reference read: a flow's
/// name, kind, counts, error-handler flags and source component; a
/// component's names and the value of its first attribute with a given
/// key (missing when it has none); a reference's target and whether it
/// resolves.
pub proof fn law_facts_read_the_target(
    p: ParsedProject,
    e: Option<JsonView>,
    f: MuleFlow,
    c: MuleComponent,
    r: FlowRef,
    key: Seq<char>,
)
    ensures
        spec_resolve(p, TargetView::Flow(f), e, "flow.name"@) == JsonView::Str(f.name@),
        spec_resolve(p, TargetView::Flow(f), e, "flow.kind"@) == JsonView::Str(f.kind.spec_as_str()),
        f.facts.component_count <= i64::MAX ==> spec_resolve(p, TargetView::Flow(f), e, "flow.component-count"@)
            == JsonView::Number(f.facts.component_count as int),
        f.facts.max_component_depth <= i64::MAX ==> spec_resolve(
            p,
            TargetView::Flow(f),
            e,
            "flow.max-component-depth"@,
        ) == JsonView::Number(f.facts.max_component_depth as int),
        spec_resolve(p, TargetView::Flow(f), e, "flow.has-local-error-handler"@) == JsonView::Bool(
            f.facts.has_local_error_handler,
        ),
        spec_resolve(p, TargetView::Flow(f), e, "flow.has-effective-error-handler"@) == JsonView::Bool(
            f.facts.has_effective_error_handler,
        ),
        f.facts.flow_refs@.len() <= i64::MAX ==> spec_resolve(p, TargetView::Flow(f), e, "flow.flow-refs"@)
            == JsonView::Number(f.facts.flow_refs@.len() as int),
        f.facts.property_refs@.len() <= i64::MAX ==> spec_resolve(p, TargetView::Flow(f), e, "flow.property-refs"@)
            == JsonView::Number(f.facts.property_refs@.len() as int),
        spec_resolve(p, TargetView::Flow(f), e, "flow.source-component"@) == match f.facts.source_component {
            Some(s) => JsonView::Str(s@),
            None => JsonView::Null,
        },
        spec_resolve(p, TargetView::Component(c), e, "component.qualified-name"@) == JsonView::Str(c.qualified_name@),
        spec_resolve(p, TargetView::Component(c), e, "component.local-name"@) == JsonView::Str(c.local_name@),
        spec_resolve(p, TargetView::Component(c), e, "component.attributes."@ + key) matches JsonView::Str(v)
            ==> exists|j: int|
            0 <= j < c.attributes@.len() && (#[trigger] c.attributes@[j]).0@ == key && c.attributes@[j].1@ == v
                && forall|i: int| 0 <= i < j ==> (#[trigger] c.attributes@[i]).0@ != key,
        spec_resolve(p, TargetView::Component(c), e, "component.attributes."@ + key) is Str || (forall|j: int|
            0 <= j < c.attributes@.len() ==> (#[trigger] c.attributes@[j]).0@ != key) && spec_resolve(
            p,
            TargetView::Component(c),
            e,
            "component.attributes."@ + key,
        ) == JsonView::Null,
        spec_resolve(p, TargetView::FlowRef(r), e, "reference.target"@) == JsonView::Str(r.target@),
        spec_resolve(p, TargetView::FlowRef(r), e, "reference.resolved"@) == JsonView::Bool(r.resolved),
{
    reveal_strlit("flow.name");
    reveal_strlit("flow.kind");
    reveal_strlit("flow.component-count");
    reveal_strlit("flow.max-component-depth");
    reveal_strlit("flow.has-local-error-handler");
    reveal_strlit("flow.has-effective-error-handler");
    reveal_strlit("flow.flow-refs");
    reveal_strlit("flow.property-refs");
    reveal_strlit("flow.source-component");
    reveal_strlit("component.qualified-name");
    reveal_strlit("component.local-name");
    reveal_strlit("component.namespace-uri");
    reveal_strlit("component.text");
    reveal_strlit("component.cdata");
    reveal_strlit("component.attributes.");
    reveal_strlit("reference.target");
    reveal_strlit("reference.resolved");
    assert("flow.kind"@ != "flow.name"@) by {
        assert("flow.kind"@[5] != "flow.name"@[5]);
    }
    let path = "component.attributes."@ + key;
    assert(path[10] == 'a');
    assert(path.subrange(0, 21) =~= "component.attributes."@);
    assert(path != "component.qualified-name"@) by {
        assert("component.qualified-name"@[10] == 'q');
    }
    assert(path != "component.local-name"@) by {
        assert("component.local-name"@[10] == 'l');
    }
    assert(path != "component.namespace-uri"@) by {
        assert("component.namespace-uri"@[10] == 'n');
    }
    assert(path != "component.text"@) by {
        assert("component.text"@[10] == 't');
    }
    assert(path != "component.cdata"@) by {
        assert("component.cdata"@[10] == 'c');
    }
    assert(path.subrange(21, path.len() as int) =~= key);
    lemma_attr_lookup_first(c.attributes@, key);
}

pub open spec fn context_resolve(ctx: EvalContext, path: Seq<char>) -> JsonView {
    spec_resolve(*ctx.project, target_view(ctx.target), opt_json_view(ctx.current_expected), path)
}

fn opt_string_json(o: &Option<String>) -> (v: JsonValue)
    ensures
        v@ == opt_str_json(*o),
{
    match o {
        Some(s) => JsonValue::String(s.clone()),
        None => JsonValue::Null,
    }
}

fn resolve_project(ctx: &EvalContext<'_>, path: &str) -> (v: JsonValue)
    ensures
        v@ == project_fact(*ctx.project, opt_json_view(ctx.current_expected), path@),
{
    let p = ctx.project;
    if str_eq(path, "project.name") {
        JsonValue::String(p.project.name.clone())
    } else if str_eq(path, "project.required-files") {
        missing_files(&p.project.files, &ctx.current_expected)
    } else if str_eq(path, "project.unresolved-flow-refs") {
        json_count(p.index.unresolved_flow_refs.len() as u128)
    } else if str_eq(path, "project.flow-count") {
        json_count(count_flows(&p.documents, false))
    } else if str_eq(path, "project.subflow-count") {
        json_count(count_flows(&p.documents, true))
    } else {
        JsonValue::Null
    }
}

fn resolve_file(f: &SourceFile, path: &str) -> (v: JsonValue)
    ensures
        v@ == file_fact(*f, path@),
{
    if str_eq(path, "file.path") {
        JsonValue::String(f.path.clone())
    } else if str_eq(path, "file.extension") {
        JsonValue::String(extension_of(f.path.as_str()))
    } else if str_eq(path, "file.kind") {
        JsonValue::String(f.kind.label().to_owned())
    } else {
        JsonValue::Null
    }
}

fn resolve_flow(f: &MuleFlow, path: &str) -> (v: JsonValue)
    ensures
        v@ == flow_fact(*f, path@),
{
    if str_eq(path, "flow.name") {
        JsonValue::String(f.name.clone())
    } else if str_eq(path, "flow.kind") {
        JsonValue::String(f.kind.as_str().to_owned())
    } else if str_eq(path, "flow.component-count") {
        json_count(f.facts.component_count as u128)
    } else if str_eq(path, "flow.max-component-depth") {
        json_count(f.facts.max_component_depth as u128)
    } else if str_eq(path, "flow.has-local-error-handler") {
        JsonValue::Bool(f.facts.has_local_error_handler)
    } else if str_eq(path, "flow.has-effective-error-handler") {
        JsonValue::Bool(f.facts.has_effective_error_handler)
    } else if str_eq(path, "flow.flow-refs") {
        json_count(f.facts.flow_refs.len() as u128)
    } else if str_eq(path, "flow.property-refs") {
        json_count(f.facts.property_refs.len() as u128)
    } else if str_eq(path, "flow.source-component") {
        opt_string_json(&f.facts.source_component)
    } else {
        JsonValue::Null
    }
}

fn cdata_values(cdata: &Vec<String>) -> (v: Vec<JsonValue>)
    ensures
        crate::json::json_views(v@) == cdata_json(cdata@),
{
    let mut out: Vec<JsonValue> = Vec::new();
    let mut i: usize = 0;
    while i < cdata.len()
        invariant
            i <= cdata.len(),
            crate::json::json_views(out@) == cdata_json(cdata@.subrange(0, i as int)),
        decreases cdata.len() - i,
    {
        let ghost before = out@;
        let item = JsonValue::String(cdata[i].clone());
        assert(item@ == JsonView::Str(cdata@[i as int]@));
        out.push(item);
        proof {
            assert(out@.last() == item);
            assert(out@.drop_last() =~= before);
            assert(crate::json::json_views(out@) == crate::json::json_views(before).push(
                JsonView::Str(cdata@[i as int]@),
            ));
            let next = cdata@.subrange(0, i + 1);
            assert(next.drop_last() =~= cdata@.subrange(0, i as int));
        }
        i = i + 1;
    }
    assert(cdata@.subrange(0, cdata@.len() as int) =~= cdata@);
    out
}

fn attribute_members(attrs: &Vec<(String, String)>) -> (v: Vec<(String, JsonValue)>)
    ensures
        crate::json::member_views(v@) == attrs_json(attrs@),
{
    let mut out: Vec<(String, JsonValue)> = Vec::new();
    let mut i: usize = 0;
    while i < attrs.len()
        invariant
            i <= attrs.len(),
            crate::json::member_views(out@) == attrs_json(attrs@.subrange(0, i as int)),
        decreases attrs.len() - i,
    {
        let ghost before = out@;
        let item = (attrs[i].0.clone(), JsonValue::String(attrs[i].1.clone()));
        assert(item.1@ == JsonView::Str(attrs@[i as int].1@));
        out.push(item);
        proof {
            assert(out@.last() == item);
            assert(out@.drop_last() =~= before);
            assert(crate::json::member_views(out@) == crate::json::member_views(before).push(
                (attrs@[i as int].0@, JsonView::Str(attrs@[i as int].1@)),
            ));
            let next = attrs@.subrange(0, i + 1);
            assert(next.drop_last() =~= attrs@.subrange(0, i as int));
        }
        i = i + 1;
    }
    assert(attrs@.subrange(0, attrs@.len() as int) =~= attrs@);
    out
}

fn resolve_component(c: &MuleComponent, path: &str) -> (v: JsonValue)
    ensures
        v@ == component_fact(*c, path@),
{
    if str_eq(path, "component.qualified-name") {
        return JsonValue::String(c.qualified_name.clone());
    } else if str_eq(path, "component.local-name") {
        return JsonValue::String(c.local_name.clone());
    } else if str_eq(path, "component.namespace-uri") {
        return opt_string_json(&c.namespace_uri);
    } else if str_eq(path, "component.text") {
        return opt_string_json(&c.text);
    } else if str_eq(path, "component.cdata") {
        return JsonValue::Array(cdata_values(&c.cdata));
    }
    let pc = chars_of(path);
    let prefix = chars_of("component.attributes.");
    if starts_with(pc.as_slice(), prefix.as_slice()) {
        let mut key: Vec<char> = Vec::new();
        let mut i: usize = prefix.len();
        while i < pc.len()
            invariant
                prefix@.len() <= i <= pc@.len(),
                key@ == pc@.subrange(prefix@.len() as int, i as int),
            decreases pc.len() - i,
        {
            key.push(pc[i]);
            i = i + 1;
            assert(key@ =~= pc@.subrange(prefix@.len() as int, i as int));
        }
        let ks = string_of(key.as_slice());
        return match lookup_attribute(&c.attributes, ks.as_str()) {
            Some(v) => JsonValue::String(v.clone()),
            None => JsonValue::Null,
        };
    }
    if str_eq(path, "component.attributes") {
        JsonValue::Object(attribute_members(&c.attributes))
    } else {
        JsonValue::Null
    }
}

fn resolve_property(value: &String, path: &str) -> (v: JsonValue)
    ensures
        v@ == property_fact(value@, path@),
{
    if str_eq(path, "property.name") || str_eq(path, "property.value") {
        JsonValue::String(value.clone())
    } else {
        JsonValue::Null
    }
}

fn resolve_reference(r: &FlowRef, path: &str) -> (v: JsonValue)
    ensures
        v@ == reference_fact(*r, path@),
{
    if str_eq(path, "reference.target") {
        JsonValue::String(r.target.clone())
    } else if str_eq(path, "reference.resolved") {
        JsonValue::Bool(r.resolved)
    } else {
        JsonValue::Null
    }
}

fn resolve_dataweave(b: &DataWeaveBlock, path: &str) -> (v: JsonValue)
    ensures
        v@ == dataweave_fact(*b, path@),
{
    if str_eq(path, "dataweave.language") {
        JsonValue::String(b.language.clone())
    } else if str_eq(path, "dataweave.content") {
        JsonValue::String(b.content.clone())
    } else {
        JsonValue::Null
    }
}

/// The fact at `path` for the context's target.
pub fn resolve(ctx: &EvalContext<'_>, path: &FactPath) -> (v: JsonValue)
    ensures
        v@ == context_resolve(*ctx, path.0@),
{
    let p = path.as_str();
    match &ctx.target {
        EvalTarget::Project(_) => resolve_project(ctx, p),
        EvalTarget::File(f) => resolve_file(f, p),
        EvalTarget::Flow(f) => resolve_flow(f, p),
        EvalTarget::Component(c) => resolve_component(c, p),
        EvalTarget::PropertyRef { value, .. } => resolve_property(value, p),
        EvalTarget::FlowRef(r) => resolve_reference(r, p),
        EvalTarget::DataweaveBlock(b) => resolve_dataweave(b, p),
    }
}

} // verus!
