//! `{{ variable }}` substitution in rule messages and recommendations.
//! Unknown names are kept verbatim so a typo shows in the report.

use vstd::prelude::*;
use crate::engine::context::{opt_json_view, target_view, EvalContext, EvalTarget, TargetView};
use crate::json::{json_text, to_json_string, JsonValue, JsonView};
use crate::model::{MuleComponent, MuleFlow, ParsedProject, SourceSpan};
use crate::text::{chars_eq, chars_of, decimal, push_char, push_chars, push_str, push_u64, trim, trim_chars};

verus! {

/// The source location of the context's target, where it has one.
pub open spec fn target_span(t: TargetView) -> Option<SourceSpan> {
    match t {
        TargetView::Flow(f) => Some(f.source),
        TargetView::Component(c) => Some(c.source),
        TargetView::FlowRef(r) => Some(r.source),
        TargetView::DataweaveBlock(b) => Some(b.source),
        _ => None,
    }
}

/// The location of the context's target.
pub fn span_of(t: &EvalTarget<'_>) -> (r: Option<SourceSpan>)
    ensures
        r == target_span(target_view(*t)),
{
    match t {
        EvalTarget::Flow(f) => Some(f.source.clone()),
        EvalTarget::Component(c) => Some(c.source.clone()),
        EvalTarget::FlowRef(r) => Some(r.source.clone()),
        EvalTarget::DataweaveBlock(b) => Some(b.source.clone()),
        _ => None,
    }
}

pub open spec fn span_file(t: TargetView) -> Seq<char> {
    match target_span(t) {
        Some(s) => s.file@,
        None => Seq::empty(),
    }
}

pub open spec fn span_line(t: TargetView) -> nat {
    match target_span(t) {
        Some(s) => s.start_line as nat,
        None => 0,
    }
}

pub open spec fn span_column(t: TargetView) -> nat {
    match target_span(t) {
        Some(s) => s.start_column as nat,
        None => 0,
    }
}

/// How a value reads inside a message: a string without quotes, else
/// its compact JSON text.
pub open spec fn display_value(v: JsonView) -> Seq<char> {
    match v {
        JsonView::Str(s) => s,
        _ => json_text(v),
    }
}

pub open spec fn opt_display(v: Option<JsonView>) -> Option<Seq<char>> {
    match v {
        Some(x) => Some(display_value(x)),
        None => None,
    }
}

/// The text a placeholder name stands for, or `None` for an unknown
/// name or one the target does not answer.
pub open spec fn placeholder_value(
    name: Seq<char>,
    project: ParsedProject,
    t: TargetView,
    actual: Option<JsonView>,
    expected: Option<JsonView>,
) -> Option<Seq<char>> {
    if name == "project.name"@ {
        Some(project.project.name@)
    } else if name == "project.id"@ {
        Some(project.project.id@)
    } else if name == "project.root"@ {
        Some(project.project.root_path@)
    } else if name == "file.path"@ {
        match t {
            TargetView::File(f) => Some(f.path@),
            _ => Some(span_file(t)),
        }
    } else if name == "flow.id"@ {
        match t {
            TargetView::Flow(f) => Some(f.id@),
            TargetView::FlowRef(r) => Some("reference:"@ + r.target@),
            _ => None,
        }
    } else if name == "flow.name"@ {
        match t {
            TargetView::Flow(f) => Some(f.name@),
            TargetView::PropertyRef { flow_name, .. } => Some(flow_name),
            _ => None,
        }
    } else if name == "flow.kind"@ {
        match t {
            TargetView::Flow(f) => Some(f.kind.spec_as_str()),
            _ => None,
        }
    } else if name == "component.qualified-name"@ {
        match t {
            TargetView::Component(c) => Some(c.qualified_name@),
            _ => None,
        }
    } else if name == "component.local-name"@ {
        match t {
            TargetView::Component(c) => Some(c.local_name@),
            _ => None,
        }
    } else if name == "component.id"@ {
        match t {
            TargetView::Component(c) => Some(c.id@),
            _ => None,
        }
    } else if name == "actual"@ {
        opt_display(actual)
    } else if name == "expected"@ {
        opt_display(expected)
    } else if name == "source.file"@ {
        Some(span_file(t))
    } else if name == "source.line"@ || name == "source.start-line"@ {
        Some(decimal(span_line(t)))
    } else if name == "source.column"@ || name == "source.start-column"@ {
        Some(decimal(span_column(t)))
    } else {
        None
    }
}

/// Position of the `}}` that closes a placeholder whose body starts at
/// `j`, with `depth` placeholders open; nested `{{` raise the depth.
pub open spec fn close_scan(t: Seq<char>, j: int, depth: int) -> Option<int>
    decreases t.len() - j,
{
    if j < 0 || j + 1 >= t.len() {
        None
    } else if t[j] == '{' && t[j + 1] == '{' {
        close_scan(t, j + 2, depth + 1)
    } else if t[j] == '}' && t[j + 1] == '}' {
        if depth - 1 == 0 {
            Some(j)
        } else {
            close_scan(t, j + 2, depth - 1)
        }
    } else {
        close_scan(t, j + 1, depth)
    }
}

pub proof fn lemma_close_scan_bounds(t: Seq<char>, j: int, depth: int)
    ensures
        close_scan(t, j, depth) matches Some(e) ==> j <= e && e + 1 < t.len(),
    decreases t.len() - j,
{
    if j < 0 || j + 1 >= t.len() {
    } else if t[j] == '{' && t[j + 1] == '{' {
        lemma_close_scan_bounds(t, j + 2, depth + 1);
    } else if t[j] == '}' && t[j + 1] == '}' {
        if depth - 1 != 0 {
            lemma_close_scan_bounds(t, j + 2, depth - 1);
        }
    } else {
        lemma_close_scan_bounds(t, j + 1, depth);
    }
}

pub open spec fn opens_at(t: Seq<char>, i: int) -> bool {
    0 <= i && i + 1 < t.len() && t[i] == '{' && t[i + 1] == '{'
}

/// The rendering of `t` from position `i` on.
pub open spec fn render_from(
    t: Seq<char>,
    i: int,
    project: ParsedProject,
    target: TargetView,
    actual: Option<JsonView>,
    expected: Option<JsonView>,
) -> Seq<char>
    decreases t.len() - i,
{
    if i < 0 || i >= t.len() {
        Seq::empty()
    } else if opens_at(t, i) && close_scan(t, i + 2, 1) is Some {
        let end = close_scan(t, i + 2, 1)->0;
        proof {
            lemma_close_scan_bounds(t, i + 2, 1);
        }
        let name = trim(t.subrange(i + 2, end));
        let piece = match placeholder_value(name, project, target, actual, expected) {
            Some(v) => v,
            None => t.subrange(i, end + 2),
        };
        piece + render_from(t, end + 2, project, target, actual, expected)
    } else {
        seq![t[i]] + render_from(t, i + 1, project, target, actual, expected)
    }
}

/// The rendered template.
pub open spec fn spec_render(
    t: Seq<char>,
    project: ParsedProject,
    target: TargetView,
    actual: Option<JsonView>,
    expected: Option<JsonView>,
) -> Seq<char> {
    render_from(t, 0, project, target, actual, expected)
}

proof fn lemma_render_plain(
    t: Seq<char>,
    i: int,
    j: int,
    project: ParsedProject,
    target: TargetView,
    actual: Option<JsonView>,
    expected: Option<JsonView>,
)
    requires
        0 <= i <= j <= t.len(),
        forall|k: int| i <= k < j ==> t[k] != '{',
    ensures
        render_from(t, i, project, target, actual, expected) == t.subrange(i, j) + render_from(
            t,
            j,
            project,
            target,
            actual,
            expected,
        ),
    decreases j - i,
{
    if i < j {
        assert(!opens_at(t, i));
        lemma_render_plain(t, i + 1, j, project, target, actual, expected);
        assert(seq![t[i]] + t.subrange(i + 1, j) =~= t.subrange(i, j));
    } else {
        assert(t.subrange(i, j) =~= Seq::<char>::empty());
    }
}

proof fn lemma_scan_plain(t: Seq<char>, j: int, m: int, depth: int)
    requires
        0 <= j <= m,
        m + 1 < t.len(),
        forall|k: int| j <= k < m ==> t[k] != '{' && t[k] != '}',
    ensures
        close_scan(t, j, depth) == close_scan(t, m, depth),
    decreases m - j,
{
    if j < m {
        lemma_scan_plain(t, j + 1, m, depth);
    }
}

/// The text around one `{{actual}}` (holding no `{`) is kept as it is,
/// and the placeholder reads as the actual value: a string without its
/// quotes, any other value as compact JSON. The expected value plays no
/// part in it.
pub proof fn law_actual_placeholder_shows_actual(
    pre: Seq<char>,
    post: Seq<char>,
    project: ParsedProject,
    target: TargetView,
    actual: JsonView,
    expected: Option<JsonView>,
)
    requires
        forall|k: int| 0 <= k < pre.len() ==> pre[k] != '{',
        forall|k: int| 0 <= k < post.len() ==> post[k] != '{',
    ensures
        spec_render(pre + "{{actual}}"@ + post, project, target, Some(actual), expected) == pre + match actual {
            JsonView::Str(s) => s,
            _ => json_text(actual),
        } + post,
{
    let t = pre + "{{actual}}"@ + post;
    let n = pre.len() as int;
    let shown = match actual {
        JsonView::Str(s) => s,
        _ => json_text(actual),
    };
    reveal_strlit("{{actual}}");
    reveal_strlit("actual");
    reveal_strlit("project.name");
    reveal_strlit("project.id");
    reveal_strlit("project.root");
    reveal_strlit("file.path");
    reveal_strlit("flow.id");
    reveal_strlit("flow.name");
    reveal_strlit("flow.kind");
    reveal_strlit("component.qualified-name");
    reveal_strlit("component.local-name");
    reveal_strlit("component.id");
    assert(t.len() == n + 10 + post.len());
    assert forall|k: int| 0 <= k < n implies t[k] != '{' by {
        assert(t[k] == pre[k]);
    }
    assert forall|k: int| n + 10 <= k < t.len() implies t[k] != '{' by {
        assert(t[k] == post[k - n - 10]);
    }
    assert(t[n] == '{' && t[n + 1] == '{');
    assert(t[n + 8] == '}' && t[n + 9] == '}');
    assert forall|k: int| n + 2 <= k < n + 8 implies t[k] != '{' && t[k] != '}' by {
        assert(t[k] == "{{actual}}"@[k - n]);
    }
    lemma_render_plain(t, 0, n, project, target, Some(actual), expected);
    assert(t.subrange(0, n) =~= pre);
    lemma_scan_plain(t, n + 2, n + 8, 1);
    assert(close_scan(t, n + 8, 1) == Some(n + 8));
    assert(opens_at(t, n));
    let word = t.subrange(n + 2, n + 8);
    assert(word =~= "actual"@);
    assert(trim_keeps(word));
    assert(trim(word) =~= "actual"@);
    assert(placeholder_value("actual"@, project, target, Some(actual), expected) == Some(shown));
    lemma_render_plain(t, n + 10, t.len() as int, project, target, Some(actual), expected);
    assert(t.subrange(n + 10, t.len() as int) =~= post);
    assert(render_from(t, t.len() as int, project, target, Some(actual), expected) == Seq::<char>::empty());
    assert(render_from(t, n, project, target, Some(actual), expected) == shown + render_from(
        t,
        n + 10,
        project,
        target,
        Some(actual),
        expected,
    ));
    assert(pre + (shown + (post + Seq::<char>::empty())) =~= pre + shown + post);
}

/// The text around one `{{expected}}` (holding no `{`) is kept as it is,
/// and the placeholder reads as the expected value: a string without its
/// quotes, any other value as compact JSON. The actual value plays no
/// part in it.
pub proof fn law_expected_placeholder_shows_expected(
    pre: Seq<char>,
    post: Seq<char>,
    project: ParsedProject,
    target: TargetView,
    actual: Option<JsonView>,
    expected: JsonView,
)
    requires
        forall|k: int| 0 <= k < pre.len() ==> pre[k] != '{',
        forall|k: int| 0 <= k < post.len() ==> post[k] != '{',
    ensures
        spec_render(pre + "{{expected}}"@ + post, project, target, actual, Some(expected)) == pre + match expected {
            JsonView::Str(s) => s,
            _ => json_text(expected),
        } + post,
{
    let t = pre + "{{expected}}"@ + post;
    let n = pre.len() as int;
    let shown = match expected {
        JsonView::Str(s) => s,
        _ => json_text(expected),
    };
    reveal_strlit("{{expected}}");
    reveal_strlit("expected");
    reveal_strlit("actual");
    reveal_strlit("project.name");
    reveal_strlit("project.id");
    reveal_strlit("project.root");
    reveal_strlit("file.path");
    reveal_strlit("flow.id");
    reveal_strlit("flow.name");
    reveal_strlit("flow.kind");
    reveal_strlit("component.qualified-name");
    reveal_strlit("component.local-name");
    reveal_strlit("component.id");
    assert(t.len() == n + 12 + post.len());
    assert forall|k: int| 0 <= k < n implies t[k] != '{' by {
        assert(t[k] == pre[k]);
    }
    assert forall|k: int| n + 12 <= k < t.len() implies t[k] != '{' by {
        assert(t[k] == post[k - n - 12]);
    }
    assert(t[n] == '{' && t[n + 1] == '{');
    assert(t[n + 10] == '}' && t[n + 11] == '}');
    assert forall|k: int| n + 2 <= k < n + 10 implies t[k] != '{' && t[k] != '}' by {
        assert(t[k] == "{{expected}}"@[k - n]);
    }
    lemma_render_plain(t, 0, n, project, target, actual, Some(expected));
    assert(t.subrange(0, n) =~= pre);
    lemma_scan_plain(t, n + 2, n + 10, 1);
    assert(close_scan(t, n + 10, 1) == Some(n + 10));
    assert(opens_at(t, n));
    let word = t.subrange(n + 2, n + 10);
    assert(word =~= "expected"@);
    assert(trim_keeps(word));
    assert(trim(word) =~= "expected"@);
    assert(placeholder_value("expected"@, project, target, actual, Some(expected)) == Some(shown));
    lemma_render_plain(t, n + 12, t.len() as int, project, target, actual, Some(expected));
    assert(t.subrange(n + 12, t.len() as int) =~= post);
    assert(render_from(t, t.len() as int, project, target, actual, Some(expected)) == Seq::<char>::empty());
    assert(render_from(t, n, project, target, actual, Some(expected)) == shown + render_from(
        t,
        n + 12,
        project,
        target,
        actual,
        Some(expected),
    ));
    assert(pre + (shown + (post + Seq::<char>::empty())) =~= pre + shown + post);
}

/// A placeholder is replaced by what its name stands for, and the text
/// around it (holding no `{`) is kept: for a name without braces or
/// surrounding white space, `{{name}}` becomes the name's value, or stays
/// as written when the name is unknown or the target does not answer it.
pub proof fn law_placeholder_is_replaced(
    pre: Seq<char>,
    name: Seq<char>,
    post: Seq<char>,
    project: ParsedProject,
    target: TargetView,
    actual: Option<JsonView>,
    expected: Option<JsonView>,
)
    requires
        forall|k: int| 0 <= k < pre.len() ==> pre[k] != '{',
        forall|k: int| 0 <= k < post.len() ==> post[k] != '{',
        forall|k: int| 0 <= k < name.len() ==> name[k] != '{' && name[k] != '}',
        name.len() > 0 ==> !crate::text::is_white(name[0]) && !crate::text::is_white(name[name.len() - 1]),
    ensures
        spec_render(pre + "{{"@ + name + "}}"@ + post, project, target, actual, expected) == pre + match placeholder_value(
            name,
            project,
            target,
            actual,
            expected,
        ) {
            Some(v) => v,
            None => "{{"@ + name + "}}"@,
        } + post,
{
    reveal_strlit("{{");
    reveal_strlit("}}");
    let t = pre + "{{"@ + name + "}}"@ + post;
    let n = pre.len() as int;
    let m = n + 2 + name.len();
    let piece = match placeholder_value(name, project, target, actual, expected) {
        Some(v) => v,
        None => "{{"@ + name + "}}"@,
    };
    assert(t.len() == m + 2 + post.len());
    assert forall|k: int| 0 <= k < n implies t[k] != '{' by {
        assert(t[k] == pre[k]);
    }
    assert forall|k: int| m + 2 <= k < t.len() implies t[k] != '{' by {
        assert(t[k] == post[k - m - 2]);
    }
    assert(t[n] == '{' && t[n + 1] == '{');
    assert(t[m] == '}' && t[m + 1] == '}');
    assert forall|k: int| n + 2 <= k < m implies t[k] != '{' && t[k] != '}' by {
        assert(t[k] == name[k - n - 2]);
    }
    lemma_render_plain(t, 0, n, project, target, actual, expected);
    assert(t.subrange(0, n) =~= pre);
    lemma_scan_plain(t, n + 2, m, 1);
    assert(close_scan(t, m, 1) == Some(m));
    assert(opens_at(t, n));
    let word = t.subrange(n + 2, m);
    assert(word =~= name);
    if name.len() > 0 {
        assert(trim_keeps(name));
        assert(trim(name) =~= name);
    } else {
        assert(trim(name) =~= name);
    }
    assert(t.subrange(n, m + 2) =~= "{{"@ + name + "}}"@);
    lemma_render_plain(t, m + 2, t.len() as int, project, target, actual, expected);
    assert(t.subrange(m + 2, t.len() as int) =~= post);
    assert(render_from(t, t.len() as int, project, target, actual, expected) == Seq::<char>::empty());
    assert(render_from(t, n, project, target, actual, expected) == piece + render_from(
        t,
        m + 2,
        project,
        target,
        actual,
        expected,
    ));
    assert(pre + (piece + (post + Seq::<char>::empty())) =~= pre + piece + post);
}

/// What each placeholder name stands for: the project's name, id and
/// root; the file of the target; a flow's id, name and kind; a
/// component's names and id; the actual and expected values (a string
/// without quotes, any other value as compact JSON); the source file,
/// line and column of the target.
pub proof fn law_placeholder_names(
    p: ParsedProject,
    t: TargetView,
    actual: Option<JsonView>,
    expected: Option<JsonView>,
    f: MuleFlow,
    c: MuleComponent,
    a: JsonView,
    x: JsonView,
)
    ensures
        placeholder_value("project.name"@, p, t, actual, expected) == Some(p.project.name@),
        placeholder_value("project.id"@, p, t, actual, expected) == Some(p.project.id@),
        placeholder_value("project.root"@, p, t, actual, expected) == Some(p.project.root_path@),
        placeholder_value("flow.id"@, p, TargetView::Flow(f), actual, expected) == Some(f.id@),
        placeholder_value("flow.name"@, p, TargetView::Flow(f), actual, expected) == Some(f.name@),
        placeholder_value("flow.kind"@, p, TargetView::Flow(f), actual, expected) == Some(f.kind.spec_as_str()),
        placeholder_value("component.qualified-name"@, p, TargetView::Component(c), actual, expected) == Some(
            c.qualified_name@,
        ),
        placeholder_value("component.local-name"@, p, TargetView::Component(c), actual, expected) == Some(
            c.local_name@,
        ),
        placeholder_value("component.id"@, p, TargetView::Component(c), actual, expected) == Some(c.id@),
        placeholder_value("actual"@, p, t, Some(a), expected) == Some(
            match a {
                JsonView::Str(s) => s,
                _ => json_text(a),
            },
        ),
        placeholder_value("actual"@, p, t, None, expected) is None,
        placeholder_value("expected"@, p, t, actual, Some(x)) == Some(
            match x {
                JsonView::Str(s) => s,
                _ => json_text(x),
            },
        ),
        placeholder_value("expected"@, p, t, actual, None) is None,
        placeholder_value("source.file"@, p, TargetView::Component(c), actual, expected) == Some(c.source.file@),
        placeholder_value("source.line"@, p, TargetView::Component(c), actual, expected) == Some(
            decimal(c.source.start_line as nat),
        ),
        placeholder_value("source.column"@, p, TargetView::Component(c), actual, expected) == Some(
            decimal(c.source.start_column as nat),
        ),
{
    reveal_strlit("project.name");
    reveal_strlit("project.id");
    reveal_strlit("project.root");
    reveal_strlit("file.path");
    reveal_strlit("flow.id");
    reveal_strlit("flow.name");
    reveal_strlit("flow.kind");
    reveal_strlit("component.qualified-name");
    reveal_strlit("component.local-name");
    reveal_strlit("component.id");
    reveal_strlit("actual");
    reveal_strlit("expected");
    reveal_strlit("source.file");
    reveal_strlit("source.line");
    reveal_strlit("source.start-line");
    reveal_strlit("source.column");
    reveal_strlit("source.start-column");
    assert("project.name"@ != "project.id"@) by {
        assert("project.name"@.len() != "project.id"@.len());
    }
    assert("project.name"@ != "project.root"@) by {
        assert("project.name"@[8] != "project.root"@[8]);
    }
    assert("project.id"@ != "project.root"@) by {
        assert("project.id"@.len() != "project.root"@.len());
    }
    assert("project.name"@ != "flow.id"@) by {
        assert("project.name"@.len() != "flow.id"@.len());
    }
    assert("project.id"@ != "flow.id"@) by {
        assert("project.id"@.len() != "flow.id"@.len());
    }
    assert("project.root"@ != "flow.id"@) by {
        assert("project.root"@.len() != "flow.id"@.len());
    }
    assert("file.path"@ != "flow.id"@) by {
        assert("file.path"@.len() != "flow.id"@.len());
    }
    assert("project.name"@ != "flow.name"@) by {
        assert("project.name"@.len() != "flow.name"@.len());
    }
    assert("project.id"@ != "flow.name"@) by {
        assert("project.id"@.len() != "flow.name"@.len());
    }
    assert("project.root"@ != "flow.name"@) by {
        assert("project.root"@.len() != "flow.name"@.len());
    }
    assert("file.path"@ != "flow.name"@) by {
        assert("file.path"@[1] != "flow.name"@[1]);
    }
    assert("flow.id"@ != "flow.name"@) by {
        assert("flow.id"@.len() != "flow.name"@.len());
    }
    assert("project.name"@ != "flow.kind"@) by {
        assert("project.name"@.len() != "flow.kind"@.len());
    }
    assert("project.id"@ != "flow.kind"@) by {
        assert("project.id"@.len() != "flow.kind"@.len());
    }
    assert("project.root"@ != "flow.kind"@) by {
        assert("project.root"@.len() != "flow.kind"@.len());
    }
    assert("file.path"@ != "flow.kind"@) by {
        assert("file.path"@[1] != "flow.kind"@[1]);
    }
    assert("flow.id"@ != "flow.kind"@) by {
        assert("flow.id"@.len() != "flow.kind"@.len());
    }
    assert("flow.name"@ != "flow.kind"@) by {
        assert("flow.name"@[5] != "flow.kind"@[5]);
    }
    assert("project.name"@ != "component.qualified-name"@) by {
        assert("project.name"@.len() != "component.qualified-name"@.len());
    }
    assert("project.id"@ != "component.qualified-name"@) by {
        assert("project.id"@.len() != "component.qualified-name"@.len());
    }
    assert("project.root"@ != "component.qualified-name"@) by {
        assert("project.root"@.len() != "component.qualified-name"@.len());
    }
    assert("file.path"@ != "component.qualified-name"@) by {
        assert("file.path"@.len() != "component.qualified-name"@.len());
    }
    assert("flow.id"@ != "component.qualified-name"@) by {
        assert("flow.id"@.len() != "component.qualified-name"@.len());
    }
    assert("flow.name"@ != "component.qualified-name"@) by {
        assert("flow.name"@.len() != "component.qualified-name"@.len());
    }
    assert("flow.kind"@ != "component.qualified-name"@) by {
        assert("flow.kind"@.len() != "component.qualified-name"@.len());
    }
    assert("project.name"@ != "component.local-name"@) by {
        assert("project.name"@.len() != "component.local-name"@.len());
    }
    assert("project.id"@ != "component.local-name"@) by {
        assert("project.id"@.len() != "component.local-name"@.len());
    }
    assert("project.root"@ != "component.local-name"@) by {
        assert("project.root"@.len() != "component.local-name"@.len());
    }
    assert("file.path"@ != "component.local-name"@) by {
        assert("file.path"@.len() != "component.local-name"@.len());
    }
    assert("flow.id"@ != "component.local-name"@) by {
        assert("flow.id"@.len() != "component.local-name"@.len());
    }
    assert("flow.name"@ != "component.local-name"@) by {
        assert("flow.name"@.len() != "component.local-name"@.len());
    }
    assert("flow.kind"@ != "component.local-name"@) by {
        assert("flow.kind"@.len() != "component.local-name"@.len());
    }
    assert("component.qualified-name"@ != "component.local-name"@) by {
        assert("component.qualified-name"@.len() != "component.local-name"@.len());
    }
    assert("project.name"@ != "component.id"@) by {
        assert("project.name"@[0] != "component.id"@[0]);
    }
    assert("project.id"@ != "component.id"@) by {
        assert("project.id"@.len() != "component.id"@.len());
    }
    assert("project.root"@ != "component.id"@) by {
        assert("project.root"@[0] != "component.id"@[0]);
    }
    assert("file.path"@ != "component.id"@) by {
        assert("file.path"@.len() != "component.id"@.len());
    }
    assert("flow.id"@ != "component.id"@) by {
        assert("flow.id"@.len() != "component.id"@.len());
    }
    assert("flow.name"@ != "component.id"@) by {
        assert("flow.name"@.len() != "component.id"@.len());
    }
    assert("flow.kind"@ != "component.id"@) by {
        assert("flow.kind"@.len() != "component.id"@.len());
    }
    assert("component.qualified-name"@ != "component.id"@) by {
        assert("component.qualified-name"@.len() != "component.id"@.len());
    }
    assert("component.local-name"@ != "component.id"@) by {
        assert("component.local-name"@.len() != "component.id"@.len());
    }
    assert("project.name"@ != "actual"@) by {
        assert("project.name"@.len() != "actual"@.len());
    }
    assert("project.id"@ != "actual"@) by {
        assert("project.id"@.len() != "actual"@.len());
    }
    assert("project.root"@ != "actual"@) by {
        assert("project.root"@.len() != "actual"@.len());
    }
    assert("file.path"@ != "actual"@) by {
        assert("file.path"@.len() != "actual"@.len());
    }
    assert("flow.id"@ != "actual"@) by {
        assert("flow.id"@.len() != "actual"@.len());
    }
    assert("flow.name"@ != "actual"@) by {
        assert("flow.name"@.len() != "actual"@.len());
    }
    assert("flow.kind"@ != "actual"@) by {
        assert("flow.kind"@.len() != "actual"@.len());
    }
    assert("component.qualified-name"@ != "actual"@) by {
        assert("component.qualified-name"@.len() != "actual"@.len());
    }
    assert("component.local-name"@ != "actual"@) by {
        assert("component.local-name"@.len() != "actual"@.len());
    }
    assert("component.id"@ != "actual"@) by {
        assert("component.id"@.len() != "actual"@.len());
    }
    assert("project.name"@ != "expected"@) by {
        assert("project.name"@.len() != "expected"@.len());
    }
    assert("project.id"@ != "expected"@) by {
        assert("project.id"@.len() != "expected"@.len());
    }
    assert("project.root"@ != "expected"@) by {
        assert("project.root"@.len() != "expected"@.len());
    }
    assert("file.path"@ != "expected"@) by {
        assert("file.path"@.len() != "expected"@.len());
    }
    assert("flow.id"@ != "expected"@) by {
        assert("flow.id"@.len() != "expected"@.len());
    }
    assert("flow.name"@ != "expected"@) by {
        assert("flow.name"@.len() != "expected"@.len());
    }
    assert("flow.kind"@ != "expected"@) by {
        assert("flow.kind"@.len() != "expected"@.len());
    }
    assert("component.qualified-name"@ != "expected"@) by {
        assert("component.qualified-name"@.len() != "expected"@.len());
    }
    assert("component.local-name"@ != "expected"@) by {
        assert("component.local-name"@.len() != "expected"@.len());
    }
    assert("component.id"@ != "expected"@) by {
        assert("component.id"@.len() != "expected"@.len());
    }
    assert("actual"@ != "expected"@) by {
        assert("actual"@.len() != "expected"@.len());
    }
    assert("project.name"@ != "source.file"@) by {
        assert("project.name"@.len() != "source.file"@.len());
    }
    assert("project.id"@ != "source.file"@) by {
        assert("project.id"@.len() != "source.file"@.len());
    }
    assert("project.root"@ != "source.file"@) by {
        assert("project.root"@.len() != "source.file"@.len());
    }
    assert("file.path"@ != "source.file"@) by {
        assert("file.path"@.len() != "source.file"@.len());
    }
    assert("flow.id"@ != "source.file"@) by {
        assert("flow.id"@.len() != "source.file"@.len());
    }
    assert("flow.name"@ != "source.file"@) by {
        assert("flow.name"@.len() != "source.file"@.len());
    }
    assert("flow.kind"@ != "source.file"@) by {
        assert("flow.kind"@.len() != "source.file"@.len());
    }
    assert("component.qualified-name"@ != "source.file"@) by {
        assert("component.qualified-name"@.len() != "source.file"@.len());
    }
    assert("component.local-name"@ != "source.file"@) by {
        assert("component.local-name"@.len() != "source.file"@.len());
    }
    assert("component.id"@ != "source.file"@) by {
        assert("component.id"@.len() != "source.file"@.len());
    }
    assert("actual"@ != "source.file"@) by {
        assert("actual"@.len() != "source.file"@.len());
    }
    assert("expected"@ != "source.file"@) by {
        assert("expected"@.len() != "source.file"@.len());
    }
    assert("project.name"@ != "source.line"@) by {
        assert("project.name"@.len() != "source.line"@.len());
    }
    assert("project.id"@ != "source.line"@) by {
        assert("project.id"@.len() != "source.line"@.len());
    }
    assert("project.root"@ != "source.line"@) by {
        assert("project.root"@.len() != "source.line"@.len());
    }
    assert("file.path"@ != "source.line"@) by {
        assert("file.path"@.len() != "source.line"@.len());
    }
    assert("flow.id"@ != "source.line"@) by {
        assert("flow.id"@.len() != "source.line"@.len());
    }
    assert("flow.name"@ != "source.line"@) by {
        assert("flow.name"@.len() != "source.line"@.len());
    }
    assert("flow.kind"@ != "source.line"@) by {
        assert("flow.kind"@.len() != "source.line"@.len());
    }
    assert("component.qualified-name"@ != "source.line"@) by {
        assert("component.qualified-name"@.len() != "source.line"@.len());
    }
    assert("component.local-name"@ != "source.line"@) by {
        assert("component.local-name"@.len() != "source.line"@.len());
    }
    assert("component.id"@ != "source.line"@) by {
        assert("component.id"@.len() != "source.line"@.len());
    }
    assert("actual"@ != "source.line"@) by {
        assert("actual"@.len() != "source.line"@.len());
    }
    assert("expected"@ != "source.line"@) by {
        assert("expected"@.len() != "source.line"@.len());
    }
    assert("source.file"@ != "source.line"@) by {
        assert("source.file"@[7] != "source.line"@[7]);
    }
    assert("project.name"@ != "source.column"@) by {
        assert("project.name"@.len() != "source.column"@.len());
    }
    assert("project.id"@ != "source.column"@) by {
        assert("project.id"@.len() != "source.column"@.len());
    }
    assert("project.root"@ != "source.column"@) by {
        assert("project.root"@.len() != "source.column"@.len());
    }
    assert("file.path"@ != "source.column"@) by {
        assert("file.path"@.len() != "source.column"@.len());
    }
    assert("flow.id"@ != "source.column"@) by {
        assert("flow.id"@.len() != "source.column"@.len());
    }
    assert("flow.name"@ != "source.column"@) by {
        assert("flow.name"@.len() != "source.column"@.len());
    }
    assert("flow.kind"@ != "source.column"@) by {
        assert("flow.kind"@.len() != "source.column"@.len());
    }
    assert("component.qualified-name"@ != "source.column"@) by {
        assert("component.qualified-name"@.len() != "source.column"@.len());
    }
    assert("component.local-name"@ != "source.column"@) by {
        assert("component.local-name"@.len() != "source.column"@.len());
    }
    assert("component.id"@ != "source.column"@) by {
        assert("component.id"@.len() != "source.column"@.len());
    }
    assert("actual"@ != "source.column"@) by {
        assert("actual"@.len() != "source.column"@.len());
    }
    assert("expected"@ != "source.column"@) by {
        assert("expected"@.len() != "source.column"@.len());
    }
    assert("source.file"@ != "source.column"@) by {
        assert("source.file"@.len() != "source.column"@.len());
    }
    assert("source.line"@ != "source.column"@) by {
        assert("source.line"@.len() != "source.column"@.len());
    }
    assert("source.start-line"@ != "source.column"@) by {
        assert("source.start-line"@.len() != "source.column"@.len());
    }
}

spec fn trim_keeps(w: Seq<char>) -> bool {
    crate::text::trim_start_index(w) == 0 && crate::text::trim_end_index(w) == w.len()
}

pub open spec fn opt_ref_view(v: Option<&JsonValue>) -> Option<JsonView> {
    match v {
        Some(x) => Some(x@),
        None => None,
    }
}

fn find_close(t: &[char], from: usize) -> (r: Option<usize>)
    requires
        from <= t@.len(),
    ensures
        match r {
            Some(e) => close_scan(t@, from as int, 1) == Some(e as int),
            None => close_scan(t@, from as int, 1) is None,
        },
{
    let mut depth: usize = 1;
    let mut j: usize = from;
    while t.len() - j > 1
        invariant
            from <= j,
            j <= t@.len(),
            1 <= depth <= 1 + j,
            close_scan(t@, j as int, depth as int) == close_scan(t@, from as int, 1),
        decreases t.len() - j,
    {
        if t[j] == '{' && t[j + 1] == '{' {
            depth = depth + 1;
            j = j + 2;
        } else if t[j] == '}' && t[j + 1] == '}' {
            if depth - 1 == 0 {
                return Some(j);
            }
            depth = depth - 1;
            j = j + 2;
        } else {
            j = j + 1;
        }
    }
    None
}

fn name_is(name: &[char], lit: &str) -> (r: bool)
    ensures
        r == (name@ == lit@),
{
    let l = chars_of(lit);
    chars_eq(name, l.as_slice())
}

fn display_string(v: &JsonValue) -> (s: String)
    ensures
        s@ == display_value(v@),
{
    match v {
        JsonValue::String(s) => s.clone(),
        _ => to_json_string(v),
    }
}

fn opt_display_string(v: Option<&JsonValue>) -> (r: Option<String>)
    ensures
        match r {
            Some(s) => opt_display(opt_ref_view(v)) == Some(s@),
            None => opt_display(opt_ref_view(v)) is None,
        },
{
    match v {
        Some(x) => Some(display_string(x)),
        None => None,
    }
}

fn span_file_string(t: &EvalTarget<'_>) -> (s: String)
    ensures
        s@ == span_file(target_view(*t)),
{
    match span_of(t) {
        Some(sp) => sp.file,
        None => String::new(),
    }
}

fn span_numbers(t: &EvalTarget<'_>) -> (r: (u32, u32))
    ensures
        r.0 as nat == span_line(target_view(*t)),
        r.1 as nat == span_column(target_view(*t)),
{
    match span_of(t) {
        Some(sp) => (sp.start_line, sp.start_column),
        None => (0, 0),
    }
}

fn decimal_string(n: u32) -> (s: String)
    ensures
        s@ == decimal(n as nat),
{
    let mut s = String::new();
    push_u64(&mut s, n as u64);
    s
}

fn prefixed(prefix: &str, rest: &str) -> (s: String)
    ensures
        s@ == prefix@ + rest@,
{
    let mut s = String::new();
    push_str(&mut s, prefix);
    push_str(&mut s, rest);
    s
}

fn lookup(
    name: &[char],
    ctx: &EvalContext<'_>,
    actual: Option<&JsonValue>,
    expected: Option<&JsonValue>,
) -> (r: Option<String>)
    ensures
        match r {
            Some(s) => placeholder_value(name@, *ctx.project, target_view(ctx.target), opt_ref_view(actual), opt_ref_view(expected))
                == Some(s@),
            None => placeholder_value(name@, *ctx.project, target_view(ctx.target), opt_ref_view(actual), opt_ref_view(expected)) is None,
        },
{
    let t = &ctx.target;
    if name_is(name, "project.name") {
        Some(ctx.project.project.name.clone())
    } else if name_is(name, "project.id") {
        Some(ctx.project.project.id.clone())
    } else if name_is(name, "project.root") {
        Some(ctx.project.project.root_path.clone())
    } else if name_is(name, "file.path") {
        match t {
            EvalTarget::File(f) => Some(f.path.clone()),
            _ => Some(span_file_string(t)),
        }
    } else if name_is(name, "flow.id") {
        match t {
            EvalTarget::Flow(f) => Some(f.id.clone()),
            EvalTarget::FlowRef(r) => Some(prefixed("reference:", r.target.as_str())),
            _ => None,
        }
    } else if name_is(name, "flow.name") {
        match t {
            EvalTarget::Flow(f) => Some(f.name.clone()),
            EvalTarget::PropertyRef { flow_name, .. } => Some((*flow_name).clone()),
            _ => None,
        }
    } else if name_is(name, "flow.kind") {
        match t {
            EvalTarget::Flow(f) => Some(f.kind.as_str().to_owned()),
            _ => None,
        }
    } else if name_is(name, "component.qualified-name") {
        match t {
            EvalTarget::Component(c) => Some(c.qualified_name.clone()),
            _ => None,
        }
    } else if name_is(name, "component.local-name") {
        match t {
            EvalTarget::Component(c) => Some(c.local_name.clone()),
            _ => None,
        }
    } else if name_is(name, "component.id") {
        match t {
            EvalTarget::Component(c) => Some(c.id.clone()),
            _ => None,
        }
    } else if name_is(name, "actual") {
        opt_display_string(actual)
    } else if name_is(name, "expected") {
        opt_display_string(expected)
    } else if name_is(name, "source.file") {
        Some(span_file_string(t))
    } else if name_is(name, "source.line") || name_is(name, "source.start-line") {
        let (line, _) = span_numbers(t);
        Some(decimal_string(line))
    } else if name_is(name, "source.column") || name_is(name, "source.start-column") {
        let (_, column) = span_numbers(t);
        Some(decimal_string(column))
    } else {
        None
    }
}

/// Replaces every `{{ name }}` of `template` whose name the context
/// answers; anything else is copied unchanged.
#[verifier::rlimit(40)]
pub fn render(
    template: &str,
    ctx: &EvalContext<'_>,
    actual: Option<&JsonValue>,
    expected: Option<&JsonValue>,
) -> (s: String)
    ensures
        s@ == spec_render(template@, *ctx.project, target_view(ctx.target), opt_ref_view(actual), opt_ref_view(expected)),
{
    let t = chars_of(template);
    let ghost av = opt_ref_view(actual);
    let ghost ev = opt_ref_view(expected);
    let mut out = String::new();
    let mut i: usize = 0;
    while i < t.len()
        invariant
            t@ == template@,
            i <= t@.len(),
            av == opt_ref_view(actual),
            ev == opt_ref_view(expected),
            out@ + render_from(t@, i as int, *ctx.project, target_view(ctx.target), av, ev) == render_from(t@, 0, *ctx.project, target_view(ctx.target), av, ev),
        decreases t.len() - i,
    {
        if i + 1 < t.len() && t[i] == '{' && t[i + 1] == '{' {
            match find_close(t.as_slice(), i + 2) {
                Some(end) => {
                    proof {
                        lemma_close_scan_bounds(t@, i + 2, 1);
                    }
                    let name = trim_chars(&t.as_slice()[i + 2..end]);
                    assert(name@ == trim(t@.subrange(i + 2, end as int)));
                    let ghost before = out@;
                    assert(opens_at(t@, i as int));
                    assert(close_scan(t@, i + 2, 1) == Some(end as int));
                    let looked = lookup(name.as_slice(), ctx, actual, expected);
                    match &looked {
                        Some(v) => {
                            push_str(&mut out, v.as_str());
                            assert(out@ == before + v@);
                        },
                        None => {
                            let whole = &t.as_slice()[i..end + 2];
                            assert(whole@ == t@.subrange(i as int, end + 2));
                            push_chars(&mut out, whole);
                            assert(out@ == before + t@.subrange(i as int, end + 2));
                        },
                    }
                    proof {
                        let piece = match placeholder_value(name@, *ctx.project, target_view(ctx.target), av, ev) {
                            Some(v) => v,
                            None => t@.subrange(i as int, end + 2),
                        };
                        assert(render_from(t@, i as int, *ctx.project, target_view(ctx.target), av, ev) == piece + render_from(
                            t@,
                            end + 2,
                            *ctx.project,
                            target_view(ctx.target),
                            av,
                            ev,
                        ));
                        assert(out@ == before + piece);
                        assert(out@ + render_from(t@, end + 2, *ctx.project, target_view(ctx.target), av, ev) =~= before
                            + render_from(t@, i as int, *ctx.project, target_view(ctx.target), av, ev));
                    }
                    i = end + 2;
                    continue;
                },
                None => {},
            }
        }
        let ghost before = out@;
        push_char(&mut out, t[i]);
        proof {
            assert(out@ + render_from(t@, i + 1, *ctx.project, target_view(ctx.target), av, ev) =~= before + render_from(
                t@,
                i as int,
                *ctx.project,
                target_view(ctx.target),
                av,
                ev,
            ));
        }
        i = i + 1;
    }
    assert(render_from(t@, i as int, *ctx.project, target_view(ctx.target), av, ev) =~= Seq::<char>::empty());
    assert(out@ =~= render_from(t@, 0, *ctx.project, target_view(ctx.target), av, ev));
    out
}

} // verus!
