//! Operators: each returns `true` when the assertion fails, that is,
//! when the operator "fires" and a finding is emitted.

use vstd::prelude::*;
use crate::engine::context::{opt_json_view, target_view, EvalContext, EvalTarget, TargetView};
use crate::engine::error::{EngineError, EngineErrorView};
use crate::engine::facts::{is_required_satisfied, present_paths, required_satisfied};
use crate::engine::regex_support::{regex_compile_error, regex_is_match, Pattern};
use crate::json::{json_eq, json_list_contains, json_text, json_view, to_json_string, JsonValue, JsonView};
use crate::model::{MuleComponent, MuleDocument, MuleFlow, ParsedProject, SourceFile};
use crate::ruleset::Operator;
use crate::text::{
    chars_of, contains, contains_seq, occurs_at, ends_with, is_prefix, is_suffix, starts_with, str_eq,
    string_of, trim, trim_chars,
};

verus! {

broadcast use vstd::std_specs::vec::axiom_vec_index_decreases;

/// The text of a string value; other values read as the empty string.
pub open spec fn string_value(v: JsonView) -> Seq<char> {
    match v {
        JsonView::Str(s) => s,
        _ => Seq::empty(),
    }
}

/// Value of a sequence of ASCII digits.
pub open spec fn digits_value(s: Seq<char>) -> int
    decreases s.len(),
{
    if s.len() == 0 {
        0
    } else {
        10 * digits_value(s.drop_last()) + ((s.last() as u32) - ('0' as u32))
    }
}

pub open spec fn is_digit(c: char) -> bool {
    '0' <= c && c <= '9'
}

pub open spec fn all_digits(s: Seq<char>) -> bool {
    forall|k: int| 0 <= k < s.len() ==> is_digit(#[trigger] s[k])
}

/// What `i64::from_str` accepts: an optional `+` or `-`, then one or more
/// ASCII digits, with a value that fits in an `i64`.
pub open spec fn parse_i64(s: Seq<char>) -> Option<int> {
    if s.len() == 0 {
        None
    } else {
        let neg = s[0] == '-';
        let body = if s[0] == '-' || s[0] == '+' {
            s.drop_first()
        } else {
            s
        };
        if body.len() == 0 || !all_digits(body) {
            None
        } else {
            let v = if neg {
                -digits_value(body)
            } else {
                digits_value(body)
            };
            if i64::MIN <= v && v <= i64::MAX {
                Some(v)
            } else {
                None
            }
        }
    }
}

proof fn lemma_digits_value_nonneg_mono(s: Seq<char>, i: int)
    requires
        all_digits(s),
        0 <= i <= s.len(),
    ensures
        0 <= digits_value(s.subrange(0, i)) <= digits_value(s),
    decreases s.len() - i,
{
    if i < s.len() {
        lemma_digits_value_nonneg_mono(s, i + 1);
        let t = s.subrange(0, i + 1);
        assert(t.drop_last() =~= s.subrange(0, i));
        assert(is_digit(s[i]));
        lemma_digits_value_nonneg(s.subrange(0, i));
    } else {
        assert(s.subrange(0, i) =~= s);
        lemma_digits_value_nonneg(s);
    }
}

proof fn lemma_digits_value_nonneg(s: Seq<char>)
    requires
        all_digits(s),
    ensures
        0 <= digits_value(s),
    decreases s.len(),
{
    if s.len() > 0 {
        assert(is_digit(s.last()));
        assert(all_digits(s.drop_last())) by {
            assert forall|k: int| 0 <= k < s.len() - 1 implies is_digit(#[trigger] s.drop_last()[k]) by {
                assert(s.drop_last()[k] == s[k]);
            }
        }
        lemma_digits_value_nonneg(s.drop_last());
    }
}

/// Parses a decimal `i64` the way `str::parse::<i64>` does.
#[verifier::loop_isolation(false)]
pub fn parse_i64_chars(s: &[char]) -> (r: Option<i64>)
    ensures
        match r {
            Some(v) => parse_i64(s@) == Some(v as int),
            None => parse_i64(s@) is None,
        },
{
    if s.len() == 0 {
        return None;
    }
    let neg = s[0] == '-';
    let start: usize = if s[0] == '-' || s[0] == '+' {
        1
    } else {
        0
    };
    let ghost body = if s@[0] == '-' || s@[0] == '+' {
        s@.drop_first()
    } else {
        s@
    };
    assert(body =~= s@.subrange(start as int, s@.len() as int));
    if start >= s.len() {
        return None;
    }
    let mut acc: i128 = 0;
    let mut i: usize = start;
    while i < s.len()
        invariant
            start <= i <= s.len(),
            body == s@.subrange(start as int, s@.len() as int),
            all_digits(body.subrange(0, i - start)),
            acc as int == digits_value(body.subrange(0, i - start)),
            0 <= acc <= 9223372036854775808i128,
        decreases s.len() - i,
    {
        let c = s[i];
        if !('0' <= c && c <= '9') {
            assert(body[i - start] == c);
            assert(!is_digit(body[i - start]));
            return None;
        }
        let d = (c as u32 - '0' as u32) as i128;
        let ghost prev = body.subrange(0, i - start);
        let next_acc = acc * 10 + d;
        proof {
            let nxt = body.subrange(0, i - start + 1);
            assert(nxt.drop_last() =~= prev);
            assert(nxt.last() == c);
            assert(s@.subrange(start as int, i + 1) =~= nxt);
            assert(next_acc == digits_value(nxt));
            assert(all_digits(nxt)) by {
                assert forall|k: int| 0 <= k < nxt.len() implies is_digit(#[trigger] nxt[k]) by {
                    if k < nxt.len() - 1 {
                        assert(nxt[k] == prev[k]);
                    }
                }
            }
        }
        if next_acc > 9223372036854775808i128 {
            return self::overflow_or_invalid(s, start, i + 1, neg);
        }
        acc = next_acc;
        i = i + 1;
    }
    assert(body.subrange(0, (s.len() - start) as int) =~= body);
    if neg {
        proof {
            lemma_digits_value_nonneg(body);
        }
        Some((-acc) as i64)
    } else {
        if acc > 9223372036854775807i128 {
            return None;
        }
        Some(acc as i64)
    }
}

/// After a prefix of the digits already exceeds the `i64` range, the
/// answer is `None` either way: an invalid character later or an
/// out-of-range value.
fn overflow_or_invalid(s: &[char], start: usize, from: usize, neg: bool) -> (r: Option<i64>)
    requires
        start <= 1,
        start < from <= s@.len(),
        neg == (s@[0] == '-'),
        start == (if s@[0] == '-' || s@[0] == '+' { 1usize } else { 0usize }),
        all_digits(s@.subrange(start as int, from as int)),
        digits_value(s@.subrange(start as int, from as int)) > 9223372036854775808,
    ensures
        r is None,
        parse_i64(s@) is None,
{
    let ghost body = s@.subrange(start as int, s@.len() as int);
    assert(body =~= (if s@[0] == '-' || s@[0] == '+' {
        s@.drop_first()
    } else {
        s@
    }));
    proof {
        if all_digits(body) {
            assert(body.subrange(0, from - start) =~= s@.subrange(start as int, from as int));
            lemma_digits_value_nonneg_mono(body, from - start);
        }
    }
    None
}

/// Byte length of the UTF-8 encoding of `s`.
pub open spec fn utf8_len(s: Seq<char>) -> int
    decreases s.len(),
{
    if s.len() == 0 {
        0
    } else {
        utf8_len(s.drop_last()) + char_width(s.last())
    }
}

pub open spec fn char_width(c: char) -> int {
    let u = c as u32;
    if u < 0x80 {
        1
    } else if u < 0x800 {
        2
    } else if u < 0x10000 {
        3
    } else {
        4
    }
}

fn utf8_length(s: &str) -> (n: u128)
    ensures
        n as int == utf8_len(s@),
        n <= 4 * (usize::MAX as int),
{
    let cs = chars_of(s);
    let mut n: u128 = 0;
    let mut i: usize = 0;
    while i < cs.len()
        invariant
            cs@ == s@,
            i <= cs.len(),
            n as int == utf8_len(s@.subrange(0, i as int)),
            n <= 4 * i,
        decreases cs.len() - i,
    {
        let u = cs[i] as u32;
        let w: u128 = if u < 0x80 {
            1
        } else if u < 0x800 {
            2
        } else if u < 0x10000 {
            3
        } else {
            4
        };
        proof {
            let nxt = s@.subrange(0, i + 1);
            assert(nxt.drop_last() =~= s@.subrange(0, i as int));
        }
        n = n + w;
        i = i + 1;
    }
    assert(s@.subrange(0, cs.len() as int) =~= s@);
    n
}

/// The number a value reads as, for comparison operators.
pub open spec fn numeric(v: JsonView) -> Option<int> {
    match v {
        JsonView::Number(n) => Some(n),
        JsonView::Str(s) => parse_i64(s),
        _ => None,
    }
}

fn numeric_of(v: &JsonValue) -> (r: Option<i64>)
    ensures
        match r {
            Some(n) => numeric(v@) == Some(n as int),
            None => numeric(v@) is None,
        },
{
    match v {
        JsonValue::Number(n) => Some(*n),
        JsonValue::String(s) => {
            let cs = chars_of(s.as_str());
            parse_i64_chars(cs.as_slice())
        },
        _ => None,
    }
}

/// What count operators count: array length, the integer itself, 0 for
/// null and non-integer numbers, UTF-8 byte length of a string, else 1.
pub open spec fn count_of(v: JsonView) -> int {
    match v {
        JsonView::Array(a) => a.len() as int,
        JsonView::Number(n) => n,
        JsonView::OtherNumber(_) => 0,
        JsonView::Null => 0,
        JsonView::Str(s) => utf8_len(s),
        _ => 1,
    }
}

fn count_value(v: &JsonValue) -> (r: i128)
    ensures
        r as int == count_of(v@),
{
    match v {
        JsonValue::Array(a) => {
            proof {
                crate::json::lemma_json_views_len(a@);
                assert(v@ == JsonView::Array(crate::json::json_views(a@)));
                assert(count_of(v@) == a@.len());
            }
            a.len() as i128
        },
        JsonValue::Number(n) => *n as i128,
        JsonValue::OtherNumber(_) => 0,
        JsonValue::Null => 0,
        JsonValue::String(s) => utf8_length(s.as_str()) as i128,
        _ => 1,
    }
}

/// A Mule property placeholder `${...}`, ignoring surrounding white space.
pub open spec fn is_placeholder(s: Seq<char>) -> bool {
    is_prefix("${"@, trim(s)) && is_suffix("}"@, trim(s))
}

pub fn check_placeholder(s: &[char]) -> (r: bool)
    ensures
        r == is_placeholder(s@),
{
    let t = trim_chars(s);
    let open = chars_of("${");
    let close = chars_of("}");
    starts_with(t.as_slice(), open.as_slice()) && ends_with(t.as_slice(), close.as_slice())
}

/// A component tree contains a component whose qualified or local name is `needle`.
pub open spec fn tree_contains(c: MuleComponent, needle: Seq<char>) -> bool
    decreases c,
{
    if c.qualified_name@ == needle || c.local_name@ == needle {
        true
    } else {
        proof {
            assert(decreases_to!(c => c.children));
            assert(decreases_to!(c.children => c.children@));
        }
        trees_contain(c.children@, needle)
    }
}

pub open spec fn trees_contain(cs: Seq<MuleComponent>, needle: Seq<char>) -> bool
    decreases cs,
{
    if cs.len() == 0 {
        false
    } else {
        trees_contain(cs.drop_last(), needle) || tree_contains(cs.last(), needle)
    }
}

fn component_tree_contains(c: &MuleComponent, needle: &str) -> (r: bool)
    ensures
        r == tree_contains(*c, needle@),
    decreases c,
{
    if str_eq(c.qualified_name.as_str(), needle) || str_eq(c.local_name.as_str(), needle) {
        return true;
    }
    components_contain(&c.children, needle)
}

fn components_contain(cs: &Vec<MuleComponent>, needle: &str) -> (r: bool)
    ensures
        r == trees_contain(cs@, needle@),
    decreases cs,
{
    let mut i: usize = 0;
    while i < cs.len()
        invariant
            i <= cs.len(),
            !trees_contain(cs@.subrange(0, i as int), needle@),
        decreases cs.len() - i,
    {
        proof {
            let nxt = cs@.subrange(0, i + 1);
            assert(nxt.drop_last() =~= cs@.subrange(0, i as int));
        }
        assert(decreases_to!(cs => cs[i as int]));
        if component_tree_contains(&cs[i], needle) {
            proof {
                lemma_trees_contain_member(cs@, i as int, needle@);
            }
            return true;
        }
        i = i + 1;
    }
    assert(cs@.subrange(0, cs@.len() as int) =~= cs@);
    false
}

proof fn lemma_trees_contain_member(cs: Seq<MuleComponent>, i: int, needle: Seq<char>)
    requires
        0 <= i < cs.len(),
        tree_contains(cs[i], needle),
    ensures
        trees_contain(cs, needle),
    decreases cs.len(),
{
    if i < cs.len() - 1 {
        assert(cs.drop_last()[i] == cs[i]);
        lemma_trees_contain_member(cs.drop_last(), i, needle);
    }
}

/// The flow's component trees contain `needle`.
pub open spec fn flow_contains(f: MuleFlow, needle: Seq<char>) -> bool {
    trees_contain(f.components@, needle)
}

pub open spec fn all_resolved_in_flow(f: MuleFlow) -> bool {
    forall|k: int| 0 <= k < f.facts.flow_refs@.len() ==> (#[trigger] f.facts.flow_refs@[k]).resolved
}

pub open spec fn all_flows_resolved(fs: Seq<MuleFlow>) -> bool {
    forall|k: int| 0 <= k < fs.len() ==> all_resolved_in_flow(#[trigger] fs[k])
}

/// Every flow and sub-flow of a document has only resolved references.
pub open spec fn document_resolved(d: MuleDocument) -> bool {
    all_flows_resolved(d.flows@) && all_flows_resolved(d.sub_flows@)
}

/// Every flow and sub-flow of every document has only resolved references.
pub open spec fn all_resolved_in_project(docs: Seq<MuleDocument>) -> bool {
    forall|d: int| 0 <= d < docs.len() ==> document_resolved(#[trigger] docs[d])
}

/// `all-references-resolve` holds: for a flow, its own references; for a
/// file or a component, every reference of the project; otherwise true.
pub open spec fn spec_all_references_resolve(project: ParsedProject, target: TargetView) -> bool {
    match target {
        TargetView::Flow(f) => all_resolved_in_flow(f),
        TargetView::File(_) | TargetView::Component(_) => all_resolved_in_project(project.documents@),
        _ => true,
    }
}

fn flow_refs_resolved(f: &MuleFlow) -> (r: bool)
    ensures
        r == all_resolved_in_flow(*f),
{
    let mut k: usize = 0;
    while k < f.facts.flow_refs.len()
        invariant
            k <= f.facts.flow_refs@.len(),
            forall|j: int| 0 <= j < k ==> (#[trigger] f.facts.flow_refs@[j]).resolved,
        decreases f.facts.flow_refs.len() - k,
    {
        if !f.facts.flow_refs[k].resolved {
            return false;
        }
        k = k + 1;
    }
    true
}

fn flows_resolved(fs: &Vec<MuleFlow>) -> (r: bool)
    ensures
        r == all_flows_resolved(fs@),
{
    let mut k: usize = 0;
    while k < fs.len()
        invariant
            k <= fs@.len(),
            forall|j: int| 0 <= j < k ==> all_resolved_in_flow(#[trigger] fs@[j]),
        decreases fs.len() - k,
    {
        if !flow_refs_resolved(&fs[k]) {
            return false;
        }
        k = k + 1;
    }
    true
}

#[verifier::loop_isolation(false)]
fn all_references_resolve(ctx: &EvalContext<'_>) -> (r: bool)
    ensures
        r == spec_all_references_resolve(*ctx.project, target_view(ctx.target)),
{
    match &ctx.target {
        EvalTarget::Flow(f) => flow_refs_resolved(f),
        EvalTarget::File(_) | EvalTarget::Component(_) => {
            let docs = &ctx.project.documents;
            let mut d: usize = 0;
            while d < docs.len()
                invariant
                    d <= docs@.len(),
                    docs == &ctx.project.documents,
                    forall|j: int| 0 <= j < d ==> document_resolved(#[trigger] docs@[j]),
                decreases docs.len() - d,
            {
                if !flows_resolved(&docs[d].flows) || !flows_resolved(&docs[d].sub_flows) {
                    assert(!document_resolved(docs@[d as int]));
                    return false;
                }
                d = d + 1;
            }
            true
        },
        _ => true,
    }
}

/// `required-files-exist` holds: every string entry of the expected
/// array is satisfied by the project's files (true without an array).
pub open spec fn spec_required_files_exist(files: Seq<SourceFile>, expected: Option<JsonView>) -> bool {
    match expected {
        Some(JsonView::Array(reqs)) => forall|k: int|
            0 <= k < reqs.len() ==> match #[trigger] reqs[k] {
                JsonView::Str(s) => required_satisfied(s, present_paths(files)),
                _ => true,
            },
        _ => true,
    }
}

#[verifier::loop_isolation(false)]
fn required_files_exist(files: &Vec<SourceFile>, expected: &Option<JsonValue>) -> (r: bool)
    ensures
        r == spec_required_files_exist(files@, opt_json_view(*expected)),
{
    match expected {
        Some(JsonValue::Array(reqs)) => {
            proof {
                crate::json::lemma_json_views_len(reqs@);
            }
            let mut k: usize = 0;
            while k < reqs.len()
                invariant
                    k <= reqs@.len(),
                    crate::json::json_views(reqs@).len() == reqs@.len(),
                    forall|j: int|
                        0 <= j < k ==> match #[trigger] crate::json::json_views(reqs@)[j] {
                            JsonView::Str(s) => required_satisfied(s, present_paths(files@)),
                            _ => true,
                        },
                decreases reqs.len() - k,
            {
                proof {
                    crate::json::lemma_json_views_index(reqs@, k as int);
                }
                match &reqs[k] {
                    JsonValue::String(s) => {
                        if !is_required_satisfied(s.as_str(), files) {
                            assert(crate::json::json_views(reqs@)[k as int] == JsonView::Str(s@));
                            return false;
                        }
                    },
                    _ => {},
                }
                k = k + 1;
            }
            true
        },
        _ => true,
    }
}

/// Error text of an operator whose expected value is missing.
pub open spec fn missing_expected(op: Seq<char>) -> Seq<char> {
    "`"@ + op + "` requires an expected value"@
}

/// Error text of an operator whose expected value is not a string.
pub open spec fn not_a_string(op: Seq<char>, got: JsonView) -> Seq<char> {
    "`"@ + op + "` requires a string value, got "@ + json_text(got)
}

/// The string argument of an operator named `op`.
pub open spec fn string_arg(expected: Option<JsonView>, op: Seq<char>) -> Result<Seq<char>, Seq<char>> {
    match expected {
        Some(JsonView::Str(s)) => Ok(s),
        Some(other) => Err(not_a_string(op, other)),
        None => Err(missing_expected(op)),
    }
}

pub open spec fn flip(fires_when: bool, b: bool) -> bool {
    if fires_when {
        b
    } else {
        !b
    }
}

pub open spec fn contains_value(actual: JsonView, needle: Seq<char>) -> bool {
    match actual {
        JsonView::Str(s) => contains_seq(s, needle),
        JsonView::Array(arr) => arr.contains(JsonView::Str(needle)),
        _ => false,
    }
}

pub open spec fn spec_matches(actual: JsonView, expected: Option<JsonView>, fires_when: bool) -> Result<bool, Seq<char>> {
    match string_arg(expected, "matches"@) {
        Err(m) => Err(m),
        Ok(pattern) => match regex_compile_error(pattern) {
            Some(e) => Err("invalid regex `"@ + pattern + "`: "@ + e),
            None => Ok(flip(fires_when, regex_is_match(pattern, string_value(actual)))),
        },
    }
}

pub open spec fn spec_contains(actual: JsonView, expected: Option<JsonView>, fires_when: bool) -> Result<bool, Seq<char>> {
    match string_arg(expected, "contains"@) {
        Err(m) => Err(m),
        Ok(needle) => Ok(flip(fires_when, contains_value(actual, needle))),
    }
}

pub open spec fn spec_in(actual: JsonView, expected: Option<JsonView>, fires_when: bool) -> Result<bool, Seq<char>> {
    match expected {
        Some(JsonView::Array(opts)) => Ok(flip(fires_when, opts.contains(actual))),
        _ => Err("`in` requires an array of values, got "@ + json_text(actual)),
    }
}

/// The failing relation a comparison operator tests.
#[derive(Clone, Copy, Debug, PartialEq, Eq, Structural)]
pub enum OrdOp {
    Gt,
    Ge,
    Lt,
    Le,
}

pub open spec fn ord_holds(op: OrdOp, a: int, b: int) -> bool {
    match op {
        OrdOp::Gt => a > b,
        OrdOp::Ge => a >= b,
        OrdOp::Lt => a < b,
        OrdOp::Le => a <= b,
    }
}

pub open spec fn spec_compare(actual: JsonView, expected: Option<JsonView>, op: OrdOp) -> Result<bool, Seq<char>> {
    match numeric(actual) {
        None => Err("comparison operator requires a numeric actual, got "@ + json_text(actual)),
        Some(a) => match expected {
            Some(v) => match numeric(v) {
                Some(b) => Ok(ord_holds(op, a, b)),
                None => Err("comparison operator requires a numeric expected, got "@ + json_text(v)),
            },
            None => Err("comparison operator requires an expected value"@),
        },
    }
}

/// `count-equals` fires when the count differs from the expected number,
/// `count-less-than-or-equal` when it exceeds it.
pub open spec fn spec_count(actual: JsonView, expected: Option<JsonView>, le: bool) -> Result<bool, Seq<char>> {
    match expected {
        Some(v) => match numeric(v) {
            Some(b) => Ok(if le {
                count_of(actual) > b
            } else {
                count_of(actual) != b
            }),
            None => Err("count operator requires a numeric expected, got "@ + json_text(v)),
        },
        None => Err("count operator requires an expected value"@),
    }
}

pub open spec fn spec_contains_component(target: TargetView, expected: Option<JsonView>, fires_when: bool) -> Result<bool, Seq<char>> {
    match string_arg(expected, "contains-component"@) {
        Err(m) => Err(m),
        Ok(needle) => Ok(flip(
            fires_when,
            match target {
                TargetView::Flow(f) => flow_contains(f, needle),
                _ => false,
            },
        )),
    }
}

/// Whether `op` fires on `actual` and `expected` in a context, or the
/// message of the evaluation error it reports.
pub open spec fn op_fires(
    op: Operator,
    actual: JsonView,
    expected: Option<JsonView>,
    project: ParsedProject,
    target: TargetView,
) -> Result<bool, Seq<char>> {
    match op {
        Operator::Exists => Ok(actual == JsonView::Null),
        Operator::NotExists => Ok(actual != JsonView::Null),
        Operator::Equals => match expected {
            Some(e) => Ok(actual != e),
            None => Err(missing_expected("equals"@)),
        },
        Operator::NotEquals => match expected {
            Some(e) => Ok(actual == e),
            None => Err(missing_expected("not-equals"@)),
        },
        Operator::Matches => spec_matches(actual, expected, false),
        Operator::NotMatches => spec_matches(actual, expected, true),
        Operator::Contains => spec_contains(actual, expected, false),
        Operator::NotContains => spec_contains(actual, expected, true),
        Operator::In => spec_in(actual, expected, false),
        Operator::NotIn => spec_in(actual, expected, true),
        Operator::GreaterThan => spec_compare(actual, expected, OrdOp::Le),
        Operator::GreaterThanOrEqual => spec_compare(actual, expected, OrdOp::Lt),
        Operator::LessThan => spec_compare(actual, expected, OrdOp::Ge),
        Operator::LessThanOrEqual => spec_compare(actual, expected, OrdOp::Gt),
        Operator::CountEquals => spec_count(actual, expected, false),
        Operator::CountLessThanOrEqual => spec_count(actual, expected, true),
        Operator::IsPlaceholder => Ok(!is_placeholder(string_value(actual))),
        Operator::IsNotPlaceholder => Ok(is_placeholder(string_value(actual))),
        Operator::ContainsComponent => spec_contains_component(target, expected, false),
        Operator::NotContainsComponent => spec_contains_component(target, expected, true),
        Operator::ReferenceResolves => Ok(actual != JsonView::Bool(true)),
        Operator::AllReferencesResolve => Ok(!spec_all_references_resolve(project, target)),
        Operator::RequiredFilesExist => Ok(!spec_required_files_exist(project.project.files@, expected)),
    }
}

/// On a text, `contains` fires exactly when the expected text occurs
/// nowhere in it, at any position, and `not-contains` exactly when it
/// occurs somewhere; on a list, `contains` fires exactly when no item is
/// that text.
pub proof fn law_contains_is_substring_search(
    s: Seq<char>,
    n: Seq<char>,
    project: ParsedProject,
    target: TargetView,
)
    ensures
        op_fires(Operator::Contains, JsonView::Str(s), Some(JsonView::Str(n)), project, target) == Ok::<
            bool,
            Seq<char>,
        >(!exists|i: int| 0 <= i && i + n.len() <= s.len() && #[trigger] s.subrange(i, i + n.len()) == n),
        op_fires(Operator::NotContains, JsonView::Str(s), Some(JsonView::Str(n)), project, target) == Ok::<
            bool,
            Seq<char>,
        >(exists|i: int| 0 <= i && i + n.len() <= s.len() && #[trigger] s.subrange(i, i + n.len()) == n),
        forall|items: Seq<JsonView>|
            #[trigger] op_fires(Operator::Contains, JsonView::Array(items), Some(JsonView::Str(n)), project, target)
                == Ok::<bool, Seq<char>>(!exists|k: int| 0 <= k < items.len() && items[k] == JsonView::Str(n)),
{
    assert forall|items: Seq<JsonView>|
        #[trigger] op_fires(Operator::Contains, JsonView::Array(items), Some(JsonView::Str(n)), project, target)
            == Ok::<bool, Seq<char>>(!exists|k: int| 0 <= k < items.len() && items[k] == JsonView::Str(n)) by {
        if items.contains(JsonView::Str(n)) {
            let k = choose|k: int| 0 <= k < items.len() && items[k] == JsonView::Str(n);
        }
    }
    let found = exists|i: int| 0 <= i && i + n.len() <= s.len() && #[trigger] s.subrange(i, i + n.len()) == n;
    if found {
        let i = choose|i: int| 0 <= i && i + n.len() <= s.len() && #[trigger] s.subrange(i, i + n.len()) == n;
        assert(occurs_at(s, n, i));
    }
    if contains_seq(s, n) {
        let i = choose|i: int| #[trigger] occurs_at(s, n, i);
        assert(s.subrange(i, i + n.len()) == n);
    }
    assert(contains_seq(s, n) == found);
}

/// What each value operator means. An operator fires (a finding is due)
/// exactly when its assertion fails: `exists` when the fact is missing,
/// `equals` when the values differ, `in` when the value is not among the
/// listed ones, `matches` when the pattern finds no match, a comparison
/// when it does not hold between the numbers, `count-equals` when the
/// number of items differs, `count-less-than-or-equal` when it exceeds
/// the bound, `is-placeholder` when the trimmed text is not `${...}`, and
/// `reference-resolves` when the fact is not `true`. Each negated form
/// fires exactly when the plain one does not.
pub proof fn law_operator_meanings(
    x: JsonView,
    y: JsonView,
    a: int,
    b: int,
    items: Seq<JsonView>,
    s: Seq<char>,
    pattern: Seq<char>,
    project: ParsedProject,
    t: TargetView,
)
    ensures
        op_fires(Operator::Exists, x, None, project, t) == Ok::<bool, Seq<char>>(x == JsonView::Null),
        op_fires(Operator::NotExists, x, None, project, t) == Ok::<bool, Seq<char>>(x != JsonView::Null),
        op_fires(Operator::Equals, x, Some(y), project, t) == Ok::<bool, Seq<char>>(x != y),
        op_fires(Operator::NotEquals, x, Some(y), project, t) == Ok::<bool, Seq<char>>(x == y),
        op_fires(Operator::In, x, Some(JsonView::Array(items)), project, t) == Ok::<bool, Seq<char>>(
            !exists|k: int| 0 <= k < items.len() && items[k] == x,
        ),
        op_fires(Operator::NotIn, x, Some(JsonView::Array(items)), project, t) == Ok::<bool, Seq<char>>(
            exists|k: int| 0 <= k < items.len() && items[k] == x,
        ),
        regex_compile_error(pattern) is None ==> op_fires(
            Operator::Matches,
            JsonView::Str(s),
            Some(JsonView::Str(pattern)),
            project,
            t,
        ) == Ok::<bool, Seq<char>>(!regex_is_match(pattern, s)),
        regex_compile_error(pattern) is None ==> op_fires(
            Operator::NotMatches,
            JsonView::Str(s),
            Some(JsonView::Str(pattern)),
            project,
            t,
        ) == Ok::<bool, Seq<char>>(regex_is_match(pattern, s)),
        op_fires(Operator::GreaterThan, JsonView::Number(a), Some(JsonView::Number(b)), project, t) == Ok::<
            bool,
            Seq<char>,
        >(!(a > b)),
        op_fires(Operator::GreaterThanOrEqual, JsonView::Number(a), Some(JsonView::Number(b)), project, t) == Ok::<
            bool,
            Seq<char>,
        >(!(a >= b)),
        op_fires(Operator::LessThan, JsonView::Number(a), Some(JsonView::Number(b)), project, t) == Ok::<
            bool,
            Seq<char>,
        >(!(a < b)),
        op_fires(Operator::LessThanOrEqual, JsonView::Number(a), Some(JsonView::Number(b)), project, t) == Ok::<
            bool,
            Seq<char>,
        >(!(a <= b)),
        op_fires(Operator::CountEquals, JsonView::Array(items), Some(JsonView::Number(b)), project, t) == Ok::<
            bool,
            Seq<char>,
        >(items.len() != b),
        op_fires(Operator::CountLessThanOrEqual, JsonView::Array(items), Some(JsonView::Number(b)), project, t)
            == Ok::<bool, Seq<char>>(items.len() > b),
        op_fires(Operator::IsPlaceholder, JsonView::Str(s), None, project, t) == Ok::<bool, Seq<char>>(
            !({
                let w = trim(s);
                w.len() >= 2 && w[0] == '$' && w[1] == '{' && w[w.len() - 1] == '}'
            }),
        ),
        op_fires(Operator::IsNotPlaceholder, JsonView::Str(s), None, project, t) == Ok::<bool, Seq<char>>(
            {
                let w = trim(s);
                w.len() >= 2 && w[0] == '$' && w[1] == '{' && w[w.len() - 1] == '}'
            },
        ),
        op_fires(Operator::ReferenceResolves, x, None, project, t) == Ok::<bool, Seq<char>>(x != JsonView::Bool(true)),
{
    reveal_strlit("${");
    reveal_strlit("}");
    let w = trim(s);
    if w.len() >= 2 && w[0] == '$' && w[1] == '{' && w[w.len() - 1] == '}' {
        assert(w.subrange(0, 2) =~= "${"@);
        assert(w.subrange(w.len() - 1, w.len() as int) =~= "}"@);
    }
    if is_placeholder(s) {
        assert(w.subrange(0, 2) == "${"@);
        assert(w.subrange(0, 2)[0] == w[0] && w.subrange(0, 2)[1] == w[1]);
        assert(w.subrange(w.len() - 1, w.len() as int)[0] == w[w.len() - 1]);
    }
    if items.contains(x) {
        let k = choose|k: int| 0 <= k < items.len() && items[k] == x;
    }
}

/// The same result as an engine error with an empty rule id.
pub open spec fn op_result(r: Result<bool, Seq<char>>) -> Result<bool, EngineErrorView> {
    match r {
        Ok(b) => Ok(b),
        Err(m) => Err(EngineErrorView::Evaluate { rule_id: Seq::empty(), message: m }),
    }
}

pub open spec fn result_view(r: Result<bool, EngineError>) -> Result<bool, EngineErrorView> {
    match r {
        Ok(b) => Ok(b),
        Err(e) => Err(e@),
    }
}

fn eval_error(message: String) -> (e: EngineError)
    ensures
        e@ == (EngineErrorView::Evaluate { rule_id: Seq::empty(), message: message@ }),
{
    EngineError::Evaluate { rule_id: String::new(), message }
}

fn message2(a: &str, b: &str) -> (s: String)
    ensures
        s@ == a@ + b@,
{
    let mut s = String::new();
    s.append(a);
    s.append(b);
    s
}

fn message3(a: &str, b: &str, c: &str) -> (s: String)
    ensures
        s@ == a@ + b@ + c@,
{
    let mut s = String::new();
    s.append(a);
    s.append(b);
    s.append(c);
    s
}

fn string_arg_of<'b>(expected: &'b Option<JsonValue>, op: &str) -> (r: Result<&'b String, String>)
    ensures
        match r {
            Ok(s) => string_arg(opt_json_view(*expected), op@) == Ok::<Seq<char>, Seq<char>>(s@),
            Err(m) => string_arg(opt_json_view(*expected), op@) == Err::<Seq<char>, Seq<char>>(m@),
        },
{
    match expected {
        Some(JsonValue::String(s)) => Ok(s),
        Some(other) => {
            let mut m = message3("`", op, "` requires a string value, got ");
            let t = to_json_string(other);
            m.append(t.as_str());
            Err(m)
        },
        None => Err(message3("`", op, "` requires an expected value")),
    }
}

fn string_value_of(v: &JsonValue) -> (s: &str)
    ensures
        s@ == string_value(v@),
{
    match v {
        JsonValue::String(s) => s.as_str(),
        _ => {
            proof {
                reveal_strlit("");
            }
            ""
        },
    }
}

fn op_matches(actual: &JsonValue, expected: &Option<JsonValue>, fires_when: bool) -> (r: Result<bool, EngineError>)
    ensures
        result_view(r) == op_result(spec_matches(actual@, opt_json_view(*expected), fires_when)),
{
    let pattern = match string_arg_of(expected, "matches") {
        Ok(p) => p,
        Err(m) => {
            return Err(eval_error(m));
        },
    };
    match Pattern::new(pattern.as_str()) {
        Err(e) => {
            let mut m = message3("invalid regex `", pattern.as_str(), "`: ");
            m.append(e.as_str());
            Err(eval_error(m))
        },
        Ok(re) => {
            let m = re.is_match(string_value_of(actual));
            Ok(if fires_when {
                m
            } else {
                !m
            })
        },
    }
}

fn op_contains(actual: &JsonValue, expected: &Option<JsonValue>, fires_when: bool) -> (r: Result<bool, EngineError>)
    ensures
        result_view(r) == op_result(spec_contains(actual@, opt_json_view(*expected), fires_when)),
{
    let needle = match string_arg_of(expected, "contains") {
        Ok(p) => p,
        Err(m) => {
            return Err(eval_error(m));
        },
    };
    let found = match actual {
        JsonValue::String(s) => {
            let sc = chars_of(s.as_str());
            let nc = chars_of(needle.as_str());
            contains(sc.as_slice(), nc.as_slice())
        },
        JsonValue::Array(arr) => {
            let target = JsonValue::String(needle.clone());
            json_list_contains(arr, &target)
        },
        _ => false,
    };
    Ok(if fires_when {
        found
    } else {
        !found
    })
}

fn op_in(actual: &JsonValue, expected: &Option<JsonValue>, fires_when: bool) -> (r: Result<bool, EngineError>)
    ensures
        result_view(r) == op_result(spec_in(actual@, opt_json_view(*expected), fires_when)),
{
    match expected {
        Some(JsonValue::Array(opts)) => {
            let found = json_list_contains(opts, actual);
            Ok(if fires_when {
                found
            } else {
                !found
            })
        },
        _ => {
            let mut m = String::new();
            m.append("`in` requires an array of values, got ");
            let t = to_json_string(actual);
            m.append(t.as_str());
            Err(eval_error(m))
        },
    }
}

fn op_compare(actual: &JsonValue, expected: &Option<JsonValue>, op: OrdOp) -> (r: Result<bool, EngineError>)
    ensures
        result_view(r) == op_result(spec_compare(actual@, opt_json_view(*expected), op)),
{
    let a = match numeric_of(actual) {
        Some(a) => a,
        None => {
            let t = to_json_string(actual);
            return Err(eval_error(message2("comparison operator requires a numeric actual, got ", t.as_str())));
        },
    };
    let b = match expected {
        Some(v) => match numeric_of(v) {
            Some(b) => b,
            None => {
                let t = to_json_string(v);
                return Err(eval_error(message2("comparison operator requires a numeric expected, got ", t.as_str())));
            },
        },
        None => {
            return Err(eval_error(String::from_str("comparison operator requires an expected value")));
        },
    };
    Ok(match op {
        OrdOp::Gt => a > b,
        OrdOp::Ge => a >= b,
        OrdOp::Lt => a < b,
        OrdOp::Le => a <= b,
    })
}

fn op_count(actual: &JsonValue, expected: &Option<JsonValue>, le: bool) -> (r: Result<bool, EngineError>)
    ensures
        result_view(r) == op_result(spec_count(actual@, opt_json_view(*expected), le)),
{
    let count = count_value(actual);
    let b = match expected {
        Some(v) => match numeric_of(v) {
            Some(b) => b,
            None => {
                let t = to_json_string(v);
                return Err(eval_error(message2("count operator requires a numeric expected, got ", t.as_str())));
            },
        },
        None => {
            return Err(eval_error(String::from_str("count operator requires an expected value")));
        },
    };
    Ok(if le {
        count > b as i128
    } else {
        count != b as i128
    })
}

fn op_contains_component(ctx: &EvalContext<'_>, expected: &Option<JsonValue>, fires_when: bool) -> (r: Result<bool, EngineError>)
    ensures
        result_view(r) == op_result(spec_contains_component(target_view(ctx.target), opt_json_view(*expected), fires_when)),
{
    let needle = match string_arg_of(expected, "contains-component") {
        Ok(p) => p,
        Err(m) => {
            return Err(eval_error(m));
        },
    };
    let present = match &ctx.target {
        EvalTarget::Flow(f) => components_contain(&f.components, needle.as_str()),
        _ => false,
    };
    Ok(if fires_when {
        present
    } else {
        !present
    })
}

fn is_null(v: &JsonValue) -> (r: bool)
    ensures
        r == (v@ == JsonView::Null),
{
    match v {
        JsonValue::Null => true,
        _ => false,
    }
}

fn is_true(v: &JsonValue) -> (r: bool)
    ensures
        r == (v@ == JsonView::Bool(true)),
{
    match v {
        JsonValue::Bool(b) => *b,
        _ => false,
    }
}

/// Evaluates `op`; `Ok(true)` when the assertion fails.
pub fn evaluate(op: Operator, actual: &JsonValue, expected: &Option<JsonValue>, ctx: &EvalContext<'_>) -> (r: Result<bool, EngineError>)
    ensures
        result_view(r) == op_result(op_fires(op, actual@, opt_json_view(*expected), *ctx.project, target_view(ctx.target))),
{
    match op {
        Operator::Exists => Ok(is_null(actual)),
        Operator::NotExists => Ok(!is_null(actual)),
        Operator::Equals => match expected {
            Some(e) => Ok(!json_eq(actual, e)),
            None => Err(eval_error(message3("`", "equals", "` requires an expected value"))),
        },
        Operator::NotEquals => match expected {
            Some(e) => Ok(json_eq(actual, e)),
            None => Err(eval_error(message3("`", "not-equals", "` requires an expected value"))),
        },
        Operator::Matches => op_matches(actual, expected, false),
        Operator::NotMatches => op_matches(actual, expected, true),
        Operator::Contains => op_contains(actual, expected, false),
        Operator::NotContains => op_contains(actual, expected, true),
        Operator::In => op_in(actual, expected, false),
        Operator::NotIn => op_in(actual, expected, true),
        Operator::GreaterThan => op_compare(actual, expected, OrdOp::Le),
        Operator::GreaterThanOrEqual => op_compare(actual, expected, OrdOp::Lt),
        Operator::LessThan => op_compare(actual, expected, OrdOp::Ge),
        Operator::LessThanOrEqual => op_compare(actual, expected, OrdOp::Gt),
        Operator::CountEquals => op_count(actual, expected, false),
        Operator::CountLessThanOrEqual => op_count(actual, expected, true),
        Operator::IsPlaceholder => {
            let cs = chars_of(string_value_of(actual));
            Ok(!check_placeholder(cs.as_slice()))
        },
        Operator::IsNotPlaceholder => {
            let cs = chars_of(string_value_of(actual));
            Ok(check_placeholder(cs.as_slice()))
        },
        Operator::ContainsComponent => op_contains_component(ctx, expected, false),
        Operator::NotContainsComponent => op_contains_component(ctx, expected, true),
        Operator::ReferenceResolves => Ok(!is_true(actual)),
        Operator::AllReferencesResolve => Ok(!all_references_resolve(ctx)),
        Operator::RequiredFilesExist => Ok(!required_files_exist(&ctx.project.project.files, expected)),
    }
}

/// The operator's name in the rule DSL.
pub fn operator_label(op: Operator) -> (s: &'static str)
    ensures
        s@ == op.spec_as_str(),
{
    op.as_str()
}

} // verus!
