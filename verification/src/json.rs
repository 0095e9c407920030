//! The JSON value model the rule engine works on (rule values, resolved
//! facts and finding evidence), with its mathematical view, structural
//! equality and the compact JSON text form used in reports.

use vstd::prelude::*;
use crate::text::{chars_of, digit_char, push_char, push_i64, push_str, signed_decimal, str_eq};

verus! {

broadcast use vstd::std_specs::vec::axiom_vec_index_decreases;

/// A JSON value. Objects keep their members in the order given; the
/// library builds them with keys in ascending order, which is the order
/// a JSON object map uses. Numbers that are not 64-bit signed integers
/// are carried by their canonical decimal text.
#[derive(Debug)]
pub enum JsonValue {
    Null,
    Bool(bool),
    Number(i64),
    OtherNumber(String),
    String(String),
    Array(Vec<JsonValue>),
    Object(Vec<(String, JsonValue)>),
}

/// Mathematical view of a [`JsonValue`].
pub enum JsonView {
    Null,
    Bool(bool),
    Number(int),
    OtherNumber(Seq<char>),
    Str(Seq<char>),
    Array(Seq<JsonView>),
    Object(Seq<(Seq<char>, JsonView)>),
}

pub open spec fn json_view(v: JsonValue) -> JsonView
    decreases v,
{
    match v {
        JsonValue::Null => JsonView::Null,
        JsonValue::Bool(b) => JsonView::Bool(b),
        JsonValue::Number(n) => JsonView::Number(n as int),
        JsonValue::OtherNumber(s) => JsonView::OtherNumber(s@),
        JsonValue::String(s) => JsonView::Str(s@),
        JsonValue::Array(items) => {
            proof {
                assert(decreases_to!(v => items));
                assert(decreases_to!(items => items@));
            }
            JsonView::Array(json_views(items@))
        },
        JsonValue::Object(members) => {
            proof {
                assert(decreases_to!(v => members));
                assert(decreases_to!(members => members@));
            }
            JsonView::Object(member_views(members@))
        },
    }
}

pub open spec fn json_views(items: Seq<JsonValue>) -> Seq<JsonView>
    decreases items,
{
    if items.len() == 0 {
        Seq::empty()
    } else {
        json_views(items.drop_last()).push(json_view(items.last()))
    }
}

pub open spec fn member_views(members: Seq<(String, JsonValue)>) -> Seq<(Seq<char>, JsonView)>
    decreases members,
{
    if members.len() == 0 {
        Seq::empty()
    } else {
        member_views(members.drop_last()).push((members.last().0@, json_view(members.last().1)))
    }
}

impl View for JsonValue {
    type V = JsonView;

    open spec fn view(&self) -> JsonView {
        json_view(*self)
    }
}

pub proof fn lemma_json_views_len(items: Seq<JsonValue>)
    ensures
        json_views(items).len() == items.len(),
    decreases items.len(),
{
    if items.len() > 0 {
        lemma_json_views_len(items.drop_last());
    }
}

pub proof fn lemma_json_views_index(items: Seq<JsonValue>, k: int)
    requires
        0 <= k < items.len(),
    ensures
        json_views(items).len() == items.len(),
        json_views(items)[k] == json_view(items[k]),
    decreases items.len(),
{
    lemma_json_views_len(items);
    if k < items.len() - 1 {
        lemma_json_views_index(items.drop_last(), k);
    }
}

pub proof fn lemma_member_views_len(members: Seq<(String, JsonValue)>)
    ensures
        member_views(members).len() == members.len(),
    decreases members.len(),
{
    if members.len() > 0 {
        lemma_member_views_len(members.drop_last());
    }
}

pub proof fn lemma_member_views_index(members: Seq<(String, JsonValue)>, k: int)
    requires
        0 <= k < members.len(),
    ensures
        member_views(members).len() == members.len(),
        member_views(members)[k] == (members[k].0@, json_view(members[k].1)),
    decreases members.len(),
{
    lemma_member_views_len(members);
    if k < members.len() - 1 {
        lemma_member_views_index(members.drop_last(), k);
    }
}

/// Two value sequences with elementwise equal views have equal views.
pub proof fn lemma_json_views_ext(a: Seq<JsonValue>, b: Seq<JsonValue>)
    requires
        a.len() == b.len(),
        forall|k: int| 0 <= k < a.len() ==> json_view(#[trigger] a[k]) == json_view(b[k]),
    ensures
        json_views(a) == json_views(b),
    decreases a.len(),
{
    if a.len() > 0 {
        assert forall|k: int| 0 <= k < a.len() - 1 implies json_view(
            #[trigger] a.drop_last()[k],
        ) == json_view(b.drop_last()[k]) by {
            assert(a.drop_last()[k] == a[k]);
            assert(b.drop_last()[k] == b[k]);
        }
        lemma_json_views_ext(a.drop_last(), b.drop_last());
        assert(json_view(a.last()) == json_view(b.last()));
    }
}

pub proof fn lemma_member_views_ext(a: Seq<(String, JsonValue)>, b: Seq<(String, JsonValue)>)
    requires
        a.len() == b.len(),
        forall|k: int|
            0 <= k < a.len() ==> (#[trigger] a[k]).0@ == b[k].0@ && json_view(a[k].1) == json_view(
                b[k].1,
            ),
    ensures
        member_views(a) == member_views(b),
    decreases a.len(),
{
    if a.len() > 0 {
        assert forall|k: int| 0 <= k < a.len() - 1 implies (#[trigger] a.drop_last()[k]).0@
            == b.drop_last()[k].0@ && json_view(a.drop_last()[k].1) == json_view(
            b.drop_last()[k].1,
        ) by {
            assert(a.drop_last()[k] == a[k]);
            assert(b.drop_last()[k] == b[k]);
        }
        lemma_member_views_ext(a.drop_last(), b.drop_last());
    }
}

impl JsonValue {
    /// A copy with the same view.
    #[verifier::loop_isolation(false)]
    pub fn copy(&self) -> (r: Self)
        ensures
            r@ == self@,
        decreases self,
    {
        match self {
            JsonValue::Null => JsonValue::Null,
            JsonValue::Bool(b) => JsonValue::Bool(*b),
            JsonValue::Number(n) => JsonValue::Number(*n),
            JsonValue::OtherNumber(s) => JsonValue::OtherNumber(s.clone()),
            JsonValue::String(s) => JsonValue::String(s.clone()),
            JsonValue::Array(items) => {
                let mut out: Vec<JsonValue> = Vec::new();
                let mut i: usize = 0;
                while i < items.len()
                    invariant
                        i <= items.len(),
                        out.len() == i,
                        forall|k: int| 0 <= k < i ==> json_view(#[trigger] out@[k]) == json_view(items@[k]),
                    decreases items.len() - i,
                {
                    assert(decreases_to!(self => items[i as int]));
                    let c = items[i].copy();
                    out.push(c);
                    i = i + 1;
                }
                proof {
                    lemma_json_views_ext(out@, items@);
                }
                JsonValue::Array(out)
            },
            JsonValue::Object(members) => {
                let mut out: Vec<(String, JsonValue)> = Vec::new();
                let mut i: usize = 0;
                while i < members.len()
                    invariant
                        i <= members.len(),
                        out.len() == i,
                        forall|k: int|
                            0 <= k < i ==> (#[trigger] out@[k]).0@ == members@[k].0@ && json_view(
                                out@[k].1,
                            ) == json_view(members@[k].1),
                    decreases members.len() - i,
                {
                    assert(decreases_to!(self => members[i as int].1));
                    let k = members[i].0.clone();
                    let v = members[i].1.copy();
                    out.push((k, v));
                    i = i + 1;
                }
                proof {
                    lemma_member_views_ext(out@, members@);
                }
                JsonValue::Object(out)
            },
        }
    }
}

impl Clone for JsonValue {
    fn clone(&self) -> (r: Self)
        ensures
            r@ == self@,
    {
        self.copy()
    }
}

/// Structural equality of two values, by their views.
#[verifier::loop_isolation(false)]
pub fn json_eq(a: &JsonValue, b: &JsonValue) -> (r: bool)
    ensures
        r == (a@ == b@),
    decreases a,
{
    match (a, b) {
        (JsonValue::Null, JsonValue::Null) => true,
        (JsonValue::Bool(x), JsonValue::Bool(y)) => *x == *y,
        (JsonValue::Number(x), JsonValue::Number(y)) => *x == *y,
        (JsonValue::OtherNumber(x), JsonValue::OtherNumber(y)) => str_eq(x.as_str(), y.as_str()),
        (JsonValue::String(x), JsonValue::String(y)) => str_eq(x.as_str(), y.as_str()),
        (JsonValue::Array(x), JsonValue::Array(y)) => {
            proof {
                lemma_json_views_len(x@);
                lemma_json_views_len(y@);
            }
            if x.len() != y.len() {
                return false;
            }
            let mut i: usize = 0;
            while i < x.len()
                invariant
                    x.len() == y.len(),
                    i <= x.len(),
                    forall|k: int| 0 <= k < i ==> json_view(#[trigger] x@[k]) == json_view(y@[k]),
                decreases x.len() - i,
            {
                assert(decreases_to!(a => x[i as int]));
                if !json_eq(&x[i], &y[i]) {
                    proof {
                        lemma_json_views_index(x@, i as int);
                        lemma_json_views_index(y@, i as int);
                    }
                    return false;
                }
                i = i + 1;
            }
            proof {
                lemma_json_views_ext(x@, y@);
            }
            true
        },
        (JsonValue::Object(x), JsonValue::Object(y)) => {
            proof {
                lemma_member_views_len(x@);
                lemma_member_views_len(y@);
            }
            if x.len() != y.len() {
                return false;
            }
            let mut i: usize = 0;
            while i < x.len()
                invariant
                    x.len() == y.len(),
                    i <= x.len(),
                    forall|k: int|
                        0 <= k < i ==> (#[trigger] x@[k]).0@ == y@[k].0@ && json_view(x@[k].1)
                            == json_view(y@[k].1),
                decreases x.len() - i,
            {
                assert(decreases_to!(a => x[i as int].1));
                let same_key = str_eq(x[i].0.as_str(), y[i].0.as_str());
                if !same_key || !json_eq(&x[i].1, &y[i].1) {
                    proof {
                        lemma_member_views_index(x@, i as int);
                        lemma_member_views_index(y@, i as int);
                    }
                    return false;
                }
                i = i + 1;
            }
            proof {
                lemma_member_views_ext(x@, y@);
            }
            true
        },
        _ => false,
    }
}

/// Whether a list of values holds one structurally equal to `target`.
pub fn json_list_contains(items: &Vec<JsonValue>, target: &JsonValue) -> (r: bool)
    ensures
        r == json_views(items@).contains(target@),
{
    proof {
        lemma_json_views_len(items@);
    }
    let mut i: usize = 0;
    while i < items.len()
        invariant
            i <= items@.len(),
            json_views(items@).len() == items@.len(),
            forall|k: int| 0 <= k < i ==> json_views(items@)[k] != target@,
        decreases items.len() - i,
    {
        proof {
            lemma_json_views_index(items@, i as int);
        }
        if json_eq(&items[i], target) {
            assert(json_views(items@)[i as int] == target@);
            return true;
        }
        i = i + 1;
    }
    proof {
        if json_views(items@).contains(target@) {
            let k = choose|k: int| 0 <= k < json_views(items@).len() && json_views(items@)[k] == target@;
            assert(json_views(items@)[k] != target@);
        }
    }
    false
}

/// Lower-case hexadecimal digit.
pub open spec fn hex_digit(d: nat) -> char {
    if d < 10 {
        digit_char(d)
    } else if d == 10 {
        'a'
    } else if d == 11 {
        'b'
    } else if d == 12 {
        'c'
    } else if d == 13 {
        'd'
    } else if d == 14 {
        'e'
    } else {
        'f'
    }
}

pub fn hex_digit_char(d: u8) -> (c: char)
    requires
        d < 16,
    ensures
        c == hex_digit(d as nat),
{
    if d == 0 {
        '0'
    } else if d == 1 {
        '1'
    } else if d == 2 {
        '2'
    } else if d == 3 {
        '3'
    } else if d == 4 {
        '4'
    } else if d == 5 {
        '5'
    } else if d == 6 {
        '6'
    } else if d == 7 {
        '7'
    } else if d == 8 {
        '8'
    } else if d == 9 {
        '9'
    } else if d == 10 {
        'a'
    } else if d == 11 {
        'b'
    } else if d == 12 {
        'c'
    } else if d == 13 {
        'd'
    } else if d == 14 {
        'e'
    } else {
        'f'
    }
}

/// How one character is written inside a JSON string literal.
pub open spec fn escape_json_char(c: char) -> Seq<char> {
    let u = c as u32;
    if c == '"' {
        seq!['\\', '"']
    } else if c == '\\' {
        seq!['\\', '\\']
    } else if c == '\n' {
        seq!['\\', 'n']
    } else if c == '\r' {
        seq!['\\', 'r']
    } else if c == '\t' {
        seq!['\\', 't']
    } else if u == 8 {
        seq!['\\', 'b']
    } else if u == 12 {
        seq!['\\', 'f']
    } else if u < 0x20 {
        seq!['\\', 'u', '0', '0', hex_digit((u / 16) as nat), hex_digit((u % 16) as nat)]
    } else {
        seq![c]
    }
}

/// The body of a JSON string literal for `s`.
pub open spec fn escape_json(s: Seq<char>) -> Seq<char>
    decreases s.len(),
{
    if s.len() == 0 {
        Seq::empty()
    } else {
        escape_json(s.drop_last()) + escape_json_char(s.last())
    }
}

/// A quoted JSON string literal.
pub open spec fn quote_json(s: Seq<char>) -> Seq<char> {
    seq!['"'] + escape_json(s) + seq!['"']
}

/// Compact JSON text of a value (no white space between tokens).
pub open spec fn json_text(v: JsonView) -> Seq<char>
    decreases v,
{
    match v {
        JsonView::Null => seq!['n', 'u', 'l', 'l'],
        JsonView::Bool(b) => if b {
            seq!['t', 'r', 'u', 'e']
        } else {
            seq!['f', 'a', 'l', 's', 'e']
        },
        JsonView::Number(n) => signed_decimal(n),
        JsonView::OtherNumber(s) => s,
        JsonView::Str(s) => quote_json(s),
        JsonView::Array(items) => seq!['['] + json_items_text(items) + seq![']'],
        JsonView::Object(members) => seq!['{'] + json_members_text(members) + seq!['}'],
    }
}

/// The items, comma separated.
pub open spec fn json_items_text(items: Seq<JsonView>) -> Seq<char>
    decreases items,
{
    if items.len() == 0 {
        Seq::empty()
    } else if items.len() == 1 {
        json_text(items[0])
    } else {
        json_items_text(items.drop_last()) + seq![','] + json_text(items.last())
    }
}

/// The members as `"key":value`, comma separated.
pub open spec fn json_members_text(members: Seq<(Seq<char>, JsonView)>) -> Seq<char>
    decreases members,
{
    if members.len() == 0 {
        Seq::empty()
    } else if members.len() == 1 {
        quote_json(members[0].0) + seq![':'] + json_text(members[0].1)
    } else {
        json_members_text(members.drop_last()) + seq![','] + quote_json(members.last().0) + seq![
            ':',
        ] + json_text(members.last().1)
    }
}

/// Appends the escaped body of a JSON string literal for `s`.
pub fn push_json_escaped(out: &mut String, s: &str)
    ensures
        final(out)@ == old(out)@ + escape_json(s@),
{
    let cs = chars_of(s);
    let mut i: usize = 0;
    while i < cs.len()
        invariant
            cs@ == s@,
            i <= cs.len(),
            out@ == old(out)@ + escape_json(s@.subrange(0, i as int)),
        decreases cs.len() - i,
    {
        let c = cs[i];
        let u = c as u32;
        if c == '"' {
            push_char(out, '\\');
            push_char(out, '"');
        } else if c == '\\' {
            push_char(out, '\\');
            push_char(out, '\\');
        } else if c == '\n' {
            push_char(out, '\\');
            push_char(out, 'n');
        } else if c == '\r' {
            push_char(out, '\\');
            push_char(out, 'r');
        } else if c == '\t' {
            push_char(out, '\\');
            push_char(out, 't');
        } else if u == 8 {
            push_char(out, '\\');
            push_char(out, 'b');
        } else if u == 12 {
            push_char(out, '\\');
            push_char(out, 'f');
        } else if u < 0x20 {
            push_char(out, '\\');
            push_char(out, 'u');
            push_char(out, '0');
            push_char(out, '0');
            push_char(out, hex_digit_char((u / 16) as u8));
            push_char(out, hex_digit_char((u % 16) as u8));
        } else {
            push_char(out, c);
        }
        proof {
            let pre = s@.subrange(0, i as int);
            let next = s@.subrange(0, i + 1);
            assert(next.drop_last() =~= pre);
            assert(next.last() == c);
        }
        i = i + 1;
        assert(out@ =~= old(out)@ + escape_json(s@.subrange(0, i as int)));
    }
    assert(s@.subrange(0, cs.len() as int) =~= s@);
}

/// Appends the compact JSON text of `v`.
pub fn push_json(out: &mut String, v: &JsonValue)
    ensures
        final(out)@ == old(out)@ + json_text(v@),
    decreases v,
{
    match v {
        JsonValue::Null => {
            push_str(out, "null");
            proof {
                reveal_strlit("null");
            }
            assert(final(out)@ =~= old(out)@ + json_text(v@));
        },
        JsonValue::Bool(b) => {
            if *b {
                push_str(out, "true");
                proof {
                    reveal_strlit("true");
                }
            } else {
                push_str(out, "false");
                proof {
                    reveal_strlit("false");
                }
            }
            assert(final(out)@ =~= old(out)@ + json_text(v@));
        },
        JsonValue::Number(n) => {
            push_i64(out, *n);
        },
        JsonValue::OtherNumber(s) => {
            push_str(out, s.as_str());
        },
        JsonValue::String(s) => {
            push_char(out, '"');
            push_json_escaped(out, s.as_str());
            push_char(out, '"');
            assert(final(out)@ =~= old(out)@ + json_text(v@));
        },
        JsonValue::Array(items) => {
            push_char(out, '[');
            push_json_items(out, items);
            push_char(out, ']');
            assert(final(out)@ =~= old(out)@ + json_text(v@));
        },
        JsonValue::Object(members) => {
            push_char(out, '{');
            push_json_members(out, members);
            push_char(out, '}');
            assert(final(out)@ =~= old(out)@ + json_text(v@));
        },
    }
}

fn push_json_items(out: &mut String, items: &Vec<JsonValue>)
    ensures
        final(out)@ == old(out)@ + json_items_text(json_views(items@)),
    decreases items,
{
    let ghost start = out@;
    let mut i: usize = 0;
    while i < items.len()
        invariant
            i <= items.len(),
            out@ == start + json_items_text(json_views(items@.subrange(0, i as int))),
        decreases items.len() - i,
    {
        if i > 0 {
            push_char(out, ',');
        }
        assert(decreases_to!(items => items[i as int]));
        push_json(out, &items[i]);
        proof {
            let next = items@.subrange(0, i + 1);
            assert(next.drop_last() =~= items@.subrange(0, i as int));
            lemma_json_views_len(next);
            lemma_json_views_len(next.drop_last());
            assert(json_views(next).drop_last() =~= json_views(next.drop_last()));
        }
        i = i + 1;
        assert(out@ =~= start + json_items_text(json_views(items@.subrange(0, i as int))));
    }
    assert(items@.subrange(0, items.len() as int) =~= items@);
}

fn push_json_members(out: &mut String, members: &Vec<(String, JsonValue)>)
    ensures
        final(out)@ == old(out)@ + json_members_text(member_views(members@)),
    decreases members,
{
    let ghost start = out@;
    let mut i: usize = 0;
    while i < members.len()
        invariant
            i <= members.len(),
            out@ == start + json_members_text(member_views(members@.subrange(0, i as int))),
        decreases members.len() - i,
    {
        if i > 0 {
            push_char(out, ',');
        }
        assert(decreases_to!(members => members[i as int].1));
        push_char(out, '"');
        push_json_escaped(out, members[i].0.as_str());
        push_char(out, '"');
        push_char(out, ':');
        push_json(out, &members[i].1);
        proof {
            let next = members@.subrange(0, i + 1);
            assert(next.drop_last() =~= members@.subrange(0, i as int));
            lemma_member_views_len(next);
            lemma_member_views_len(next.drop_last());
            assert(member_views(next).drop_last() =~= member_views(next.drop_last()));
        }
        i = i + 1;
        assert(out@ =~= start + json_members_text(member_views(members@.subrange(0, i as int))));
    }
    assert(members@.subrange(0, members.len() as int) =~= members@);
}

/// The compact JSON text of `v`.
pub fn to_json_string(v: &JsonValue) -> (s: String)
    ensures
        s@ == json_text(v@),
{
    let mut s = String::new();
    push_json(&mut s, v);
    assert(s@ =~= json_text(v@));
    s
}

} // verus!
