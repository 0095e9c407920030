//! XML tokens as the document builder reads them, and the pieces of
//! element processing that do not depend on the tree: names, attribute
//! maps, ids and source positions.

use vstd::prelude::*;
use crate::model::pair_views;
use crate::text::{chars_of, compare_str, decimal, push_char, push_str, push_u64, seq_lt, string_of, Order};

verus! {

/// One token of an XML document.
#[derive(Debug)]
pub enum XmlToken {
    /// An opening tag, with its raw name and its attributes in document order.
    Start { name: String, attributes: Vec<(String, String)> },
    /// A self-closing tag.
    Empty { name: String, attributes: Vec<(String, String)> },
    End,
    /// Unescaped text (white space trimmed).
    Text(String),
    CData(String),
    Eof,
    /// A comment, declaration, processing instruction or doctype.
    Other,
    /// A syntax error, with its message.
    Error(String),
}

/// A token and the byte offset where it starts.
#[derive(Debug)]
pub struct XmlItem {
    pub offset: u64,
    pub token: XmlToken,
}

/// What a token holds, as plain values.
pub enum XmlTokenView {
    Start { name: Seq<char>, attributes: Seq<(Seq<char>, Seq<char>)> },
    Empty { name: Seq<char>, attributes: Seq<(Seq<char>, Seq<char>)> },
    End,
    Text(Seq<char>),
    CData(Seq<char>),
    Eof,
    Other,
    Error(Seq<char>),
}

/// A token and its offset, as plain values.
pub struct XmlItemView {
    pub offset: u64,
    pub token: XmlTokenView,
}

pub open spec fn token_view(t: XmlToken) -> XmlTokenView {
    match t {
        XmlToken::Start { name, attributes } => XmlTokenView::Start { name: name@, attributes: pair_views(attributes@) },
        XmlToken::Empty { name, attributes } => XmlTokenView::Empty { name: name@, attributes: pair_views(attributes@) },
        XmlToken::End => XmlTokenView::End,
        XmlToken::Text(s) => XmlTokenView::Text(s@),
        XmlToken::CData(s) => XmlTokenView::CData(s@),
        XmlToken::Eof => XmlTokenView::Eof,
        XmlToken::Other => XmlTokenView::Other,
        XmlToken::Error(m) => XmlTokenView::Error(m@),
    }
}

pub open spec fn item_view(i: XmlItem) -> XmlItemView {
    XmlItemView { offset: i.offset, token: token_view(i.token) }
}

pub open spec fn items_view(s: Seq<XmlItem>) -> Seq<XmlItemView> {
    s.map_values(|i: XmlItem| item_view(i))
}

/// The prefix and local part of a raw element name, split at the first `:`.
pub open spec fn colon_index(s: Seq<char>, i: int) -> Option<int>
    decreases s.len() - i,
{
    if i < 0 || i >= s.len() {
        None
    } else if s[i] == ':' {
        Some(i)
    } else {
        colon_index(s, i + 1)
    }
}

/// The local name: after the first `:`, or the whole name.
pub open spec fn local_part(raw: Seq<char>) -> Seq<char> {
    match colon_index(raw, 0) {
        Some(i) => raw.subrange(i + 1, raw.len() as int),
        None => raw,
    }
}

/// The qualified name: `prefix:local`, or the local name when the prefix is empty.
pub open spec fn qualified_part(raw: Seq<char>) -> Seq<char> {
    match colon_index(raw, 0) {
        Some(i) => if i == 0 {
            raw.subrange(1, raw.len() as int)
        } else {
            raw.subrange(0, i) + ":"@ + raw.subrange(i + 1, raw.len() as int)
        },
        None => raw,
    }
}

proof fn lemma_colon_index_plain(s: Seq<char>, i: int, j: int)
    requires
        0 <= i <= j <= s.len(),
        forall|k: int| i <= k < j ==> s[k] != ':',
    ensures
        colon_index(s, i) == colon_index(s, j),
    decreases j - i,
{
    if i < j {
        lemma_colon_index_plain(s, i + 1, j);
    }
}

/// A raw name splits at its first `:`: the local name is what follows it
/// and the qualified name is `prefix:local` (just the local name when the
/// prefix is empty); a name without `:` is both.
pub proof fn law_names_split_at_first_colon(prefix: Seq<char>, rest: Seq<char>, plain: Seq<char>)
    requires
        forall|k: int| 0 <= k < prefix.len() ==> prefix[k] != ':',
        forall|k: int| 0 <= k < plain.len() ==> plain[k] != ':',
    ensures
        local_part(prefix + ":"@ + rest) == rest,
        qualified_part(prefix + ":"@ + rest) == if prefix.len() == 0 {
            rest
        } else {
            prefix + ":"@ + rest
        },
        local_part(plain) == plain,
        qualified_part(plain) == plain,
{
    reveal_strlit(":");
    let raw = prefix + ":"@ + rest;
    let n = prefix.len() as int;
    assert forall|k: int| 0 <= k < n implies raw[k] != ':' by {
        assert(raw[k] == prefix[k]);
    }
    lemma_colon_index_plain(raw, 0, n);
    assert(raw[n] == ':');
    assert(colon_index(raw, n) == Some(n));
    assert(raw.subrange(n + 1, raw.len() as int) =~= rest);
    assert(raw.subrange(0, n) =~= prefix);
    if n == 0 {
        assert(raw.subrange(1, raw.len() as int) =~= rest);
    }
    lemma_colon_index_plain(plain, 0, plain.len() as int);
}

/// Splits a raw element name into its qualified and local names.
pub fn split_name(raw: &str) -> (r: (String, String))
    ensures
        r.0@ == qualified_part(raw@),
        r.1@ == local_part(raw@),
{
    let cs = chars_of(raw);
    let mut i: usize = 0;
    while i < cs.len()
        invariant
            cs@ == raw@,
            i <= cs@.len(),
            colon_index(raw@, 0) == colon_index(raw@, i as int),
        decreases cs.len() - i,
    {
        if cs[i] == ':' {
            let prefix = &cs.as_slice()[0..i];
            let local = string_of(&cs.as_slice()[i + 1..cs.len()]);
            if i == 0 {
                return (local.clone(), local);
            }
            let mut q = string_of(prefix);
            push_char(&mut q, ':');
            push_str(&mut q, local.as_str());
            proof {
                reveal_strlit(":");
                assert(q@ =~= raw@.subrange(0, i as int) + ":"@ + raw@.subrange(i + 1, raw@.len() as int));
            }
            return (q, local);
        }
        i = i + 1;
    }
    (raw.to_owned(), raw.to_owned())
}

/// `(k, v)` put into an ascending map: a pair with key `k` has its value
/// replaced, otherwise the pair goes before the first greater key.
pub open spec fn map_insert(m: Seq<(Seq<char>, Seq<char>)>, k: Seq<char>, v: Seq<char>) -> Seq<
    (Seq<char>, Seq<char>),
>
    decreases m.len(),
{
    if m.len() == 0 {
        seq![(k, v)]
    } else if m[0].0 == k {
        seq![(k, v)] + m.drop_first()
    } else if seq_lt(k, m[0].0) {
        seq![(k, v)] + m
    } else {
        seq![m[0]] + map_insert(m.drop_first(), k, v)
    }
}

/// The attribute map of a tag: each pair inserted in document order, so
/// a later value of a key replaces an earlier one.
pub open spec fn attr_map(pairs: Seq<(Seq<char>, Seq<char>)>) -> Seq<(Seq<char>, Seq<char>)>
    decreases pairs.len(),
{
    if pairs.len() == 0 {
        Seq::empty()
    } else {
        map_insert(attr_map(pairs.drop_last()), pairs.last().0, pairs.last().1)
    }
}

proof fn lemma_map_insert_at(m: Seq<(Seq<char>, Seq<char>)>, k: Seq<char>, v: Seq<char>, p: int)
    requires
        0 <= p <= m.len(),
        forall|j: int| 0 <= j < p ==> m[j].0 != k && !seq_lt(k, #[trigger] m[j].0),
        p < m.len() ==> m[p].0 == k || seq_lt(k, m[p].0),
    ensures
        map_insert(m, k, v) == if p < m.len() && m[p].0 == k {
            m.update(p, (k, v))
        } else {
            m.insert(p, (k, v))
        },
    decreases p,
{
    if p == 0 {
        if m.len() == 0 {
            assert(m.insert(0, (k, v)) =~= seq![(k, v)]);
        } else if m[0].0 == k {
            assert(m.update(0, (k, v)) =~= seq![(k, v)] + m.drop_first());
        } else {
            assert(m.insert(0, (k, v)) =~= seq![(k, v)] + m);
        }
    } else {
        let t = m.drop_first();
        assert forall|j: int| 0 <= j < p - 1 implies t[j].0 != k && !seq_lt(k, #[trigger] t[j].0) by {
            assert(t[j] == m[j + 1]);
        }
        if p < m.len() {
            assert(t[p - 1] == m[p]);
        }
        lemma_map_insert_at(t, k, v, p - 1);
        assert(m[0].0 != k && !seq_lt(k, m[0].0));
        if p < m.len() && m[p].0 == k {
            assert(seq![m[0]] + t.update(p - 1, (k, v)) =~= m.update(p, (k, v)));
        } else {
            assert(seq![m[0]] + t.insert(p - 1, (k, v)) =~= m.insert(p, (k, v)));
        }
    }
}

/// Builds the attribute map of a tag from its attributes in document order.
pub fn collect_attributes(raw: &Vec<(String, String)>) -> (m: Vec<(String, String)>)
    ensures
        pair_views(m@) == attr_map(pair_views(raw@)),
{
    let mut m: Vec<(String, String)> = Vec::new();
    let mut i: usize = 0;
    while i < raw.len()
        invariant
            i <= raw@.len(),
            pair_views(m@) == attr_map(pair_views(raw@.subrange(0, i as int))),
        decreases raw.len() - i,
    {
        let k = &raw[i].0;
        let v = &raw[i].1;
        let ghost mv = pair_views(m@);
        let mut p: usize = 0;
        let mut equal = false;
        while p < m.len()
            invariant_except_break
                !equal,
            invariant
                p <= m@.len(),
                mv == pair_views(m@),
                forall|j: int| 0 <= j < p ==> mv[j].0 != k@ && !seq_lt(k@, #[trigger] mv[j].0),
            ensures
                p <= m@.len(),
                mv == pair_views(m@),
                forall|j: int| 0 <= j < p ==> mv[j].0 != k@ && !seq_lt(k@, #[trigger] mv[j].0),
                equal ==> p < m@.len() && mv[p as int].0 == k@,
                !equal ==> p == m@.len() || seq_lt(k@, mv[p as int].0),
            decreases m.len() - p,
        {
            let o = compare_str(m[p].0.as_str(), k.as_str());
            assert(mv[p as int] == (m@[p as int].0@, m@[p as int].1@));
            if o == Order::Equal {
                equal = true;
                break;
            }
            if o == Order::Greater {
                proof {
                    crate::text::lemma_seq_lt_total(m@[p as int].0@, k@);
                }
                break;
            }
            proof {
                crate::text::lemma_seq_lt_asymmetric(m@[p as int].0@, k@);
            }
            p = p + 1;
        }
        proof {
            lemma_map_insert_at(mv, k@, v@, p as int);
            crate::text::lemma_seq_lt_irreflexive(k@);
        }
        if equal {
            let ghost before = m@;
            let _old = m.remove(p);
            m.insert(p, (k.clone(), v.clone()));
            assert(pair_views(m@) =~= mv.update(p as int, (k@, v@)));
        } else {
            m.insert(p, (k.clone(), v.clone()));
            assert(pair_views(m@) =~= mv.insert(p as int, (k@, v@)));
        }
        proof {
            let next = raw@.subrange(0, i + 1);
            assert(pair_views(next).drop_last() =~= pair_views(raw@.subrange(0, i as int)));
            assert(pair_views(next).last() == (k@, v@));
            assert(attr_map(pair_views(next)) == map_insert(mv, k@, v@));
            assert(pair_views(m@) == map_insert(mv, k@, v@));
        }
        i = i + 1;
    }
    assert(raw@.subrange(0, raw@.len() as int) =~= raw@);
    m
}

/// `n` in decimal, zero-padded on the left to at least four digits.
pub open spec fn pad4(n: nat) -> Seq<char> {
    let d = decimal(n);
    if d.len() >= 4 {
        d
    } else {
        Seq::new((4 - d.len()) as nat, |i: int| '0') + d
    }
}

proof fn lemma_decimal_len(n: nat)
    ensures
        n < 10 ==> decimal(n).len() == 1,
        10 <= n < 100 ==> decimal(n).len() == 2,
        100 <= n < 1000 ==> decimal(n).len() == 3,
        1000 <= n ==> decimal(n).len() >= 4,
    decreases n,
{
    if n >= 10 {
        lemma_decimal_len(n / 10);
    }
}

/// The id of the `n`-th component: `component:` and `n` padded to four digits.
pub fn component_id(n: u64) -> (s: String)
    ensures
        s@ == "component:"@ + pad4(n as nat),
{
    let mut s = String::new();
    push_str(&mut s, "component:");
    let ghost prefix = s@;
    proof {
        lemma_decimal_len(n as nat);
    }
    if n < 10 {
        push_str(&mut s, "000");
    } else if n < 100 {
        push_str(&mut s, "00");
    } else if n < 1000 {
        push_str(&mut s, "0");
    }
    let ghost zeros = s@.subrange(prefix.len() as int, s@.len() as int);
    push_u64(&mut s, n);
    proof {
        reveal_strlit("000");
        reveal_strlit("00");
        reveal_strlit("0");
        let d = decimal(n as nat);
        if d.len() < 4 {
            assert(Seq::new((4 - d.len()) as nat, |i: int| '0') =~= zeros);
        } else {
            assert(zeros =~= Seq::<char>::empty());
        }
        assert(s@ =~= prefix + pad4(n as nat));
    }
    s
}

/// The line and line start after counting the newlines of `bytes` in
/// `[from, to)`: each newline adds a line starting right after it.
pub open spec fn count_lines(bytes: Seq<u8>, from: int, to: int, line: int, line_start: int) -> (int, int)
    decreases to - from,
{
    if from >= to {
        (line, line_start)
    } else if bytes[from] == 10u8 {
        count_lines(bytes, from + 1, to, line + 1, from + 1)
    } else {
        count_lines(bytes, from + 1, to, line, line_start)
    }
}

/// The position of `offset`: the running line and line start advanced
/// over the bytes up to `offset`, and the 1-based column.
pub open spec fn position_of(bytes: Seq<u8>, offset: int, line: int, line_start: int) -> (int, int, int) {
    let end = if offset < bytes.len() { offset } else { bytes.len() as int };
    let (l, s) = if line_start < end {
        count_lines(bytes, line_start, end, line, line_start)
    } else {
        (line, line_start)
    };
    (l, s, offset - s + 1)
}

/// The number of newline bytes among the first `to` bytes.
pub open spec fn newlines_before(bytes: Seq<u8>, to: int) -> int
    decreases to,
{
    if to <= 0 {
        0
    } else {
        newlines_before(bytes, to - 1) + if bytes[to - 1] == 10u8 { 1int } else { 0int }
    }
}

/// Where the line holding byte `to` starts: just after the last newline
/// before it, or at 0.
pub open spec fn line_start_before(bytes: Seq<u8>, to: int) -> int
    decreases to,
{
    if to <= 0 {
        0
    } else if bytes[to - 1] == 10u8 {
        to
    } else {
        line_start_before(bytes, to - 1)
    }
}

proof fn lemma_count_lines_absolute(bytes: Seq<u8>, from: int, to: int)
    requires
        0 <= from <= to <= bytes.len(),
    ensures
        count_lines(bytes, from, to, 1 + newlines_before(bytes, from), line_start_before(bytes, from)) == (
            1 + newlines_before(bytes, to),
            line_start_before(bytes, to),
        ),
    decreases to - from,
{
    if from < to {
        lemma_count_lines_absolute(bytes, from + 1, to);
    }
}

/// Positions are absolute: from any running state that is itself right
/// (its line is one more than the newlines before its line start, which
/// follows a newline or is 0), the line of an offset is one more than the
/// newlines before it, and its column counts from just after the last of
/// them, starting at 1.
pub proof fn law_positions_count_newlines(bytes: Seq<u8>, offset: int, line: int, line_start: int)
    requires
        0 <= line_start <= offset <= bytes.len(),
        line == 1 + newlines_before(bytes, line_start),
        line_start == line_start_before(bytes, line_start),
    ensures
        position_of(bytes, offset, line, line_start) == (
            1 + newlines_before(bytes, offset),
            line_start_before(bytes, offset),
            offset - line_start_before(bytes, offset) + 1,
        ),
{
    if line_start < offset {
        lemma_count_lines_absolute(bytes, line_start, offset);
    }
}

pub proof fn lemma_count_lines_bounds(bytes: Seq<u8>, from: int, to: int, line: int, line_start: int)
    requires
        0 <= from <= to <= bytes.len(),
        line_start <= from,
    ensures
        count_lines(bytes, from, to, line, line_start).1 <= to,
        count_lines(bytes, from, to, line, line_start).1 >= line_start,
        count_lines(bytes, from, to, line, line_start).0 >= line,
        count_lines(bytes, from, to, line, line_start).0 <= line + (to - from),
        count_lines(bytes, from, to, line, line_start).0 - line <= count_lines(bytes, from, to, line, line_start).1 - line_start,
    decreases to - from,
{
    if from < to {
        if bytes[from] == 10u8 {
            lemma_count_lines_bounds(bytes, from + 1, to, line + 1, from + 1);
        } else {
            lemma_count_lines_bounds(bytes, from + 1, to, line, line_start);
        }
    }
}

/// Advances the running line over `bytes` up to `offset` and returns the
/// line and column there.
pub fn line_column_for(bytes: &[u8], offset: u64, line: &mut u64, line_start: &mut u64) -> (r: (u64, u64))
    requires
        *old(line_start) <= offset <= bytes@.len(),
        *old(line) + bytes@.len() < u64::MAX,
    ensures
        ({
            let (l, s, c) = position_of(bytes@, offset as int, *old(line) as int, *old(line_start) as int);
            &&& *final(line) as int == l
            &&& *final(line_start) as int == s
            &&& r.0 as int == l
            &&& r.1 as int == c
        }),
        *final(line_start) <= offset,
        *final(line_start) >= *old(line_start),
        *final(line) - *old(line) <= *final(line_start) - *old(line_start),
{
    let start = *line_start;
    let end: u64 = if offset < bytes.len() as u64 { offset } else { bytes.len() as u64 };
    if start < end {
        let ghost l0 = *line as int;
        let ghost s0 = start as int;
        let mut i = start;
        while i < end
            invariant
                s0 <= i <= end,
                end <= bytes@.len(),
                s0 == start,
                count_lines(bytes@, s0, end as int, l0, s0) == count_lines(bytes@, i as int, end as int, *line as int, *line_start as int),
                *line_start <= i,
                *line as int <= l0 + (i - s0),
                l0 + bytes@.len() < u64::MAX,
            decreases end - i,
        {
            if bytes[i as usize] == 10u8 {
                *line = *line + 1;
                *line_start = i + 1;
            }
            i = i + 1;
        }
    }
    proof {
        if start < end {
            lemma_count_lines_bounds(bytes@, start as int, end as int, *old(line) as int, start as int);
        }
    }
    let col = (offset - *line_start) + 1;
    (*line, col)
}

} // verus!
