//! Escaping of user-supplied text for Markdown, fenced code and HTML.

use vstd::prelude::*;
use crate::text::{chars_of, push_char, push_str};

verus! {

/// How one character is written in Markdown text: the characters with a
/// meaning in inline HTML, the code mark, the table pipe and the backslash
/// are neutralised, a line feed becomes a space and a carriage return is
/// dropped.
pub open spec fn md_char(c: char) -> Seq<char> {
    if c == '<' {
        "&lt;"@
    } else if c == '>' {
        "&gt;"@
    } else if c == '&' {
        "&amp;"@
    } else if c == '`' {
        seq!['\\', '`']
    } else if c == '|' {
        seq!['\\', '|']
    } else if c == '\\' {
        seq!['\\', '\\']
    } else if c == '\n' {
        seq![' ']
    } else if c == '\r' {
        Seq::empty()
    } else {
        seq![c]
    }
}

/// `s` escaped for Markdown text.
pub open spec fn escape_md(s: Seq<char>) -> Seq<char>
    decreases s.len(),
{
    if s.len() == 0 {
        Seq::empty()
    } else {
        escape_md(s.drop_last()) + md_char(s.last())
    }
}

/// How one character is written inside a fenced code block: a backtick
/// is escaped so the fence cannot be closed early.
pub open spec fn code_char(c: char) -> Seq<char> {
    if c == '`' {
        seq!['\\', '`']
    } else {
        seq![c]
    }
}

/// `s` escaped for a fenced code block.
pub open spec fn escape_code(s: Seq<char>) -> Seq<char>
    decreases s.len(),
{
    if s.len() == 0 {
        Seq::empty()
    } else {
        escape_code(s.drop_last()) + code_char(s.last())
    }
}

/// How one character is written in HTML text or an attribute value.
pub open spec fn html_char(c: char) -> Seq<char> {
    if c == '&' {
        "&amp;"@
    } else if c == '<' {
        "&lt;"@
    } else if c == '>' {
        "&gt;"@
    } else if c == '"' {
        "&quot;"@
    } else if c == '\'' {
        "&#39;"@
    } else {
        seq![c]
    }
}

/// `s` escaped for HTML.
pub open spec fn escape_html(s: Seq<char>) -> Seq<char>
    decreases s.len(),
{
    if s.len() == 0 {
        Seq::empty()
    } else {
        escape_html(s.drop_last()) + html_char(s.last())
    }
}

/// The three escapings.
pub enum Escaping {
    Markdown,
    Code,
    Html,
}

pub open spec fn escape_char(e: Escaping, c: char) -> Seq<char> {
    match e {
        Escaping::Markdown => md_char(c),
        Escaping::Code => code_char(c),
        Escaping::Html => html_char(c),
    }
}

pub open spec fn escaped(e: Escaping, s: Seq<char>) -> Seq<char> {
    match e {
        Escaping::Markdown => escape_md(s),
        Escaping::Code => escape_code(s),
        Escaping::Html => escape_html(s),
    }
}

fn push_escaped_char(out: &mut String, e: &Escaping, c: char)
    ensures
        final(out)@ == old(out)@ + escape_char(*e, c),
{
    match e {
        Escaping::Markdown => {
            if c == '<' {
                push_str(out, "&lt;");
            } else if c == '>' {
                push_str(out, "&gt;");
            } else if c == '&' {
                push_str(out, "&amp;");
            } else if c == '`' {
                push_char(out, '\\');
                push_char(out, '`');
            } else if c == '|' {
                push_char(out, '\\');
                push_char(out, '|');
            } else if c == '\\' {
                push_char(out, '\\');
                push_char(out, '\\');
            } else if c == '\n' {
                push_char(out, ' ');
            } else if c == '\r' {
                assert(old(out)@ + Seq::<char>::empty() =~= old(out)@);
            } else {
                push_char(out, c);
            }
        },
        Escaping::Code => {
            if c == '`' {
                push_char(out, '\\');
                push_char(out, '`');
            } else {
                push_char(out, c);
            }
        },
        Escaping::Html => {
            if c == '&' {
                push_str(out, "&amp;");
            } else if c == '<' {
                push_str(out, "&lt;");
            } else if c == '>' {
                push_str(out, "&gt;");
            } else if c == '"' {
                push_str(out, "&quot;");
            } else if c == '\'' {
                push_str(out, "&#39;");
            } else {
                push_char(out, c);
            }
        },
    }
    assert(final(out)@ =~= old(out)@ + escape_char(*e, c));
}

/// Appends `s` escaped with `e`.
pub fn push_escaped(out: &mut String, e: Escaping, s: &str)
    ensures
        final(out)@ == old(out)@ + escaped(e, s@),
{
    let cs = chars_of(s);
    let mut i: usize = 0;
    while i < cs.len()
        invariant
            cs@ == s@,
            i <= cs.len(),
            out@ == old(out)@ + escaped(e, s@.subrange(0, i as int)),
        decreases cs.len() - i,
    {
        let c = cs[i];
        push_escaped_char(out, &e, c);
        proof {
            let pre = s@.subrange(0, i as int);
            let next = s@.subrange(0, i + 1);
            assert(next.drop_last() =~= pre);
            assert(next.last() == c);
        }
        i = i + 1;
        assert(out@ =~= old(out)@ + escaped(e, s@.subrange(0, i as int)));
    }
    assert(s@.subrange(0, cs.len() as int) =~= s@);
}

/// `s` escaped for Markdown text.
pub fn escape_md_text(s: &str) -> (r: String)
    ensures
        r@ == escape_md(s@),
{
    let mut out = String::new();
    push_escaped(&mut out, Escaping::Markdown, s);
    out
}

/// `s` escaped for a fenced code block.
pub fn escape_code_text(s: &str) -> (r: String)
    ensures
        r@ == escape_code(s@),
{
    let mut out = String::new();
    push_escaped(&mut out, Escaping::Code, s);
    out
}

/// `s` escaped for HTML.
pub fn escape_html_text(s: &str) -> (r: String)
    ensures
        r@ == escape_html(s@),
{
    let mut out = String::new();
    push_escaped(&mut out, Escaping::Html, s);
    out
}

/// Escaping works character by character, so it distributes over
/// concatenation.
pub proof fn law_escaping_distributes(e: Escaping, a: Seq<char>, b: Seq<char>)
    ensures
        escaped(e, a + b) == escaped(e, a) + escaped(e, b),
    decreases b.len(),
{
    if b.len() == 0 {
        assert(a + b =~= a);
        assert(escaped(e, a) + escaped(e, b) =~= escaped(e, a));
    } else {
        law_escaping_distributes(e, a, b.drop_last());
        assert((a + b).drop_last() =~= a + b.drop_last());
        assert((a + b).last() == b.last());
        match e {
            Escaping::Markdown => {
                assert(escape_md(a + b) =~= escape_md(a) + escape_md(b));
            },
            Escaping::Code => {
                assert(escape_code(a + b) =~= escape_code(a) + escape_code(b));
            },
            Escaping::Html => {
                assert(escape_html(a + b) =~= escape_html(a) + escape_html(b));
            },
        }
    }
}

/// HTML escaping leaves no `<`, `>`, `"` or `'` in the text, so escaped
/// user content can open no element and close no attribute.
pub proof fn law_html_escape_has_no_markup(s: Seq<char>)
    ensures
        !escape_html(s).contains('<'),
        !escape_html(s).contains('>'),
        !escape_html(s).contains('"'),
        !escape_html(s).contains('\''),
    decreases s.len(),
{
    if s.len() > 0 {
        law_html_escape_has_no_markup(s.drop_last());
        let c = s.last();
        let tail = html_char(c);
        reveal_strlit("&amp;");
        reveal_strlit("&lt;");
        reveal_strlit("&gt;");
        reveal_strlit("&quot;");
        reveal_strlit("&#39;");
        assert(!tail.contains('<') && !tail.contains('>') && !tail.contains('"') && !tail.contains('\''));
        let r = escape_html(s.drop_last());
        assert forall|x: char| (r + tail).contains(x) implies r.contains(x) || tail.contains(x) by {
            let k = choose|k: int| 0 <= k < (r + tail).len() && (r + tail)[k] == x;
            if k < r.len() {
                assert(r[k] == x);
            } else {
                assert(tail[k - r.len()] == x);
            }
        }
    }
}

/// Markdown escaping leaves no `<` or `>`, so escaped user content can
/// inject no inline HTML.
pub proof fn law_md_escape_has_no_markup(s: Seq<char>)
    ensures
        !escape_md(s).contains('<'),
        !escape_md(s).contains('>'),
    decreases s.len(),
{
    if s.len() > 0 {
        law_md_escape_has_no_markup(s.drop_last());
        let c = s.last();
        let tail = md_char(c);
        reveal_strlit("&amp;");
        reveal_strlit("&lt;");
        reveal_strlit("&gt;");
        assert(!tail.contains('<') && !tail.contains('>'));
        let r = escape_md(s.drop_last());
        assert forall|x: char| (r + tail).contains(x) implies r.contains(x) || tail.contains(x) by {
            let k = choose|k: int| 0 <= k < (r + tail).len() && (r + tail)[k] == x;
            if k < r.len() {
                assert(r[k] == x);
            } else {
                assert(tail[k - r.len()] == x);
            }
        }
    }
}

} // verus!
