//! Text helpers shared by the panels: labels, shortened paths and
//! messages, and the scroll window of a list.

use vstd::prelude::*;
use crate::model::Severity;
use crate::text::{chars_of, push_char, push_str};
use crate::tui::component::PageId;

verus! {

/// The ellipsis that marks shortened text.
pub open spec fn ellipsis() -> char {
    '\u{2026}'
}

/// The title-bar label of a page.
pub fn page_label(page: PageId) -> (s: &'static str)
    ensures
        s@ == page.spec_label(),
{
    page.label()
}

/// The lower-case name of a severity.
pub fn severity_label(sev: Severity) -> (s: &'static str)
    ensures
        s@ == sev.spec_as_str(),
{
    sev.as_str()
}

pub open spec fn spec_page_help(page: PageId) -> Seq<char> {
    match page {
        PageId::ScanProgress => "Tab next panel \u{2022} Enter select \u{2022} q quit"@,
        PageId::Findings => "j/k move \u{2022} / filter \u{2022} Enter detail \u{2022} q quit"@,
        PageId::FindingDetail => "Tab back \u{2022} q quit"@,
        PageId::Flows => "j/k move \u{2022} Enter expand \u{2022} q quit"@,
        PageId::Diagnostics => "j/k move \u{2022} q quit"@,
        PageId::Report => "q quit"@,
    }
}

/// The one-line key help of a page.
pub fn page_help(page: PageId) -> (s: &'static str)
    ensures
        s@ == spec_page_help(page),
{
    match page {
        PageId::ScanProgress => "Tab next panel \u{2022} Enter select \u{2022} q quit",
        PageId::Findings => "j/k move \u{2022} / filter \u{2022} Enter detail \u{2022} q quit",
        PageId::FindingDetail => "Tab back \u{2022} q quit",
        PageId::Flows => "j/k move \u{2022} Enter expand \u{2022} q quit",
        PageId::Diagnostics => "j/k move \u{2022} q quit",
        PageId::Report => "q quit",
    }
}

/// A row as shown when it is the active one.
pub open spec fn marked(line: Seq<char>) -> Seq<char> {
    ">> "@ + line
}

/// The lines with a `>>` marker on the active row `selected`; the other
/// rows, and all of them when nothing (or no row) is selected, unchanged.
pub fn highlight_lines(items: Vec<String>, selected: Option<usize>) -> (r: Vec<String>)
    ensures
        r@.len() == items@.len(),
        forall|i: int|
            0 <= i < items@.len() ==> (#[trigger] r@[i])@ == if selected == Some(i as usize) {
                marked(items@[i]@)
            } else {
                items@[i]@
            },
{
    let mut out: Vec<String> = Vec::new();
    let mut i: usize = 0;
    while i < items.len()
        invariant
            i <= items@.len(),
            out@.len() == i,
            forall|j: int|
                0 <= j < i ==> (#[trigger] out@[j])@ == if selected == Some(j as usize) {
                    marked(items@[j]@)
                } else {
                    items@[j]@
                },
        decreases items.len() - i,
    {
        let line = if selected == Some(i) {
            let mut m = String::new();
            push_str(&mut m, ">> ");
            push_str(&mut m, items[i].as_str());
            proof {
                reveal_strlit(">> ");
            }
            m
        } else {
            items[i].clone()
        };
        out.push(line);
        i = i + 1;
    }
    out
}

/// `path` shortened to at most `max` characters: kept whole when it
/// fits, otherwise its first `min(16, max - 20)` characters, an ellipsis,
/// and as many of its last characters as fill `max`.
pub open spec fn spec_short_path(path: Seq<char>, max: nat) -> Seq<char> {
    if path.len() <= max {
        path
    } else {
        let head: int = if max >= 36 { 16 } else if max >= 20 { max - 20 } else { 0 };
        let tail: int = if max >= head + 1 { max - (head + 1) } else { 0 };
        path.subrange(0, head) + seq![ellipsis()] + path.subrange(path.len() - tail, path.len() as int)
    }
}

/// Appends the characters `v[from..to]` to `out`.
fn push_range(out: &mut String, v: &Vec<char>, from: usize, to: usize)
    requires
        from <= to <= v@.len(),
    ensures
        final(out)@ == old(out)@ + v@.subrange(from as int, to as int),
{
    let mut i = from;
    while i < to
        invariant
            from <= i <= to <= v@.len(),
            out@ == old(out)@ + v@.subrange(from as int, i as int),
        decreases to - i,
    {
        push_char(out, v[i]);
        i = i + 1;
        assert(out@ =~= old(out)@ + v@.subrange(from as int, i as int));
    }
}

/// A path the user sees, shortened on character boundaries so that
/// multi-byte characters are never split.
pub fn short_path(path: &str, max: usize) -> (r: String)
    ensures
        r@ == spec_short_path(path@, max as nat),
{
    let chars = chars_of(path);
    let total = chars.len();
    if total <= max {
        return path.to_owned();
    }
    let limit = if max >= 20 { max - 20 } else { 0 };
    let head = if limit < 16 { limit } else { 16 };
    let tail = if max >= head + 1 { max - (head + 1) } else { 0 };
    let mut out = String::new();
    push_range(&mut out, &chars, 0, head);
    push_char(&mut out, '\u{2026}');
    let skip = total - tail;
    push_range(&mut out, &chars, skip, total);
    out
}

/// `s` cut to at most `max` characters: kept whole when it fits,
/// otherwise its first `max - 1` characters and an ellipsis.
pub open spec fn spec_truncate(s: Seq<char>, max: nat) -> Seq<char> {
    if s.len() <= max {
        s
    } else {
        let keep: int = if max >= 1 { max - 1 } else { 0 };
        s.subrange(0, keep) + seq![ellipsis()]
    }
}

/// A message cut to fit a table cell.
pub fn truncate(s: &str, max: usize) -> (r: String)
    ensures
        r@ == spec_truncate(s@, max as nat),
{
    let chars = chars_of(s);
    if chars.len() <= max {
        return s.to_owned();
    }
    let keep = if max >= 1 { max - 1 } else { 0 };
    let mut out = String::new();
    push_range(&mut out, &chars, 0, keep);
    push_char(&mut out, '\u{2026}');
    out
}

/// The first visible row of a list of `n` rows shown `viewport` rows at
/// a time, starting from the stored `offset` and moved as little as
/// needed to show the selected row (the stored one, pulled into range).
pub open spec fn spec_window_offset(n: usize, selected: usize, offset: usize, viewport: usize) -> usize {
    let max_offset: int = n - 1;
    let start: int = if offset < max_offset { offset as int } else { max_offset };
    let sel: int = if selected < max_offset { selected as int } else { max_offset };
    if viewport == 0 {
        start as usize
    } else if sel >= start + viewport {
        let low: int = sel + 1 - viewport;
        (if low < 0 { 0 } else if low < max_offset { low } else { max_offset }) as usize
    } else if sel < start {
        sel as usize
    } else {
        start as usize
    }
}

/// Scroll state of a list panel: the first visible row and the selected
/// row, both `None`-free only when the list has rows.
pub fn list_window(n: usize, selected: usize, offset: usize, viewport: usize) -> (r: (usize, Option<usize>))
    ensures
        n == 0 ==> r == (0usize, None::<usize>),
        n > 0 ==> r.0 == spec_window_offset(n, selected, offset, viewport) && r.1 == Some(
            if selected < n - 1 { selected } else { (n - 1) as usize },
        ),
{
    if n == 0 {
        return (0, None);
    }
    let max_offset = n - 1;
    let sel = if selected < max_offset { selected } else { max_offset };
    let mut start = if offset < max_offset { offset } else { max_offset };
    if viewport > 0 {
        let visible_end = if start <= usize::MAX - viewport { start + viewport } else { usize::MAX };
        if sel >= visible_end {
            let low = if sel + 1 >= viewport { sel + 1 - viewport } else { 0 };
            start = if low < max_offset { low } else { max_offset };
        } else if sel < start {
            start = sel;
        }
    }
    (start, Some(sel))
}

/// A path that fits is shown whole; a longer one is shown in exactly
/// `max` characters: its first `min(16, max - 20)` characters (none when
/// `max` is below 20), an ellipsis, and as many of its last characters as
/// fill the rest.
pub proof fn law_short_path_keeps_both_ends(path: Seq<char>, max: nat)
    ensures
        path.len() <= max ==> spec_short_path(path, max) == path,
        path.len() > max && max >= 1 ==> {
            let r = spec_short_path(path, max);
            let h: int = if max >= 36 { 16 } else if max >= 20 { max - 20 } else { 0 };
            &&& r.len() == max
            &&& r.subrange(0, h) == path.subrange(0, h)
            &&& r[h] == ellipsis()
            &&& r.subrange(h + 1, max as int) == path.subrange(path.len() - (max - h - 1), path.len() as int)
        },
{
    if path.len() > max && max >= 1 {
        let r = spec_short_path(path, max);
        let h: int = if max >= 36 { 16 } else if max >= 20 { max - 20 } else { 0 };
        assert(r.subrange(0, h) =~= path.subrange(0, h));
        assert(r.subrange(h + 1, max as int) =~= path.subrange(path.len() - (max - h - 1), path.len() as int));
    }
}

/// A message that fits is kept; a longer one is cut to exactly `max`
/// characters (for `max` of at least 1): its first `max - 1`
/// characters and an ellipsis.
pub proof fn law_truncate_keeps_the_start(s: Seq<char>, max: nat)
    ensures
        s.len() <= max ==> spec_truncate(s, max) == s,
        s.len() > max && max >= 1 ==> spec_truncate(s, max).len() == max && spec_truncate(s, max).subrange(
            0,
            max - 1,
        ) == s.subrange(0, max - 1) && spec_truncate(s, max)[max - 1] == ellipsis(),
{
    if s.len() > max && max >= 1 {
        assert(spec_truncate(s, max).subrange(0, max - 1) =~= s.subrange(0, max - 1));
    }
}

/// A window's selected row lies inside it whenever the window has room.
pub proof fn law_window_shows_selection(n: usize, selected: usize, offset: usize, viewport: usize)
    requires
        n > 0,
        viewport > 0,
    ensures
        ({
            let o = spec_window_offset(n, selected, offset, viewport);
            let sel = if selected < n - 1 { selected as int } else { n - 1 };
            &&& o <= sel
            &&& sel < o + viewport
            &&& o < n
        }),
{
}

} // verus!
