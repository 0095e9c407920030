//! What each panel shows, as lines of toned text segments. The caller
//! turns tones into terminal styles and draws the lines.

use vstd::prelude::*;
use crate::model::{Diagnostic, DiagnosticLevel, Finding, FindingOrigin, FindingView, Severity};
use crate::scan::ScanSummary;
use crate::tui::header::HeaderProjection;
use crate::text::{decimal, push_str, push_u64};
use crate::tui::state::{AppState, Stage};
use crate::tui::view::{short_path, spec_short_path, spec_truncate, truncate};

verus! {

/// How a piece of text is meant to look.
#[derive(Debug, Clone, Copy, PartialEq, Eq, Structural)]
pub enum Tone {
    Plain,
    Strong,
    Dim,
    Accent,
    Highlight,
    Good,
    Label,
    Code,
    Severity(Severity),
}

/// A piece of text of one tone.
#[derive(Debug)]
pub struct Segment {
    pub text: String,
    pub tone: Tone,
}

pub type SegmentView = (Seq<char>, Tone);

pub open spec fn line_view(l: Vec<Segment>) -> Seq<SegmentView> {
    l@.map_values(|s: Segment| (s.text@, s.tone))
}

pub open spec fn lines_view(ls: Seq<Vec<Segment>>) -> Seq<Seq<SegmentView>> {
    ls.map_values(|l: Vec<Segment>| line_view(l))
}

/// A line of one segment.
pub open spec fn one(t: Seq<char>, tone: Tone) -> Seq<SegmentView> {
    seq![(t, tone)]
}

/// A line of one plain segment.
pub open spec fn plain(t: Seq<char>) -> Seq<SegmentView> {
    one(t, Tone::Plain)
}

fn single(text: String, tone: Tone) -> (l: Vec<Segment>)
    ensures
        line_view(l) == one(text@, tone),
{
    let mut l = Vec::new();
    l.push(Segment { text, tone });
    assert(line_view(l) =~= one(l@[0].text@, tone));
    l
}

fn add_segment(l: &mut Vec<Segment>, text: String, tone: Tone)
    ensures
        line_view(*final(l)) == line_view(*old(l)).push((text@, tone)),
{
    l.push(Segment { text, tone });
    assert(line_view(*l) =~= line_view(*old(l)).push((text@, tone)));
}

fn add_line(ls: &mut Vec<Vec<Segment>>, l: Vec<Segment>)
    ensures
        lines_view(final(ls)@) == lines_view(old(ls)@).push(line_view(l)),
{
    let ghost lv = line_view(l);
    ls.push(l);
    assert(lines_view(ls@) =~= lines_view(old(ls)@).push(lv));
}

fn add_text(ls: &mut Vec<Vec<Segment>>, text: &str, tone: Tone)
    ensures
        lines_view(final(ls)@) == lines_view(old(ls)@).push(one(text@, tone)),
{
    add_line(ls, single(text.to_owned(), tone));
}

pub open spec fn origin_name(o: FindingOrigin) -> Seq<char> {
    match o {
        FindingOrigin::DeterministicRule => "DeterministicRule"@,
        FindingOrigin::ParserDiagnostic => "ParserDiagnostic"@,
        FindingOrigin::AiSuggestion => "AiSuggestion"@,
    }
}

fn origin_text(o: FindingOrigin) -> (s: &'static str)
    ensures
        s@ == origin_name(o),
{
    match o {
        FindingOrigin::DeterministicRule => "DeterministicRule",
        FindingOrigin::ParserDiagnostic => "ParserDiagnostic",
        FindingOrigin::AiSuggestion => "AiSuggestion",
    }
}

/// The location line of the detail view.
pub open spec fn location_text(f: FindingView) -> Seq<char> {
    match f.source {
        Some(s) => spec_short_path(s.file, 60) + ":"@ + decimal(s.start_line as nat) + "-"@ + decimal(
            s.start_column as nat,
        ) + ":"@ + decimal(if s.end_line >= s.start_line { s.end_line } else { s.start_line } as nat),
        None => Seq::empty(),
    }
}

/// The lines of the detail view of `f`, given the pretty-printed lines of
/// its evidence.
pub open spec fn detail_lines(f: Option<FindingView>, evidence: Seq<Seq<char>>) -> Seq<Seq<SegmentView>> {
    match f {
        None => seq![one("(no finding selected)"@, Tone::Dim)],
        Some(f) => seq![
            seq![
                (f.severity.spec_as_str(), Tone::Severity(f.severity)),
                ("  "@, Tone::Plain),
                (f.rule_id, Tone::Highlight),
                ("  ["@ + f.severity.spec_as_str() + "]"@, Tone::Plain),
            ],
            plain(f.title),
            plain(""@),
            one("Message"@, Tone::Strong),
            plain(f.message),
        ] + (match f.recommendation {
            Some(rec) => seq![plain(""@), one("Recommendation"@, Tone::Strong), plain(rec)],
            None => Seq::empty(),
        }) + seq![plain(""@), one("Location"@, Tone::Strong)] + (match f.source {
            Some(_) => seq![plain(location_text(f))],
            None => seq![one("(no source span)"@, Tone::Dim)],
        }) + (match f.entity_id {
            Some(e) => seq![plain("Entity: "@ + e)],
            None => Seq::empty(),
        }) + seq![plain(""@), one("Evidence"@, Tone::Strong)] + evidence.map_values(
            |l: Seq<char>| one(l, Tone::Code),
        ) + seq![
            plain(""@),
            plain(
                "origin="@ + origin_name(f.origin) + " rule_version="@ + match f.rule_version {
                    Some(v) => v,
                    None => "\u{2014}"@,
                },
            ),
        ],
    }
}

/// The highlighted finding of a state, as a view.
pub open spec fn highlighted(s: AppState) -> Option<FindingView> {
    if s.selections.finding_index < s.visible_findings@.len() {
        Some(s.visible_findings@[s.selections.finding_index as int]@)
    } else {
        None
    }
}

fn finding_head(f: &Finding) -> (l: Vec<Segment>)
    ensures
        line_view(l) == seq![
            (f@.severity.spec_as_str(), Tone::Severity(f@.severity)),
            ("  "@, Tone::Plain),
            (f@.rule_id, Tone::Highlight),
            ("  ["@ + f@.severity.spec_as_str() + "]"@, Tone::Plain),
        ],
{
    let mut l: Vec<Segment> = Vec::new();
    add_segment(&mut l, f.severity.as_str().to_owned(), Tone::Severity(f.severity));
    add_segment(&mut l, "  ".to_owned(), Tone::Plain);
    add_segment(&mut l, f.rule_id.clone(), Tone::Highlight);
    let mut tag = String::new();
    push_str(&mut tag, "  [");
    push_str(&mut tag, f.severity.as_str());
    push_str(&mut tag, "]");
    add_segment(&mut l, tag, Tone::Plain);
    assert(line_view(l) =~= seq![
        (f@.severity.spec_as_str(), Tone::Severity(f@.severity)),
        ("  "@, Tone::Plain),
        (f@.rule_id, Tone::Highlight),
        ("  ["@ + f@.severity.spec_as_str() + "]"@, Tone::Plain),
    ]);
    l
}

fn location_line(f: &Finding) -> (s: String)
    requires
        f.source is Some,
    ensures
        s@ == location_text(f@),
{
    let src = f.source.as_ref().unwrap();
    let mut s = short_path(src.file.as_str(), 60);
    push_str(&mut s, ":");
    push_u64(&mut s, src.start_line as u64);
    push_str(&mut s, "-");
    push_u64(&mut s, src.start_column as u64);
    push_str(&mut s, ":");
    let end = if src.end_line >= src.start_line { src.end_line } else { src.start_line };
    push_u64(&mut s, end as u64);
    s
}

fn origin_line(f: &Finding) -> (s: String)
    ensures
        s@ == "origin="@ + origin_name(f@.origin) + " rule_version="@ + match f@.rule_version {
            Some(v) => v,
            None => "\u{2014}"@,
        },
{
    let mut s = String::new();
    push_str(&mut s, "origin=");
    push_str(&mut s, origin_text(f.origin));
    push_str(&mut s, " rule_version=");
    match &f.rule_version {
        Some(v) => push_str(&mut s, v.as_str()),
        None => push_str(&mut s, "\u{2014}"),
    }
    s
}

/// What the detail view shows for the highlighted finding of `state`;
/// `evidence` holds the lines of its pretty-printed evidence.
pub fn finding_detail_lines(state: &AppState, evidence: &Vec<String>) -> (r: Vec<Vec<Segment>>)
    ensures
        lines_view(r@) == detail_lines(highlighted(*state), evidence@.map_values(|s: String| s@)),
{
    let mut ls: Vec<Vec<Segment>> = Vec::new();
    match state.highlighted_finding() {
        None => {
            add_text(&mut ls, "(no finding selected)", Tone::Dim);
            assert(lines_view(ls@) =~= detail_lines(highlighted(*state), evidence@.map_values(|s: String| s@)));
        },
        Some(f) => {
            let ghost fv = f@;
            add_line(&mut ls, finding_head(f));
            add_line(&mut ls, single(f.title.clone(), Tone::Plain));
            add_text(&mut ls, "", Tone::Plain);
            add_text(&mut ls, "Message", Tone::Strong);
            add_line(&mut ls, single(f.message.clone(), Tone::Plain));
            let ghost a = lines_view(ls@);
            if let Some(rec) = &f.recommendation {
                add_text(&mut ls, "", Tone::Plain);
                add_text(&mut ls, "Recommendation", Tone::Strong);
                add_line(&mut ls, single(rec.clone(), Tone::Plain));
            }
            let ghost b = lines_view(ls@);
            add_text(&mut ls, "", Tone::Plain);
            add_text(&mut ls, "Location", Tone::Strong);
            if f.source.is_some() {
                add_line(&mut ls, single(location_line(f), Tone::Plain));
            } else {
                add_text(&mut ls, "(no source span)", Tone::Dim);
            }
            let ghost c = lines_view(ls@);
            if let Some(e) = &f.entity_id {
                let mut t = String::new();
                push_str(&mut t, "Entity: ");
                push_str(&mut t, e.as_str());
                add_line(&mut ls, single(t, Tone::Plain));
            }
            let ghost d = lines_view(ls@);
            add_text(&mut ls, "", Tone::Plain);
            add_text(&mut ls, "Evidence", Tone::Strong);
            let ghost e0 = lines_view(ls@);
            let ghost ev = evidence@.map_values(|s: String| s@).map_values(|l: Seq<char>| one(l, Tone::Code));
            let mut i: usize = 0;
            while i < evidence.len()
                invariant
                    i <= evidence@.len(),
                    ev == evidence@.map_values(|s: String| s@).map_values(|l: Seq<char>| one(l, Tone::Code)),
                    lines_view(ls@) == e0 + ev.subrange(0, i as int),
                decreases evidence.len() - i,
            {
                add_line(&mut ls, single(evidence[i].clone(), Tone::Code));
                i = i + 1;
                assert(lines_view(ls@) =~= e0 + ev.subrange(0, i as int));
            }
            assert(ev.subrange(0, evidence@.len() as int) =~= ev);
            add_text(&mut ls, "", Tone::Plain);
            add_line(&mut ls, single(origin_line(f), Tone::Plain));
            assert(lines_view(ls@) =~= detail_lines(highlighted(*state), evidence@.map_values(|s: String| s@)));
        },
    }
    ls
}

/// The file cell of a findings row: the shortened path, with the line
/// when it is known.
pub open spec fn file_cell(f: FindingView) -> Seq<char> {
    match f.source {
        Some(s) => if s.start_line > 0 {
            spec_short_path(s.file, 28) + ":"@ + decimal(s.start_line as nat)
        } else {
            spec_short_path(s.file, 28)
        },
        None => Seq::empty(),
    }
}

/// One row of the findings table: severity, rule, entity, file, message.
pub open spec fn finding_row(f: FindingView) -> Seq<SegmentView> {
    seq![
        (f.severity.spec_as_str(), Tone::Severity(f.severity)),
        (f.rule_id, Tone::Plain),
        (match f.entity_id {
            Some(e) => e,
            None => Seq::empty(),
        }, Tone::Plain),
        (file_cell(f), Tone::Dim),
        (spec_truncate(f.message, 60), Tone::Plain),
    ]
}

fn file_cell_text(f: &Finding) -> (s: String)
    ensures
        s@ == file_cell(f@),
{
    match &f.source {
        Some(src) => {
            let mut s = short_path(src.file.as_str(), 28);
            if src.start_line > 0 {
                push_str(&mut s, ":");
                push_u64(&mut s, src.start_line as u64);
            }
            s
        },
        None => String::new(),
    }
}

fn row_of(f: &Finding) -> (l: Vec<Segment>)
    ensures
        line_view(l) == finding_row(f@),
{
    let mut l: Vec<Segment> = Vec::new();
    add_segment(&mut l, f.severity.as_str().to_owned(), Tone::Severity(f.severity));
    add_segment(&mut l, f.rule_id.clone(), Tone::Plain);
    let entity = match &f.entity_id {
        Some(e) => e.clone(),
        None => String::new(),
    };
    add_segment(&mut l, entity, Tone::Plain);
    add_segment(&mut l, file_cell_text(f), Tone::Dim);
    add_segment(&mut l, truncate(f.message.as_str(), 60), Tone::Plain);
    assert(line_view(l) =~= finding_row(f@));
    l
}

/// The rows of the findings table, one per visible finding.
pub fn findings_rows(state: &AppState) -> (r: Vec<Vec<Segment>>)
    ensures
        lines_view(r@) == state.visible_findings@.map_values(|f: Finding| finding_row(f@)),
{
    let fs = &state.visible_findings;
    let mut ls: Vec<Vec<Segment>> = Vec::new();
    let mut i: usize = 0;
    while i < fs.len()
        invariant
            i <= fs@.len(),
            lines_view(ls@) == fs@.subrange(0, i as int).map_values(|f: Finding| finding_row(f@)),
        decreases fs.len() - i,
    {
        add_line(&mut ls, row_of(&fs[i]));
        i = i + 1;
        assert(lines_view(ls@) =~= fs@.subrange(0, i as int).map_values(|f: Finding| finding_row(f@)));
    }
    assert(fs@.subrange(0, fs@.len() as int) =~= fs@);
    ls
}

/// The findings table's title while a non-empty filter is applied.
pub open spec fn spec_findings_title(filter: Option<Seq<char>>) -> Option<Seq<char>> {
    match filter {
        Some(f) => if f.len() > 0 {
            Some(" Findings (filter: "@ + f + ") "@)
        } else {
            None
        },
        None => None,
    }
}

/// The findings table's title when a filter narrows it.
pub fn findings_title(state: &AppState) -> (r: Option<String>)
    ensures
        match r {
            Some(t) => spec_findings_title(crate::tui::state::opt_text(state.filter)) == Some(t@),
            None => spec_findings_title(crate::tui::state::opt_text(state.filter)) is None,
        },
{
    match &state.filter {
        Some(f) => {
            if f.as_str().unicode_len() > 0 {
                let mut t = String::new();
                push_str(&mut t, " Findings (filter: ");
                push_str(&mut t, f.as_str());
                push_str(&mut t, ") ");
                Some(t)
            } else {
                None
            }
        },
        None => None,
    }
}

pub open spec fn bool_text(b: bool) -> Seq<char> {
    if b { "true"@ } else { "false"@ }
}

fn bool_str(b: bool) -> (s: &'static str)
    ensures
        s@ == bool_text(b),
{
    if b { "true" } else { "false" }
}

pub open spec fn opt_or(o: Option<String>, d: Seq<char>) -> Seq<char> {
    match o {
        Some(s) => s@,
        None => d,
    }
}

fn text_or(o: &Option<String>, d: &str) -> (s: String)
    ensures
        s@ == opt_or(*o, d@),
{
    match o {
        Some(s) => s.clone(),
        None => d.to_owned(),
    }
}

/// The lines of the project summary panel.
pub open spec fn summary_lines(s: AppState) -> Seq<Seq<SegmentView>> {
    seq![seq![("Project: "@, Tone::Strong), (opt_or(s.progress.project, "\u{2014}"@), Tone::Accent)]]
        + match s.summary {
        Some(m) => seq![
            plain("rule_count="@ + decimal(m.rule_count as nat) + " \u{2022} flows="@ + decimal(m.flow_count as nat)
                + " \u{2022} subflows="@ + decimal(m.subflow_count as nat)),
            plain("findings: total="@ + decimal(m.findings_total as nat) + " info="@ + decimal(m.info as nat)
                + " warning="@ + decimal(m.warning as nat) + " error="@ + decimal(m.error as nat)
                + " critical="@ + decimal(m.critical as nat)),
            plain("diagnostics: "@ + decimal(s.diagnostics@.len()) + " \u{2022} threshold_exceeded="@
                + bool_text(m.spec_at_least(Severity::Warning) > 0)),
        ],
        None => seq![one("(scan in progress or not yet completed)"@, Tone::Dim)],
    }
}

fn summary_counts_lines(ls: &mut Vec<Vec<Segment>>, m: &ScanSummary, diagnostics: usize)
    ensures
        lines_view(final(ls)@) == lines_view(old(ls)@) + seq![
            plain("rule_count="@ + decimal(m.rule_count as nat) + " \u{2022} flows="@ + decimal(m.flow_count as nat)
                + " \u{2022} subflows="@ + decimal(m.subflow_count as nat)),
            plain("findings: total="@ + decimal(m.findings_total as nat) + " info="@ + decimal(m.info as nat)
                + " warning="@ + decimal(m.warning as nat) + " error="@ + decimal(m.error as nat)
                + " critical="@ + decimal(m.critical as nat)),
            plain("diagnostics: "@ + decimal(diagnostics as nat) + " \u{2022} threshold_exceeded="@
                + bool_text(m.spec_at_least(Severity::Warning) > 0)),
        ],
{
    let ghost start = lines_view(ls@);
    let mut a = String::new();
    push_str(&mut a, "rule_count=");
    push_u64(&mut a, m.rule_count as u64);
    push_str(&mut a, " \u{2022} flows=");
    push_u64(&mut a, m.flow_count as u64);
    push_str(&mut a, " \u{2022} subflows=");
    push_u64(&mut a, m.subflow_count as u64);
    add_line(ls, single(a, Tone::Plain));
    let mut b = String::new();
    push_str(&mut b, "findings: total=");
    push_u64(&mut b, m.findings_total as u64);
    push_str(&mut b, " info=");
    push_u64(&mut b, m.info as u64);
    push_str(&mut b, " warning=");
    push_u64(&mut b, m.warning as u64);
    push_str(&mut b, " error=");
    push_u64(&mut b, m.error as u64);
    push_str(&mut b, " critical=");
    push_u64(&mut b, m.critical as u64);
    add_line(ls, single(b, Tone::Plain));
    let mut c = String::new();
    push_str(&mut c, "diagnostics: ");
    push_u64(&mut c, diagnostics as u64);
    push_str(&mut c, " \u{2022} threshold_exceeded=");
    push_str(&mut c, bool_str(m.threshold_exceeded(Severity::Warning)));
    add_line(ls, single(c, Tone::Plain));
    assert(lines_view(ls@) =~= start + seq![
        plain("rule_count="@ + decimal(m.rule_count as nat) + " \u{2022} flows="@ + decimal(m.flow_count as nat)
            + " \u{2022} subflows="@ + decimal(m.subflow_count as nat)),
        plain("findings: total="@ + decimal(m.findings_total as nat) + " info="@ + decimal(m.info as nat)
            + " warning="@ + decimal(m.warning as nat) + " error="@ + decimal(m.error as nat)
            + " critical="@ + decimal(m.critical as nat)),
        plain("diagnostics: "@ + decimal(diagnostics as nat) + " \u{2022} threshold_exceeded="@
            + bool_text(m.spec_at_least(Severity::Warning) > 0)),
    ]);
}

/// What the project summary panel shows.
pub fn project_summary_lines(state: &AppState) -> (r: Vec<Vec<Segment>>)
    ensures
        lines_view(r@) == summary_lines(*state),
{
    let mut ls: Vec<Vec<Segment>> = Vec::new();
    let mut head: Vec<Segment> = Vec::new();
    add_segment(&mut head, "Project: ".to_owned(), Tone::Strong);
    add_segment(&mut head, text_or(&state.progress.project, "\u{2014}"), Tone::Accent);
    assert(line_view(head) =~= seq![
        ("Project: "@, Tone::Strong),
        (opt_or(state.progress.project, "\u{2014}"@), Tone::Accent),
    ]);
    add_line(&mut ls, head);
    match &state.summary {
        Some(m) => summary_counts_lines(&mut ls, m, state.diagnostics.len()),
        None => add_text(&mut ls, "(scan in progress or not yet completed)", Tone::Dim),
    }
    assert(lines_view(ls@) =~= summary_lines(*state));
    ls
}

/// Indented path lines.
pub open spec fn path_lines(paths: Seq<String>) -> Seq<Seq<SegmentView>> {
    paths.map_values(|p: String| plain("  "@ + p@))
}

fn add_paths(ls: &mut Vec<Vec<Segment>>, paths: &Vec<String>, limit: usize)
    ensures
        lines_view(final(ls)@) == lines_view(old(ls)@) + path_lines(paths@.take(
            if limit < paths@.len() { limit as int } else { paths@.len() as int },
        )),
{
    let ghost start = lines_view(ls@);
    let n = if limit < paths.len() { limit } else { paths.len() };
    let mut i: usize = 0;
    while i < n
        invariant
            n <= paths@.len(),
            i <= n,
            lines_view(ls@) == start + path_lines(paths@.take(i as int)),
        decreases n - i,
    {
        let mut t = String::new();
        push_str(&mut t, "  ");
        push_str(&mut t, paths[i].as_str());
        add_line(ls, single(t, Tone::Plain));
        i = i + 1;
        assert(paths@.take(i as int) =~= paths@.take(i - 1).push(paths@[i - 1]));
        assert(lines_view(ls@) =~= start + path_lines(paths@.take(i as int)));
    }
}

/// The lines of the report page.
pub open spec fn report_lines(s: AppState) -> Seq<Seq<SegmentView>> {
    let r = s.report_paths@;
    let a = s.artifact_paths@;
    (if r.len() == 0 {
        seq![one("(no reports written yet)"@, Tone::Dim)]
    } else {
        seq![one("Reports"@, Tone::Good)] + path_lines(r)
    }) + (if a.len() == 0 {
        Seq::empty()
    } else {
        seq![plain(""@), one("Artifacts"@, Tone::Good)] + path_lines(a.take(
            if a.len() < 8 { a.len() as int } else { 8 },
        )) + if a.len() > 8 {
            seq![plain("  \u{2026}and "@ + decimal((a.len() - 8) as nat) + " more"@)]
        } else {
            Seq::empty()
        }
    })
}

/// What the report page shows: the reports written and the first eight
/// artifacts.
pub fn report_page_lines(state: &AppState) -> (r: Vec<Vec<Segment>>)
    ensures
        lines_view(r@) == report_lines(*state),
{
    let mut ls: Vec<Vec<Segment>> = Vec::new();
    let reports = &state.report_paths;
    let artifacts = &state.artifact_paths;
    if reports.len() == 0 {
        add_text(&mut ls, "(no reports written yet)", Tone::Dim);
    } else {
        add_text(&mut ls, "Reports", Tone::Good);
        add_paths(&mut ls, reports, reports.len());
        assert(reports@.take(reports@.len() as int) =~= reports@);
    }
    let ghost first = lines_view(ls@);
    if artifacts.len() > 0 {
        add_text(&mut ls, "", Tone::Plain);
        add_text(&mut ls, "Artifacts", Tone::Good);
        add_paths(&mut ls, artifacts, 8);
        if artifacts.len() > 8 {
            let mut t = String::new();
            push_str(&mut t, "  \u{2026}and ");
            push_u64(&mut t, (artifacts.len() - 8) as u64);
            push_str(&mut t, " more");
            add_line(&mut ls, single(t, Tone::Plain));
        }
    }
    assert(lines_view(ls@) =~= report_lines(*state));
    ls
}

/// The key summary every page's footer shows.
pub open spec fn keys_help() -> Seq<char> {
    "q/Esc quit \u{2022} Tab/Shift+Tab cycle \u{2022} j/k move \u{2022} f/p/g/d pages \u{2022} / filter \u{2022} ? help"@
}

/// The lines of the footer: the filter prompt while a pattern is typed,
/// otherwise the key summary and the first two report paths.
pub open spec fn footer_lines_of(s: AppState) -> Seq<Seq<SegmentView>> {
    if s.filter_mode {
        seq![
            seq![
                ("Filter: "@, Tone::Label),
                (s.filter_input@ + "_"@, Tone::Strong),
                ("  "@, Tone::Plain),
                ("Enter apply \u{2022} Esc cancel"@, Tone::Dim),
            ],
        ]
    } else {
        let r = s.report_paths@;
        seq![seq![("Keys: "@, Tone::Label), (keys_help(), Tone::Plain)]] + if r.len() == 0 {
            Seq::empty()
        } else {
            seq![one("Reports:"@, Tone::Dim)] + path_lines(r.take(if r.len() < 2 { r.len() as int } else { 2 }))
        }
    }
}

/// What the footer shows.
pub fn footer_lines(state: &AppState) -> (r: Vec<Vec<Segment>>)
    ensures
        lines_view(r@) == footer_lines_of(*state),
{
    let mut ls: Vec<Vec<Segment>> = Vec::new();
    if state.filter_mode {
        let mut l: Vec<Segment> = Vec::new();
        add_segment(&mut l, "Filter: ".to_owned(), Tone::Label);
        let mut draft = state.filter_input.clone();
        push_str(&mut draft, "_");
        add_segment(&mut l, draft, Tone::Strong);
        add_segment(&mut l, "  ".to_owned(), Tone::Plain);
        add_segment(&mut l, "Enter apply \u{2022} Esc cancel".to_owned(), Tone::Dim);
        assert(line_view(l) =~= seq![
            ("Filter: "@, Tone::Label),
            (state.filter_input@ + "_"@, Tone::Strong),
            ("  "@, Tone::Plain),
            ("Enter apply \u{2022} Esc cancel"@, Tone::Dim),
        ]);
        add_line(&mut ls, l);
    } else {
        let mut l: Vec<Segment> = Vec::new();
        add_segment(&mut l, "Keys: ".to_owned(), Tone::Label);
        add_segment(
            &mut l,
            "q/Esc quit \u{2022} Tab/Shift+Tab cycle \u{2022} j/k move \u{2022} f/p/g/d pages \u{2022} / filter \u{2022} ? help".to_owned(),
            Tone::Plain,
        );
        assert(line_view(l) =~= seq![("Keys: "@, Tone::Label), (keys_help(), Tone::Plain)]);
        add_line(&mut ls, l);
        if state.report_paths.len() > 0 {
            add_text(&mut ls, "Reports:", Tone::Dim);
            add_paths(&mut ls, &state.report_paths, 2);
        }
    }
    assert(lines_view(ls@) =~= footer_lines_of(*state));
    ls
}

/// The lines of the title bar.
pub open spec fn header_lines_of(s: AppState) -> Seq<Seq<SegmentView>> {
    seq![
        seq![
            ("RunnerGuard "@, Tone::Accent),
            (opt_or(s.progress.project, "<no project>"@), Tone::Plain),
            ("  \u{2022}  "@, Tone::Plain),
            (s.progress.stage.spec_label(), Tone::Label),
            ("  \u{2022}  page "@, Tone::Plain),
            (s.current_page.spec_label(), Tone::Highlight),
        ],
        plain("flows "@ + decimal(s.progress.parsed_flows as nat) + " \u{2022} rules "@ + decimal(
            s.progress.rules_completed as nat,
        ) + "/"@ + decimal(s.progress.rules_loaded as nat) + " \u{2022} findings "@ + decimal(
            s.progress.finding_count as nat,
        )),
    ]
}

/// What the title bar shows: project, stage, page and the counters.
pub fn header_lines(state: &AppState) -> (r: Vec<Vec<Segment>>)
    ensures
        lines_view(r@) == header_lines_of(*state),
{
    let mut ls: Vec<Vec<Segment>> = Vec::new();
    let mut l: Vec<Segment> = Vec::new();
    add_segment(&mut l, "RunnerGuard ".to_owned(), Tone::Accent);
    add_segment(&mut l, text_or(&state.progress.project, "<no project>"), Tone::Plain);
    add_segment(&mut l, "  \u{2022}  ".to_owned(), Tone::Plain);
    add_segment(&mut l, state.progress.stage.label().to_owned(), Tone::Label);
    add_segment(&mut l, "  \u{2022}  page ".to_owned(), Tone::Plain);
    add_segment(&mut l, state.current_page.label().to_owned(), Tone::Highlight);
    assert(line_view(l) =~= header_lines_of(*state)[0]);
    add_line(&mut ls, l);
    let mut t = String::new();
    push_str(&mut t, "flows ");
    push_u64(&mut t, state.progress.parsed_flows as u64);
    push_str(&mut t, " \u{2022} rules ");
    push_u64(&mut t, state.progress.rules_completed as u64);
    push_str(&mut t, "/");
    push_u64(&mut t, state.progress.rules_loaded as u64);
    push_str(&mut t, " \u{2022} findings ");
    push_u64(&mut t, state.progress.finding_count as u64);
    add_line(&mut ls, single(t, Tone::Plain));
    assert(lines_view(ls@) =~= header_lines_of(*state));
    ls
}

/// The title bar drawn from a stored projection.
pub open spec fn projection_line(p: HeaderProjection) -> Seq<SegmentView> {
    seq![
        ("RunnerGuard "@, Tone::Accent),
        ("| "@, Tone::Plain),
        (p.project_name@, Tone::Plain),
        (" | page: "@, Tone::Plain),
        (p.page@, Tone::Highlight),
    ]
}

/// The one-line title bar a stored projection gives.
pub fn header_projection_line(p: &HeaderProjection) -> (l: Vec<Segment>)
    ensures
        line_view(l) == projection_line(*p),
{
    let mut l: Vec<Segment> = Vec::new();
    add_segment(&mut l, "RunnerGuard ".to_owned(), Tone::Accent);
    add_segment(&mut l, "| ".to_owned(), Tone::Plain);
    add_segment(&mut l, crate::tui::header::default_string(p), Tone::Plain);
    add_segment(&mut l, " | page: ".to_owned(), Tone::Plain);
    add_segment(&mut l, crate::tui::header::current_page_label(p).to_owned(), Tone::Highlight);
    assert(line_view(l) =~= projection_line(*p));
    l
}

/// The lines under the progress gauge.
pub open spec fn progress_lines_of(s: AppState) -> Seq<Seq<SegmentView>> {
    seq![
        seq![("Stage: "@, Tone::Dim), (s.progress.stage.spec_label(), Tone::Highlight)],
        plain("Project: "@ + opt_or(s.progress.project, "\u{2014}"@) + " \u{2022} flows "@ + decimal(
            s.progress.parsed_flows as nat,
        ) + " \u{2022} subflows 0"@),
        plain("Rules "@ + decimal(s.progress.rules_completed as nat) + "/"@ + decimal(
            s.progress.rules_loaded as nat,
        ) + " \u{2022} findings "@ + decimal(s.progress.finding_count as nat) + " \u{2022} ai "@
            + decimal(s.progress.ai_findings as nat)),
        seq![("Last: "@, Tone::Dim), (opt_or(s.progress.last_event, "(no events yet)"@), Tone::Plain)],
    ]
}

/// What the progress panel shows under its gauge.
pub fn progress_lines(state: &AppState) -> (r: Vec<Vec<Segment>>)
    ensures
        lines_view(r@) == progress_lines_of(*state),
{
    let p = &state.progress;
    let mut ls: Vec<Vec<Segment>> = Vec::new();
    let mut a: Vec<Segment> = Vec::new();
    add_segment(&mut a, "Stage: ".to_owned(), Tone::Dim);
    add_segment(&mut a, p.stage.label().to_owned(), Tone::Highlight);
    assert(line_view(a) =~= progress_lines_of(*state)[0]);
    add_line(&mut ls, a);
    let mut b = String::new();
    push_str(&mut b, "Project: ");
    let project = text_or(&p.project, "\u{2014}");
    push_str(&mut b, project.as_str());
    push_str(&mut b, " \u{2022} flows ");
    push_u64(&mut b, p.parsed_flows as u64);
    push_str(&mut b, " \u{2022} subflows 0");
    add_line(&mut ls, single(b, Tone::Plain));
    let mut c = String::new();
    push_str(&mut c, "Rules ");
    push_u64(&mut c, p.rules_completed as u64);
    push_str(&mut c, "/");
    push_u64(&mut c, p.rules_loaded as u64);
    push_str(&mut c, " \u{2022} findings ");
    push_u64(&mut c, p.finding_count as u64);
    push_str(&mut c, " \u{2022} ai ");
    push_u64(&mut c, p.ai_findings as u64);
    add_line(&mut ls, single(c, Tone::Plain));
    let mut d: Vec<Segment> = Vec::new();
    add_segment(&mut d, "Last: ".to_owned(), Tone::Dim);
    add_segment(&mut d, text_or(&p.last_event, "(no events yet)"), Tone::Plain);
    assert(line_view(d) =~= progress_lines_of(*state)[3]);
    add_line(&mut ls, d);
    assert(lines_view(ls@) =~= progress_lines_of(*state));
    ls
}

pub open spec fn level_name(l: DiagnosticLevel) -> Seq<char> {
    match l {
        DiagnosticLevel::Info => "Info"@,
        DiagnosticLevel::Warning => "Warning"@,
        DiagnosticLevel::Error => "Error"@,
    }
}

fn level_text(l: DiagnosticLevel) -> (s: &'static str)
    ensures
        s@ == level_name(l),
{
    match l {
        DiagnosticLevel::Info => "Info",
        DiagnosticLevel::Warning => "Warning",
        DiagnosticLevel::Error => "Error",
    }
}

/// One entry of the diagnostics list.
pub open spec fn diagnostic_item(d: Diagnostic) -> Seq<char> {
    "["@ + level_name(d.level) + "/"@ + d.stage.spec_name() + "] "@ + d.code@ + " \u{2014} "@ + d.message@
}

/// The entries of the diagnostics list; a placeholder when there is none.
pub open spec fn diagnostics_items_of(s: AppState) -> Seq<Seq<char>> {
    if s.diagnostics@.len() == 0 {
        seq!["(no diagnostics)"@]
    } else {
        s.diagnostics@.map_values(|d: Diagnostic| diagnostic_item(d))
    }
}

/// What the diagnostics list shows.
pub fn diagnostics_items(state: &AppState) -> (r: Vec<String>)
    ensures
        r@.map_values(|s: String| s@) == diagnostics_items_of(*state),
{
    let ds = &state.diagnostics;
    let mut out: Vec<String> = Vec::new();
    if ds.len() == 0 {
        out.push("(no diagnostics)".to_owned());
        assert(out@.map_values(|s: String| s@) =~= diagnostics_items_of(*state));
        return out;
    }
    let mut i: usize = 0;
    while i < ds.len()
        invariant
            i <= ds@.len(),
            out@.len() == i,
            forall|k: int| 0 <= k < i ==> (#[trigger] out@[k])@ == diagnostic_item(ds@[k]),
        decreases ds.len() - i,
    {
        let d = &ds[i];
        let mut t = String::new();
        push_str(&mut t, "[");
        push_str(&mut t, level_text(d.level));
        push_str(&mut t, "/");
        push_str(&mut t, d.stage.name());
        push_str(&mut t, "] ");
        push_str(&mut t, d.code.as_str());
        push_str(&mut t, " \u{2014} ");
        push_str(&mut t, d.message.as_str());
        out.push(t);
        i = i + 1;
    }
    assert(out@.map_values(|s: String| s@) =~= diagnostics_items_of(*state));
    out
}

/// The entries of the flow panel.
pub open spec fn flow_items_of(s: AppState) -> Seq<Seq<SegmentView>> {
    match s.summary {
        Some(m) => seq![
            one("flows: "@ + decimal(m.flow_count as nat), Tone::Accent),
            plain("subflows: "@ + decimal(m.subflow_count as nat)),
            plain("findings: "@ + decimal(m.findings_total as nat)),
        ],
        None => seq![one("(scan summary not yet available)"@, Tone::Dim)],
    }
}

/// What the flow panel lists, and the entry it selects.
pub fn flow_items(state: &AppState) -> (r: (Vec<Vec<Segment>>, Option<usize>))
    ensures
        lines_view(r.0@) == flow_items_of(*state),
        r.1 == if state.artifact_paths@.len() == 0 {
            None
        } else {
            Some(if state.selections.flow_index < state.artifact_paths@.len() - 1 {
                state.selections.flow_index
            } else {
                (state.artifact_paths@.len() - 1) as usize
            })
        },
{
    let mut ls: Vec<Vec<Segment>> = Vec::new();
    match &state.summary {
        Some(m) => {
            let mut a = String::new();
            push_str(&mut a, "flows: ");
            push_u64(&mut a, m.flow_count as u64);
            add_line(&mut ls, single(a, Tone::Accent));
            let mut b = String::new();
            push_str(&mut b, "subflows: ");
            push_u64(&mut b, m.subflow_count as u64);
            add_line(&mut ls, single(b, Tone::Plain));
            let mut c = String::new();
            push_str(&mut c, "findings: ");
            push_u64(&mut c, m.findings_total as u64);
            add_line(&mut ls, single(c, Tone::Plain));
        },
        None => add_text(&mut ls, "(scan summary not yet available)", Tone::Dim),
    }
    assert(lines_view(ls@) =~= flow_items_of(*state));
    let n = state.artifact_paths.len();
    let selected = if n == 0 {
        None
    } else if state.selections.flow_index < n - 1 {
        Some(state.selections.flow_index)
    } else {
        Some(n - 1)
    };
    (ls, selected)
}

/// `n` copies of two spaces.
pub open spec fn indent(n: nat) -> Seq<char>
    decreases n,
{
    if n == 0 {
        Seq::empty()
    } else {
        indent((n - 1) as nat) + "  "@
    }
}

/// Rows of a tree, each label indented two spaces per level of depth.
pub fn tree_lines(rows: &[(u8, String)]) -> (r: Vec<String>)
    ensures
        r@.len() == rows@.len(),
        forall|i: int| 0 <= i < rows@.len() ==> (#[trigger] r@[i])@ == indent(rows@[i].0 as nat) + rows@[i].1@,
{
    let mut out: Vec<String> = Vec::new();
    let mut i: usize = 0;
    while i < rows.len()
        invariant
            i <= rows@.len(),
            out@.len() == i,
            forall|k: int| 0 <= k < i ==> (#[trigger] out@[k])@ == indent(rows@[k].0 as nat) + rows@[k].1@,
        decreases rows.len() - i,
    {
        let depth = rows[i].0;
        let mut t = String::new();
        let mut d: u8 = 0;
        while d < depth
            invariant
                d <= depth,
                t@ == indent(d as nat),
            decreases depth - d,
        {
            push_str(&mut t, "  ");
            d = d + 1;
        }
        push_str(&mut t, rows[i].1.as_str());
        out.push(t);
        i = i + 1;
    }
    out
}

} // verus!
