//! The HTML report: one self-contained page with embedded CSS, no
//! external resources, and a small inline script that filters findings by
//! text and severity. Every piece of user content is HTML-escaped.

use vstd::prelude::*;
use crate::json::{json_text, to_json_string};
use crate::model::{clone_findings, finding_views, Diagnostic, Finding, FindingView, Severity};
use crate::report::document::{group_by_severity, groups_view, severity_groups, ReportDocument};
use crate::report::error::ReportError;
use crate::report::escape::{escape_html, escaped, push_escaped, Escaping};
use crate::report::markdown::{md_location, push_count, sev_label, spec_sev_label};
use crate::text::{decimal, push_str, push_u64};

verus! {

/// The page's style sheet.
pub const STYLE: &'static str = r#"
:root {
  color-scheme: light dark;
  --bg: #f7f7f9;
  --fg: #1a1a1a;
  --muted: #666;
  --accent: #234;
  --critical: #b00020;
  --error: #c9302c;
  --warning: #b88600;
  --info: #2e6da4;
  --rule: #555;
  --border: #e0e0e0;
  --code-bg: #f0f0f0;
}
@media (prefers-color-scheme: dark) {
  :root {
    --bg: #1d1f23;
    --fg: #e5e5e5;
    --muted: #aaa;
    --accent: #cbd3e0;
    --critical: #ff6b6b;
    --error: #f08080;
    --warning: #f4c75c;
    --info: #74b9ff;
    --rule: #bbb;
    --border: #333;
    --code-bg: #2a2c30;
  }
}
* { box-sizing: border-box; }
body {
  font-family: -apple-system, BlinkMacSystemFont, "Segoe UI", Helvetica, Arial, sans-serif;
  margin: 0;
  background: var(--bg);
  color: var(--fg);
  line-height: 1.5;
}
header {
  padding: 1.5rem 2rem;
  border-bottom: 1px solid var(--border);
}
header h1 { margin: 0 0 0.25rem 0; }
header .meta { color: var(--muted); font-size: 0.9rem; }
main { padding: 1rem 2rem 4rem; max-width: 1100px; margin: 0 auto; }
section { margin: 2rem 0; }
section h2 { border-bottom: 1px solid var(--border); padding-bottom: 0.25rem; }
.controls {
  display: flex; gap: 0.75rem; flex-wrap: wrap; margin: 0.75rem 0;
}
.controls input, .controls select {
  padding: 0.35rem 0.5rem;
  font-size: 0.9rem;
  border: 1px solid var(--border);
  background: var(--bg); color: var(--fg); border-radius: 4px;
}
table { width: 100%; border-collapse: collapse; }
th, td { text-align: left; padding: 0.5rem 0.75rem; border-bottom: 1px solid var(--border); vertical-align: top; }
th { font-size: 0.85rem; color: var(--muted); }
.finding { border-left: 4px solid var(--rule); padding: 0.5rem 0.75rem; margin: 0.5rem 0; background: rgba(0,0,0,0.02); }
.finding.critical { border-left-color: var(--critical); }
.finding.error    { border-left-color: var(--error); }
.finding.warning  { border-left-color: var(--warning); }
.finding.info     { border-left-color: var(--info); }
.finding .title { font-weight: 600; }
.finding .rule { color: var(--rule); font-size: 0.85rem; margin-left: 0.5rem; }
.finding pre { background: var(--code-bg); padding: 0.5rem; border-radius: 4px; overflow: auto; font-size: 0.8rem; }
details summary { cursor: pointer; color: var(--accent); font-size: 0.85rem; }
.pill { display: inline-block; padding: 0.05rem 0.5rem; border-radius: 999px; font-size: 0.75rem; color: white; }
.pill.critical { background: var(--critical); }
.pill.error    { background: var(--error); }
.pill.warning  { background: var(--warning); }
.pill.info     { background: var(--info); }
.kv { display: grid; grid-template-columns: max-content 1fr; gap: 0.25rem 1rem; }
.kv dt { color: var(--muted); }
"#;

/// The page's filter script.
pub const SCRIPT: &'static str = r#"
(function() {
  var text = document.getElementById('flt-text');
  var sev = document.getElementById('flt-severity');
  var list = document.getElementById('findings-list');
  if (!text || !sev || !list) return;
  function apply() {
    var t = (text.value || '').toLowerCase();
    var s = sev.value || '';
    var items = list.querySelectorAll('.finding');
    Array.prototype.forEach.call(items, function(el) {
      var textMatch = !t || (el.getAttribute('data-text') || '').toLowerCase().indexOf(t) !== -1;
      var sevMatch = !s || el.getAttribute('data-severity') === s;
      el.style.display = (textMatch && sevMatch) ? '' : 'none';
    });
  }
  text.addEventListener('input', apply);
  sev.addEventListener('change', apply);
})();
"#;

pub open spec fn html_head() -> Seq<char> {
    "<!doctype html>\n<html lang=\"en\">\n<head>\n"@ + "<meta charset=\"utf-8\">\n"@
        + "<meta name=\"viewport\" content=\"width=device-width, initial-scale=1\">\n"@
        + "<title>RunnerGuard Scan Report</title>\n"@ + "<style>\n"@ + STYLE@ + "\n</style>\n"@
        + "</head>\n<body>\n"@
}

fn render_head(out: &mut String)
    ensures
        final(out)@ == old(out)@ + html_head(),
{
    push_str(out, "<!doctype html>\n<html lang=\"en\">\n<head>\n");
    push_str(out, "<meta charset=\"utf-8\">\n");
    push_str(out, "<meta name=\"viewport\" content=\"width=device-width, initial-scale=1\">\n");
    push_str(out, "<title>RunnerGuard Scan Report</title>\n");
    push_str(out, "<style>\n");
    push_str(out, STYLE);
    push_str(out, "\n</style>\n");
    push_str(out, "</head>\n<body>\n");
    assert(final(out)@ =~= old(out)@ + html_head());
}

pub open spec fn html_header(doc: ReportDocument) -> Seq<char> {
    "<header><h1>RunnerGuard Scan Report</h1>\n"@ + "<div class=\"meta\">"@
        + "<span>Project: <strong>"@ + escape_html(doc.metadata.project_name@)
        + "</strong></span> &middot; <span>Tool: "@ + escape_html(doc.metadata.tool@) + " "@
        + escape_html(doc.metadata.tool_version@) + "</span> &middot; <span>Schema: "@ + escape_html(
        doc.metadata.schema_version@,
    ) + "</span>"@ + "</div></header>\n"@
}

fn render_header(doc: &ReportDocument, out: &mut String)
    ensures
        final(out)@ == old(out)@ + html_header(*doc),
{
    push_str(out, "<header><h1>RunnerGuard Scan Report</h1>\n");
    push_str(out, "<div class=\"meta\">");
    push_str(out, "<span>Project: <strong>");
    push_escaped(out, Escaping::Html, doc.metadata.project_name.as_str());
    push_str(out, "</strong></span> &middot; <span>Tool: ");
    push_escaped(out, Escaping::Html, doc.metadata.tool.as_str());
    push_str(out, " ");
    push_escaped(out, Escaping::Html, doc.metadata.tool_version.as_str());
    push_str(out, "</span> &middot; <span>Schema: ");
    push_escaped(out, Escaping::Html, doc.metadata.schema_version.as_str());
    push_str(out, "</span>");
    push_str(out, "</div></header>\n");
    assert(final(out)@ =~= old(out)@ + html_header(*doc));
}

pub open spec fn html_result_line(doc: ReportDocument) -> Seq<char> {
    let s = doc.summary;
    "<p>Result: <strong>"@ + s.result.spec_name() + "</strong>. "@ + decimal(s.findings_total as nat)
        + " finding(s) \u{2014} <span class=\"pill critical\">"@ + decimal(s.critical as nat)
        + "</span> <span class=\"pill error\">"@ + decimal(s.error as nat)
        + "</span> <span class=\"pill warning\">"@ + decimal(s.warning as nat)
        + "</span> <span class=\"pill info\">"@ + decimal(s.info as nat) + "</span></p>\n"@
}

pub open spec fn html_counts(doc: ReportDocument) -> Seq<char> {
    let s = doc.summary;
    "<dl class=\"kv\"><dt>Files scanned</dt><dd>"@ + decimal(s.files_scanned as nat)
        + "</dd><dt>Flows</dt><dd>"@ + decimal(s.flow_count as nat) + "</dd><dt>Subflows</dt><dd>"@
        + decimal(s.subflow_count as nat) + "</dd><dt>Rules</dt><dd>"@ + decimal(s.rule_count as nat)
        + "</dd></dl>\n"@
}

pub open spec fn html_summary(doc: ReportDocument) -> Seq<char> {
    "<section><h2>Executive Summary</h2>\n"@ + html_result_line(doc) + html_counts(doc)
        + "</section>\n"@
}

fn render_result_line(doc: &ReportDocument, out: &mut String)
    ensures
        final(out)@ == old(out)@ + html_result_line(*doc),
{
    let s = &doc.summary;
    push_str(out, "<p>Result: <strong>");
    push_str(out, s.result.name());
    push_str(out, "</strong>. ");
    push_count(out, s.findings_total);
    push_str(out, " finding(s) \u{2014} <span class=\"pill critical\">");
    push_count(out, s.critical);
    push_str(out, "</span> <span class=\"pill error\">");
    push_count(out, s.error);
    push_str(out, "</span> <span class=\"pill warning\">");
    push_count(out, s.warning);
    push_str(out, "</span> <span class=\"pill info\">");
    push_count(out, s.info);
    push_str(out, "</span></p>\n");
    assert(final(out)@ =~= old(out)@ + html_result_line(*doc));
}

fn render_counts(doc: &ReportDocument, out: &mut String)
    ensures
        final(out)@ == old(out)@ + html_counts(*doc),
{
    let s = &doc.summary;
    push_str(out, "<dl class=\"kv\"><dt>Files scanned</dt><dd>");
    push_count(out, s.files_scanned);
    push_str(out, "</dd><dt>Flows</dt><dd>");
    push_count(out, s.flow_count);
    push_str(out, "</dd><dt>Subflows</dt><dd>");
    push_count(out, s.subflow_count);
    push_str(out, "</dd><dt>Rules</dt><dd>");
    push_count(out, s.rule_count);
    push_str(out, "</dd></dl>\n");
    assert(final(out)@ =~= old(out)@ + html_counts(*doc));
}

fn render_summary(doc: &ReportDocument, out: &mut String)
    ensures
        final(out)@ == old(out)@ + html_summary(*doc),
{
    let ghost start = out@;
    push_str(out, "<section><h2>Executive Summary</h2>\n");
    render_result_line(doc, out);
    render_counts(doc, out);
    push_str(out, "</section>\n");
    assert(final(out)@ =~= start + html_summary(*doc));
}

/// The filter option of a severity.
pub open spec fn html_option(sev: Severity) -> Seq<char> {
    "<option value=\""@ + sev.spec_as_str() + "\">"@ + spec_sev_label(sev) + "</option>"@
}

fn render_option(sev: Severity, out: &mut String)
    ensures
        final(out)@ == old(out)@ + html_option(sev),
{
    push_str(out, "<option value=\"");
    push_str(out, sev.as_str());
    push_str(out, "\">");
    push_str(out, sev_label(sev));
    push_str(out, "</option>");
    assert(final(out)@ =~= old(out)@ + html_option(sev));
}

pub open spec fn html_controls() -> Seq<char> {
    "<div class=\"controls\">\n"@
        + "<input type=\"search\" id=\"flt-text\" placeholder=\"Filter by text, rule id, file\u{2026}\">\n"@
        + "<select id=\"flt-severity\"><option value=\"\">All severities</option>"@ + html_option(
        Severity::Critical,
    ) + html_option(Severity::Error) + html_option(Severity::Warning) + html_option(Severity::Info)
        + "</select>\n"@ + "</div>\n"@
}

fn render_controls(out: &mut String)
    ensures
        final(out)@ == old(out)@ + html_controls(),
{
    let ghost start = out@;
    push_str(out, "<div class=\"controls\">\n");
    push_str(
        out,
        "<input type=\"search\" id=\"flt-text\" placeholder=\"Filter by text, rule id, file\u{2026}\">\n",
    );
    push_str(out, "<select id=\"flt-severity\"><option value=\"\">All severities</option>");
    render_option(Severity::Critical, out);
    render_option(Severity::Error, out);
    render_option(Severity::Warning, out);
    render_option(Severity::Info, out);
    push_str(out, "</select>\n");
    push_str(out, "</div>\n");
    assert(final(out)@ =~= start + html_controls());
}

/// The file a finding is located in, or the empty text.
pub open spec fn finding_file_text(f: FindingView) -> Seq<char> {
    match f.source {
        Some(s) => s.file,
        None => Seq::empty(),
    }
}

/// The opening tag of a finding's card, whose `data-text` carries what
/// the text filter searches.
pub open spec fn html_card_open(f: FindingView) -> Seq<char> {
    let sc = f.severity.spec_as_str();
    "<article class=\"finding "@ + sc + "\" data-severity=\""@ + sc + "\" data-text=\""@ + escape_html(
        f.rule_id + " "@ + f.title + " "@ + finding_file_text(f),
    ) + "\">\n"@
}

pub open spec fn html_card_body(f: FindingView) -> Seq<char> {
    "<div class=\"title\">"@ + escape_html(f.title) + " <span class=\"rule\">"@ + escape_html(f.rule_id)
        + "</span></div>\n"@ + "<div class=\"message\">"@ + escape_html(f.message) + "</div>\n"@
}

pub open spec fn html_card_recommendation(f: FindingView) -> Seq<char> {
    match f.recommendation {
        Some(rec) => "<div class=\"recommendation\"><em>Recommendation:</em> "@ + escape_html(rec)
            + "</div>\n"@,
        None => Seq::empty(),
    }
}

pub open spec fn html_card_location(f: FindingView) -> Seq<char> {
    match f.source {
        Some(loc) => "<div class=\"location\">at <code>"@ + escape_html(loc.file) + ":"@ + decimal(
            loc.start_line as nat,
        ) + ":"@ + decimal(loc.start_column as nat) + "</code></div>\n"@,
        None => Seq::empty(),
    }
}

/// A finding's place reads `file:line:column`, line first, in the HTML
/// card as in the Markdown report: both show the same text after the file.
pub proof fn law_location_reads_file_line_column(f: FindingView)
    ensures
        f.source matches Some(loc) ==> {
            let pos = ":"@ + decimal(loc.start_line as nat) + ":"@ + decimal(loc.start_column as nat);
            &&& html_card_location(f) == "<div class=\"location\">at <code>"@ + escape_html(loc.file) + pos
                + "</code></div>\n"@
            &&& md_location(f) == "_Location:_ `"@ + crate::report::escape::escape_md(loc.file) + pos + "`\n"@
        },
        f.source is None ==> html_card_location(f) == Seq::<char>::empty() && md_location(f) == Seq::<char>::empty(),
{
    if let Some(loc) = f.source {
        let pos = ":"@ + decimal(loc.start_line as nat) + ":"@ + decimal(loc.start_column as nat);
        assert(html_card_location(f) =~= "<div class=\"location\">at <code>"@ + escape_html(loc.file) + pos
            + "</code></div>\n"@);
        assert(md_location(f) =~= "_Location:_ `"@ + crate::report::escape::escape_md(loc.file) + pos + "`\n"@);
    }
}

pub open spec fn html_card_evidence(f: FindingView) -> Seq<char> {
    "<details><summary>Evidence</summary>\n"@ + "<pre>"@ + escape_html(json_text(f.evidence))
        + "</pre>\n"@ + "</details>\n"@ + "</article>\n"@
}

/// One finding's card.
pub open spec fn html_card(f: FindingView) -> Seq<char> {
    html_card_open(f) + html_card_body(f) + html_card_recommendation(f) + html_card_location(f)
        + html_card_evidence(f)
}

fn render_card_open(f: &Finding, out: &mut String)
    ensures
        final(out)@ == old(out)@ + html_card_open(f@),
{
    let sc = f.severity.as_str();
    let mut text = String::new();
    push_str(&mut text, f.rule_id.as_str());
    push_str(&mut text, " ");
    push_str(&mut text, f.title.as_str());
    push_str(&mut text, " ");
    match &f.source {
        Some(s) => push_str(&mut text, s.file.as_str()),
        None => {},
    }
    assert(text@ =~= f@.rule_id + " "@ + f@.title + " "@ + finding_file_text(f@));
    push_str(out, "<article class=\"finding ");
    push_str(out, sc);
    push_str(out, "\" data-severity=\"");
    push_str(out, sc);
    push_str(out, "\" data-text=\"");
    push_escaped(out, Escaping::Html, text.as_str());
    push_str(out, "\">\n");
    assert(final(out)@ =~= old(out)@ + html_card_open(f@));
}

fn render_card_body(f: &Finding, out: &mut String)
    ensures
        final(out)@ == old(out)@ + html_card_body(f@),
{
    push_str(out, "<div class=\"title\">");
    push_escaped(out, Escaping::Html, f.title.as_str());
    push_str(out, " <span class=\"rule\">");
    push_escaped(out, Escaping::Html, f.rule_id.as_str());
    push_str(out, "</span></div>\n");
    push_str(out, "<div class=\"message\">");
    push_escaped(out, Escaping::Html, f.message.as_str());
    push_str(out, "</div>\n");
    assert(final(out)@ =~= old(out)@ + html_card_body(f@));
}

fn render_card_recommendation(f: &Finding, out: &mut String)
    ensures
        final(out)@ == old(out)@ + html_card_recommendation(f@),
{
    if let Some(rec) = &f.recommendation {
        push_str(out, "<div class=\"recommendation\"><em>Recommendation:</em> ");
        push_escaped(out, Escaping::Html, rec.as_str());
        push_str(out, "</div>\n");
    }
    assert(final(out)@ =~= old(out)@ + html_card_recommendation(f@));
}

fn render_card_location(f: &Finding, out: &mut String)
    ensures
        final(out)@ == old(out)@ + html_card_location(f@),
{
    if let Some(loc) = &f.source {
        push_str(out, "<div class=\"location\">at <code>");
        push_escaped(out, Escaping::Html, loc.file.as_str());
        push_str(out, ":");
        push_u64(out, loc.start_line as u64);
        push_str(out, ":");
        push_u64(out, loc.start_column as u64);
        push_str(out, "</code></div>\n");
    }
    assert(final(out)@ =~= old(out)@ + html_card_location(f@));
}

fn render_card_evidence(f: &Finding, out: &mut String)
    ensures
        final(out)@ == old(out)@ + html_card_evidence(f@),
{
    let evidence = to_json_string(&f.evidence);
    push_str(out, "<details><summary>Evidence</summary>\n");
    push_str(out, "<pre>");
    push_escaped(out, Escaping::Html, evidence.as_str());
    push_str(out, "</pre>\n");
    push_str(out, "</details>\n");
    push_str(out, "</article>\n");
    assert(final(out)@ =~= old(out)@ + html_card_evidence(f@));
}

fn render_finding_card(f: &Finding, out: &mut String)
    ensures
        final(out)@ == old(out)@ + html_card(f@),
{
    let ghost start = out@;
    render_card_open(f, out);
    render_card_body(f, out);
    render_card_recommendation(f, out);
    render_card_location(f, out);
    render_card_evidence(f, out);
    assert(final(out)@ =~= start + html_card(f@));
}

pub open spec fn html_cards(items: Seq<FindingView>) -> Seq<char>
    decreases items.len(),
{
    if items.len() == 0 {
        Seq::empty()
    } else {
        html_cards(items.drop_last()) + html_card(items.last())
    }
}

/// One severity group: its heading and its cards.
pub open spec fn html_group(sev: Severity, items: Seq<FindingView>) -> Seq<char> {
    "<h3 class=\"sev-"@ + sev.spec_as_str() + "\">"@ + spec_sev_label(sev) + "</h3>\n"@ + html_cards(items)
}

pub open spec fn html_groups(g: Seq<(Severity, Seq<FindingView>)>) -> Seq<char>
    decreases g.len(),
{
    if g.len() == 0 {
        Seq::empty()
    } else {
        html_groups(g.drop_last()) + html_group(g.last().0, g.last().1)
    }
}

fn render_group(sev: Severity, items: &Vec<Finding>, out: &mut String)
    ensures
        final(out)@ == old(out)@ + html_group(sev, finding_views(items@)),
{
    let ghost start = out@;
    push_str(out, "<h3 class=\"sev-");
    push_str(out, sev.as_str());
    push_str(out, "\">");
    push_str(out, sev_label(sev));
    push_str(out, "</h3>\n");
    render_cards(items, out);
    assert(final(out)@ =~= start + html_group(sev, finding_views(items@)));
}

pub open spec fn html_findings(doc: ReportDocument) -> Seq<char> {
    "<section><h2>Findings</h2>\n"@ + html_controls() + "<div id=\"findings-list\">\n"@ + html_groups(
        severity_groups(finding_views(doc.findings@)),
    ) + "</div>\n</section>\n"@
}

fn render_cards(items: &Vec<Finding>, out: &mut String)
    ensures
        final(out)@ == old(out)@ + html_cards(finding_views(items@)),
{
    let ghost start = out@;
    let ghost fs = finding_views(items@);
    let mut i: usize = 0;
    while i < items.len()
        invariant
            i <= items@.len(),
            fs == finding_views(items@),
            out@ == start + html_cards(fs.subrange(0, i as int)),
        decreases items.len() - i,
    {
        render_finding_card(&items[i], out);
        proof {
            let next = fs.subrange(0, i + 1);
            assert(next.drop_last() =~= fs.subrange(0, i as int));
            assert(next.last() == items@[i as int]@);
        }
        i = i + 1;
        assert(out@ =~= start + html_cards(fs.subrange(0, i as int)));
    }
    assert(fs.subrange(0, items@.len() as int) =~= fs);
}

fn render_findings(doc: &ReportDocument, out: &mut String)
    ensures
        final(out)@ == old(out)@ + html_findings(*doc),
{
    let ghost start = out@;
    push_str(out, "<section><h2>Findings</h2>\n");
    render_controls(out);
    push_str(out, "<div id=\"findings-list\">\n");
    let groups = group_by_severity(clone_findings(doc.findings.as_slice()));
    let ghost g = severity_groups(finding_views(doc.findings@));
    let ghost head = out@;
    let mut i: usize = 0;
    while i < groups.len()
        invariant
            i <= groups@.len(),
            groups_view(groups@) == g,
            out@ == head + html_groups(g.subrange(0, i as int)),
        decreases groups.len() - i,
    {
        assert(g[i as int] == (groups@[i as int].0, finding_views(groups@[i as int].1@)));
        render_group(groups[i].0, &groups[i].1, out);
        proof {
            let next = g.subrange(0, i + 1);
            assert(next.drop_last() =~= g.subrange(0, i as int));
        }
        i = i + 1;
        assert(out@ =~= head + html_groups(g.subrange(0, i as int)));
    }
    assert(g.subrange(0, groups@.len() as int) =~= g);
    push_str(out, "</div>\n</section>\n");
    assert(final(out)@ =~= start + html_findings(*doc));
}

pub open spec fn html_diagnostic(d: Diagnostic) -> Seq<char> {
    "<tr><td><code>"@ + escape_html(d.code@) + "</code></td><td>"@ + escape_html(d.stage.spec_name())
        + "</td><td>"@ + escape_html(d.message@) + "</td></tr>\n"@
}

pub open spec fn html_diagnostic_rows(ds: Seq<Diagnostic>) -> Seq<char>
    decreases ds.len(),
{
    if ds.len() == 0 {
        Seq::empty()
    } else {
        html_diagnostic_rows(ds.drop_last()) + html_diagnostic(ds.last())
    }
}

pub open spec fn html_diagnostics(doc: ReportDocument) -> Seq<char> {
    "<section><h2>Parser Diagnostics</h2>\n"@ + (if doc.parser_diagnostics@.len() == 0 {
        "<p><em>No parser diagnostics.</em></p>\n"@
    } else {
        "<table><thead><tr><th>Code</th><th>Stage</th><th>Message</th></tr></thead><tbody>\n"@
            + html_diagnostic_rows(doc.parser_diagnostics@) + "</tbody></table>\n"@
    }) + "</section>\n"@
}

fn render_diagnostics(doc: &ReportDocument, out: &mut String)
    ensures
        final(out)@ == old(out)@ + html_diagnostics(*doc),
{
    let ghost start = out@;
    push_str(out, "<section><h2>Parser Diagnostics</h2>\n");
    let ds = &doc.parser_diagnostics;
    if ds.len() == 0 {
        push_str(out, "<p><em>No parser diagnostics.</em></p>\n");
    } else {
        push_str(
            out,
            "<table><thead><tr><th>Code</th><th>Stage</th><th>Message</th></tr></thead><tbody>\n",
        );
        let ghost head = out@;
        let mut i: usize = 0;
        while i < ds.len()
            invariant
                i <= ds@.len(),
                out@ == head + html_diagnostic_rows(ds@.subrange(0, i as int)),
            decreases ds.len() - i,
        {
            let d = &ds[i];
            push_str(out, "<tr><td><code>");
            push_escaped(out, Escaping::Html, d.code.as_str());
            push_str(out, "</code></td><td>");
            push_escaped(out, Escaping::Html, d.stage.name());
            push_str(out, "</td><td>");
            push_escaped(out, Escaping::Html, d.message.as_str());
            push_str(out, "</td></tr>\n");
            proof {
                let next = ds@.subrange(0, i + 1);
                assert(next.drop_last() =~= ds@.subrange(0, i as int));
            }
            i = i + 1;
            assert(out@ =~= head + html_diagnostic_rows(ds@.subrange(0, i as int)));
        }
        assert(ds@.subrange(0, ds@.len() as int) =~= ds@);
        push_str(out, "</tbody></table>\n");
    }
    push_str(out, "</section>\n");
    assert(final(out)@ =~= start + html_diagnostics(*doc));
}

pub open spec fn html_artifacts() -> Seq<char> {
    "<section><h2>Generated Artifacts</h2>\n<ul>\n"@
        + "<li><code>report.md</code>, <code>report.html</code> \u{2014} this report</li>\n"@
        + "<li><code>artifacts/project.json</code>, <code>artifacts/diagnostics.json</code>, <code>artifacts/flows/*.json</code></li>\n"@
        + "</ul>\n</section>\n"@
}

fn render_artifacts(out: &mut String)
    ensures
        final(out)@ == old(out)@ + html_artifacts(),
{
    push_str(out, "<section><h2>Generated Artifacts</h2>\n<ul>\n");
    push_str(out, "<li><code>report.md</code>, <code>report.html</code> \u{2014} this report</li>\n");
    push_str(
        out,
        "<li><code>artifacts/project.json</code>, <code>artifacts/diagnostics.json</code>, <code>artifacts/flows/*.json</code></li>\n",
    );
    push_str(out, "</ul>\n</section>\n");
    assert(final(out)@ =~= old(out)@ + html_artifacts());
}

pub open spec fn html_versions(doc: ReportDocument) -> Seq<char> {
    "<section><h2>Tool and Schema Versions</h2>\n"@ + "<p>runnerguard "@ + escape_html(
        doc.metadata.tool_version@,
    ) + " &middot; schema "@ + escape_html(doc.metadata.schema_version@) + "</p>\n"@
        + "</section>\n"@
}

fn render_versions(doc: &ReportDocument, out: &mut String)
    ensures
        final(out)@ == old(out)@ + html_versions(*doc),
{
    push_str(out, "<section><h2>Tool and Schema Versions</h2>\n");
    push_str(out, "<p>runnerguard ");
    push_escaped(out, Escaping::Html, doc.metadata.tool_version.as_str());
    push_str(out, " &middot; schema ");
    push_escaped(out, Escaping::Html, doc.metadata.schema_version.as_str());
    push_str(out, "</p>\n");
    push_str(out, "</section>\n");
    assert(final(out)@ =~= old(out)@ + html_versions(*doc));
}

pub open spec fn html_tail() -> Seq<char> {
    "</main>\n"@ + "<script>\n"@ + SCRIPT@ + "\n</script>\n"@ + "</body>\n</html>\n"@
}

/// The sections inside `<main>`.
pub open spec fn html_main(doc: ReportDocument) -> Seq<char> {
    html_summary(doc) + html_findings(doc) + html_diagnostics(doc) + html_artifacts() + html_versions(
        doc,
    )
}

/// The whole HTML report of `doc`.
pub open spec fn html_text(doc: ReportDocument) -> Seq<char> {
    html_head() + html_header(doc) + "<main>\n"@ + html_main(doc) + html_tail()
}

fn render_main(doc: &ReportDocument, out: &mut String)
    ensures
        final(out)@ == old(out)@ + html_main(*doc),
{
    let ghost start = out@;
    render_summary(doc, out);
    render_findings(doc, out);
    render_diagnostics(doc, out);
    render_artifacts(out);
    render_versions(doc, out);
    assert(final(out)@ =~= start + html_main(*doc));
}

fn render_tail(out: &mut String)
    ensures
        final(out)@ == old(out)@ + html_tail(),
{
    push_str(out, "</main>\n");
    push_str(out, "<script>\n");
    push_str(out, SCRIPT);
    push_str(out, "\n</script>\n");
    push_str(out, "</body>\n</html>\n");
    assert(final(out)@ =~= old(out)@ + html_tail());
}

proof fn lemma_append5(s: Seq<char>, a: Seq<char>, b: Seq<char>, c: Seq<char>, d: Seq<char>, e: Seq<char>)
    ensures
        s + a + b + c + d + e == s + (a + b + c + d + e),
{
    assert(s + a + b + c + d + e =~= s + (a + b + c + d + e));
}

/// Appends the HTML report of `doc` to `out`.
pub fn render_into(doc: &ReportDocument, out: &mut String) -> (r: Result<(), ReportError>)
    ensures
        r is Ok,
        final(out)@ == old(out)@ + html_text(*doc),
{
    let ghost start = out@;
    render_head(out);
    render_header(doc, out);
    push_str(out, "<main>\n");
    render_main(doc, out);
    render_tail(out);
    proof {
        lemma_append5(start, html_head(), html_header(*doc), "<main>\n"@, html_main(*doc), html_tail());
    }
    Ok(())
}

/// The HTML report of `doc` as UTF-8 bytes.
pub fn render(doc: &ReportDocument) -> (r: Result<Vec<u8>, ReportError>)
    ensures
        r matches Ok(bytes) && bytes@ == vstd::utf8::encode_utf8(html_text(*doc)),
{
    let mut out = String::new();
    let _ = render_into(doc, &mut out);
    assert(out@ =~= html_text(*doc));
    let bytes = vstd::slice::slice_to_vec(out.as_str().as_bytes());
    Ok(bytes)
}

} // verus!
