//! The Markdown report: executive summary, project information, scan
//! configuration, rule summary, findings grouped by severity, inventory,
//! unresolved references, parser diagnostics, artifacts and versions.
//! Every piece of user content is escaped.

use vstd::prelude::*;
use crate::json::{json_text, to_json_string};
use crate::model::{clone_findings, finding_views, Diagnostic, Finding, FindingView, Severity};
use crate::report::document::{
    group_by_severity, groups_view, rollup, rollup_by_rule, rollup_view, severity_groups, ReportDocument,
};
use crate::report::error::ReportError;
use crate::report::escape::{escape_code, escape_md, escaped, push_escaped, Escaping};
use crate::text::{chars_of, contains, contains_seq, decimal, push_i64, push_str, push_u64, signed_decimal};

verus! {

/// Appends the decimal form of `n`.
pub fn push_count(out: &mut String, n: usize)
    ensures
        final(out)@ == old(out)@ + decimal(n as nat),
{
    push_u64(out, n as u64);
}

/// The heading a severity group has.
pub open spec fn spec_sev_label(s: Severity) -> Seq<char> {
    match s {
        Severity::Critical => "Critical"@,
        Severity::Error => "Error"@,
        Severity::Warning => "Warning"@,
        Severity::Info => "Info"@,
    }
}

/// The capitalised name of a severity.
pub fn sev_label(s: Severity) -> (r: &'static str)
    ensures
        r@ == spec_sev_label(s),
{
    match s {
        Severity::Critical => "Critical",
        Severity::Error => "Error",
        Severity::Warning => "Warning",
        Severity::Info => "Info",
    }
}

pub open spec fn md_summary(doc: ReportDocument) -> Seq<char> {
    let s = doc.summary;
    "## Executive Summary\n\n"@ + "Scan result: **"@ + s.result.spec_name() + "**. "@ + decimal(
        s.findings_total as nat,
    ) + " finding(s) total \u{2014} "@ + decimal(s.critical as nat) + " critical, "@ + decimal(
        s.error as nat,
    ) + " error, "@ + decimal(s.warning as nat) + " warning, "@ + decimal(s.info as nat)
        + " info.\n\n"@
}

fn render_executive_summary(doc: &ReportDocument, out: &mut String)
    ensures
        final(out)@ == old(out)@ + md_summary(*doc),
{
    let s = &doc.summary;
    push_str(out, "## Executive Summary\n\n");
    push_str(out, "Scan result: **");
    push_str(out, s.result.name());
    push_str(out, "**. ");
    push_count(out, s.findings_total);
    push_str(out, " finding(s) total \u{2014} ");
    push_count(out, s.critical);
    push_str(out, " critical, ");
    push_count(out, s.error);
    push_str(out, " error, ");
    push_count(out, s.warning);
    push_str(out, " warning, ");
    push_count(out, s.info);
    push_str(out, " info.\n\n");
    assert(final(out)@ =~= old(out)@ + md_summary(*doc));
}

pub open spec fn md_project(doc: ReportDocument) -> Seq<char> {
    "## Project Information\n\n"@ + "- Project name: "@ + escape_md(doc.metadata.project_name@) + "\n"@
        + "- Project id: "@ + escape_md(doc.metadata.project_id@) + "\n"@ + "- Files scanned: "@
        + decimal(doc.summary.files_scanned as nat) + "\n"@ + "- Flows: "@ + decimal(
        doc.summary.flow_count as nat,
    ) + "\n"@ + "- Subflows: "@ + decimal(doc.summary.subflow_count as nat) + "\n"@ + "\n"@
}

fn render_project_information(doc: &ReportDocument, out: &mut String)
    ensures
        final(out)@ == old(out)@ + md_project(*doc),
{
    push_str(out, "## Project Information\n\n");
    push_str(out, "- Project name: ");
    push_escaped(out, Escaping::Markdown, doc.metadata.project_name.as_str());
    push_str(out, "\n");
    push_str(out, "- Project id: ");
    push_escaped(out, Escaping::Markdown, doc.metadata.project_id.as_str());
    push_str(out, "\n");
    push_str(out, "- Files scanned: ");
    push_count(out, doc.summary.files_scanned);
    push_str(out, "\n");
    push_str(out, "- Flows: ");
    push_count(out, doc.summary.flow_count);
    push_str(out, "\n");
    push_str(out, "- Subflows: ");
    push_count(out, doc.summary.subflow_count);
    push_str(out, "\n");
    push_str(out, "\n");
    assert(final(out)@ =~= old(out)@ + md_project(*doc));
}

pub open spec fn md_configuration(doc: ReportDocument) -> Seq<char> {
    "## Scan Configuration\n\n"@ + "- Tool: "@ + doc.metadata.tool@ + " "@ + doc.metadata.tool_version@
        + "\n"@ + "- Schema version: "@ + doc.metadata.schema_version@ + "\n"@
        + "- Generated at (unix): "@ + signed_decimal(doc.metadata.generated_at_unix as int) + "\n"@
        + "\n"@
}

fn render_scan_configuration(doc: &ReportDocument, out: &mut String)
    ensures
        final(out)@ == old(out)@ + md_configuration(*doc),
{
    push_str(out, "## Scan Configuration\n\n");
    push_str(out, "- Tool: ");
    push_str(out, doc.metadata.tool.as_str());
    push_str(out, " ");
    push_str(out, doc.metadata.tool_version.as_str());
    push_str(out, "\n");
    push_str(out, "- Schema version: ");
    push_str(out, doc.metadata.schema_version.as_str());
    push_str(out, "\n");
    push_str(out, "- Generated at (unix): ");
    push_i64(out, doc.metadata.generated_at_unix);
    push_str(out, "\n");
    push_str(out, "\n");
    assert(final(out)@ =~= old(out)@ + md_configuration(*doc));
}

/// The rows of the rule table.
pub open spec fn md_rule_rows(r: Seq<(Seq<char>, nat)>) -> Seq<char>
    decreases r.len(),
{
    if r.len() == 0 {
        Seq::empty()
    } else {
        md_rule_rows(r.drop_last()) + "| "@ + escape_md(r.last().0) + " | "@ + decimal(r.last().1)
            + " |\n"@
    }
}

pub open spec fn md_rules(doc: ReportDocument) -> Seq<char> {
    let r = rollup(finding_views(doc.findings@));
    "## Rule Summary\n\n"@ + (if r.len() == 0 {
        "_No findings._\n"@
    } else {
        "| Rule | Fires |\n"@ + "|------|-------|\n"@ + md_rule_rows(r)
    }) + "\n"@
}

fn render_rule_summary(doc: &ReportDocument, out: &mut String)
    ensures
        final(out)@ == old(out)@ + md_rules(*doc),
{
    let ghost start = out@;
    push_str(out, "## Rule Summary\n\n");
    let rows = rollup_by_rule(doc.findings.as_slice());
    let ghost r = rollup(finding_views(doc.findings@));
    if rows.len() == 0 {
        push_str(out, "_No findings._\n");
    } else {
        push_str(out, "| Rule | Fires |\n");
        push_str(out, "|------|-------|\n");
        let ghost head = out@;
        let mut i: usize = 0;
        while i < rows.len()
            invariant
                i <= rows@.len(),
                rollup_view(rows@) == r,
                out@ == head + md_rule_rows(r.subrange(0, i as int)),
            decreases rows.len() - i,
        {
            assert(r[i as int] == (rows@[i as int].0@, rows@[i as int].1 as nat));
            push_str(out, "| ");
            push_escaped(out, Escaping::Markdown, rows[i].0.as_str());
            push_str(out, " | ");
            push_count(out, rows[i].1);
            push_str(out, " |\n");
            proof {
                let next = r.subrange(0, i + 1);
                assert(next.drop_last() =~= r.subrange(0, i as int));
            }
            i = i + 1;
            assert(out@ =~= head + md_rule_rows(r.subrange(0, i as int)));
        }
        assert(r.subrange(0, rows@.len() as int) =~= r);
    }
    push_str(out, "\n");
    assert(final(out)@ =~= start + md_rules(*doc));
}

/// The title line and the message of a finding.
pub open spec fn md_finding_head(f: FindingView) -> Seq<char> {
    "#### "@ + escape_md(f.title) + " ("@ + escape_md(f.rule_id) + ")\n"@ + escape_md(f.message)
        + "\n"@
}

/// The recommendation line of a finding, if it has one.
pub open spec fn md_recommendation(f: FindingView) -> Seq<char> {
    match f.recommendation {
        Some(rec) => "_Recommendation:_ "@ + escape_md(rec) + "\n"@,
        None => Seq::empty(),
    }
}

/// The location line of a finding, if it has one.
pub open spec fn md_location(f: FindingView) -> Seq<char> {
    match f.source {
        Some(loc) => "_Location:_ `"@ + escape_md(loc.file) + ":"@ + decimal(loc.start_line as nat)
            + ":"@ + decimal(loc.start_column as nat) + "`\n"@,
        None => Seq::empty(),
    }
}

/// The entity line of a finding, if it has one.
pub open spec fn md_entity(f: FindingView) -> Seq<char> {
    match f.entity_id {
        Some(eid) => "_Entity:_ `"@ + escape_md(eid) + "`\n"@,
        None => Seq::empty(),
    }
}

/// The recommendation, location and entity lines a finding has.
pub open spec fn md_finding_notes(f: FindingView) -> Seq<char> {
    md_recommendation(f) + md_location(f) + md_entity(f)
}

/// The folded evidence of a finding, as compact JSON in a code block.
pub open spec fn md_finding_evidence(f: FindingView) -> Seq<char> {
    "<details><summary>Evidence</summary>\n\n```json\n"@ + escape_code(json_text(f.evidence))
        + "\n```\n</details>\n"@ + "\n"@
}

/// One finding in Markdown.
pub open spec fn md_finding(f: FindingView) -> Seq<char> {
    md_finding_head(f) + md_finding_notes(f) + md_finding_evidence(f)
}

fn write_finding_head(f: &Finding, out: &mut String)
    ensures
        final(out)@ == old(out)@ + md_finding_head(f@),
{
    push_str(out, "#### ");
    push_escaped(out, Escaping::Markdown, f.title.as_str());
    push_str(out, " (");
    push_escaped(out, Escaping::Markdown, f.rule_id.as_str());
    push_str(out, ")\n");
    push_escaped(out, Escaping::Markdown, f.message.as_str());
    push_str(out, "\n");
    assert(final(out)@ =~= old(out)@ + md_finding_head(f@));
}

fn write_recommendation(f: &Finding, out: &mut String)
    ensures
        final(out)@ == old(out)@ + md_recommendation(f@),
{
    if let Some(rec) = &f.recommendation {
        push_str(out, "_Recommendation:_ ");
        push_escaped(out, Escaping::Markdown, rec.as_str());
        push_str(out, "\n");
    }
    assert(final(out)@ =~= old(out)@ + md_recommendation(f@));
}

fn write_location(f: &Finding, out: &mut String)
    ensures
        final(out)@ == old(out)@ + md_location(f@),
{
    if let Some(loc) = &f.source {
        push_str(out, "_Location:_ `");
        push_escaped(out, Escaping::Markdown, loc.file.as_str());
        push_str(out, ":");
        push_u64(out, loc.start_line as u64);
        push_str(out, ":");
        push_u64(out, loc.start_column as u64);
        push_str(out, "`\n");
    }
    assert(final(out)@ =~= old(out)@ + md_location(f@));
}

fn write_entity(f: &Finding, out: &mut String)
    ensures
        final(out)@ == old(out)@ + md_entity(f@),
{
    if let Some(eid) = &f.entity_id {
        push_str(out, "_Entity:_ `");
        push_escaped(out, Escaping::Markdown, eid.as_str());
        push_str(out, "`\n");
    }
    assert(final(out)@ =~= old(out)@ + md_entity(f@));
}

fn write_finding_notes(f: &Finding, out: &mut String)
    ensures
        final(out)@ == old(out)@ + md_finding_notes(f@),
{
    let ghost start = out@;
    write_recommendation(f, out);
    write_location(f, out);
    write_entity(f, out);
    assert(final(out)@ =~= start + md_finding_notes(f@));
}

fn write_finding_evidence(f: &Finding, out: &mut String)
    ensures
        final(out)@ == old(out)@ + md_finding_evidence(f@),
{
    let evidence = to_json_string(&f.evidence);
    push_str(out, "<details><summary>Evidence</summary>\n\n```json\n");
    push_escaped(out, Escaping::Code, evidence.as_str());
    push_str(out, "\n```\n</details>\n");
    push_str(out, "\n");
    assert(final(out)@ =~= old(out)@ + md_finding_evidence(f@));
}

fn write_finding(f: &Finding, out: &mut String)
    ensures
        final(out)@ == old(out)@ + md_finding(f@),
{
    let ghost start = out@;
    write_finding_head(f, out);
    write_finding_notes(f, out);
    write_finding_evidence(f, out);
    assert(final(out)@ =~= start + md_finding(f@));
}

/// The findings of one group, one after another.
pub open spec fn md_findings_of(items: Seq<FindingView>) -> Seq<char>
    decreases items.len(),
{
    if items.len() == 0 {
        Seq::empty()
    } else {
        md_findings_of(items.drop_last()) + md_finding(items.last())
    }
}

/// The severity groups, each under its heading.
pub open spec fn md_groups(g: Seq<(Severity, Seq<FindingView>)>) -> Seq<char>
    decreases g.len(),
{
    if g.len() == 0 {
        Seq::empty()
    } else {
        md_groups(g.drop_last()) + "### "@ + spec_sev_label(g.last().0) + "\n"@ + "\n"@
            + md_findings_of(g.last().1)
    }
}

pub open spec fn md_findings(doc: ReportDocument) -> Seq<char> {
    "## Findings\n"@ + md_groups(severity_groups(finding_views(doc.findings@))) + "\n"@
}

fn write_group(items: &Vec<Finding>, out: &mut String)
    ensures
        final(out)@ == old(out)@ + md_findings_of(finding_views(items@)),
{
    let ghost start = out@;
    let ghost fs = finding_views(items@);
    let mut i: usize = 0;
    while i < items.len()
        invariant
            i <= items@.len(),
            fs == finding_views(items@),
            out@ == start + md_findings_of(fs.subrange(0, i as int)),
        decreases items.len() - i,
    {
        write_finding(&items[i], out);
        proof {
            let next = fs.subrange(0, i + 1);
            assert(next.drop_last() =~= fs.subrange(0, i as int));
            assert(next.last() == items@[i as int]@);
        }
        i = i + 1;
        assert(out@ =~= start + md_findings_of(fs.subrange(0, i as int)));
    }
    assert(fs.subrange(0, items@.len() as int) =~= fs);
}

#[verifier::rlimit(40)]
fn render_findings(doc: &ReportDocument, out: &mut String)
    ensures
        final(out)@ == old(out)@ + md_findings(*doc),
{
    let ghost start = out@;
    push_str(out, "## Findings\n");
    let groups = group_by_severity(clone_findings(doc.findings.as_slice()));
    let ghost g = severity_groups(finding_views(doc.findings@));
    let ghost head = out@;
    let mut i: usize = 0;
    while i < groups.len()
        invariant
            i <= groups@.len(),
            groups_view(groups@) == g,
            out@ == head + md_groups(g.subrange(0, i as int)),
        decreases groups.len() - i,
    {
        assert(g[i as int] == (groups@[i as int].0, finding_views(groups@[i as int].1@)));
        push_str(out, "### ");
        push_str(out, sev_label(groups[i].0));
        push_str(out, "\n");
        push_str(out, "\n");
        write_group(&groups[i].1, out);
        proof {
            let next = g.subrange(0, i + 1);
            assert(next.drop_last() =~= g.subrange(0, i as int));
        }
        i = i + 1;
        assert(out@ =~= head + md_groups(g.subrange(0, i as int)));
    }
    assert(g.subrange(0, groups@.len() as int) =~= g);
    push_str(out, "\n");
    assert(final(out)@ =~= start + md_findings(*doc));
}

pub open spec fn md_inventory(doc: ReportDocument) -> Seq<char> {
    "## Flow and Subflow Inventory\n\n"@ + "- Flows: "@ + decimal(doc.summary.flow_count as nat) + "\n"@
        + "- Subflows: "@ + decimal(doc.summary.subflow_count as nat) + "\n"@ + "\n"@
}

fn render_flow_inventory(doc: &ReportDocument, out: &mut String)
    ensures
        final(out)@ == old(out)@ + md_inventory(*doc),
{
    push_str(out, "## Flow and Subflow Inventory\n\n");
    push_str(out, "- Flows: ");
    push_count(out, doc.summary.flow_count);
    push_str(out, "\n");
    push_str(out, "- Subflows: ");
    push_count(out, doc.summary.subflow_count);
    push_str(out, "\n");
    push_str(out, "\n");
    assert(final(out)@ =~= old(out)@ + md_inventory(*doc));
}

/// Number of findings whose rule id mentions `reference`.
pub open spec fn reference_count(fs: Seq<FindingView>) -> nat
    decreases fs.len(),
{
    if fs.len() == 0 {
        0
    } else {
        reference_count(fs.drop_last()) + if contains_seq(fs.last().rule_id, "reference"@) {
            1nat
        } else {
            0nat
        }
    }
}

proof fn lemma_reference_count_bound(fs: Seq<FindingView>)
    ensures
        reference_count(fs) <= fs.len(),
    decreases fs.len(),
{
    if fs.len() > 0 {
        lemma_reference_count_bound(fs.drop_last());
    }
}

fn count_references(findings: &Vec<Finding>) -> (n: usize)
    ensures
        n == reference_count(finding_views(findings@)),
{
    let word = chars_of("reference");
    let mut n: usize = 0;
    let mut i: usize = 0;
    while i < findings.len()
        invariant
            word@ == "reference"@,
            i <= findings@.len(),
            n == reference_count(finding_views(findings@.subrange(0, i as int))),
        decreases findings.len() - i,
    {
        let ghost pre = finding_views(findings@.subrange(0, i as int));
        let ghost next = finding_views(findings@.subrange(0, i as int + 1));
        proof {
            assert(next.drop_last() =~= pre);
            assert(next.last() == findings@[i as int]@);
            lemma_reference_count_bound(pre);
        }
        let id = chars_of(findings[i].rule_id.as_str());
        if contains(id.as_slice(), word.as_slice()) {
            n = n + 1;
        }
        i = i + 1;
    }
    assert(findings@.subrange(0, findings@.len() as int) =~= findings@);
    n
}

pub open spec fn md_unresolved(doc: ReportDocument) -> Seq<char> {
    "## Unresolved References\n\n"@ + decimal(reference_count(finding_views(doc.findings@)))
        + " finding(s) reference resolution issues.\n"@ + "\n"@
}

fn render_unresolved(doc: &ReportDocument, out: &mut String)
    ensures
        final(out)@ == old(out)@ + md_unresolved(*doc),
{
    push_str(out, "## Unresolved References\n\n");
    let count = count_references(&doc.findings);
    push_count(out, count);
    push_str(out, " finding(s) reference resolution issues.\n");
    push_str(out, "\n");
    assert(final(out)@ =~= old(out)@ + md_unresolved(*doc));
}

/// One diagnostic line.
pub open spec fn md_diagnostic(d: Diagnostic) -> Seq<char> {
    "- ["@ + escape_md(d.code@) + "] "@ + escape_md(d.stage.spec_name()) + ": "@ + escape_md(d.message@)
        + "\n"@
}

pub open spec fn md_diagnostic_lines(ds: Seq<Diagnostic>) -> Seq<char>
    decreases ds.len(),
{
    if ds.len() == 0 {
        Seq::empty()
    } else {
        md_diagnostic_lines(ds.drop_last()) + md_diagnostic(ds.last())
    }
}

pub open spec fn md_diagnostics(doc: ReportDocument) -> Seq<char> {
    "## Parser Diagnostics\n\n"@ + (if doc.parser_diagnostics@.len() == 0 {
        "_No parser diagnostics._\n"@
    } else {
        md_diagnostic_lines(doc.parser_diagnostics@)
    }) + "\n"@
}

#[verifier::rlimit(40)]
fn render_parser_diagnostics(doc: &ReportDocument, out: &mut String)
    ensures
        final(out)@ == old(out)@ + md_diagnostics(*doc),
{
    let ghost start = out@;
    push_str(out, "## Parser Diagnostics\n\n");
    let ghost head = out@;
    let ds = &doc.parser_diagnostics;
    if ds.len() == 0 {
        push_str(out, "_No parser diagnostics._\n");
    } else {
        let mut i: usize = 0;
        while i < ds.len()
            invariant
                i <= ds@.len(),
                out@ == head + md_diagnostic_lines(ds@.subrange(0, i as int)),
            decreases ds.len() - i,
        {
            let d = &ds[i];
            push_str(out, "- [");
            push_escaped(out, Escaping::Markdown, d.code.as_str());
            push_str(out, "] ");
            push_escaped(out, Escaping::Markdown, d.stage.name());
            push_str(out, ": ");
            push_escaped(out, Escaping::Markdown, d.message.as_str());
            push_str(out, "\n");
            proof {
                let next = ds@.subrange(0, i + 1);
                assert(next.drop_last() =~= ds@.subrange(0, i as int));
            }
            i = i + 1;
            assert(out@ =~= head + md_diagnostic_lines(ds@.subrange(0, i as int)));
        }
        assert(ds@.subrange(0, ds@.len() as int) =~= ds@);
    }
    push_str(out, "\n");
    assert(final(out)@ =~= start + md_diagnostics(*doc));
}

pub open spec fn md_artifacts() -> Seq<char> {
    "## Generated Artifacts\n\n"@
        + "- `report.md`, `report.html` \u{2014} this document\n- `artifacts/project.json`, `artifacts/diagnostics.json`, `artifacts/flows/*.json` \u{2014} machine-readable scan data\n"@
        + "\n"@
}

fn render_artifacts(out: &mut String)
    ensures
        final(out)@ == old(out)@ + md_artifacts(),
{
    push_str(out, "## Generated Artifacts\n\n");
    push_str(
        out,
        "- `report.md`, `report.html` \u{2014} this document\n- `artifacts/project.json`, `artifacts/diagnostics.json`, `artifacts/flows/*.json` \u{2014} machine-readable scan data\n",
    );
    push_str(out, "\n");
    assert(final(out)@ =~= old(out)@ + md_artifacts());
}

pub open spec fn md_versions(doc: ReportDocument) -> Seq<char> {
    "## Tool and Schema Versions\n\n"@ + "- runnerguard "@ + doc.metadata.tool_version@ + "\n"@
        + "- schema "@ + doc.metadata.schema_version@ + "\n"@ + "\n"@
}

fn render_versions(doc: &ReportDocument, out: &mut String)
    ensures
        final(out)@ == old(out)@ + md_versions(*doc),
{
    push_str(out, "## Tool and Schema Versions\n\n");
    push_str(out, "- runnerguard ");
    push_str(out, doc.metadata.tool_version.as_str());
    push_str(out, "\n");
    push_str(out, "- schema ");
    push_str(out, doc.metadata.schema_version.as_str());
    push_str(out, "\n");
    push_str(out, "\n");
    assert(final(out)@ =~= old(out)@ + md_versions(*doc));
}

/// The whole Markdown report of `doc`.
pub open spec fn markdown_text(doc: ReportDocument) -> Seq<char> {
    "# RunnerGuard Scan Report\n"@ + "\n"@ + md_summary(doc) + md_project(doc) + md_configuration(doc)
        + md_rules(doc) + md_findings(doc) + md_inventory(doc) + md_unresolved(doc) + md_diagnostics(
        doc,
    ) + md_artifacts() + md_versions(doc)
}

/// Appends the Markdown report of `doc` to `out`.
#[verifier::rlimit(60)]
pub fn render_into(doc: &ReportDocument, out: &mut String) -> (r: Result<(), ReportError>)
    ensures
        r is Ok,
        final(out)@ == old(out)@ + markdown_text(*doc),
{
    let ghost start = out@;
    push_str(out, "# RunnerGuard Scan Report\n");
    push_str(out, "\n");
    render_executive_summary(doc, out);
    render_project_information(doc, out);
    render_scan_configuration(doc, out);
    render_rule_summary(doc, out);
    render_findings(doc, out);
    render_flow_inventory(doc, out);
    render_unresolved(doc, out);
    render_parser_diagnostics(doc, out);
    render_artifacts(out);
    render_versions(doc, out);
    assert(final(out)@ =~= start + markdown_text(*doc));
    Ok(())
}

/// The Markdown report of `doc` as UTF-8 bytes.
pub fn render(doc: &ReportDocument) -> (r: Result<Vec<u8>, ReportError>)
    ensures
        r matches Ok(bytes) && bytes@ == vstd::utf8::encode_utf8(markdown_text(*doc)),
{
    let mut out = String::new();
    let _ = render_into(doc, &mut out);
    assert(out@ =~= markdown_text(*doc));
    let bytes = vstd::slice::slice_to_vec(out.as_str().as_bytes());
    Ok(bytes)
}

} // verus!
