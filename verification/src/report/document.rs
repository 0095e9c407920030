//! The report document: what a scan result becomes before it is rendered,
//! with its findings in report order and its summary counts. Two scans of
//! the same inputs give the same document.

use vstd::prelude::*;
use crate::engine::engine::{finding_order, sort};
use crate::engine::target::strictly_ascending;
use crate::model::{clone_diagnostics, clone_findings, current_schema_version, finding_views, Diagnostic,
    Finding, FindingView, ParsedProject, Severity};
use crate::ruleset::{condition_view, opt_condition_view, Rule, RuleDefaults, RuleSet};
use crate::scan::{count_severity, ScanResult};
use crate::sorting::stable_sort;
use crate::text::{lemma_seq_lt_asymmetric, lemma_seq_lt_irreflexive, seq_lt, str_eq};

verus! {

/// Whether a scan passed.
#[derive(Debug, Clone, Copy, PartialEq, Eq, Structural)]
pub enum ScanResultKind {
    Passed,
    Failed,
}

impl ScanResultKind {
    pub open spec fn spec_name(self) -> Seq<char> {
        match self {
            ScanResultKind::Passed => "Passed"@,
            ScanResultKind::Failed => "Failed"@,
        }
    }

    /// The variant's name.
    pub fn name(self) -> (s: &'static str)
        ensures
            s@ == self.spec_name(),
    {
        match self {
            ScanResultKind::Passed => "Passed",
            ScanResultKind::Failed => "Failed",
        }
    }
}

/// Who produced a report, when, and for which project.
#[derive(Debug)]
pub struct ReportMetadata {
    pub tool: String,
    pub tool_version: String,
    pub schema_version: String,
    pub generated_at_unix: i64,
    pub project_id: String,
    pub project_name: String,
}

/// Counts a report leads with.
#[derive(Debug, Clone, Copy, PartialEq, Eq, Structural)]
pub struct ReportSummary {
    pub findings_total: usize,
    pub critical: usize,
    pub error: usize,
    pub warning: usize,
    pub info: usize,
    pub flow_count: usize,
    pub subflow_count: usize,
    pub rule_count: usize,
    pub files_scanned: usize,
    pub result: ScanResultKind,
}

impl Default for ReportSummary {
    fn default() -> (s: Self)
        ensures
            s == (ReportSummary {
                findings_total: 0,
                critical: 0,
                error: 0,
                warning: 0,
                info: 0,
                flow_count: 0,
                subflow_count: 0,
                rule_count: 0,
                files_scanned: 0,
                result: ScanResultKind::Passed,
            }),
    {
        ReportSummary {
            findings_total: 0,
            critical: 0,
            error: 0,
            warning: 0,
            info: 0,
            flow_count: 0,
            subflow_count: 0,
            rule_count: 0,
            files_scanned: 0,
            result: ScanResultKind::Passed,
        }
    }
}

/// Everything a renderer sees.
#[derive(Debug)]
pub struct ReportDocument {
    pub metadata: ReportMetadata,
    pub summary: ReportSummary,
    pub findings: Vec<Finding>,
    pub parser_diagnostics: Vec<Diagnostic>,
    pub rule_sets: Vec<RuleSet>,
}

/// The verdict for a scan whose most severe finding is `top`: failed on a
/// critical or error finding, passed otherwise.
pub open spec fn spec_classify(top: Option<Severity>) -> ScanResultKind {
    match top {
        Some(Severity::Critical) | Some(Severity::Error) => ScanResultKind::Failed,
        _ => ScanResultKind::Passed,
    }
}

fn classify(top: Option<Severity>) -> (r: ScanResultKind)
    ensures
        r == spec_classify(top),
{
    match top {
        Some(Severity::Critical) | Some(Severity::Error) => ScanResultKind::Failed,
        _ => ScanResultKind::Passed,
    }
}

fn project_file_count(project: &ParsedProject) -> (n: usize)
    ensures
        n == project.project.files@.len(),
{
    project.project.files.len()
}

/// The summary of `result` for `project` when its most severe finding is
/// `top`.
pub open spec fn spec_summary(result: ScanResult, project: ParsedProject, top: Option<Severity>) -> ReportSummary {
    ReportSummary {
        findings_total: result.findings@.len() as usize,
        critical: count_severity(result.findings@, Severity::Critical) as usize,
        error: count_severity(result.findings@, Severity::Error) as usize,
        warning: count_severity(result.findings@, Severity::Warning) as usize,
        info: count_severity(result.findings@, Severity::Info) as usize,
        flow_count: result.flow_count,
        subflow_count: result.subflow_count,
        rule_count: result.rule_count,
        files_scanned: project.project.files@.len() as usize,
        result: spec_classify(top),
    }
}

fn build_summary(result: &ScanResult, project: &ParsedProject, top: Option<Severity>) -> (s: ReportSummary)
    ensures
        s == spec_summary(*result, *project, top),
{
    let counts = result.summary();
    let mut summary = ReportSummary::default();
    summary.critical = counts.critical;
    summary.error = counts.error;
    summary.warning = counts.warning;
    summary.info = counts.info;
    summary.findings_total = result.findings.len();
    summary.flow_count = result.flow_count;
    summary.subflow_count = result.subflow_count;
    summary.rule_count = result.rule_count;
    summary.files_scanned = project_file_count(project);
    summary.result = classify(top);
    summary
}

/// The findings in report order: most severe first, then by rule id,
/// file, line and entity id; equal findings keep their order.
pub open spec fn report_order(fs: Seq<FindingView>) -> Seq<FindingView> {
    stable_sort(fs, finding_order())
}

/// Findings in report order.
pub fn sort_findings(findings: &[Finding]) -> (r: Vec<Finding>)
    ensures
        finding_views(r@) == report_order(finding_views(findings@)),
{
    let mut sorted = clone_findings(findings);
    sort(&mut sorted);
    sorted
}

/// The severity of the first finding, if any.
pub open spec fn first_severity(fs: Seq<FindingView>) -> Option<Severity> {
    if fs.len() == 0 {
        None
    } else {
        Some(fs[0].severity)
    }
}

/// A rule with the same contents as `r`.
pub open spec fn same_rule(a: Rule, b: Rule) -> bool {
    &&& a.id == b.id
    &&& a.title == b.title
    &&& a.description == b.description
    &&& a.severity == b.severity
    &&& a.enabled == b.enabled
    &&& a.tags@ == b.tags@
    &&& a.target.entity@ == b.target.entity@
    &&& opt_condition_view(a.target.match_) == opt_condition_view(b.target.match_)
    &&& (match (a.when, b.when) {
        (Some(x), Some(y)) => condition_view(x) == condition_view(y),
        (None, None) => true,
        _ => false,
    })
    &&& condition_view(a.assert) == condition_view(b.assert)
    &&& a.message == b.message
    &&& a.recommendation == b.recommendation
}

/// A rule set with the same contents as `s`.
pub open spec fn same_rule_set(a: RuleSet, b: RuleSet) -> bool {
    &&& a.schema_version == b.schema_version
    &&& a.id == b.id
    &&& a.name == b.name
    &&& a.version == b.version
    &&& a.description == b.description
    &&& a.rules@.len() == b.rules@.len()
    &&& forall|i: int| 0 <= i < a.rules@.len() ==> same_rule(#[trigger] a.rules@[i], b.rules@[i])
}

fn clone_opt(o: &Option<String>) -> (r: Option<String>)
    ensures
        r == *o,
{
    match o {
        Some(s) => Some(s.clone()),
        None => None,
    }
}

fn copy_rule(r: &Rule) -> (c: Rule)
    ensures
        same_rule(c, *r),
{
    let mut tags: Vec<String> = Vec::new();
    let mut i: usize = 0;
    while i < r.tags.len()
        invariant
            i <= r.tags.len(),
            tags@ == r.tags@.subrange(0, i as int),
        decreases r.tags.len() - i,
    {
        tags.push(r.tags[i].clone());
        i = i + 1;
        assert(tags@ =~= r.tags@.subrange(0, i as int));
    }
    assert(tags@ =~= r.tags@);
    let when = match &r.when {
        Some(c) => Some(c.copy()),
        None => None,
    };
    Rule {
        id: r.id.clone(),
        title: r.title.clone(),
        description: clone_opt(&r.description),
        severity: r.severity,
        enabled: r.enabled,
        tags,
        target: r.target.copy(),
        when,
        assert: r.assert.copy(),
        message: r.message.clone(),
        recommendation: clone_opt(&r.recommendation),
    }
}

fn copy_rule_set(s: &RuleSet) -> (c: RuleSet)
    ensures
        same_rule_set(c, *s),
{
    let mut rules: Vec<Rule> = Vec::new();
    let mut i: usize = 0;
    while i < s.rules.len()
        invariant
            i <= s.rules.len(),
            rules@.len() == i,
            forall|k: int| 0 <= k < i ==> same_rule(#[trigger] rules@[k], s.rules@[k]),
        decreases s.rules.len() - i,
    {
        rules.push(copy_rule(&s.rules[i]));
        i = i + 1;
    }
    RuleSet {
        schema_version: s.schema_version.clone(),
        id: s.id.clone(),
        name: s.name.clone(),
        version: s.version.clone(),
        description: clone_opt(&s.description),
        defaults: RuleDefaults {},
        rules,
    }
}

fn copy_rule_sets(sets: &[RuleSet]) -> (r: Vec<RuleSet>)
    ensures
        r@.len() == sets@.len(),
        forall|i: int| 0 <= i < sets@.len() ==> same_rule_set(#[trigger] r@[i], sets@[i]),
{
    let mut out: Vec<RuleSet> = Vec::new();
    let mut i: usize = 0;
    while i < sets.len()
        invariant
            i <= sets.len(),
            out@.len() == i,
            forall|k: int| 0 <= k < i ==> same_rule_set(#[trigger] out@[k], sets@[k]),
        decreases sets.len() - i,
    {
        out.push(copy_rule_set(&sets[i]));
        i = i + 1;
    }
    out
}

/// Builds the document a renderer receives: the findings in report order,
/// the summary (whose verdict follows the most severe finding), the
/// metadata naming this tool and the project, the parser diagnostics and
/// the rule sets.
pub fn build_document(
    result: &ScanResult,
    project: &ParsedProject,
    rule_sets: &[RuleSet],
    generated_at_unix: i64,
    tool_version: &str,
) -> (doc: ReportDocument)
    ensures
        finding_views(doc.findings@) == report_order(finding_views(result.findings@)),
        doc.summary == spec_summary(*result, *project, first_severity(finding_views(doc.findings@))),
        doc.metadata.tool@ == "runnerguard"@,
        doc.metadata.tool_version@ == tool_version@,
        doc.metadata.schema_version@ == seq!['1', '.', '0'],
        doc.metadata.generated_at_unix == generated_at_unix,
        doc.metadata.project_id == project.project.id,
        doc.metadata.project_name == project.project.name,
        doc.parser_diagnostics@ == result.parser_diagnostics@,
        doc.rule_sets@.len() == rule_sets@.len(),
        forall|i: int| 0 <= i < rule_sets@.len() ==> same_rule_set(#[trigger] doc.rule_sets@[i], rule_sets@[i]),
{
    let findings = sort_findings(result.findings.as_slice());
    let top = if findings.len() > 0 {
        assert(finding_views(findings@)[0] == findings@[0]@);
        Some(findings[0].severity)
    } else {
        None
    };
    let summary = build_summary(result, project, top);
    ReportDocument {
        metadata: ReportMetadata {
            tool: "runnerguard".to_owned(),
            tool_version: tool_version.to_owned(),
            schema_version: current_schema_version().to_owned(),
            generated_at_unix,
            project_id: project.project.id.clone(),
            project_name: project.project.name.clone(),
        },
        summary,
        findings,
        parser_diagnostics: clone_diagnostics(result.parser_diagnostics.as_slice()),
        rule_sets: copy_rule_sets(rule_sets),
    }
}

/// The codes of the diagnostics, in order.
pub fn diagnostic_codes(diagnostics: &[Diagnostic]) -> (r: Vec<String>)
    ensures
        r@.len() == diagnostics@.len(),
        forall|i: int| 0 <= i < diagnostics@.len() ==> #[trigger] r@[i] == diagnostics@[i].code,
{
    let mut out: Vec<String> = Vec::new();
    let mut i: usize = 0;
    while i < diagnostics.len()
        invariant
            i <= diagnostics.len(),
            out@.len() == i,
            forall|k: int| 0 <= k < i ==> #[trigger] out@[k] == diagnostics@[k].code,
        decreases diagnostics.len() - i,
    {
        out.push(diagnostics[i].code.clone());
        i = i + 1;
    }
    out
}

/// Number of findings of `fs` with rule id `id`.
pub open spec fn count_rule(fs: Seq<FindingView>, id: Seq<char>) -> nat
    decreases fs.len(),
{
    if fs.len() == 0 {
        0
    } else {
        count_rule(fs.drop_last(), id) + if fs.last().rule_id == id { 1nat } else { 0nat }
    }
}

proof fn lemma_count_rule_bound(fs: Seq<FindingView>, id: Seq<char>)
    ensures
        count_rule(fs, id) <= fs.len(),
    decreases fs.len(),
{
    if fs.len() > 0 {
        lemma_count_rule_bound(fs.drop_last(), id);
    }
}

/// The rule ids of the findings.
pub open spec fn rule_ids(fs: Seq<FindingView>) -> Set<Seq<char>> {
    fs.map_values(|f: FindingView| f.rule_id).to_set()
}

/// `names` lists each rule id of `fs` once, in ascending order.
pub open spec fn is_rule_order(names: Seq<Seq<char>>, fs: Seq<FindingView>) -> bool {
    strictly_ascending(names) && names.to_set() == rule_ids(fs)
}

/// The rule ids of `fs`, each once, in ascending order.
pub open spec fn rule_order(fs: Seq<FindingView>) -> Seq<Seq<char>> {
    choose|names: Seq<Seq<char>>| is_rule_order(names, fs)
}

/// How often each rule fired, by ascending rule id.
pub open spec fn rollup(fs: Seq<FindingView>) -> Seq<(Seq<char>, nat)> {
    rule_order(fs).map_values(|n: Seq<char>| (n, count_rule(fs, n)))
}

pub open spec fn rollup_view(r: Seq<(String, usize)>) -> Seq<(Seq<char>, nat)> {
    r.map_values(|p: (String, usize)| (p.0@, p.1 as nat))
}

/// Two ascending lists of the same texts are the same list.
pub proof fn lemma_ascending_unique(x: Seq<Seq<char>>, y: Seq<Seq<char>>)
    requires
        strictly_ascending(x),
        strictly_ascending(y),
        x.to_set() == y.to_set(),
    ensures
        x == y,
    decreases x.len(),
{
    broadcast use vstd::seq_lib::group_seq_properties;
    if x.len() == 0 {
        if y.len() > 0 {
            assert(y.to_set().contains(y[0]));
            assert(x.contains(y[0]));
        }
        assert(x =~= y);
    } else if y.len() == 0 {
        assert(x.to_set().contains(x[0]));
        assert(y.contains(x[0]));
    } else {
        assert(x.to_set().contains(x[0]));
        assert(y.contains(x[0]));
        let j = choose|j: int| 0 <= j < y.len() && y[j] == x[0];
        assert(y.to_set().contains(y[0]));
        assert(x.contains(y[0]));
        let i = choose|i: int| 0 <= i < x.len() && x[i] == y[0];
        if j > 0 {
            assert(seq_lt(y[0], y[j]));
            if i > 0 {
                assert(seq_lt(x[0], x[i]));
                lemma_seq_lt_asymmetric(x[0], x[i]);
            } else {
                lemma_seq_lt_irreflexive(x[0]);
            }
        }
        assert(x[0] == y[0]);
        let xs = x.drop_first();
        let ys = y.drop_first();
        assert forall|a: Seq<char>| xs.to_set().contains(a) implies ys.to_set().contains(a) by {
            assert(xs.contains(a));
            let k = choose|k: int| 0 <= k < xs.len() && xs[k] == a;
            assert(x[k + 1] == a);
            assert(seq_lt(x[0], a));
            assert(x.to_set().contains(a));
            assert(y.contains(a));
            let m = choose|m: int| 0 <= m < y.len() && y[m] == a;
            if m == 0 {
                lemma_seq_lt_irreflexive(a);
            }
            assert(ys[m - 1] == a);
        }
        assert forall|a: Seq<char>| ys.to_set().contains(a) implies xs.to_set().contains(a) by {
            assert(ys.contains(a));
            let k = choose|k: int| 0 <= k < ys.len() && ys[k] == a;
            assert(y[k + 1] == a);
            assert(seq_lt(y[0], a));
            assert(y.to_set().contains(a));
            assert(x.contains(a));
            let m = choose|m: int| 0 <= m < x.len() && x[m] == a;
            if m == 0 {
                lemma_seq_lt_irreflexive(a);
            }
            assert(xs[m - 1] == a);
        }
        assert(xs.to_set() =~= ys.to_set());
        assert forall|a: int, b: int| 0 <= a < b < xs.len() implies seq_lt(#[trigger] xs[a], #[trigger] xs[b]) by {
            assert(xs[a] == x[a + 1] && xs[b] == x[b + 1]);
        }
        assert forall|a: int, b: int| 0 <= a < b < ys.len() implies seq_lt(#[trigger] ys[a], #[trigger] ys[b]) by {
            assert(ys[a] == y[a + 1] && ys[b] == y[b + 1]);
        }
        lemma_ascending_unique(xs, ys);
        assert forall|k: int| 0 <= k < x.len() implies x[k] == y[k] by {
            if k > 0 {
                assert(x[k] == xs[k - 1]);
                assert(y[k] == ys[k - 1]);
            }
        }
        assert(x =~= y);
    }
}

/// The rule-id ordering a rollup uses is determined by the findings:
/// any ascending list of their distinct rule ids is that ordering.
pub proof fn law_rule_order_is_unique(names: Seq<Seq<char>>, fs: Seq<FindingView>)
    requires
        is_rule_order(names, fs),
    ensures
        rule_order(fs) == names,
{
    let chosen = rule_order(fs);
    assert(is_rule_order(chosen, fs));
    lemma_ascending_unique(chosen, names);
}

fn count_rule_of(findings: &[Finding], id: &str) -> (n: usize)
    ensures
        n == count_rule(finding_views(findings@), id@),
{
    let mut n: usize = 0;
    let mut i: usize = 0;
    while i < findings.len()
        invariant
            i <= findings.len(),
            n == count_rule(finding_views(findings@.subrange(0, i as int)), id@),
        decreases findings.len() - i,
    {
        let ghost pre = finding_views(findings@.subrange(0, i as int));
        let ghost next = finding_views(findings@.subrange(0, i as int + 1));
        proof {
            assert(next.drop_last() =~= pre);
            assert(next.last() == findings@[i as int]@);
            lemma_count_rule_bound(pre, id@);
        }
        if str_eq(findings[i].rule_id.as_str(), id) {
            n = n + 1;
        }
        i = i + 1;
    }
    assert(findings@.subrange(0, findings@.len() as int) =~= findings@);
    n
}

/// How often each rule fired: one entry per rule id, by ascending id.
pub fn rollup_by_rule(findings: &[Finding]) -> (r: Vec<(String, usize)>)
    ensures
        rollup_view(r@) == rollup(finding_views(findings@)),
{
    let ghost fs = finding_views(findings@);
    let ghost sv = |s: String| s@;
    let mut ids: Vec<String> = Vec::new();
    let mut i: usize = 0;
    while i < findings.len()
        invariant
            i <= findings.len(),
            fs == finding_views(findings@),
            ids@.len() == i,
            forall|j: int| 0 <= j < i ==> (#[trigger] ids@[j])@ == fs[j].rule_id,
        decreases findings.len() - i,
    {
        assert(fs[i as int] == findings@[i as int]@);
        ids.push(findings[i].rule_id.clone());
        i = i + 1;
    }
    assert(ids@.map_values(sv) =~= fs.map_values(|f: FindingView| f.rule_id));
    let names = crate::engine::target::unique_names(ids);
    let ghost nv = names@.map_values(sv);
    proof {
        assert(is_rule_order(nv, fs));
        law_rule_order_is_unique(nv, fs);
    }
    let mut out: Vec<(String, usize)> = Vec::new();
    let mut k: usize = 0;
    while k < names.len()
        invariant
            k <= names@.len(),
            fs == finding_views(findings@),
            nv == names@.map_values(sv),
            sv == (|s: String| s@),
            rule_order(fs) == nv,
            out@.len() == k,
            forall|j: int| 0 <= j < k ==> (#[trigger] out@[j]).0@ == nv[j] && out@[j].1 == count_rule(fs, nv[j]),
        decreases names.len() - k,
    {
        let c = count_rule_of(findings, names[k].as_str());
        assert(nv[k as int] == names@[k as int]@);
        out.push((names[k].clone(), c));
        k = k + 1;
    }
    assert(rollup_view(out@) =~= rollup(fs));
    out
}

/// The findings of `fs` with severity `sev`, in order.
pub open spec fn with_severity(fs: Seq<FindingView>, sev: Severity) -> Seq<FindingView>
    decreases fs.len(),
{
    if fs.len() == 0 {
        Seq::empty()
    } else {
        let rest = with_severity(fs.drop_last(), sev);
        if fs.last().severity == sev {
            rest.push(fs.last())
        } else {
            rest
        }
    }
}

/// The group of severity `sev`, when it has findings.
pub open spec fn group_of(fs: Seq<FindingView>, sev: Severity) -> Seq<(Severity, Seq<FindingView>)> {
    if with_severity(fs, sev).len() == 0 {
        Seq::empty()
    } else {
        seq![(sev, with_severity(fs, sev))]
    }
}

/// The non-empty severity groups in the order critical, error, warning,
/// info.
pub open spec fn severity_groups(fs: Seq<FindingView>) -> Seq<(Severity, Seq<FindingView>)> {
    group_of(fs, Severity::Critical) + group_of(fs, Severity::Error) + group_of(fs, Severity::Warning)
        + group_of(fs, Severity::Info)
}

/// The severity groups split the findings: every finding lands in the
/// group of its severity, so the groups' sizes add up to the number of
/// findings, and each group holds only findings of its severity.
pub proof fn law_groups_partition_findings(fs: Seq<FindingView>)
    ensures
        with_severity(fs, Severity::Critical).len() + with_severity(fs, Severity::Error).len()
            + with_severity(fs, Severity::Warning).len() + with_severity(fs, Severity::Info).len()
            == fs.len(),
        forall|s: Severity, i: int|
            0 <= i < with_severity(fs, s).len() ==> (#[trigger] with_severity(fs, s)[i]).severity == s,
    decreases fs.len(),
{
    if fs.len() > 0 {
        law_groups_partition_findings(fs.drop_last());
        assert forall|s: Severity, i: int|
            0 <= i < with_severity(fs, s).len() implies (#[trigger] with_severity(fs, s)[i]).severity == s by {
            let rest = with_severity(fs.drop_last(), s);
            if i < rest.len() {
                assert(with_severity(fs, s)[i] == rest[i]);
            }
        }
    }
}

pub open spec fn groups_view(g: Seq<(Severity, Vec<Finding>)>) -> Seq<(Severity, Seq<FindingView>)> {
    g.map_values(|p: (Severity, Vec<Finding>)| (p.0, finding_views(p.1@)))
}

fn findings_with(findings: &Vec<Finding>, sev: Severity) -> (r: Vec<Finding>)
    ensures
        finding_views(r@) == with_severity(finding_views(findings@), sev),
{
    let mut out: Vec<Finding> = Vec::new();
    let mut i: usize = 0;
    while i < findings.len()
        invariant
            i <= findings.len(),
            finding_views(out@) == with_severity(finding_views(findings@.subrange(0, i as int)), sev),
        decreases findings.len() - i,
    {
        let ghost next = finding_views(findings@.subrange(0, i as int + 1));
        proof {
            assert(next.drop_last() =~= finding_views(findings@.subrange(0, i as int)));
            assert(next.last() == findings@[i as int]@);
        }
        if findings[i].severity == sev {
            out.push(findings[i].clone());
            assert(finding_views(out@) =~= with_severity(next, sev));
        }
        i = i + 1;
    }
    assert(findings@.subrange(0, findings@.len() as int) =~= findings@);
    out
}

/// The findings grouped by severity, most severe group first; each group
/// keeps the findings' order and empty groups are left out.
pub fn group_by_severity(findings: Vec<Finding>) -> (r: Vec<(Severity, Vec<Finding>)>)
    ensures
        groups_view(r@) == severity_groups(finding_views(findings@)),
{
    let ghost fs = finding_views(findings@);
    let mut out: Vec<(Severity, Vec<Finding>)> = Vec::new();
    let c = findings_with(&findings, Severity::Critical);
    if c.len() > 0 {
        out.push((Severity::Critical, c));
    }
    assert(groups_view(out@) =~= group_of(fs, Severity::Critical));
    let e = findings_with(&findings, Severity::Error);
    if e.len() > 0 {
        out.push((Severity::Error, e));
    }
    assert(groups_view(out@) =~= group_of(fs, Severity::Critical) + group_of(fs, Severity::Error));
    let w = findings_with(&findings, Severity::Warning);
    if w.len() > 0 {
        out.push((Severity::Warning, w));
    }
    assert(groups_view(out@) =~= group_of(fs, Severity::Critical) + group_of(fs, Severity::Error)
        + group_of(fs, Severity::Warning));
    let n = findings_with(&findings, Severity::Info);
    if n.len() > 0 {
        out.push((Severity::Info, n));
    }
    assert(groups_view(out@) =~= severity_groups(fs));
    out
}

proof fn lemma_count_positive(fs: Seq<Finding>, sev: Severity)
    ensures
        count_severity(fs, sev) > 0 <==> exists|i: int| 0 <= i < fs.len() && (#[trigger] fs[i]).severity == sev,
    decreases fs.len(),
{
    if fs.len() > 0 {
        let rest = fs.drop_last();
        lemma_count_positive(rest, sev);
        if count_severity(rest, sev) > 0 {
            let i = choose|i: int| 0 <= i < rest.len() && (#[trigger] rest[i]).severity == sev;
            assert(fs[i] == rest[i]);
        }
        if exists|i: int| 0 <= i < fs.len() && (#[trigger] fs[i]).severity == sev {
            let i = choose|i: int| 0 <= i < fs.len() && (#[trigger] fs[i]).severity == sev;
            if i < fs.len() - 1 {
                assert(rest[i] == fs[i]);
            }
        }
    }
}

/// Whether a finding has severity `sev`.
pub open spec fn of_severity(sev: Severity) -> spec_fn(Finding) -> bool {
    |f: Finding| f.severity == sev
}

proof fn lemma_count_is_filter(fs: Seq<Finding>, sev: Severity)
    ensures
        count_severity(fs, sev) == fs.filter(of_severity(sev)).len(),
    decreases fs.len(),
{
    reveal(Seq::filter);
    if fs.len() > 0 {
        lemma_count_is_filter(fs.drop_last(), sev);
    }
}

proof fn lemma_counts_add_up(fs: Seq<Finding>)
    ensures
        count_severity(fs, Severity::Critical) + count_severity(fs, Severity::Error) + count_severity(
            fs,
            Severity::Warning,
        ) + count_severity(fs, Severity::Info) == fs.len(),
    decreases fs.len(),
{
    if fs.len() > 0 {
        lemma_counts_add_up(fs.drop_last());
    }
}

/// The summary counts each severity: each count is the number of findings
/// of that severity, the four add up to the total, and the files scanned
/// are the project's files.
pub proof fn law_summary_counts(result: ScanResult, project: ParsedProject, top: Option<Severity>)
    ensures
        spec_summary(result, project, top).critical == result.findings@.filter(of_severity(Severity::Critical)).len(),
        spec_summary(result, project, top).error == result.findings@.filter(of_severity(Severity::Error)).len(),
        spec_summary(result, project, top).warning == result.findings@.filter(of_severity(Severity::Warning)).len(),
        spec_summary(result, project, top).info == result.findings@.filter(of_severity(Severity::Info)).len(),
        spec_summary(result, project, top).critical + spec_summary(result, project, top).error + spec_summary(
            result,
            project,
            top,
        ).warning + spec_summary(result, project, top).info == spec_summary(result, project, top).findings_total,
        spec_summary(result, project, top).findings_total == result.findings@.len(),
        spec_summary(result, project, top).files_scanned == project.project.files@.len(),
{
    let fs = result.findings@;
    assert(fs.len() == result.findings.len());
    assert(project.project.files@.len() == project.project.files.len());
    crate::scan::lemma_count_severity_bound(fs, Severity::Critical);
    crate::scan::lemma_count_severity_bound(fs, Severity::Error);
    crate::scan::lemma_count_severity_bound(fs, Severity::Warning);
    crate::scan::lemma_count_severity_bound(fs, Severity::Info);
    lemma_count_is_filter(fs, Severity::Critical);
    lemma_count_is_filter(fs, Severity::Error);
    lemma_count_is_filter(fs, Severity::Warning);
    lemma_count_is_filter(fs, Severity::Info);
    lemma_counts_add_up(fs);
}

/// A report fails exactly when the scan found something critical or an
/// error: the verdict follows the most severe finding, which report order
/// puts first.
pub proof fn law_verdict_follows_severity(fs: Seq<Finding>)
    ensures
        (spec_classify(first_severity(report_order(finding_views(fs)))) == ScanResultKind::Failed)
            <==> count_severity(fs, Severity::Critical) + count_severity(fs, Severity::Error) > 0,
{
    broadcast use vstd::seq_lib::group_to_multiset_ensures;
    let v = finding_views(fs);
    let s = report_order(v);
    crate::engine::engine::law_findings_are_listed_in_order(v);
    crate::sorting::law_stable_sort_permutes(v, finding_order());
    lemma_count_positive(fs, Severity::Critical);
    lemma_count_positive(fs, Severity::Error);
    if s.len() > 0 {
        let top = s[0];
        assert(s.contains(top));
        assert(v.to_multiset().count(top) > 0);
        assert(v.contains(top));
        let i = choose|i: int| 0 <= i < v.len() && v[i] == top;
        assert(v[i] == fs[i]@);
        if count_severity(fs, Severity::Critical) + count_severity(fs, Severity::Error) > 0 {
            let k = choose|k: int| 0 <= k < fs.len() && ((#[trigger] fs[k]).severity == Severity::Critical
                || fs[k].severity == Severity::Error);
            assert(v[k] == fs[k]@);
            assert(v.contains(v[k]));
            assert(s.to_multiset().count(v[k]) > 0);
            let j = choose|j: int| 0 <= j < s.len() && s[j] == v[k];
            if j > 0 {
                assert(!finding_order()(s[0], s[j]));
            }
        }
    }
}

} // verus!
