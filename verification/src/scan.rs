//! What a scan produces and reports while it runs: the result, its
//! summary, the outcome handed to the front-ends, and the progress events.

use vstd::prelude::*;
use crate::model::{Diagnostic, Finding, Severity};

verus! {

/// Counts of a finished scan.
#[derive(Debug, Clone, Copy, PartialEq, Eq, Structural)]
pub struct ScanSummary {
    pub findings_total: usize,
    pub critical: usize,
    pub error: usize,
    pub warning: usize,
    pub info: usize,
    pub flow_count: usize,
    pub subflow_count: usize,
    pub rule_count: usize,
}

impl Default for ScanSummary {
    fn default() -> (s: Self)
        ensures
            s == (ScanSummary {
                findings_total: 0,
                critical: 0,
                error: 0,
                warning: 0,
                info: 0,
                flow_count: 0,
                subflow_count: 0,
                rule_count: 0,
            }),
    {
        ScanSummary {
            findings_total: 0,
            critical: 0,
            error: 0,
            warning: 0,
            info: 0,
            flow_count: 0,
            subflow_count: 0,
            rule_count: 0,
        }
    }
}

impl ScanSummary {
    /// Number of findings at `min` or more severe.
    pub open spec fn spec_at_least(self, min: Severity) -> int {
        (if min.spec_rank() <= 0 { self.info as int } else { 0 })
            + (if min.spec_rank() <= 1 { self.warning as int } else { 0 })
            + (if min.spec_rank() <= 2 { self.error as int } else { 0 })
            + self.critical as int
    }

    /// Whether any finding is at `min` or more severe.
    pub fn threshold_exceeded(&self, min: Severity) -> (b: bool)
        ensures
            b == (self.spec_at_least(min) > 0),
    {
        let r = min.rank();
        (r == 0 && self.info > 0) || (r <= 1 && self.warning > 0) || (r <= 2 && self.error > 0)
            || self.critical > 0
    }
}

/// Number of findings of severity `s` in `fs`.
pub open spec fn count_severity(fs: Seq<Finding>, s: Severity) -> nat
    decreases fs.len(),
{
    if fs.len() == 0 {
        0
    } else {
        count_severity(fs.drop_last(), s) + if fs.last().severity == s { 1nat } else { 0nat }
    }
}

pub proof fn lemma_count_severity_bound(fs: Seq<Finding>, s: Severity)
    ensures
        count_severity(fs, s) <= fs.len(),
    decreases fs.len(),
{
    if fs.len() > 0 {
        lemma_count_severity_bound(fs.drop_last(), s);
    }
}

/// Everything the rule engine produced for a project.
#[derive(Debug)]
pub struct ScanResult {
    pub findings: Vec<Finding>,
    pub parser_diagnostics: Vec<Diagnostic>,
    pub flow_count: usize,
    pub subflow_count: usize,
    pub rule_count: usize,
}

impl Default for ScanResult {
    fn default() -> (r: Self)
        ensures
            r.findings@.len() == 0,
            r.parser_diagnostics@.len() == 0,
            r.flow_count == 0,
            r.subflow_count == 0,
            r.rule_count == 0,
    {
        ScanResult {
            findings: Vec::new(),
            parser_diagnostics: Vec::new(),
            flow_count: 0,
            subflow_count: 0,
            rule_count: 0,
        }
    }
}

/// Counts per severity of `fs`: (critical, error, warning, info).
pub fn severity_counts(fs: &[Finding]) -> (r: (usize, usize, usize, usize))
    ensures
        r.0 == count_severity(fs@, Severity::Critical),
        r.1 == count_severity(fs@, Severity::Error),
        r.2 == count_severity(fs@, Severity::Warning),
        r.3 == count_severity(fs@, Severity::Info),
{
    let mut c: usize = 0;
    let mut e: usize = 0;
    let mut w: usize = 0;
    let mut n: usize = 0;
    let mut i: usize = 0;
    while i < fs.len()
        invariant
            i <= fs.len(),
            c == count_severity(fs@.subrange(0, i as int), Severity::Critical),
            e == count_severity(fs@.subrange(0, i as int), Severity::Error),
            w == count_severity(fs@.subrange(0, i as int), Severity::Warning),
            n == count_severity(fs@.subrange(0, i as int), Severity::Info),
        decreases fs.len() - i,
    {
        let ghost pre = fs@.subrange(0, i as int);
        let ghost next = fs@.subrange(0, i as int + 1);
        proof {
            assert(next.drop_last() =~= pre);
            lemma_count_severity_bound(pre, Severity::Critical);
            lemma_count_severity_bound(pre, Severity::Error);
            lemma_count_severity_bound(pre, Severity::Warning);
            lemma_count_severity_bound(pre, Severity::Info);
        }
        match fs[i].severity {
            Severity::Critical => c = c + 1,
            Severity::Error => e = e + 1,
            Severity::Warning => w = w + 1,
            Severity::Info => n = n + 1,
        }
        i = i + 1;
    }
    assert(fs@.subrange(0, fs@.len() as int) =~= fs@);
    (c, e, w, n)
}

impl ScanResult {
    pub open spec fn spec_summary(&self) -> ScanSummary {
        ScanSummary {
            findings_total: self.findings@.len() as usize,
            critical: count_severity(self.findings@, Severity::Critical) as usize,
            error: count_severity(self.findings@, Severity::Error) as usize,
            warning: count_severity(self.findings@, Severity::Warning) as usize,
            info: count_severity(self.findings@, Severity::Info) as usize,
            flow_count: self.flow_count,
            subflow_count: self.subflow_count,
            rule_count: self.rule_count,
        }
    }

    /// The result's counts.
    pub fn summary(&self) -> (s: ScanSummary)
        ensures
            s == self.spec_summary(),
            s.findings_total == self.findings@.len(),
            s.critical == count_severity(self.findings@, Severity::Critical),
            s.error == count_severity(self.findings@, Severity::Error),
            s.warning == count_severity(self.findings@, Severity::Warning),
            s.info == count_severity(self.findings@, Severity::Info),
            s.flow_count == self.flow_count,
            s.subflow_count == self.subflow_count,
            s.rule_count == self.rule_count,
    {
        let (c, e, w, n) = severity_counts(self.findings.as_slice());
        ScanSummary {
            findings_total: self.findings.len(),
            critical: c,
            error: e,
            warning: w,
            info: n,
            flow_count: self.flow_count,
            subflow_count: self.subflow_count,
            rule_count: self.rule_count,
        }
    }
}

/// A finished scan as the front-ends receive it.
#[derive(Debug)]
pub struct ScanOutcome {
    pub result: ScanResult,
    pub report_paths: Vec<String>,
    pub artifact_paths: Vec<String>,
    pub threshold_exceeded: bool,
    pub incomplete: bool,
}

/// Output format of a written report.
#[derive(Debug, Clone, Copy, PartialEq, Eq, Structural)]
pub enum ReportFormat {
    Markdown,
    Html,
    Json,
}

impl ReportFormat {
    pub open spec fn spec_name(self) -> Seq<char> {
        match self {
            ReportFormat::Markdown => "Markdown"@,
            ReportFormat::Html => "Html"@,
            ReportFormat::Json => "Json"@,
        }
    }

    /// The variant's name.
    pub fn name(self) -> (s: &'static str)
        ensures
            s@ == self.spec_name(),
    {
        match self {
            ReportFormat::Markdown => "Markdown",
            ReportFormat::Html => "Html",
            ReportFormat::Json => "Json",
        }
    }
}

/// Progress reported while a scan runs.
#[derive(Debug)]
pub enum ScanEvent {
    Started { project: String },
    ConfigLoaded { config_path: String },
    FileDiscovered { path: String },
    RulesLoaded { rule_count: usize },
    XmlParsed { path: String, flows: usize },
    FlowArtifactWritten { flow_id: String, path: String },
    RuleStarted { rule_id: String },
    Finding(Finding),
    RuleCompleted { rule_id: String, findings: usize },
    AiStarted,
    AiCompleted { findings: usize },
    ReportWritten { format: ReportFormat, path: String },
    Warning { diagnostic: Diagnostic },
    Finished { summary: ScanSummary },
}

} // verus!
