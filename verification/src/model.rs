//! The project model shared by the parser, the rule engine, the report
//! renderers and the terminal front-end.

use vstd::prelude::*;
use crate::json::{JsonValue, JsonView};

verus! {

/// Severity of a finding, from least to most severe.
#[derive(Clone, Copy, Debug, PartialEq, Eq, Structural)]
pub enum Severity {
    Info,
    Warning,
    Error,
    Critical,
}

impl Severity {
    pub open spec fn spec_rank(self) -> u8 {
        match self {
            Severity::Info => 0,
            Severity::Warning => 1,
            Severity::Error => 2,
            Severity::Critical => 3,
        }
    }

    /// Numeric rank; a higher rank is more severe.
    pub fn rank(self) -> (r: u8)
        ensures
            r == self.spec_rank(),
    {
        match self {
            Severity::Info => 0,
            Severity::Warning => 1,
            Severity::Error => 2,
            Severity::Critical => 3,
        }
    }

    pub open spec fn spec_as_str(self) -> Seq<char> {
        match self {
            Severity::Info => seq!['i', 'n', 'f', 'o'],
            Severity::Warning => seq!['w', 'a', 'r', 'n', 'i', 'n', 'g'],
            Severity::Error => seq!['e', 'r', 'r', 'o', 'r'],
            Severity::Critical => seq!['c', 'r', 'i', 't', 'i', 'c', 'a', 'l'],
        }
    }

    /// Lower-case wire name.
    pub fn as_str(self) -> (s: &'static str)
        ensures
            s@ == self.spec_as_str(),
    {
        proof {
            reveal_strlit("info");
            reveal_strlit("warning");
            reveal_strlit("error");
            reveal_strlit("critical");
        }
        match self {
            Severity::Info => "info",
            Severity::Warning => "warning",
            Severity::Error => "error",
            Severity::Critical => "critical",
        }
    }
}

/// A location in a source file (1-based lines and columns).
#[derive(Debug)]
pub struct SourceSpan {
    pub file: String,
    pub start_line: u32,
    pub start_column: u32,
    pub end_line: u32,
    pub end_column: u32,
}

impl Clone for SourceSpan {
    fn clone(&self) -> (r: Self)
        ensures
            r == *self,
    {
        SourceSpan {
            file: self.file.clone(),
            start_line: self.start_line,
            start_column: self.start_column,
            end_line: self.end_line,
            end_column: self.end_column,
        }
    }
}

impl SourceSpan {
    /// A span covering a single point.
    pub fn point(file: &str, line: u32, column: u32) -> (s: SourceSpan)
        ensures
            s.file@ == file@,
            s.start_line == line,
            s.start_column == column,
            s.end_line == line,
            s.end_column == column,
    {
        SourceSpan {
            file: file.to_owned(),
            start_line: line,
            start_column: column,
            end_line: line,
            end_column: column,
        }
    }
}

/// Where a finding came from.
#[derive(Clone, Copy, Debug, PartialEq, Eq, Structural)]
pub enum FindingOrigin {
    DeterministicRule,
    ParserDiagnostic,
    AiSuggestion,
}

/// One rule violation.
#[derive(Debug)]
pub struct Finding {
    pub rule_id: String,
    pub severity: Severity,
    pub title: String,
    pub message: String,
    pub recommendation: Option<String>,
    pub entity_id: Option<String>,
    pub source: Option<SourceSpan>,
    pub evidence: JsonValue,
    pub origin: FindingOrigin,
    pub rule_version: Option<String>,
}

/// Mathematical view of a finding: every text as a character sequence.
pub struct FindingView {
    pub rule_id: Seq<char>,
    pub severity: Severity,
    pub title: Seq<char>,
    pub message: Seq<char>,
    pub recommendation: Option<Seq<char>>,
    pub entity_id: Option<Seq<char>>,
    pub source: Option<SpanView>,
    pub evidence: JsonView,
    pub origin: FindingOrigin,
    pub rule_version: Option<Seq<char>>,
}

/// Mathematical view of a [`SourceSpan`].
pub struct SpanView {
    pub file: Seq<char>,
    pub start_line: u32,
    pub start_column: u32,
    pub end_line: u32,
    pub end_column: u32,
}

impl View for SourceSpan {
    type V = SpanView;

    open spec fn view(&self) -> SpanView {
        SpanView {
            file: self.file@,
            start_line: self.start_line,
            start_column: self.start_column,
            end_line: self.end_line,
            end_column: self.end_column,
        }
    }
}

pub open spec fn opt_str_view(o: Option<String>) -> Option<Seq<char>> {
    match o {
        Some(s) => Some(s@),
        None => None,
    }
}

pub open spec fn opt_span_view(o: Option<SourceSpan>) -> Option<SpanView> {
    match o {
        Some(s) => Some(s@),
        None => None,
    }
}

impl View for Finding {
    type V = FindingView;

    open spec fn view(&self) -> FindingView {
        FindingView {
            rule_id: self.rule_id@,
            severity: self.severity,
            title: self.title@,
            message: self.message@,
            recommendation: opt_str_view(self.recommendation),
            entity_id: opt_str_view(self.entity_id),
            source: opt_span_view(self.source),
            evidence: self.evidence@,
            origin: self.origin,
            rule_version: opt_str_view(self.rule_version),
        }
    }
}

pub fn clone_opt_string(o: &Option<String>) -> (r: Option<String>)
    ensures
        r == *o,
{
    match o {
        Some(s) => Some(s.clone()),
        None => None,
    }
}

pub fn clone_opt_span(o: &Option<SourceSpan>) -> (r: Option<SourceSpan>)
    ensures
        r == *o,
{
    match o {
        Some(s) => Some(s.clone()),
        None => None,
    }
}

impl Clone for Finding {
    fn clone(&self) -> (r: Self)
        ensures
            r@ == self@,
    {
        Finding {
            rule_id: self.rule_id.clone(),
            severity: self.severity,
            title: self.title.clone(),
            message: self.message.clone(),
            recommendation: clone_opt_string(&self.recommendation),
            entity_id: clone_opt_string(&self.entity_id),
            source: clone_opt_span(&self.source),
            evidence: self.evidence.copy(),
            origin: self.origin,
            rule_version: clone_opt_string(&self.rule_version),
        }
    }
}

impl Finding {
    /// A deterministic-rule finding with no location, entity or evidence.
    pub fn deterministic(rule_id: &str, severity: Severity, title: &str, message: &str) -> (f:
        Finding)
        ensures
            f@.rule_id == rule_id@,
            f@.severity == severity,
            f@.title == title@,
            f@.message == message@,
            f@.recommendation is None,
            f@.entity_id is None,
            f@.source is None,
            f@.evidence == JsonView::Null,
            f@.origin == FindingOrigin::DeterministicRule,
            f@.rule_version is None,
    {
        Finding {
            rule_id: rule_id.to_owned(),
            severity,
            title: title.to_owned(),
            message: message.to_owned(),
            recommendation: None,
            entity_id: None,
            source: None,
            evidence: JsonValue::Null,
            origin: FindingOrigin::DeterministicRule,
            rule_version: None,
        }
    }

    /// The same finding located at `span`.
    pub fn with_source(self, span: SourceSpan) -> (f: Finding)
        ensures
            f@ == (FindingView { source: Some(span@), ..self@ }),
    {
        Finding { source: Some(span), ..self }
    }
}

/// Pipeline stage that produced a diagnostic.
#[derive(Clone, Copy, Debug, PartialEq, Eq, Structural)]
pub enum DiagnosticStage {
    FileSystem,
    Config,
    Xml,
    Mule,
    Rule,
    Ai,
    Report,
}

impl DiagnosticStage {
    pub open spec fn spec_name(self) -> Seq<char> {
        match self {
            DiagnosticStage::FileSystem => seq!['F', 'i', 'l', 'e', 'S', 'y', 's', 't', 'e', 'm'],
            DiagnosticStage::Config => seq!['C', 'o', 'n', 'f', 'i', 'g'],
            DiagnosticStage::Xml => seq!['X', 'm', 'l'],
            DiagnosticStage::Mule => seq!['M', 'u', 'l', 'e'],
            DiagnosticStage::Rule => seq!['R', 'u', 'l', 'e'],
            DiagnosticStage::Ai => seq!['A', 'i'],
            DiagnosticStage::Report => seq!['R', 'e', 'p', 'o', 'r', 't'],
        }
    }

    /// The stage's name as reports print it.
    pub fn name(self) -> (s: &'static str)
        ensures
            s@ == self.spec_name(),
    {
        proof {
            reveal_strlit("FileSystem");
            reveal_strlit("Config");
            reveal_strlit("Xml");
            reveal_strlit("Mule");
            reveal_strlit("Rule");
            reveal_strlit("Ai");
            reveal_strlit("Report");
        }
        match self {
            DiagnosticStage::FileSystem => "FileSystem",
            DiagnosticStage::Config => "Config",
            DiagnosticStage::Xml => "Xml",
            DiagnosticStage::Mule => "Mule",
            DiagnosticStage::Rule => "Rule",
            DiagnosticStage::Ai => "Ai",
            DiagnosticStage::Report => "Report",
        }
    }
}

/// Severity of a diagnostic.
#[derive(Clone, Copy, Debug, PartialEq, Eq, Structural)]
pub enum DiagnosticLevel {
    Info,
    Warning,
    Error,
}

/// A non-fatal problem met while scanning.
#[derive(Debug)]
pub struct Diagnostic {
    pub stage: DiagnosticStage,
    pub code: String,
    pub level: DiagnosticLevel,
    pub message: String,
}

impl Clone for Diagnostic {
    fn clone(&self) -> (r: Self)
        ensures
            r == *self,
    {
        Diagnostic {
            stage: self.stage,
            code: self.code.clone(),
            level: self.level,
            message: self.message.clone(),
        }
    }
}

impl Diagnostic {
    pub fn new(stage: DiagnosticStage, code: &str, level: DiagnosticLevel, message: String) -> (d:
        Diagnostic)
        ensures
            d.stage == stage,
            d.code@ == code@,
            d.level == level,
            d.message == message,
    {
        Diagnostic { stage, code: code.to_owned(), level, message }
    }
}

/// Kind of a discovered source file.
#[derive(Clone, Copy, Debug, PartialEq, Eq, Structural)]
pub enum SourceFileKind {
    MuleXml,
    Pom,
    Properties,
    Yaml,
    DataWeave,
    Json,
    Other,
}

impl SourceFileKind {
    pub open spec fn spec_label(self) -> Seq<char> {
        match self {
            SourceFileKind::MuleXml => seq!['m', 'u', 'l', 'e', '-', 'x', 'm', 'l'],
            SourceFileKind::Pom => seq!['p', 'o', 'm'],
            SourceFileKind::Properties => seq!['p', 'r', 'o', 'p', 'e', 'r', 't', 'i', 'e', 's'],
            SourceFileKind::Yaml => seq!['y', 'a', 'm', 'l'],
            SourceFileKind::DataWeave => seq!['d', 'a', 't', 'a', 'w', 'e', 'a', 'v', 'e'],
            SourceFileKind::Json => seq!['j', 's', 'o', 'n'],
            SourceFileKind::Other => seq!['o', 't', 'h', 'e', 'r'],
        }
    }

    pub fn label(self) -> (s: &'static str)
        ensures
            s@ == self.spec_label(),
    {
        proof {
            reveal_strlit("mule-xml");
            reveal_strlit("pom");
            reveal_strlit("properties");
            reveal_strlit("yaml");
            reveal_strlit("dataweave");
            reveal_strlit("json");
            reveal_strlit("other");
        }
        match self {
            SourceFileKind::MuleXml => "mule-xml",
            SourceFileKind::Pom => "pom",
            SourceFileKind::Properties => "properties",
            SourceFileKind::Yaml => "yaml",
            SourceFileKind::DataWeave => "dataweave",
            SourceFileKind::Json => "json",
            SourceFileKind::Other => "other",
        }
    }
}

/// A file of the project, by its path relative to the project root.
#[derive(Debug)]
pub struct SourceFile {
    pub path: String,
    pub size_bytes: u64,
    pub is_text: bool,
    pub kind: SourceFileKind,
}

impl Clone for SourceFile {
    fn clone(&self) -> (r: Self)
        ensures
            r == *self,
    {
        SourceFile {
            path: self.path.clone(),
            size_bytes: self.size_bytes,
            is_text: self.is_text,
            kind: self.kind,
        }
    }
}

impl SourceFile {
    pub fn new(path: &str, size_bytes: u64, kind: SourceFileKind) -> (f: SourceFile)
        ensures
            f.path@ == path@,
            f.size_bytes == size_bytes,
            f.is_text,
            f.kind == kind,
    {
        SourceFile { path: path.to_owned(), size_bytes, is_text: true, kind }
    }
}

/// One XML element of a Mule configuration. `attributes` holds each key
/// once, in ascending key order.
#[derive(Debug)]
pub struct MuleComponent {
    pub id: String,
    pub qualified_name: String,
    pub local_name: String,
    pub namespace_uri: Option<String>,
    pub attributes: Vec<(String, String)>,
    pub text: Option<String>,
    pub cdata: Vec<String>,
    pub children: Vec<MuleComponent>,
    pub source: SourceSpan,
}

/// Mathematical view of a [`MuleComponent`].
pub struct ComponentView {
    pub id: Seq<char>,
    pub qualified_name: Seq<char>,
    pub local_name: Seq<char>,
    pub namespace_uri: Option<Seq<char>>,
    pub attributes: Seq<(Seq<char>, Seq<char>)>,
    pub text: Option<Seq<char>>,
    pub cdata: Seq<Seq<char>>,
    pub children: Seq<ComponentView>,
    pub source: SpanView,
}

pub open spec fn pair_views(a: Seq<(String, String)>) -> Seq<(Seq<char>, Seq<char>)> {
    a.map_values(|p: (String, String)| (p.0@, p.1@))
}

pub open spec fn text_views(a: Seq<String>) -> Seq<Seq<char>> {
    a.map_values(|s: String| s@)
}

pub open spec fn component_view(c: MuleComponent) -> ComponentView
    decreases c,
{
    proof {
        assert(decreases_to!(c => c.children));
        assert(decreases_to!(c.children => c.children@));
    }
    ComponentView {
        id: c.id@,
        qualified_name: c.qualified_name@,
        local_name: c.local_name@,
        namespace_uri: opt_str_view(c.namespace_uri),
        attributes: pair_views(c.attributes@),
        text: opt_str_view(c.text),
        cdata: text_views(c.cdata@),
        children: component_views(c.children@),
        source: c.source@,
    }
}

pub open spec fn component_views(cs: Seq<MuleComponent>) -> Seq<ComponentView>
    decreases cs,
{
    if cs.len() == 0 {
        Seq::empty()
    } else {
        component_views(cs.drop_last()).push(component_view(cs.last()))
    }
}

impl View for MuleComponent {
    type V = ComponentView;

    open spec fn view(&self) -> ComponentView {
        component_view(*self)
    }
}

pub proof fn lemma_component_views_len(cs: Seq<MuleComponent>)
    ensures
        component_views(cs).len() == cs.len(),
    decreases cs.len(),
{
    if cs.len() > 0 {
        lemma_component_views_len(cs.drop_last());
    }
}

pub proof fn lemma_component_views_index(cs: Seq<MuleComponent>, k: int)
    requires
        0 <= k < cs.len(),
    ensures
        component_views(cs).len() == cs.len(),
        component_views(cs)[k] == component_view(cs[k]),
    decreases cs.len(),
{
    lemma_component_views_len(cs);
    if k < cs.len() - 1 {
        lemma_component_views_index(cs.drop_last(), k);
    }
}

/// Views of a list with one more item at the end.
pub proof fn lemma_component_views_push(cs: Seq<MuleComponent>, c: MuleComponent)
    ensures
        component_views(cs.push(c)) == component_views(cs).push(component_view(c)),
{
    assert(cs.push(c).drop_last() =~= cs);
}

/// `flow` or `sub-flow`.
#[derive(Clone, Copy, Debug, PartialEq, Eq, Structural)]
pub enum MuleFlowKind {
    Flow,
    SubFlow,
}

impl MuleFlowKind {
    pub open spec fn spec_as_str(self) -> Seq<char> {
        match self {
            MuleFlowKind::Flow => seq!['f', 'l', 'o', 'w'],
            MuleFlowKind::SubFlow => seq!['s', 'u', 'b', '-', 'f', 'l', 'o', 'w'],
        }
    }

    pub fn as_str(self) -> (s: &'static str)
        ensures
            s@ == self.spec_as_str(),
    {
        proof {
            reveal_strlit("flow");
            reveal_strlit("sub-flow");
        }
        match self {
            MuleFlowKind::Flow => "flow",
            MuleFlowKind::SubFlow => "sub-flow",
        }
    }
}

/// A `flow-ref` found in a flow.
#[derive(Debug)]
pub struct FlowRef {
    pub target: String,
    pub resolved: bool,
    pub source: SourceSpan,
}

/// A DataWeave script embedded as CDATA.
#[derive(Debug)]
pub struct DataWeaveBlock {
    pub language: String,
    pub version: Option<String>,
    pub content_hash: String,
    pub content: String,
    pub source: SourceSpan,
}

/// Facts computed once per flow for the rule engine.
#[derive(Debug)]
pub struct FlowFacts {
    pub component_count: usize,
    pub max_component_depth: usize,
    pub has_local_error_handler: bool,
    pub has_effective_error_handler: bool,
    pub flow_refs: Vec<FlowRef>,
    pub property_refs: Vec<String>,
    pub source_component: Option<String>,
    pub dataweave_blocks: Vec<DataWeaveBlock>,
}

impl FlowFacts {
    pub fn empty() -> (f: FlowFacts)
        ensures
            f.component_count == 0,
            f.max_component_depth == 0,
            !f.has_local_error_handler,
            !f.has_effective_error_handler,
            f.flow_refs@.len() == 0,
            f.property_refs@.len() == 0,
            f.source_component is None,
            f.dataweave_blocks@.len() == 0,
    {
        FlowFacts {
            component_count: 0,
            max_component_depth: 0,
            has_local_error_handler: false,
            has_effective_error_handler: false,
            flow_refs: Vec::new(),
            property_refs: Vec::new(),
            source_component: None,
            dataweave_blocks: Vec::new(),
        }
    }
}

/// A `flow` or `sub-flow` with its component tree (one root component,
/// the flow element itself) and its facts.
#[derive(Debug)]
pub struct MuleFlow {
    pub schema_version: String,
    pub id: String,
    pub project_id: String,
    pub kind: MuleFlowKind,
    pub name: String,
    pub source: SourceSpan,
    pub attributes: Vec<(String, String)>,
    pub components: Vec<MuleComponent>,
    pub facts: FlowFacts,
    pub source_xml_sha256: String,
}

/// A named top-level configuration element.
#[derive(Debug)]
pub struct GlobalConfigIndex {
    pub qualified_name: String,
    pub name: String,
    pub source: SourceSpan,
}

impl Clone for GlobalConfigIndex {
    fn clone(&self) -> (r: Self)
        ensures
            r == *self,
    {
        GlobalConfigIndex {
            qualified_name: self.qualified_name.clone(),
            name: self.name.clone(),
            source: self.source.clone(),
        }
    }
}

/// One parsed Mule XML file.
#[derive(Debug)]
pub struct MuleDocument {
    pub schema_version: String,
    pub id: String,
    pub project_id: String,
    pub source: SourceSpan,
    pub flows: Vec<MuleFlow>,
    pub sub_flows: Vec<MuleFlow>,
    pub global_configurations: Vec<GlobalConfigIndex>,
}

/// Project metadata and file list.
#[derive(Debug)]
pub struct ProjectDescriptor {
    pub schema_version: String,
    pub id: String,
    pub name: String,
    pub group_id: Option<String>,
    pub artifact_id: Option<String>,
    pub version: Option<String>,
    pub mule_version: Option<String>,
    pub sdk_version: Option<String>,
    pub root_path: String,
    pub files: Vec<SourceFile>,
    pub required_files_missing: Vec<String>,
}

/// Where a flow or sub-flow is defined.
#[derive(Debug)]
pub struct FlowIndexEntry {
    pub name: String,
    pub document_id: String,
    pub flow_id: String,
    pub kind: MuleFlowKind,
    pub source: SourceSpan,
}

/// A `flow-ref` whose target names no flow or sub-flow of the project.
#[derive(Debug)]
pub struct UnresolvedFlowRef {
    pub target: String,
    pub referenced_from: FlowIndexEntry,
    pub source: SourceSpan,
}

/// Project-wide index built after parsing.
#[derive(Debug)]
pub struct ProjectIndex {
    pub flows: Vec<FlowIndexEntry>,
    pub sub_flows: Vec<FlowIndexEntry>,
    pub global_configurations: Vec<GlobalConfigIndex>,
    pub unresolved_flow_refs: Vec<UnresolvedFlowRef>,
}

impl ProjectIndex {
    pub fn empty() -> (i: ProjectIndex)
        ensures
            i.flows@.len() == 0,
            i.sub_flows@.len() == 0,
            i.global_configurations@.len() == 0,
            i.unresolved_flow_refs@.len() == 0,
    {
        ProjectIndex {
            flows: Vec::new(),
            sub_flows: Vec::new(),
            global_configurations: Vec::new(),
            unresolved_flow_refs: Vec::new(),
        }
    }
}

/// The whole parsed project.
#[derive(Debug)]
pub struct ParsedProject {
    pub schema_version: String,
    pub project: ProjectDescriptor,
    pub documents: Vec<MuleDocument>,
    pub index: ProjectIndex,
}

/// The schema version every produced document carries.
pub fn current_schema_version() -> (s: &'static str)
    ensures
        s@ == seq!['1', '.', '0'],
{
    proof {
        reveal_strlit("1.0");
    }
    "1.0"
}

/// The views of a sequence of findings.
pub open spec fn finding_views(fs: Seq<Finding>) -> Seq<FindingView> {
    fs.map_values(|f: Finding| f@)
}

fn opt_str_eq(a: &Option<String>, b: &Option<String>) -> (r: bool)
    ensures
        r == (opt_str_view(*a) == opt_str_view(*b)),
{
    match (a, b) {
        (Some(x), Some(y)) => crate::text::str_eq(x.as_str(), y.as_str()),
        (None, None) => true,
        _ => false,
    }
}

fn opt_span_eq(a: &Option<SourceSpan>, b: &Option<SourceSpan>) -> (r: bool)
    ensures
        r == (opt_span_view(*a) == opt_span_view(*b)),
{
    match (a, b) {
        (Some(x), Some(y)) => crate::text::str_eq(x.file.as_str(), y.file.as_str()) && x.start_line == y.start_line
            && x.start_column == y.start_column && x.end_line == y.end_line && x.end_column == y.end_column,
        (None, None) => true,
        _ => false,
    }
}

/// Whether two findings hold the same values.
pub fn finding_eq(a: &Finding, b: &Finding) -> (r: bool)
    ensures
        r == (a@ == b@),
{
    crate::text::str_eq(a.rule_id.as_str(), b.rule_id.as_str()) && a.severity == b.severity && crate::text::str_eq(
        a.title.as_str(),
        b.title.as_str(),
    ) && crate::text::str_eq(a.message.as_str(), b.message.as_str()) && opt_str_eq(&a.recommendation, &b.recommendation)
        && opt_str_eq(&a.entity_id, &b.entity_id) && opt_span_eq(&a.source, &b.source) && crate::json::json_eq(
        &a.evidence,
        &b.evidence,
    ) && a.origin == b.origin && opt_str_eq(&a.rule_version, &b.rule_version)
}

/// Whether two lists of findings hold the same values in the same order.
pub fn findings_eq(a: &[Finding], b: &[Finding]) -> (r: bool)
    ensures
        r == (finding_views(a@) == finding_views(b@)),
{
    if a.len() != b.len() {
        assert(finding_views(a@).len() != finding_views(b@).len());
        return false;
    }
    let mut i: usize = 0;
    while i < a.len()
        invariant
            i <= a@.len(),
            a@.len() == b@.len(),
            forall|k: int| 0 <= k < i ==> (#[trigger] a@[k])@ == b@[k]@,
        decreases a.len() - i,
    {
        if !finding_eq(&a[i], &b[i]) {
            assert(finding_views(a@)[i as int] != finding_views(b@)[i as int]);
            return false;
        }
        i = i + 1;
    }
    assert(finding_views(a@) =~= finding_views(b@));
    true
}

/// A copy of every finding of `fs`, in order.
pub fn clone_findings(fs: &[Finding]) -> (r: Vec<Finding>)
    ensures
        finding_views(r@) == finding_views(fs@),
{
    let mut out: Vec<Finding> = Vec::new();
    let mut i: usize = 0;
    while i < fs.len()
        invariant
            i <= fs.len(),
            out@.len() == i,
            forall|k: int| 0 <= k < i ==> (#[trigger] out@[k])@ == fs@[k]@,
        decreases fs.len() - i,
    {
        out.push(fs[i].clone());
        i = i + 1;
    }
    assert(finding_views(out@) =~= finding_views(fs@));
    out
}

/// A copy of every diagnostic of `ds`, in order.
pub fn clone_diagnostics(ds: &[Diagnostic]) -> (r: Vec<Diagnostic>)
    ensures
        r@ == ds@,
{
    let mut out: Vec<Diagnostic> = Vec::new();
    let mut i: usize = 0;
    while i < ds.len()
        invariant
            i <= ds.len(),
            out@ == ds@.subrange(0, i as int),
        decreases ds.len() - i,
    {
        out.push(ds[i].clone());
        i = i + 1;
        assert(out@ =~= ds@.subrange(0, i as int));
    }
    assert(ds@.subrange(0, ds@.len() as int) =~= ds@);
    out
}

/// A copy of every string of `ss`, in order.
pub fn clone_texts(ss: &[String]) -> (r: Vec<String>)
    ensures
        r@ == ss@,
{
    let mut out: Vec<String> = Vec::new();
    let mut i: usize = 0;
    while i < ss.len()
        invariant
            i <= ss.len(),
            out@ == ss@.subrange(0, i as int),
        decreases ss.len() - i,
    {
        out.push(ss[i].clone());
        i = i + 1;
        assert(out@ =~= ss@.subrange(0, i as int));
    }
    assert(ss@.subrange(0, ss@.len() as int) =~= ss@);
    out
}

} // verus!
