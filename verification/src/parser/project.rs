//! Parsing a whole project: every Mule XML file becomes a document or a
//! diagnostic, flow references are resolved against the project's flow
//! names, and the index and the project descriptor are built.

use vstd::prelude::*;
use crate::model::{
    component_views, current_schema_version, lemma_component_views_index,
    lemma_component_views_len, Diagnostic, DiagnosticLevel, DiagnosticStage, FlowFacts, FlowRef,
    MuleComponent, MuleDocument, MuleFlow, ParsedProject, ProjectDescriptor, SourceFile,
    SourceFileKind, SourceSpan,
};
use crate::parser::digest::{digest_of_text, hex_lower, hex_text, sha256_digest};
use crate::parser::document::{build_document, document_built, problem_is, run};
use crate::parser::index::build as build_index;
use crate::parser::reader::{decode_text, tokenize, utf8_error_text, xml_tokens};
use crate::parser::reference::{collect_known_names, known_names, mark_resolved_in_flow, mark_trees};
use crate::text::{decimal, push_str, push_u64};

verus! {

/// Size and depth limits of a scan.
#[derive(Debug)]
pub struct Limits {
    pub max_file_bytes: u64,
    pub max_xml_depth: usize,
    pub max_project_files: usize,
}

impl Default for Limits {
    fn default() -> (l: Self)
        ensures
            l.max_file_bytes == 10485760,
            l.max_xml_depth == 32,
            l.max_project_files == 5000,
    {
        Limits { max_file_bytes: 10485760, max_xml_depth: 32, max_project_files: 5000 }
    }
}

impl Clone for Limits {
    fn clone(&self) -> (r: Self)
        ensures
            r == *self,
    {
        Limits {
            max_file_bytes: self.max_file_bytes,
            max_xml_depth: self.max_xml_depth,
            max_project_files: self.max_project_files,
        }
    }
}

/// How a project is parsed.
#[derive(Debug)]
pub struct ParseOptions {
    pub limits: Limits,
    pub continue_on_parse_error: bool,
}

impl Default for ParseOptions {
    fn default() -> (o: Self)
        ensures
            o.limits.max_file_bytes == 10485760,
            o.limits.max_xml_depth == 32,
            o.limits.max_project_files == 5000,
            o.continue_on_parse_error,
    {
        ParseOptions { limits: Limits::default(), continue_on_parse_error: true }
    }
}

/// Why a project could not be parsed at all.
#[derive(Debug, PartialEq, Eq, Structural)]
pub enum ParseError {
    NoXml,
    TooManyFailures { count: usize },
}

impl ParseError {
    pub open spec fn display(self) -> Seq<char> {
        match self {
            ParseError::NoXml => "project has no XML to parse"@,
            ParseError::TooManyFailures { count } => "too many parse failures: "@ + decimal(count as nat),
        }
    }

    /// The error's display text.
    pub fn to_text(&self) -> (s: String)
        ensures
            s@ == self.display(),
    {
        let mut s = String::new();
        match self {
            ParseError::NoXml => push_str(&mut s, "project has no XML to parse"),
            ParseError::TooManyFailures { count } => {
                push_str(&mut s, "too many parse failures: ");
                push_u64(&mut s, *count as u64);
            },
        }
        s
    }
}

/// The parsed project and the diagnostics of the files that could not be parsed.
#[derive(Debug)]
pub struct ParsedOutcome {
    pub project: ParsedProject,
    pub diagnostics: Vec<Diagnostic>,
}

/// The files of a project: its root directory and each file relative to it.
#[derive(Debug)]
pub struct ProjectFiles {
    pub root: String,
    pub files: Vec<SourceFile>,
}

/// What was read of a file: its bytes, or the diagnostic of the failure.
#[derive(Debug)]
pub enum FileContent {
    Bytes(Vec<u8>),
    Unreadable(Diagnostic),
    NotRead,
}

/// A parser of projects.
pub trait MuleParser {
    fn parse_project(
        &self,
        files: &ProjectFiles,
        contents: &Vec<FileContent>,
        options: &ParseOptions,
    ) -> Result<ParsedOutcome, ParseError>;
}

/// The diagnostic of a file that could not be read.
pub fn diagnostic_io(relative: &str, error: &str) -> (d: Diagnostic)
    ensures
        d.stage == DiagnosticStage::FileSystem,
        d.level == DiagnosticLevel::Error,
        d.code@ == "FS-002"@,
        d.message@ == "Failed to read "@ + relative@ + ": "@ + error@,
{
    let mut m = String::new();
    push_str(&mut m, "Failed to read ");
    push_str(&mut m, relative);
    push_str(&mut m, ": ");
    push_str(&mut m, error);
    Diagnostic::new(DiagnosticStage::FileSystem, "FS-002", DiagnosticLevel::Error, m)
}

/// The diagnostic of a source path that leads outside the project root.
pub fn path_escape_diagnostic(joined: &str) -> (d: Diagnostic)
    ensures
        d.stage == DiagnosticStage::Mule,
        d.level == DiagnosticLevel::Error,
        d.code@ == "MULE-005"@,
        d.message@ == "Source file path escapes project root: "@ + joined@,
{
    let mut m = String::new();
    push_str(&mut m, "Source file path escapes project root: ");
    push_str(&mut m, joined);
    Diagnostic::new(DiagnosticStage::Mule, "MULE-005", DiagnosticLevel::Error, m)
}

pub open spec fn oversize_message(len: nat, max: nat, relative: Seq<char>) -> Seq<char> {
    "File exceeds max_file_bytes ("@ + decimal(len) + " > "@ + decimal(max) + ") in "@ + relative
}


/// What parsing the bytes of one file gives: the size limit is checked
/// first, then UTF-8; then the document is built from the tokens of the
/// text, or the first problem found on the way (a tag nested too deep, or
/// a syntax error) is reported.
pub open spec fn read_outcome(bytes: Seq<u8>, relative: Seq<char>, opts: ParseOptions, r: Result<MuleDocument, Diagnostic>) -> bool {
    if bytes.len() > opts.limits.max_file_bytes {
        r matches Err(d) && d.stage == DiagnosticStage::Xml && d.level == DiagnosticLevel::Error && d.code@
            == "XML-001"@ && d.message@ == oversize_message(bytes.len(), opts.limits.max_file_bytes as nat, relative)
    } else if !vstd::utf8::valid_utf8(bytes) {
        r matches Err(d) && d.stage == DiagnosticStage::Xml && d.level == DiagnosticLevel::Error && d.code@
            == "XML-003"@ && d.message@ == "File is not valid UTF-8: "@ + utf8_error_text(bytes)
    } else {
        match run(xml_tokens(vstd::utf8::decode_utf8(bytes)), bytes, relative, opts.limits.max_xml_depth as nat) {
            Err(p) => r matches Err(d) && problem_is(d, p),
            Ok((st, _)) => r matches Ok(doc) && document_built(doc, st.tree, relative),
        }
    }
}

/// The largest input the builder's position arithmetic is sized for.
pub open spec fn max_input_len() -> nat {
    0x4000_0000_0000_0000
}

/// Parses the bytes of one Mule XML file named `relative`.
pub fn read_and_parse(bytes: &[u8], relative: &str, options: &ParseOptions) -> (r: Result<MuleDocument, Diagnostic>)
    requires
        bytes@.len() < max_input_len(),
    ensures
        read_outcome(bytes@, relative@, *options, r),
{
    let len = bytes.len();
    if len as u64 > options.limits.max_file_bytes {
        let mut m = String::new();
        push_str(&mut m, "File exceeds max_file_bytes (");
        push_u64(&mut m, len as u64);
        push_str(&mut m, " > ");
        push_u64(&mut m, options.limits.max_file_bytes);
        push_str(&mut m, ") in ");
        push_str(&mut m, relative);
        return Err(Diagnostic::new(DiagnosticStage::Xml, "XML-001", DiagnosticLevel::Error, m));
    }
    let text = match decode_text(bytes) {
        Ok(t) => t,
        Err(e) => {
            let mut m = String::new();
            push_str(&mut m, "File is not valid UTF-8: ");
            push_str(&mut m, e.as_str());
            return Err(Diagnostic::new(DiagnosticStage::Xml, "XML-003", DiagnosticLevel::Error, m));
        },
    };
    let items = tokenize(text.as_str());
    proof {
        vstd::utf8::decode_utf8_encode_utf8(bytes@);
    }
    build_document(&items, bytes, relative, options.limits.max_xml_depth)
}

/// `f` is `f0` with its references marked against `known`.
pub open spec fn flow_resolved(f0: MuleFlow, f: MuleFlow, known: Seq<Seq<char>>) -> bool {
    &&& f.facts.flow_refs@ == mark_trees(f0.facts.flow_refs@, component_views(f0.components@), known)
    &&& f.schema_version == f0.schema_version
    &&& f.id == f0.id
    &&& f.project_id == f0.project_id
    &&& f.kind == f0.kind
    &&& f.name == f0.name
    &&& f.source == f0.source
    &&& f.attributes == f0.attributes
    &&& f.components == f0.components
    &&& f.source_xml_sha256 == f0.source_xml_sha256
    &&& f.facts.component_count == f0.facts.component_count
    &&& f.facts.max_component_depth == f0.facts.max_component_depth
    &&& f.facts.has_local_error_handler == f0.facts.has_local_error_handler
    &&& f.facts.has_effective_error_handler == f0.facts.has_effective_error_handler
    &&& f.facts.property_refs == f0.facts.property_refs
    &&& f.facts.source_component == f0.facts.source_component
    &&& f.facts.dataweave_blocks == f0.facts.dataweave_blocks
}

pub open spec fn flows_resolved(fs0: Seq<MuleFlow>, fs: Seq<MuleFlow>, known: Seq<Seq<char>>) -> bool {
    fs.len() == fs0.len() && forall|i: int| 0 <= i < fs.len() ==> flow_resolved(#[trigger] fs0[i], fs[i], known)
}

/// `d` is `d0` with the references of its flows and sub-flows marked.
pub open spec fn document_resolved(d0: MuleDocument, d: MuleDocument, known: Seq<Seq<char>>) -> bool {
    &&& flows_resolved(d0.flows@, d.flows@, known)
    &&& flows_resolved(d0.sub_flows@, d.sub_flows@, known)
    &&& d.schema_version == d0.schema_version
    &&& d.id == d0.id
    &&& d.project_id == d0.project_id
    &&& d.source == d0.source
    &&& d.global_configurations == d0.global_configurations
}

pub open spec fn documents_resolved(ds0: Seq<MuleDocument>, ds: Seq<MuleDocument>, known: Seq<Seq<char>>) -> bool {
    ds.len() == ds0.len() && forall|i: int| 0 <= i < ds.len() ==> document_resolved(#[trigger] ds0[i], ds[i], known)
}

/// Marks the references of one flow against the known names.
fn resolve_flow(f: MuleFlow, known: &Vec<String>) -> (r: MuleFlow)
    ensures
        flow_resolved(f, r, known@.map_values(|s: String| s@)),
{
    let ghost f0 = f;
    let ghost kv = known@.map_values(|s: String| s@);
    let mut f = f;
    let mut refs: Vec<FlowRef> = Vec::new();
    std::mem::swap(&mut refs, &mut f.facts.flow_refs);
    let ghost cv = component_views(f.components@);
    proof {
        lemma_component_views_len(f.components@);
    }
    let mut i: usize = 0;
    while i < f.components.len()
        invariant
            i <= f.components@.len(),
            f.components == f0.components,
            cv == component_views(f0.components@),
            cv.len() == f0.components@.len(),
            kv == known@.map_values(|s: String| s@),
            refs@ == mark_trees(f0.facts.flow_refs@, cv.subrange(0, i as int), kv),
        decreases f.components.len() - i,
    {
        proof {
            lemma_component_views_index(f.components@, i as int);
        }
        mark_resolved_in_flow(&f.components[i], &mut refs, known);
        proof {
            let next = cv.subrange(0, i + 1);
            assert(next.drop_last() =~= cv.subrange(0, i as int));
        }
        i = i + 1;
    }
    assert(cv.subrange(0, cv.len() as int) =~= cv);
    f.facts.flow_refs = refs;
    f
}

fn resolve_flows(fs: Vec<MuleFlow>, known: &Vec<String>) -> (r: Vec<MuleFlow>)
    ensures
        flows_resolved(fs@, r@, known@.map_values(|s: String| s@)),
{
    let ghost all = fs@;
    let mut rest = fs;
    let mut out: Vec<MuleFlow> = Vec::new();
    let total = rest.len();
    let mut k: usize = 0;
    while rest.len() > 0
        invariant
            k <= all.len(),
            all.len() == total,
            rest@ == all.subrange(k as int, all.len() as int),
            flows_resolved(all.subrange(0, k as int), out@, known@.map_values(|s: String| s@)),
        decreases rest.len(),
    {
        let f = rest.remove(0);
        assert(f == all[k as int]);
        let g = resolve_flow(f, known);
        let ghost before = out@;
        out.push(g);
        proof {
            assert forall|i: int| 0 <= i < out@.len() implies flow_resolved(#[trigger] all.subrange(0, k + 1)[i], out@[i], known@.map_values(|s: String| s@)) by {
                if i < k {
                    assert(out@[i] == before[i]);
                    assert(all.subrange(0, k + 1)[i] == all.subrange(0, k as int)[i]);
                }
            }
            assert(rest@ =~= all.subrange(k + 1, all.len() as int));
        }
        k = k + 1;
    }
    assert(all.subrange(0, k as int) =~= all);
    out
}

/// Marks every `flow-ref` of every document against the names of all
/// flows and sub-flows of the documents.
pub fn resolve_references(documents: Vec<MuleDocument>) -> (r: Vec<MuleDocument>)
    ensures
        documents_resolved(documents@, r@, known_names(documents@)),
{
    let known = collect_known_names(documents.as_slice());
    let ghost all = documents@;
    let mut rest = documents;
    let mut out: Vec<MuleDocument> = Vec::new();
    let total = rest.len();
    let mut k: usize = 0;
    while rest.len() > 0
        invariant
            k <= all.len(),
            all.len() == total,
            rest@ == all.subrange(k as int, all.len() as int),
            known@.map_values(|s: String| s@) == known_names(all),
            documents_resolved(all.subrange(0, k as int), out@, known_names(all)),
        decreases rest.len(),
    {
        let mut d = rest.remove(0);
        assert(d == all[k as int]);
        let ghost d0 = d;
        let mut flows: Vec<MuleFlow> = Vec::new();
        std::mem::swap(&mut flows, &mut d.flows);
        d.flows = resolve_flows(flows, &known);
        let mut subs: Vec<MuleFlow> = Vec::new();
        std::mem::swap(&mut subs, &mut d.sub_flows);
        d.sub_flows = resolve_flows(subs, &known);
        assert(document_resolved(d0, d, known_names(all)));
        let ghost before = out@;
        out.push(d);
        proof {
            assert forall|i: int| 0 <= i < out@.len() implies document_resolved(#[trigger] all.subrange(0, k + 1)[i], out@[i], known_names(all)) by {
                if i < k {
                    assert(out@[i] == before[i]);
                    assert(all.subrange(0, k + 1)[i] == all.subrange(0, k as int)[i]);
                }
            }
            assert(rest@ =~= all.subrange(k + 1, all.len() as int));
        }
        k = k + 1;
    }
    assert(all.subrange(0, k as int) =~= all);
    out
}

/// The file name of a path as `std::path::Path::file_name` finds it,
/// lossily converted to text; `None` when the path has none.
pub uninterp spec fn path_file_name(path: Seq<char>) -> Option<Seq<char>>;

/// Calls `std::path::Path::new(path).file_name()`; claims the result is
/// `path_file_name(path)`, a function of the path for any one build
/// (the platform fixes which characters separate path components).
#[verifier::external_body]
fn file_name_of(path: &str) -> (r: Option<String>)
    ensures
        match r {
            Some(s) => path_file_name(path@) == Some(s@),
            None => path_file_name(path@) is None,
        },
{
    std::path::Path::new(path).file_name().map(|s| s.to_string_lossy().to_string())
}

/// The first six bytes of the SHA-256 of `text`, in hexadecimal.
pub open spec fn spec_sha_short(text: Seq<char>) -> Seq<char> {
    hex_text(sha256_digest(vstd::utf8::encode_utf8(text)).subrange(0, 6))
}

pub fn sha_short(text: &str) -> (s: String)
    ensures
        s@ == spec_sha_short(text@),
{
    let digest = digest_of_text(text);
    hex_lower(&digest.as_slice()[0..6])
}

/// The project descriptor: an id from the root's hash, the root's file
/// name (or `project`), and the files.
pub fn build_project_descriptor(files: &ProjectFiles, documents: &[MuleDocument]) -> (p: ProjectDescriptor)
    ensures
        p.schema_version@ == seq!['1', '.', '0'],
        p.id@ == "project:"@ + spec_sha_short(files.root@),
        p.name@ == match path_file_name(files.root@) {
            Some(n) => n,
            None => "project"@,
        },
        p.group_id is None,
        p.artifact_id is None,
        p.version is None,
        p.mule_version is None,
        p.sdk_version is None,
        p.root_path@ == files.root@,
        p.files@ == files.files@,
        p.required_files_missing@.len() == 0,
{
    let mut id = String::new();
    push_str(&mut id, "project:");
    let short = sha_short(files.root.as_str());
    push_str(&mut id, short.as_str());
    let name = match file_name_of(files.root.as_str()) {
        Some(n) => n,
        None => "project".to_owned(),
    };
    let mut sources: Vec<SourceFile> = Vec::new();
    let mut i: usize = 0;
    while i < files.files.len()
        invariant
            i <= files.files@.len(),
            sources@ == files.files@.subrange(0, i as int),
        decreases files.files.len() - i,
    {
        sources.push(files.files[i].clone());
        assert(sources@ =~= files.files@.subrange(0, i + 1));
        i = i + 1;
    }
    assert(sources@ =~= files.files@);
    ProjectDescriptor {
        schema_version: current_schema_version().to_owned(),
        id,
        name,
        group_id: None,
        artifact_id: None,
        version: None,
        mule_version: None,
        sdk_version: None,
        root_path: files.root.clone(),
        files: sources,
        required_files_missing: Vec::new(),
    }
}

/// What became of one file of the project.
pub enum FileOutcome {
    Skipped,
    Parsed(MuleDocument),
    Failed(Diagnostic),
}

/// `out` is a possible outcome of `file` with `content`: files other than
/// Mule XML are skipped; an unreadable one fails with its diagnostic; the
/// bytes of the others are parsed.
pub open spec fn outcome_valid(file: SourceFile, content: FileContent, out: FileOutcome, opts: ParseOptions) -> bool {
    if file.kind != SourceFileKind::MuleXml {
        out is Skipped
    } else {
        match content {
            FileContent::Unreadable(d) => out == FileOutcome::Failed(d),
            FileContent::Bytes(b) => match out {
                FileOutcome::Parsed(d) => read_outcome(b@, file.path@, opts, Ok(d)),
                FileOutcome::Failed(d) => read_outcome(b@, file.path@, opts, Err(d)),
                FileOutcome::Skipped => false,
            },
            FileContent::NotRead => false,
        }
    }
}

pub open spec fn parsed_docs(outs: Seq<FileOutcome>) -> Seq<MuleDocument>
    decreases outs.len(),
{
    if outs.len() == 0 {
        Seq::empty()
    } else {
        parsed_docs(outs.drop_last()) + match outs.last() {
            FileOutcome::Parsed(d) => seq![d],
            _ => Seq::empty(),
        }
    }
}

pub open spec fn failed_diags(outs: Seq<FileOutcome>) -> Seq<Diagnostic>
    decreases outs.len(),
{
    if outs.len() == 0 {
        Seq::empty()
    } else {
        failed_diags(outs.drop_last()) + match outs.last() {
            FileOutcome::Failed(d) => seq![d],
            _ => Seq::empty(),
        }
    }
}

/// The diagnostic of a project without Mule XML documents.
pub open spec fn is_no_documents(d: Diagnostic) -> bool {
    &&& d.stage == DiagnosticStage::Mule
    &&& d.level == DiagnosticLevel::Error
    &&& d.code@ == "MULE-001"@
    &&& d.message@ == "No Mule XML files were found under src/main/mule."@
}

/// `out` is the project parsed from the per-file outcomes `outs`.
pub open spec fn outcome_of(out: ParsedOutcome, files: ProjectFiles, outs: Seq<FileOutcome>) -> bool {
    let docs0 = parsed_docs(outs);
    let docs = out.project.documents@;
    &&& documents_resolved(docs0, docs, known_names(docs0))
    &&& out.project.schema_version@ == seq!['1', '.', '0']
    &&& out.project.index.flows@ == crate::parser::index::index_entries(docs, false)
    &&& out.project.index.sub_flows@ == crate::parser::index::index_entries(docs, true)
    &&& out.project.index.global_configurations@ == crate::parser::index::all_globals(docs)
    &&& out.project.index.unresolved_flow_refs@ == crate::parser::index::all_unresolved(docs, known_names(docs))
    &&& out.project.project.id@ == "project:"@ + spec_sha_short(files.root@)
    &&& out.project.project.root_path@ == files.root@
    &&& out.project.project.files@ == files.files@
    &&& if docs0.len() == 0 {
        &&& out.diagnostics@.len() == failed_diags(outs).len() + 1
        &&& out.diagnostics@.subrange(0, failed_diags(outs).len() as int) == failed_diags(outs)
        &&& is_no_documents(out.diagnostics@.last())
    } else {
        out.diagnostics@ == failed_diags(outs)
    }
}

/// Bytes that were read are within the size the parser handles.
pub open spec fn content_fits(c: FileContent) -> bool {
    c matches FileContent::Bytes(b) ==> b@.len() < max_input_len()
}

/// A Mule XML file may be left unread only where failures stop the parse
/// and an earlier Mule XML file could not be read.
pub open spec fn stopped_before(files: Seq<SourceFile>, contents: Seq<FileContent>, opts: ParseOptions, i: int) -> bool {
    &&& !opts.continue_on_parse_error
    &&& exists|j: int|
        0 <= j < i && (#[trigger] files[j]).kind == SourceFileKind::MuleXml && contents[j] is Unreadable
}

/// Parses every Mule XML file of a project (`contents` holds what was
/// read of each file, in the same order). A file that fails gives a
/// diagnostic; unless failures are tolerated, the first one stops the
/// parse. Flow references are then resolved against all flow names.
pub fn parse_project(files: &ProjectFiles, contents: &Vec<FileContent>, options: &ParseOptions) -> (r: Result<
    ParsedOutcome,
    ParseError,
>)
    requires
        contents@.len() == files.files@.len(),
        forall|i: int|
            0 <= i < files.files@.len() && (#[trigger] files.files@[i]).kind == SourceFileKind::MuleXml
                && contents@[i] is NotRead ==> stopped_before(files.files@, contents@, *options, i),
        forall|i: int| 0 <= i < contents@.len() ==> content_fits(#[trigger] contents@[i]),
    ensures
        options.continue_on_parse_error ==> (r is Ok),
        r matches Err(e) ==> !options.continue_on_parse_error && e == (ParseError::TooManyFailures { count: 1 }),
        r is Err ==> exists|j: int, d: Diagnostic|
            0 <= j < files.files@.len() && #[trigger] outcome_valid(files.files@[j], contents@[j], FileOutcome::Failed(d), *options),
        r matches Ok(out) ==> (exists|outs: Seq<FileOutcome>|
            #![trigger parsed_docs(outs)]
            outs.len() == files.files@.len() && (forall|i: int|
                0 <= i < outs.len() ==> outcome_valid(files.files@[i], contents@[i], #[trigger] outs[i], *options))
                && (!options.continue_on_parse_error ==> failed_diags(outs).len() == 0)
                && outcome_of(out, *files, outs)),
{
    let mut diagnostics: Vec<Diagnostic> = Vec::new();
    let mut documents: Vec<MuleDocument> = Vec::new();
    let ghost mut outs: Seq<FileOutcome> = Seq::empty();
    let mut i: usize = 0;
    while i < files.files.len()
        invariant
            i <= files.files@.len(),
            contents@.len() == files.files@.len(),
            forall|j: int|
                0 <= j < files.files@.len() && (#[trigger] files.files@[j]).kind == SourceFileKind::MuleXml
                    && contents@[j] is NotRead ==> stopped_before(files.files@, contents@, *options, j),
            forall|j: int| 0 <= j < contents@.len() ==> content_fits(#[trigger] contents@[j]),
            !options.continue_on_parse_error ==> forall|j: int|
                0 <= j < i && (#[trigger] files.files@[j]).kind == SourceFileKind::MuleXml ==> !(contents@[j] is Unreadable),
            outs.len() == i,
            forall|j: int| 0 <= j < i ==> outcome_valid(files.files@[j], contents@[j], #[trigger] outs[j], *options),
            documents@ == parsed_docs(outs),
            diagnostics@ == failed_diags(outs),
            !options.continue_on_parse_error ==> diagnostics@.len() == 0,
        decreases files.files.len() - i,
    {
        let file = &files.files[i];
        let ghost prev = outs;
        if file.kind != SourceFileKind::MuleXml {
            proof {
                outs = outs.push(FileOutcome::Skipped);
                assert(outs.drop_last() =~= prev);
            }
        } else {
            match &contents[i] {
                FileContent::Unreadable(d) => {
                    diagnostics.push(d.clone());
                    proof {
                        outs = outs.push(FileOutcome::Failed(*d));
                        assert(outs.drop_last() =~= prev);
                    }
                    if !options.continue_on_parse_error {
                        assert(outcome_valid(files.files@[i as int], contents@[i as int], FileOutcome::Failed(*d), *options));
                        return Err(ParseError::TooManyFailures { count: diagnostics.len() });
                    }
                },
                FileContent::Bytes(b) => {
                    assert(content_fits(contents@[i as int]));
                    match read_and_parse(b.as_slice(), file.path.as_str(), options) {
                        Ok(doc) => {
                            proof {
                                outs = outs.push(FileOutcome::Parsed(doc));
                                assert(outs.drop_last() =~= prev);
                            }
                            documents.push(doc);
                        },
                        Err(d) => {
                            proof {
                                outs = outs.push(FileOutcome::Failed(d));
                                assert(outs.drop_last() =~= prev);
                            }
                            let ghost dv = d;
                            diagnostics.push(d);
                            if !options.continue_on_parse_error {
                                assert(outcome_valid(files.files@[i as int], contents@[i as int], FileOutcome::Failed(dv), *options));
                                return Err(ParseError::TooManyFailures { count: diagnostics.len() });
                            }
                        },
                    }
                },
                FileContent::NotRead => {
                    proof {
                        let j = choose|j: int|
                            0 <= j < i && (#[trigger] files.files@[j]).kind == SourceFileKind::MuleXml
                                && contents@[j] is Unreadable;
                    }
                    assert(false);
                },
            }
        }
        proof {
            assert forall|j: int| 0 <= j < i + 1 implies outcome_valid(files.files@[j], contents@[j], #[trigger] outs[j], *options) by {
                if j < i {
                    assert(outs[j] == prev[j]);
                }
            }
        }
        i = i + 1;
    }
    let ghost docs0 = documents@;
    let ghost fails = diagnostics@;
    if documents.len() == 0 {
        diagnostics.push(
            Diagnostic::new(
                DiagnosticStage::Mule,
                "MULE-001",
                DiagnosticLevel::Error,
                "No Mule XML files were found under src/main/mule.".to_owned(),
            ),
        );
        assert(diagnostics@.subrange(0, fails.len() as int) =~= fails);
    }
    let documents = resolve_references(documents);
    let index = build_index(documents.as_slice());
    let project = build_project_descriptor(files, documents.as_slice());
    let out = ParsedOutcome {
        project: ParsedProject {
            schema_version: current_schema_version().to_owned(),
            project,
            documents,
            index,
        },
        diagnostics,
    };
    assert(outcome_of(out, *files, outs));
    Ok(out)
}

} // verus!
