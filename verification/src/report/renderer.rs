//! Renderers behind one interface, so callers can pick a format at run time.

use vstd::prelude::*;
use crate::model::finding_views;
use crate::report::document::ReportDocument;
use crate::report::error::ReportError;
use crate::report::html::html_text;
use crate::report::markdown::markdown_text;

verus! {

/// The formats a renderer can produce.
#[derive(Debug, Clone, Copy, PartialEq, Eq, Hash, Structural)]
pub enum ReportFormatLabel {
    Markdown,
    Html,
}

/// A report renderer.
pub trait ReportRenderer {
    /// The format this renderer produces.
    fn format(&self) -> ReportFormatLabel;

    /// The report of `document` as bytes.
    fn render(&self, document: &ReportDocument) -> Result<Vec<u8>, ReportError>;
}

/// Renders Markdown.
#[derive(Debug)]
pub struct MarkdownRenderer;

impl ReportRenderer for MarkdownRenderer {
    fn format(&self) -> (f: ReportFormatLabel)
        ensures
            f == ReportFormatLabel::Markdown,
    {
        ReportFormatLabel::Markdown
    }

    fn render(&self, document: &ReportDocument) -> (r: Result<Vec<u8>, ReportError>)
        ensures
            r matches Ok(bytes) && bytes@ == vstd::utf8::encode_utf8(markdown_text(*document)),
    {
        crate::report::markdown::render(document)
    }
}

/// Renders HTML.
#[derive(Debug)]
pub struct HtmlRenderer;

impl ReportRenderer for HtmlRenderer {
    fn format(&self) -> (f: ReportFormatLabel)
        ensures
            f == ReportFormatLabel::Html,
    {
        ReportFormatLabel::Html
    }

    fn render(&self, document: &ReportDocument) -> (r: Result<Vec<u8>, ReportError>)
        ensures
            r matches Ok(bytes) && bytes@ == vstd::utf8::encode_utf8(html_text(*document)),
    {
        crate::report::html::render(document)
    }
}

/// A report is a function of what the document holds: two documents
/// with the same metadata, summary, findings and diagnostics render to the
/// same Markdown and the same HTML, so scanning the same inputs twice gives
/// identical bytes.
pub proof fn law_rendering_is_deterministic(a: ReportDocument, b: ReportDocument)
    requires
        a.metadata.tool@ == b.metadata.tool@,
        a.metadata.tool_version@ == b.metadata.tool_version@,
        a.metadata.schema_version@ == b.metadata.schema_version@,
        a.metadata.generated_at_unix == b.metadata.generated_at_unix,
        a.metadata.project_id@ == b.metadata.project_id@,
        a.metadata.project_name@ == b.metadata.project_name@,
        a.summary == b.summary,
        finding_views(a.findings@) == finding_views(b.findings@),
        a.parser_diagnostics@ == b.parser_diagnostics@,
    ensures
        markdown_text(a) == markdown_text(b),
        html_text(a) == html_text(b),
{
}

} // verus!
