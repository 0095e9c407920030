//! Reports of a scan: the document every renderer reads, and its Markdown
//! and HTML renderings. Nothing here does I/O; callers write the bytes.

pub mod document;
pub mod error;
pub mod escape;
pub mod html;
pub mod markdown;
pub mod renderer;

pub use document::{build_document, group_by_severity, rollup_by_rule, sort_findings};
pub use error::ReportError;
pub use html::render as render_html;
pub use markdown::render as render_markdown;
pub use renderer::{HtmlRenderer, MarkdownRenderer, ReportFormatLabel, ReportRenderer};
