//! Mule XML parsing: the component tree of each document, per-flow facts,
//! reference resolution and the project-wide index.

pub mod digest;
pub mod facts;
pub mod reference;
pub mod index;
pub mod xml;
pub mod flow;
pub mod document;
pub mod reader;
pub mod project;

pub use project::{parse_project, MuleParser, ParseError, ParseOptions, ParsedOutcome};
