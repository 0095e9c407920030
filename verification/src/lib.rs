//! Static analysis of MuleSoft projects: a namespace-aware flow model,
//! a deterministic JSON rule engine, Markdown/HTML reports, and the state
//! machine behind the terminal front-end.

pub mod text;
pub mod json;
pub mod model;
pub mod scan;
pub mod ruleset;
pub mod sorting;
pub mod engine;
pub mod parser;
pub mod report;
pub mod tui;
pub mod xtask;
