//! What the title bar shows: the project name, the page and the focus.

use vstd::prelude::*;

verus! {

/// The values the title bar reads while it draws.
#[derive(Debug)]
pub struct HeaderProjection {
    pub project_name: String,
    pub page: &'static str,
    pub focus: &'static str,
}

impl HeaderProjection {
    /// The projection before any page was drawn: no project, the scan
    /// page, focus on the body.
    pub fn initial() -> (p: HeaderProjection)
        ensures
            p.project_name@.len() == 0,
            p.page@ == "scan"@,
            p.focus@ == "body"@,
    {
        HeaderProjection { project_name: String::new(), page: "scan", focus: "body" }
    }
}

/// Replaces the projection the title bar reads.
pub fn set_header_projection(slot: &mut HeaderProjection, p: HeaderProjection)
    ensures
        *final(slot) == p,
{
    *slot = p;
}

/// The project name the title bar shows.
pub fn default_string(p: &HeaderProjection) -> (s: String)
    ensures
        s == p.project_name,
{
    p.project_name.clone()
}

/// The page label the title bar shows.
pub fn current_page_label(p: &HeaderProjection) -> (s: &'static str)
    ensures
        s == p.page,
{
    p.page
}

} // verus!
