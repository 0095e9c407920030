//! Regular expressions, supplied by the `regex` crate.

use vstd::prelude::*;

verus! {

#[verifier::external_type_specification]
#[verifier::external_body]
pub struct ExRegex(regex::Regex);

/// What `regex::Regex::new` reports for `pattern`: `None` when the
/// pattern compiles, otherwise the text of its error.
pub uninterp spec fn regex_compile_error(pattern: Seq<char>) -> Option<Seq<char>>;

/// Whether the regex compiled from `pattern` matches somewhere in `text`
/// (`regex::Regex::is_match`).
pub uninterp spec fn regex_is_match(pattern: Seq<char>, text: Seq<char>) -> bool;

/// A compiled pattern together with the source it was compiled from.
pub struct Pattern {
    source: String,
    compiled: regex::Regex,
}

/// Calls `regex::Regex::new`. Claims only that the outcome is the one
/// the pattern alone determines: `Ok` exactly when
/// `regex_compile_error(pattern)` is `None`, else the error's display text.
#[verifier::external_body]
fn compile_regex(pattern: &str) -> (r: Result<regex::Regex, String>)
    ensures
        r is Ok <==> regex_compile_error(pattern@) is None,
        r matches Err(m) ==> regex_compile_error(pattern@) == Some(m@),
{
    match regex::Regex::new(pattern) {
        Ok(re) => Ok(re),
        Err(e) => Err(format!("{e}")),
    }
}

/// Calls `regex::Regex::is_match` on the regex a [`Pattern`] holds, which
/// [`Pattern::new`] compiled from the pattern's source; claims the answer
/// is `regex_is_match(source, text)`.
#[verifier::external_body]
fn compiled_is_match(p: &Pattern, text: &str) -> (b: bool)
    ensures
        b == regex_is_match(p.source@, text@),
{
    p.compiled.is_match(text)
}

impl Pattern {
    pub closed spec fn source_view(&self) -> Seq<char> {
        self.source@
    }

    /// Compiles `pattern`; the error text when it does not compile.
    pub fn new(pattern: &str) -> (r: Result<Pattern, String>)
        ensures
            r is Ok <==> regex_compile_error(pattern@) is None,
            r matches Ok(p) ==> p.source_view() == pattern@,
            r matches Err(m) ==> regex_compile_error(pattern@) == Some(m@),
    {
        match compile_regex(pattern) {
            Ok(compiled) => Ok(Pattern { source: pattern.to_owned(), compiled }),
            Err(m) => Err(m),
        }
    }

    /// Whether the pattern matches somewhere in `text`.
    pub fn is_match(&self, text: &str) -> (b: bool)
        ensures
            b == regex_is_match(self.source_view(), text@),
    {
        compiled_is_match(self, text)
    }
}

} // verus!
