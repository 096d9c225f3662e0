//! Unix-shell-style name patterns, backed by the `glob` crate.
//!
//! The compiled form never leaves this module: a pattern is kept as its source
//! text, whose validity and matching behaviour are named by two uninterpreted
//! spec functions that the trusted wrappers below tie to the `glob` crate.

use vstd::prelude::*;
use crate::UsageError;

verus! {

/// Whether `glob::Pattern::new` accepts this pattern text.
pub uninterp spec fn glob_pattern_ok(pat: Seq<char>) -> bool;

/// Whether the compiled pattern matches the text, under the `glob` crate's
/// default matching options. The result depends on the two strings alone.
pub uninterp spec fn glob_match(pat: Seq<char>, text: Seq<char>) -> bool;

/// Relies on glob::Pattern::new: whether the pattern text compiles. The
/// outcome depends on the pattern text alone.
#[verifier::external_body]
fn pattern_compiles(pat: &str) -> (r: bool)
    ensures
        r == glob_pattern_ok(pat@),
{
    glob::Pattern::new(pat).is_ok()
}

/// Relies on glob::Pattern::new and glob::Pattern::matches: compiling a valid
/// pattern and matching it against a text; the result depends on the pattern
/// and the text alone.
#[verifier::external_body]
fn pattern_match_str(pat: &str, text: &str) -> (r: bool)
    requires
        glob_pattern_ok(pat@),
    ensures
        r == glob_match(pat@, text@),
{
    match glob::Pattern::new(pat) {
        Ok(p) => p.matches(text),
        Err(_) => false,
    }
}

/// A glob pattern held as its source text, known to compile.
#[derive(Debug)]
pub struct GlobPattern {
    text: String,
}

impl GlobPattern {
    /// The pattern's source text.
    pub closed spec fn source(&self) -> Seq<char> {
        self.text@
    }

    /// A pattern is well formed when the `glob` crate accepts its text.
    pub open spec fn wf(&self) -> bool {
        glob_pattern_ok(self.source())
    }

    /// Compile a pattern from its source text; fails exactly on text that the
    /// `glob` crate rejects.
    pub fn new(pat: &str) -> (r: Result<GlobPattern, UsageError>)
        ensures
            r is Ok <==> glob_pattern_ok(pat@),
            r is Ok ==> r->Ok_0.source() == pat@ && r->Ok_0.wf(),
    {
        if pattern_compiles(pat) {
            Ok(GlobPattern { text: pat.to_owned() })
        } else {
            Err(UsageError)
        }
    }

    /// Whether the pattern matches the given text.
    pub fn matches(&self, text: &str) -> (r: bool)
        requires
            self.wf(),
        ensures
            r == glob_match(self.source(), text@),
    {
        pattern_match_str(self.text.as_str(), text)
    }

    /// The pattern's source text, as the bot renders it.
    pub fn render(&self) -> (r: String)
        ensures
            r@ == self.source(),
    {
        self.text.clone()
    }
}

impl PartialEq for GlobPattern {
    fn eq(&self, other: &GlobPattern) -> (r: bool) {
        self.text == other.text
    }
}

impl vstd::std_specs::cmp::PartialEqSpecImpl for GlobPattern {
    open spec fn obeys_eq_spec() -> bool {
        true
    }

    open spec fn eq_spec(&self, other: &GlobPattern) -> bool {
        self.source() == other.source()
    }
}

} // verus!
