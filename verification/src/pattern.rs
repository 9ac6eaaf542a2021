//! The pattern matcher.
//!
//! Rule markers and ignore entries are Unix shell globs, compiled with the
//! `glob` crate.  A spec with invalid glob syntax never fails compilation
//! here: it falls back to a pattern that matches the spec text literally.
//! Rule matching is case-insensitive (both the pattern and the candidate are
//! lowercased first); ignore matching is case-sensitive against the raw
//! basename.  That asymmetry is a deliberate contract of the crate.

use vstd::pervasive::unreached;
use vstd::prelude::*;

verus! {

/// Whether `glob::Pattern::new` accepts `spec`; compilation succeeds or
/// fails as a function of the pattern text alone.
pub uninterp spec fn glob_compiles(spec: Seq<char>) -> bool;

/// The text `glob::Pattern::escape` produces for `spec`.
pub uninterp spec fn glob_escaped(spec: Seq<char>) -> Seq<char>;

/// The pattern text a `glob::Pattern` value was compiled from.
pub uninterp spec fn pattern_source(p: glob::Pattern) -> Seq<char>;

/// Whether `name` matches the glob `spec` under default match options.
pub uninterp spec fn glob_matches(spec: Seq<char>, name: Seq<char>) -> bool;

/// The Unicode lowercasing of `s`, as `str::to_lowercase` computes it.
pub uninterp spec fn lower_of(s: Seq<char>) -> Seq<char>;

#[verifier::external_type_specification]
#[verifier::external_body]
pub struct ExPattern(glob::Pattern);

/// Relies on `glob::Pattern::new`: whether compilation succeeds depends on
/// the pattern text alone, and the compiled value keeps that text as its
/// source.
#[verifier::external_body]
fn pattern_new(spec: &str) -> (r: Option<glob::Pattern>)
    ensures
        r is Some <==> glob_compiles(spec@),
        r matches Some(p) ==> pattern_source(p) == spec@,
{
    glob::Pattern::new(spec).ok()
}

/// Relies on `glob::Pattern::matches`: the outcome is a function of the
/// compiled pattern and the candidate text alone.
#[verifier::external_body]
fn pattern_matches(p: &glob::Pattern, name: &str) -> (r: bool)
    ensures
        r == glob_matches(pattern_source(*p), name@),
{
    p.matches(name)
}

/// Relies on `glob::Pattern::escape`: metacharacters are bracketed, so the
/// result always compiles, and the compiled result matches the input text
/// and nothing else.
#[verifier::external_body]
fn pattern_escape(spec: &str) -> (r: String)
    ensures
        r@ == glob_escaped(spec@),
        glob_compiles(r@),
        forall|n: Seq<char>| #[trigger] glob_matches(r@, n) <==> n == spec@,
{
    glob::Pattern::escape(spec)
}

/// Relies on `str::to_lowercase`: the result is a function of the characters
/// alone, and an empty string stays empty.
#[verifier::external_body]
fn lowercase(s: &str) -> (r: String)
    ensures
        r@ == lower_of(s@),
        s@.len() == 0 ==> r@.len() == 0,
{
    s.to_lowercase()
}

/// What compiling `spec` with literal fallback matches: the glob itself when
/// `spec` compiles, otherwise the escaped spec, which matches the spec text
/// literally.
pub open spec fn spec_match_with_fallback(spec: Seq<char>, name: Seq<char>) -> bool {
    if glob_compiles(spec) {
        glob_matches(spec, name)
    } else {
        glob_matches(glob_escaped(spec), name)
    }
}

/// Rule marker matching: case-insensitive, both sides lowercased.
pub open spec fn spec_rule_match(file_match: Seq<char>, name: Seq<char>) -> bool {
    spec_match_with_fallback(lower_of(file_match), lower_of(name))
}

/// Ignore matching: case-sensitive, on the raw basename.
pub open spec fn spec_ignore_match(pattern: Seq<char>, name: Seq<char>) -> bool {
    spec_match_with_fallback(pattern, name)
}

/// A compiled pattern together with the spec text it came from.
pub struct CompiledPattern {
    pattern: glob::Pattern,
    source: Ghost<Seq<char>>,
}

impl CompiledPattern {
    /// The spec text this pattern was compiled from.
    pub closed spec fn source(self) -> Seq<char> {
        self.source@
    }

    pub closed spec fn wf(self) -> bool {
        pattern_source(self.pattern) == (if glob_compiles(self.source@) {
            self.source@
        } else {
            glob_escaped(self.source@)
        })
    }

    /// Whether `name` matches this pattern.
    pub fn matches(&self, name: &str) -> (r: bool)
        requires
            self.wf(),
        ensures
            r == spec_match_with_fallback(self.source(), name@),
    {
        pattern_matches(&self.pattern, name)
    }
}

/// Compile `spec`, falling back to a pattern that matches `spec` literally
/// when the glob syntax is invalid.  The second component reports whether
/// the fallback was used; compilation itself never fails.
pub fn compile_pattern(spec: &str) -> (r: (CompiledPattern, bool))
    ensures
        r.0.wf(),
        r.0.source() == spec@,
        r.1 == !glob_compiles(spec@),
{
    match pattern_new(spec) {
        Some(p) => (CompiledPattern { pattern: p, source: Ghost(spec@) }, false),
        None => {
            let esc = pattern_escape(spec);
            match pattern_new(esc.as_str()) {
                Some(p) => (CompiledPattern { pattern: p, source: Ghost(spec@) }, true),
                None => unreached(),
            }
        },
    }
}

/// Whether directory entry `name` is a marker for a rule with pattern
/// `file_match`: case-insensitive glob matching with literal fallback.
pub fn rule_name_matches(file_match: &str, name: &str) -> (r: bool)
    ensures
        r == spec_rule_match(file_match@, name@),
{
    let pat_lc = lowercase(file_match);
    let name_lc = lowercase(name);
    let (p, _) = compile_pattern(pat_lc.as_str());
    p.matches(name_lc.as_str())
}

/// Whether a directory basename `name` matches the ignore entry `pattern`:
/// case-sensitive glob matching with literal fallback.
pub fn ignore_name_matches(pattern: &str, name: &str) -> (r: bool)
    ensures
        r == spec_ignore_match(pattern@, name@),
{
    let (p, _) = compile_pattern(pattern);
    p.matches(name)
}

} // verus!
