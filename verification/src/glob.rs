//! Shell-style glob patterns (`*`, `?`, `[abc]`), compiled and matched by
//! the `globset` crate.
//!
//! A pattern is compiled into a one-pattern `GlobSet`: `Glob::new` parses
//! it and `GlobSetBuilder::build` turns it into a matcher. Both steps
//! report errors instead of panicking, so a pattern that parses but whose
//! regex is too large is rejected like a malformed one.

use globset::{Glob, GlobSet, GlobSetBuilder};
use vstd::prelude::*;

verus! {

#[verifier::external_type_specification]
#[verifier::external_body]
pub struct ExGlobSet(GlobSet);

/// `Glob::new(pattern)` as a string: `None` when the pattern parses,
/// otherwise the text of the error `globset` reports.
pub uninterp spec fn glob_error(pattern: Seq<char>) -> Option<Seq<char>>;

/// For a pattern that parses: `None` when `GlobSetBuilder::build` turns
/// the one-pattern set into a matcher, otherwise the text of its error
/// (such as a regex over the size limit).
pub uninterp spec fn glob_build_error(pattern: Seq<char>) -> Option<Seq<char>>;

/// Whether the one-pattern set compiled from `pattern` matches `text`
/// (`GlobSet::is_match`).
pub uninterp spec fn glob_match(pattern: Seq<char>, text: Seq<char>) -> bool;

/// The longest pattern, in characters, that is handed to `globset`. A
/// literal prefix or suffix of a pattern is searched with an Aho-Corasick
/// automaton, which `globset` builds with `unwrap` and which holds at most
/// `i32::MAX` states; this bound keeps every pattern (four bytes per
/// character at most) well below that.
pub const MAX_GLOB_CHARS: usize = 268435456;

/// The text of the error for a pattern over [`MAX_GLOB_CHARS`].
pub open spec fn too_long_message() -> Seq<char> {
    "glob pattern is too long"@
}

/// Why `pattern` cannot be compiled, or `None` when it can: too long,
/// rejected by `Glob::new`, or rejected by `GlobSetBuilder::build`.
pub open spec fn pattern_error(pattern: Seq<char>) -> Option<Seq<char>> {
    if pattern.len() > MAX_GLOB_CHARS {
        Some(too_long_message())
    } else if glob_error(pattern) is Some {
        glob_error(pattern)
    } else {
        glob_build_error(pattern)
    }
}

/// A glob pattern together with its compiled matcher. Values of this type
/// are only ever built by [`compile_glob`], from the pattern they hold.
pub struct CompiledGlob {
    pattern: String,
    set: GlobSet,
}

impl CompiledGlob {
    /// The pattern this glob was compiled from.
    pub closed spec fn source(self) -> Seq<char> {
        self.pattern@
    }

    /// The pattern this glob was compiled from.
    pub fn pattern(&self) -> (r: &String)
        ensures
            r@ == self.source(),
    {
        &self.pattern
    }
}

/// `Glob::new(pattern)`, then `GlobSetBuilder::new()`, `add` and `build`:
/// succeeds exactly when both steps accept the pattern; otherwise returns
/// the text of the first error.
#[verifier::external_body]
pub(crate) fn compile_glob(pattern: &str) -> (r: Result<CompiledGlob, String>)
    requires
        pattern@.len() <= MAX_GLOB_CHARS,
    ensures
        match r {
            Ok(g) => {
                &&& glob_error(pattern@) is None
                &&& glob_build_error(pattern@) is None
                &&& g.source() == pattern@
            },
            Err(e) => if glob_error(pattern@) is Some {
                glob_error(pattern@) == Some(e@)
            } else {
                glob_build_error(pattern@) == Some(e@)
            },
        },
{
    let glob = match Glob::new(pattern) {
        Ok(g) => g,
        Err(e) => return Err(e.to_string()),
    };
    match GlobSetBuilder::new().add(glob).build() {
        Ok(set) => Ok(CompiledGlob { pattern: pattern.to_owned(), set }),
        Err(e) => Err(e.to_string()),
    }
}

/// Compiles `pattern`, or says why it cannot be compiled.
pub fn compile_pattern(pattern: &str) -> (r: Result<CompiledGlob, String>)
    ensures
        match r {
            Ok(g) => pattern_error(pattern@) is None && g.source() == pattern@,
            Err(e) => pattern_error(pattern@) == Some(e@),
        },
{
    if pattern.unicode_len() > MAX_GLOB_CHARS {
        proof {
            reveal_strlit("glob pattern is too long");
        }
        return Err("glob pattern is too long".to_owned());
    }
    compile_glob(pattern)
}

/// `Glob::new(pattern)` alone, keeping only whether the pattern parses
/// and the error text. It builds no regex, so it has no size limit.
#[verifier::external_body]
pub(crate) fn check_glob(pattern: &str) -> (r: Result<(), String>)
    ensures
        match r {
            Ok(()) => glob_error(pattern@) is None,
            Err(e) => glob_error(pattern@) == Some(e@),
        },
{
    match Glob::new(pattern) {
        Ok(_) => Ok(()),
        Err(e) => Err(e.to_string()),
    }
}

/// `GlobSet::is_match`: whether `text` matches the glob.
#[verifier::external_body]
pub(crate) fn glob_is_match(g: &CompiledGlob, text: &str) -> (r: bool)
    ensures
        r == glob_match(g.source(), text@),
{
    g.set.is_match(text)
}

} // verus!
