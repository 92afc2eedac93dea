//! Glob patterns: the shorthand that makes a bare pattern recursive, and the
//! compiled matcher.

use crate::error::{invalid_with_prefix, message_with_prefix, SearchError};
use crate::text::{chars_of, starts_with_chars, starts_with_spec, string_of};
use globset::{Glob, GlobSet, GlobSetBuilder};
use vstd::prelude::*;

verus! {

#[verifier::external_type_specification]
#[verifier::external_body]
pub struct ExGlob(globset::Glob);

#[verifier::external_type_specification]
#[verifier::external_body]
pub struct ExGlobSet(globset::GlobSet);

#[verifier::external_type_specification]
#[verifier::external_body]
pub struct ExGlobError(globset::Error);

/// Whether `pattern` compiles into a glob matcher.
pub uninterp spec fn glob_compiles(pattern: Seq<char>) -> bool;

/// Whether the glob `pattern` matches the relative path `path`.
pub uninterp spec fn glob_accepts(pattern: Seq<char>, path: Seq<char>) -> bool;

/// Parses `pattern` and builds a matcher set holding it alone.
///
/// Relies on `globset::Glob::new` and `globset::GlobSetBuilder::{new, add,
/// build}`: whether this succeeds depends on the pattern alone.
#[verifier::external_body]
fn build_glob_set(pattern: &str) -> (r: Result<GlobSet, globset::Error>)
    ensures
        r is Ok == glob_compiles(pattern@),
{
    Glob::new(pattern).and_then(|glob| GlobSetBuilder::new().add(glob).build())
}

/// The message of a glob error.
///
/// Relies on `globset::Error`'s `Display`; nothing is promised of the text.
#[verifier::external_body]
fn glob_error_text(e: &globset::Error) -> (r: String) {
    e.to_string()
}

/// The start of the message of a rejected glob.
pub open spec fn invalid_glob_prefix() -> Seq<char> {
    seq!['I', 'n', 'v', 'a', 'l', 'i', 'd', ' ', 'g', 'l', 'o', 'b', ' ', 'p', 'a', 't', 't', 'e', 'r', 'n', ':', ' ']
}

/// A compiled glob together with the pattern it was compiled from.
pub struct PathGlob {
    set: GlobSet,
    pattern: String,
}

impl PathGlob {
    /// The pattern the matcher was compiled from.
    pub closed spec fn pattern(&self) -> Seq<char> {
        self.pattern@
    }
}

/// Whether the compiled glob matches a relative path.
///
/// Relies on `globset::GlobSet::is_match`: the answer depends on the pattern
/// and the path alone. `g.set` was built from `g.pattern` (`compile_pattern`
/// is the only constructor).
#[verifier::external_body]
pub(crate) fn glob_is_match(g: &PathGlob, path: &str) -> (r: bool)
    ensures
        r == glob_accepts(g.pattern(), path@),
{
    g.set.is_match(path)
}

/// Compiles a glob pattern as given; one that does not compile is an
/// `InvalidInput` error whose message starts with `Invalid glob pattern: `.
pub fn compile_pattern(pattern: String) -> (r: Result<PathGlob, SearchError>)
    ensures
        r is Ok == glob_compiles(pattern@),
        r matches Ok(g) ==> g.pattern() == pattern@,
        r matches Err(e) ==> invalid_with_prefix(e, invalid_glob_prefix()),
{
    match build_glob_set(pattern.as_str()) {
        Ok(set) => Ok(PathGlob { set, pattern }),
        Err(e) => {
            let text = glob_error_text(&e);
            let prefix: Vec<char> = vec!['I', 'n', 'v', 'a', 'l', 'i', 'd', ' ', 'g', 'l', 'o', 'b', ' ', 'p', 'a', 't', 't', 'e', 'r', 'n', ':', ' '];
            assert(prefix@ =~= invalid_glob_prefix());
            Err(SearchError::InvalidInput(message_with_prefix(prefix.as_slice(), text.as_str())))
        },
    }
}

/// `s` with every `\\` replaced by `/`.
pub open spec fn forward_slashes(s: Seq<char>) -> Seq<char> {
    s.map_values(|c: char| if c == '\\' { '/' } else { c })
}

/// The recursive-wildcard prefix `**/`.
pub open spec fn recursive_prefix() -> Seq<char> {
    seq!['*', '*', '/']
}

/// The pattern a discovery glob is compiled as: one without a `/` that does
/// not start with `**` is made recursive by a leading `**/`.
pub open spec fn discovery_pattern(glob: Seq<char>) -> Seq<char> {
    if glob.contains('/') || starts_with_spec(glob, seq!['*', '*']) {
        glob
    } else {
        recursive_prefix() + glob
    }
}

/// The pattern a file filter glob is compiled as: `\\` becomes `/`, and one
/// without a `/` that does not start with `**/` gets a leading `**/`.
pub open spec fn filter_pattern(glob: Seq<char>) -> Seq<char> {
    let g = forward_slashes(glob);
    if g.contains('/') || starts_with_spec(g, recursive_prefix()) {
        g
    } else {
        recursive_prefix() + g
    }
}

/// Whether `c` occurs in `s`.
pub fn has_char(s: &[char], c: char) -> (r: bool)
    ensures
        r == s@.contains(c),
{
    let mut i: usize = 0;
    while i < s.len()
        invariant
            i <= s.len(),
            forall|j: int| 0 <= j < i ==> s@[j] != c,
        decreases s.len() - i,
    {
        if s[i] == c {
            return true;
        }
        i = i + 1;
    }
    false
}

/// Applies the recursive shorthand to a discovery glob.
pub fn build_glob_pattern(glob: &str) -> (r: String)
    ensures
        r@ == discovery_pattern(glob@),
{
    let g = chars_of(glob);
    let stars: Vec<char> = vec!['*', '*'];
    assert(stars@ =~= seq!['*', '*']);
    if has_char(g.as_slice(), '/') || starts_with_chars(g.as_slice(), stars.as_slice()) {
        string_of(g.as_slice())
    } else {
        let mut out: Vec<char> = vec!['*', '*', '/'];
        let mut i: usize = 0;
        while i < g.len()
            invariant
                i <= g.len(),
                out@ == recursive_prefix() + g@.take(i as int),
            decreases g.len() - i,
        {
            out.push(g[i]);
            i = i + 1;
            assert(out@ =~= recursive_prefix() + g@.take(i as int));
        }
        assert(g@.take(g.len() as int) =~= g@);
        string_of(out.as_slice())
    }
}

/// Applies separator normalization and the recursive shorthand to a file
/// filter glob.
pub fn build_filter_pattern(glob: &[char]) -> (r: String)
    ensures
        r@ == filter_pattern(glob@),
{
    let mut g: Vec<char> = Vec::new();
    let mut i: usize = 0;
    while i < glob.len()
        invariant
            i <= glob.len(),
            g@ == forward_slashes(glob@.take(i as int)),
        decreases glob.len() - i,
    {
        let c = glob[i];
        g.push(if c == '\\' { '/' } else { c });
        i = i + 1;
        assert(g@ =~= forward_slashes(glob@.take(i as int)));
    }
    assert(glob@.take(glob.len() as int) =~= glob@);
    let prefix: Vec<char> = vec!['*', '*', '/'];
    assert(prefix@ =~= recursive_prefix());
    if has_char(g.as_slice(), '/') || starts_with_chars(g.as_slice(), prefix.as_slice()) {
        string_of(g.as_slice())
    } else {
        let mut out: Vec<char> = vec!['*', '*', '/'];
        let mut k: usize = 0;
        while k < g.len()
            invariant
                k <= g.len(),
                out@ == recursive_prefix() + g@.take(k as int),
            decreases g.len() - k,
        {
            out.push(g[k]);
            k = k + 1;
            assert(out@ =~= recursive_prefix() + g@.take(k as int));
        }
        assert(g@.take(g.len() as int) =~= g@);
        string_of(out.as_slice())
    }
}

/// Compiles a discovery glob after the recursive shorthand.
pub fn compile_glob(glob: &str) -> (r: Result<PathGlob, SearchError>)
    ensures
        r is Ok == glob_compiles(discovery_pattern(glob@)),
        r matches Ok(g) ==> g.pattern() == discovery_pattern(glob@),
        r matches Err(e) ==> invalid_with_prefix(e, invalid_glob_prefix()),
{
    compile_pattern(build_glob_pattern(glob))
}

} // verus!
