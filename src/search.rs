//! Content search over one byte buffer: options, the compiled pattern, and
//! the shaping of collected matches into results.

use crate::error::{invalid_with_prefix, message_with_prefix, SearchError};
use crate::scanner::{
    clamp_line, initial_view, match_views, CollectedMatch, ContextLine, MatchCollector, MatchView,
    ScanEvent, ScanOutcome, run_events, scan_events,
};
use crate::text::chars_of;
use grep_matcher::Matcher;
use grep_regex::{RegexMatcher, RegexMatcherBuilder};
use vstd::prelude::*;

verus! {

#[verifier::external_type_specification]
#[verifier::external_body]
pub struct ExRegexMatcher(grep_regex::RegexMatcher);

#[verifier::external_type_specification]
#[verifier::external_body]
pub struct ExRegexError(grep_regex::Error);

/// Whether the regex engine accepts `pattern` with these flags.
pub uninterp spec fn regex_compiles(pattern: Seq<char>, ignore_case: bool, multiline: bool) -> bool;

/// Whether `pattern`, compiled with these flags, matches somewhere in `haystack`.
pub uninterp spec fn regex_accepts(pattern: Seq<char>, ignore_case: bool, multiline: bool, haystack: Seq<u8>) -> bool;

/// Compiles `pattern`.
///
/// Relies on `grep_regex::RegexMatcherBuilder::build` (after
/// `case_insensitive` and `multi_line`): it fails exactly on the patterns
/// that the engine rejects under those flags.
#[verifier::external_body]
fn compile_regex(pattern: &str, ignore_case: bool, multiline: bool) -> (r: Result<RegexMatcher, grep_regex::Error>)
    ensures
        r is Ok == regex_compiles(pattern@, ignore_case, multiline),
{
    RegexMatcherBuilder::new().case_insensitive(ignore_case).multi_line(multiline).build(pattern)
}

/// The message of a pattern error.
///
/// Relies on `grep_regex::Error`'s `Display`; nothing is promised of the text.
#[verifier::external_body]
fn regex_error_text(e: &grep_regex::Error) -> (r: String) {
    e.to_string()
}

/// A compiled pattern together with what it was compiled from.
pub struct Regex {
    matcher: RegexMatcher,
    pattern: String,
    ignore_case: bool,
    multiline: bool,
}

impl Regex {
    /// The pattern text.
    pub closed spec fn pattern(&self) -> Seq<char> {
        self.pattern@
    }

    /// Whether matching ignores case.
    pub closed spec fn ignore_case(&self) -> bool {
        self.ignore_case
    }

    /// Whether `^` and `$` match at line boundaries.
    pub closed spec fn multiline(&self) -> bool {
        self.multiline
    }

    /// The compiled matcher, for a line-oriented searcher.
    pub fn matcher(&self) -> &RegexMatcher {
        &self.matcher
    }
}

/// Whether the compiled pattern matches somewhere in `haystack`.
///
/// Relies on `grep_matcher::Matcher::is_match` for `RegexMatcher`, whose
/// error type is `NoError`: it always answers, and the answer depends on the
/// pattern, its flags and the haystack alone. `re.matcher` was built from
/// `re.pattern` with `re`'s flags (`build_matcher` is the only constructor).
#[verifier::external_body]
fn regex_is_match(re: &Regex, haystack: &[u8]) -> (r: bool)
    ensures
        r == regex_accepts(re.pattern(), re.ignore_case(), re.multiline(), haystack@),
{
    re.matcher.is_match(haystack).unwrap_or(false)
}

/// The start of the message of a rejected pattern.
pub open spec fn regex_error_prefix() -> Seq<char> {
    seq!['R', 'e', 'g', 'e', 'x', ' ', 'e', 'r', 'r', 'o', 'r', ':', ' ']
}

/// Compiles `pattern` with the given flags; an invalid pattern is an
/// `InvalidInput` error whose message starts with `Regex error: `.
pub fn build_matcher(pattern: &str, ignore_case: bool, multiline: bool) -> (r: Result<Regex, SearchError>)
    ensures
        r is Ok == regex_compiles(pattern@, ignore_case, multiline),
        r matches Ok(re) ==> re.pattern() == pattern@ && re.ignore_case() == ignore_case && re.multiline() == multiline,
        r matches Err(e) ==> invalid_with_prefix(e, regex_error_prefix()),
{
    match compile_regex(pattern, ignore_case, multiline) {
        Ok(matcher) => Ok(Regex { matcher, pattern: String::from_str(pattern), ignore_case, multiline }),
        Err(e) => {
            let text = regex_error_text(&e);
            let prefix: Vec<char> = vec!['R', 'e', 'g', 'e', 'x', ' ', 'e', 'r', 'r', 'o', 'r', ':', ' '];
            assert(prefix@ =~= regex_error_prefix());
            Err(SearchError::InvalidInput(message_with_prefix(prefix.as_slice(), text.as_str())))
        },
    }
}

/// Whether `pattern` matches somewhere in `content`; an invalid pattern is an error.
pub fn has_match(content: &[u8], pattern: &str, ignore_case: bool, multiline: bool) -> (r: Result<bool, SearchError>)
    ensures
        r is Ok == regex_compiles(pattern@, ignore_case, multiline),
        r matches Ok(b) ==> b == regex_accepts(pattern@, ignore_case, multiline, content@),
        r matches Err(e) ==> invalid_with_prefix(e, regex_error_prefix()),
{
    let re = build_matcher(pattern, ignore_case, multiline)?;
    Ok(regex_is_match(&re, content))
}

/// What a search reports per match: everything, or only counts.
#[derive(Clone, Copy, Debug, PartialEq, Eq, Structural)]
pub enum OutputMode {
    /// Matching lines with context.
    Content,
    /// Match counts only.
    Count,
}

/// The output mode a mode name selects: `count` and `filesWithMatches` count,
/// anything else (or nothing) asks for content.
pub open spec fn mode_of(mode: Option<Seq<char>>) -> OutputMode {
    match mode {
        Some(m) => if m == seq!['c', 'o', 'u', 'n', 't'] || m == seq![
            'f', 'i', 'l', 'e', 's', 'W', 'i', 't', 'h', 'M', 'a', 't', 'c', 'h', 'e', 's',
        ] {
            OutputMode::Count
        } else {
            OutputMode::Content
        },
        None => OutputMode::Content,
    }
}

/// Reads an output mode name.
pub fn parse_output_mode(mode: Option<&str>) -> (r: OutputMode)
    ensures
        r == mode_of(
            match mode {
                Some(m) => Some(m@),
                None => None,
            },
        ),
{
    match mode {
        Some(m) => {
            let chars = chars_of(m);
            let count: Vec<char> = vec!['c', 'o', 'u', 'n', 't'];
            let files: Vec<char> = vec![
                'f', 'i', 'l', 'e', 's', 'W', 'i', 't', 'h', 'M', 'a', 't', 'c', 'h', 'e', 's',
            ];
            assert(count@ =~= seq!['c', 'o', 'u', 'n', 't']);
            assert(files@ =~= seq![
                'f', 'i', 'l', 'e', 's', 'W', 'i', 't', 'h', 'M', 'a', 't', 'c', 'h', 'e', 's',
            ]);
            if crate::text::chars_equal(chars.as_slice(), count.as_slice())
                || crate::text::chars_equal(chars.as_slice(), files.as_slice()) {
                OutputMode::Count
            } else {
                OutputMode::Content
            }
        },
        None => OutputMode::Content,
    }
}

/// The before and after context depths: the specific settings when either
/// is given (the other then 0), else `context` for both (0 if absent).
pub open spec fn context_of(context: Option<u32>, before: Option<u32>, after: Option<u32>) -> (u32, u32) {
    if before is Some || after is Some {
        (
            match before {
                Some(b) => b,
                None => 0,
            },
            match after {
                Some(a) => a,
                None => 0,
            },
        )
    } else {
        match context {
            Some(c) => (c, c),
            None => (0, 0),
        }
    }
}

/// Resolves the context depths.
pub fn resolve_context(context: Option<u32>, context_before: Option<u32>, context_after: Option<u32>) -> (r: (u32, u32))
    ensures
        r == context_of(context, context_before, context_after),
{
    if context_before.is_some() || context_after.is_some() {
        (context_before.unwrap_or(0), context_after.unwrap_or(0))
    } else {
        let value = context.unwrap_or(0);
        (value, value)
    }
}

/// `value`, saturating at `u32::MAX`.
pub fn clamp_u32(value: u64) -> (r: u32)
    ensures
        r == clamp_line(value),
{
    if value > u32::MAX as u64 {
        u32::MAX
    } else {
        value as u32
    }
}

/// Options of a content search.
pub struct SearchOptions {
    /// Regular expression.
    pub pattern: String,
    /// Case-insensitive matching (default: false).
    pub ignore_case: Option<bool>,
    /// Multi-line mode (default: false).
    pub multiline: Option<bool>,
    /// Most matches to return.
    pub max_count: Option<u32>,
    /// Matches to skip first (default: 0).
    pub offset: Option<u32>,
    /// Context lines before each match.
    pub context_before: Option<u32>,
    /// Context lines after each match.
    pub context_after: Option<u32>,
    /// Context lines on both sides, when neither of the two above is given.
    pub context: Option<u32>,
    /// Longest line kept whole, in characters.
    pub max_columns: Option<u32>,
    /// `content` (default) or `count`.
    pub mode: Option<String>,
}

/// The scan settings a search runs with.
#[derive(Clone, Copy)]
pub struct SearchParams {
    pub context_before: u32,
    pub context_after: u32,
    pub max_columns: Option<u32>,
    pub mode: OutputMode,
    pub max_count: Option<u64>,
    pub offset: u64,
}

/// A column limit as `usize`.
pub open spec fn columns_of(max_columns: Option<u32>) -> Option<usize> {
    match max_columns {
        Some(v) => Some(v as usize),
        None => None,
    }
}

impl SearchParams {
    /// The context depths to configure a searcher with: none in count mode.
    pub fn searcher_context(&self) -> (r: (u32, u32))
        ensures
            r == if self.mode == OutputMode::Content {
                (self.context_before, self.context_after)
            } else {
                (0u32, 0u32)
            },
    {
        if self.mode == OutputMode::Content {
            (self.context_before, self.context_after)
        } else {
            (0, 0)
        }
    }

    /// A fresh collector for these settings.
    pub fn collector(&self) -> (r: MatchCollector)
        ensures
            r@ == initial_view(self.max_count, self.offset, columns_of(self.max_columns), self.mode == OutputMode::Content),
    {
        let max_columns: Option<usize> = match self.max_columns {
            Some(v) => Some(v as usize),
            None => None,
        };
        MatchCollector::new(self.max_count, self.offset, max_columns, self.mode == OutputMode::Content)
    }
}

/// The settings `options` ask for.
pub open spec fn params_of(options: SearchOptions) -> SearchParams {
    let ctx = context_of(options.context, options.context_before, options.context_after);
    SearchParams {
        context_before: ctx.0,
        context_after: ctx.1,
        max_columns: options.max_columns,
        mode: mode_of(
            match options.mode {
                Some(m) => Some(m@),
                None => None,
            },
        ),
        max_count: match options.max_count {
            Some(m) => Some(m as u64),
            None => None,
        },
        offset: match options.offset {
            Some(o) => o as u64,
            None => 0,
        },
    }
}

/// Resolves the scan settings of a search.
pub fn search_params(options: &SearchOptions) -> (r: SearchParams)
    ensures
        r == params_of(*options),
{
    let (context_before, context_after) = resolve_context(options.context, options.context_before, options.context_after);
    let mode = match &options.mode {
        Some(m) => parse_output_mode(Some(m.as_str())),
        None => parse_output_mode(None),
    };
    let max_count: Option<u64> = match options.max_count {
        Some(m) => Some(m as u64),
        None => None,
    };
    let offset: u64 = match options.offset {
        Some(o) => o as u64,
        None => 0,
    };
    SearchParams { context_before, context_after, max_columns: options.max_columns, mode, max_count, offset }
}

/// A match as returned to callers.
pub struct Match {
    /// 1-based line number.
    pub line_number: u32,
    /// The matched line.
    pub line: String,
    /// Context before, absent when empty.
    pub context_before: Option<Vec<ContextLine>>,
    /// Context after, absent when empty.
    pub context_after: Option<Vec<ContextLine>>,
    /// `Some(true)` when the line was truncated, else absent.
    pub truncated: Option<bool>,
}

/// The result of a content search.
pub struct SearchResult {
    /// The returned matches.
    pub matches: Vec<Match>,
    /// Every match seen, skipped ones included, saturating.
    pub match_count: u32,
    /// Whether the limit stopped collection.
    pub limit_reached: bool,
    /// Why the search could not run, if it could not.
    pub error: Option<String>,
}

/// A returned match as plain values.
pub struct PublicMatchView {
    pub line_number: u32,
    pub line: Seq<char>,
    pub context_before: Option<Seq<crate::scanner::ContextView>>,
    pub context_after: Option<Seq<crate::scanner::ContextView>>,
    pub truncated: Option<bool>,
}

pub open spec fn public_view(m: Match) -> PublicMatchView {
    PublicMatchView {
        line_number: m.line_number,
        line: m.line@,
        context_before: match m.context_before {
            Some(v) => Some(crate::scanner::context_views(v@)),
            None => None,
        },
        context_after: match m.context_after {
            Some(v) => Some(crate::scanner::context_views(v@)),
            None => None,
        },
        truncated: m.truncated,
    }
}

/// How a collected match is returned: empty context lists and a false
/// truncation flag are left out, the line number saturates at `u32::MAX`.
pub open spec fn published(m: MatchView) -> PublicMatchView {
    PublicMatchView {
        line_number: clamp_line(m.line_number),
        line: m.line,
        context_before: if m.before.len() == 0 { None } else { Some(m.before) },
        context_after: if m.after.len() == 0 { None } else { Some(m.after) },
        truncated: if m.truncated { Some(true) } else { None },
    }
}

/// A collected match in the form returned to callers.
pub fn to_public_match(m: &CollectedMatch) -> (r: Match)
    ensures
        public_view(r) == published(crate::scanner::match_view(*m)),
{
    let context_before = if m.context_before.len() == 0 {
        None
    } else {
        Some(m.context_before.to_vec())
    };
    let context_after = if m.context_after.len() == 0 {
        None
    } else {
        Some(m.context_after.to_vec())
    };
    Match {
        line_number: clamp_u32(m.line_number),
        line: m.line.clone(),
        context_before,
        context_after,
        truncated: if m.truncated { Some(true) } else { None },
    }
}

/// A result with no matches, carrying `error` if given.
pub fn empty_search_result(error: Option<String>) -> (r: SearchResult)
    ensures
        r.matches@.len() == 0,
        r.match_count == 0,
        !r.limit_reached,
        r.error == error,
{
    SearchResult { matches: Vec::new(), match_count: 0, limit_reached: false, error }
}

/// The returned form of a list of collected matches.
pub open spec fn published_all(v: Seq<MatchView>) -> Seq<PublicMatchView> {
    v.map_values(|m: MatchView| published(m))
}

/// The result of a finished scan.
pub fn search_result(outcome: &ScanOutcome) -> (r: SearchResult)
    ensures
        r.matches@.map_values(|m: Match| public_view(m)) == published_all(match_views(outcome.matches@)),
        r.match_count == clamp_line(outcome.match_count),
        r.limit_reached == outcome.limit_reached,
        r.error is None,
{
    let mut matches: Vec<Match> = Vec::new();
    let mut i: usize = 0;
    while i < outcome.matches.len()
        invariant
            i <= outcome.matches.len(),
            matches@.map_values(|m: Match| public_view(m)) == published_all(match_views(outcome.matches@.take(i as int))),
        decreases outcome.matches.len() - i,
    {
        let ghost before = matches@;
        let m = to_public_match(&outcome.matches[i]);
        matches.push(m);
        assert(outcome.matches@.take(i + 1) =~= outcome.matches@.take(i as int).push(outcome.matches@[i as int]));
        assert(matches@.map_values(|m: Match| public_view(m)) =~= before.map_values(|m: Match| public_view(m)).push(public_view(m)));
        assert(published_all(match_views(outcome.matches@.take(i + 1))) =~= published_all(match_views(outcome.matches@.take(i as int))).push(published(crate::scanner::match_view(outcome.matches@[i as int]))));
        i = i + 1;
    }
    assert(outcome.matches@.take(outcome.matches.len() as int) =~= outcome.matches@);
    SearchResult {
        matches,
        match_count: clamp_u32(outcome.match_count),
        limit_reached: outcome.limit_reached,
        error: None,
    }
}

/// A compiled pattern with the settings to scan with.
pub struct SearchPlan {
    pub regex: Regex,
    pub params: SearchParams,
}

/// Prepares a content search: compiles the pattern (an invalid one gives an
/// empty result carrying the error) and resolves the settings.
pub fn plan_search(options: &SearchOptions) -> (r: Result<SearchPlan, SearchResult>)
    ensures
        ({
            let ic = match options.ignore_case {
                Some(b) => b,
                None => false,
            };
            let ml = match options.multiline {
                Some(b) => b,
                None => false,
            };
            &&& r is Ok == regex_compiles(options.pattern@, ic, ml)
            &&& r matches Ok(plan) ==> plan.params == params_of(*options) && plan.regex.pattern()
                == options.pattern@ && plan.regex.ignore_case() == ic && plan.regex.multiline() == ml
            &&& r matches Err(res) ==> res.matches@.len() == 0 && res.match_count == 0
                && !res.limit_reached && (res.error matches Some(t) && crate::text::starts_with_spec(t@, regex_error_prefix()))
        }),
{
    let ignore_case = options.ignore_case.unwrap_or(false);
    let multiline = options.multiline.unwrap_or(false);
    match build_matcher(options.pattern.as_str(), ignore_case, multiline) {
        Ok(regex) => Ok(SearchPlan { regex, params: search_params(options) }),
        Err(e) => {
            let text = match e {
                SearchError::InvalidInput(t) => t,
                SearchError::Cancelled(_) => String::new(),
            };
            Err(empty_search_result(Some(text)))
        },
    }
}

/// The result of a search whose searcher reported `events` for the content,
/// under the settings of `params`.
pub fn search_from_events(params: &SearchParams, events: &Vec<ScanEvent>) -> (r: SearchResult)
    ensures
        ({
            let s = run_events(
                initial_view(params.max_count, params.offset, columns_of(params.max_columns), params.mode == OutputMode::Content),
                events@,
            ).0;
            &&& r.matches@.map_values(|m: Match| public_view(m)) == published_all(s.matches)
            &&& r.match_count == clamp_line(s.match_count)
            &&& r.limit_reached == s.limit_reached
            &&& r.error is None
        }),
{
    let max_columns: Option<usize> = match params.max_columns {
        Some(v) => Some(v as usize),
        None => None,
    };
    let outcome = scan_events(params.max_count, params.offset, max_columns, params.mode == OutputMode::Content, events);
    search_result(&outcome)
}

} // verus!
