//! Multi-file content search: request planning, file selection, and the two
//! ways of aggregating per-file scans (sequential with a global offset and
//! limit, or merged after an unordered parallel scan).

use crate::discovery::{node_modules_dir, should_skip_path, skipped};
use crate::error::{invalid_with_prefix, SearchError};
use crate::globs::{build_filter_pattern, compile_pattern, filter_pattern, glob_accepts, glob_compiles, glob_is_match, invalid_glob_prefix, PathGlob};
use crate::order::{chars_lt, is_permutation, sort_keys, SortKey};
use crate::scanner::{clamp_line, match_view, match_views, CollectedMatch, MatchView, ScanOutcome};
use crate::search::{
    build_matcher, clamp_u32, params_of, published, regex_compiles, regex_error_prefix,
    OutputMode, PublicMatchView, Regex, SearchOptions, SearchParams,
};
use crate::text::{chars_of, contains_spec, trim_chars, trim_spec};
use crate::types::{matches_type_filter, passes_type_filter, resolve_type_filter, TypeFilter};
use vstd::prelude::*;

verus! {

/// Options of a multi-file search.
pub struct GrepOptions {
    /// Regular expression.
    pub pattern: String,
    /// Directory or file to search.
    pub path: String,
    /// Glob that file paths must match.
    pub glob: Option<String>,
    /// File type (a family such as `rust`, or a bare extension).
    pub type_filter: Option<String>,
    /// Case-insensitive matching (default: false).
    pub ignore_case: Option<bool>,
    /// Multi-line mode (default: false).
    pub multiline: Option<bool>,
    /// Include hidden files (default: true).
    pub hidden: Option<bool>,
    /// Most matches to return, over all files.
    pub max_count: Option<u32>,
    /// Matches to skip first, over all files (default: 0).
    pub offset: Option<u32>,
    /// Context lines before each match.
    pub context_before: Option<u32>,
    /// Context lines after each match.
    pub context_after: Option<u32>,
    /// Context lines on both sides, when neither of the two above is given.
    pub context: Option<u32>,
    /// Longest line kept whole, in characters.
    pub max_columns: Option<u32>,
    /// `content` (default), `count` or `filesWithMatches`.
    pub mode: Option<String>,
    /// Timeout for the whole search, in milliseconds.
    pub timeout_ms: Option<u32>,
}

/// One match, or one per-file count, of a multi-file search.
pub struct GrepMatch {
    /// The file, relative to the searched directory.
    pub path: String,
    /// 1-based line number; 0 for a count record.
    pub line_number: u32,
    /// The matched line; empty for a count record.
    pub line: String,
    /// Context before, absent when empty.
    pub context_before: Option<Vec<crate::scanner::ContextLine>>,
    /// Context after, absent when empty.
    pub context_after: Option<Vec<crate::scanner::ContextLine>>,
    /// `Some(true)` when the line was truncated.
    pub truncated: Option<bool>,
    /// The file's match count, in count mode.
    pub match_count: Option<u32>,
}

/// The result of a multi-file search.
pub struct GrepResult {
    /// Matches, or per-file counts.
    pub matches: Vec<GrepMatch>,
    /// Matches over all searched files, saturating.
    pub total_matches: u32,
    /// Files with at least one match.
    pub files_with_matches: u32,
    /// Files opened and scanned.
    pub files_searched: u32,
    /// `Some(true)` when the limit stopped the search.
    pub limit_reached: Option<bool>,
}

/// A record of a multi-file search as plain values.
pub struct GrepMatchView {
    pub path: Seq<char>,
    pub record: PublicMatchView,
    pub match_count: Option<u32>,
}

pub open spec fn grep_view(m: GrepMatch) -> GrepMatchView {
    GrepMatchView {
        path: m.path@,
        record: crate::search::public_view(
            crate::search::Match {
                line_number: m.line_number,
                line: m.line,
                context_before: m.context_before,
                context_after: m.context_after,
                truncated: m.truncated,
            },
        ),
        match_count: m.match_count,
    }
}

pub open spec fn grep_views(v: Seq<GrepMatch>) -> Seq<GrepMatchView> {
    v.map_values(|m: GrepMatch| grep_view(m))
}

/// The record of one collected match of the file at `path`.
pub open spec fn content_record(path: Seq<char>, m: MatchView) -> GrepMatchView {
    GrepMatchView { path, record: published(m), match_count: None }
}

/// The count record of the file at `path`.
pub open spec fn count_record(path: Seq<char>, count: u64) -> GrepMatchView {
    GrepMatchView {
        path,
        record: PublicMatchView {
            line_number: 0,
            line: Seq::empty(),
            context_before: None,
            context_after: None,
            truncated: None,
        },
        match_count: Some(clamp_line(count)),
    }
}

/// The records a file with a scan outcome contributes: none without
/// matches, else one per collected match (content) or one count (count).
pub open spec fn file_records(path: Seq<char>, matches: Seq<MatchView>, count: u64, mode: OutputMode) -> Seq<GrepMatchView> {
    if count == 0 {
        Seq::empty()
    } else if mode == OutputMode::Content {
        matches.map_values(|m: MatchView| content_record(path, m))
    } else {
        seq![count_record(path, count)]
    }
}

/// A copy of the returned record of one collected match.
pub fn to_grep_match(path: &str, m: &CollectedMatch) -> (r: GrepMatch)
    ensures
        grep_view(r) == content_record(path@, match_view(*m)),
{
    let p = crate::search::to_public_match(m);
    GrepMatch {
        path: String::from_str(path),
        line_number: p.line_number,
        line: p.line,
        context_before: p.context_before,
        context_after: p.context_after,
        truncated: p.truncated,
        match_count: None,
    }
}

/// The count record of a file.
pub fn count_match(path: &str, count: u64) -> (r: GrepMatch)
    ensures
        grep_view(r) == count_record(path@, count),
{
    let r = GrepMatch {
        path: String::from_str(path),
        line_number: 0,
        line: String::new(),
        context_before: None,
        context_after: None,
        truncated: None,
        match_count: Some(clamp_u32(count)),
    };
    assert(grep_view(r).record.line =~= Seq::<char>::empty());
    r
}

/// Appends the records of one scanned file to `out`.
pub fn push_file_records(out: &mut Vec<GrepMatch>, path: &str, outcome: &ScanOutcome, mode: OutputMode)
    ensures
        grep_views(final(out)@) == grep_views(old(out)@) + file_records(path@, match_views(outcome.matches@), outcome.match_count, mode),
{
    let ghost start = out@;
    if outcome.match_count == 0 {
        assert(grep_views(out@) =~= grep_views(start) + Seq::<GrepMatchView>::empty());
        return;
    }
    match mode {
        OutputMode::Content => {
            let mut i: usize = 0;
            while i < outcome.matches.len()
                invariant
                    i <= outcome.matches.len(),
                    grep_views(out@) == grep_views(start) + match_views(outcome.matches@).take(i as int).map_values(
                        |m: MatchView| content_record(path@, m),
                    ),
                decreases outcome.matches.len() - i,
            {
                let ghost before = out@;
                let g = to_grep_match(path, &outcome.matches[i]);
                out.push(g);
                assert(match_views(outcome.matches@).take(i + 1) =~= match_views(outcome.matches@).take(i as int).push(match_view(outcome.matches@[i as int])));
                assert(grep_views(out@) =~= grep_views(before).push(grep_view(g)));
                assert(grep_views(out@) =~= grep_views(start) + match_views(outcome.matches@).take(i + 1).map_values(
                    |m: MatchView| content_record(path@, m),
                ));
                i = i + 1;
            }
            assert(match_views(outcome.matches@).take(outcome.matches.len() as int) =~= match_views(outcome.matches@));
        },
        OutputMode::Count => {
            let g = count_match(path, outcome.match_count);
            out.push(g);
            assert(grep_views(out@) =~= grep_views(start) + seq![count_record(path@, outcome.match_count)]);
        },
    }
}

/// A result with no records.
pub fn empty_grep_result(files_searched: u32) -> (r: GrepResult)
    ensures
        r.matches@.len() == 0,
        r.total_matches == 0,
        r.files_with_matches == 0,
        r.files_searched == files_searched,
        r.limit_reached is None,
{
    GrepResult { matches: Vec::new(), total_matches: 0, files_with_matches: 0, files_searched, limit_reached: None }
}

/// The result of searching one named file whose scan gave `outcome`
/// (`path` is reported as given).
pub fn single_file_result(path: &str, outcome: &ScanOutcome, mode: OutputMode, max_count: Option<u64>) -> (r: GrepResult)
    ensures
        outcome.match_count == 0 ==> r.matches@.len() == 0 && r.total_matches == 0 && r.files_with_matches == 0
            && r.files_searched == 1 && r.limit_reached is None,
        outcome.match_count > 0 ==> {
            &&& grep_views(r.matches@) == file_records(path@, match_views(outcome.matches@), outcome.match_count, mode)
            &&& r.total_matches == clamp_line(outcome.match_count)
            &&& r.files_with_matches == 1 && r.files_searched == 1
            &&& r.limit_reached == if outcome.limit_reached || (max_count is Some && outcome.collected >= max_count->0) {
                Some(true)
            } else {
                None::<bool>
            }
        },
{
    if outcome.match_count == 0 {
        return empty_grep_result(1);
    }
    let mut matches: Vec<GrepMatch> = Vec::new();
    assert(grep_views(matches@) =~= Seq::<GrepMatchView>::empty());
    push_file_records(&mut matches, path, outcome, mode);
    assert(grep_views(matches@) =~= file_records(path@, match_views(outcome.matches@), outcome.match_count, mode));
    let limit = outcome.limit_reached || match max_count {
        Some(m) => outcome.collected >= m,
        None => false,
    };
    GrepResult {
        matches,
        total_matches: clamp_u32(outcome.match_count),
        files_with_matches: 1,
        files_searched: 1,
        limit_reached: if limit { Some(true) } else { None },
    }
}

/// `a - b`, or 0 when `b > a`.
pub open spec fn sat_sub(a: u64, b: u64) -> u64 {
    if a >= b {
        (a - b) as u64
    } else {
        0
    }
}

/// `a + b`, saturating at `u64::MAX`.
pub open spec fn sat_add(a: u64, b: u64) -> u64 {
    if a + b > u64::MAX {
        u64::MAX
    } else {
        (a + b) as u64
    }
}

/// `n + 1`, saturating at `u32::MAX`.
pub open spec fn sat_inc32(n: u32) -> u32 {
    if n == u32::MAX {
        n
    } else {
        (n + 1) as u32
    }
}

/// The state of a sequential search as plain values.
pub struct SequentialView {
    pub records: Seq<GrepMatchView>,
    pub total_matches: u64,
    pub collected: u64,
    pub files_with_matches: u32,
    pub files_searched: u32,
    pub limit_reached: bool,
    pub mode: OutputMode,
    pub max_count: Option<u64>,
    pub offset: u64,
    pub scanning: bool,
}

/// The counts of a sequential search agree: no more files with matches than
/// files searched (one fewer while an opened file awaits its scan, unless
/// the count saturated), and no more records than matches.
pub open spec fn sequential_wf(s: SequentialView) -> bool {
    &&& s.files_with_matches <= s.files_searched
    &&& s.scanning ==> (s.files_with_matches < s.files_searched || s.files_searched == u32::MAX)
    &&& s.records.len() <= s.total_matches
}

/// The state once the file being handed over counts as searched.
pub open spec fn with_file_counted(s: SequentialView) -> SequentialView {
    SequentialView {
        files_searched: if s.scanning { s.files_searched } else { sat_inc32(s.files_searched) },
        scanning: false,
        ..s
    }
}

/// The (offset, limit) window the next file is scanned with: what is left of
/// the global offset after the matches seen so far, and what is left of the
/// global limit after the matches collected so far.
pub open spec fn window_of(s: SequentialView) -> (u64, Option<u64>) {
    (
        sat_sub(s.offset, s.total_matches),
        match s.max_count {
            Some(m) => Some(sat_sub(m, s.collected)),
            None => None,
        },
    )
}

/// Files in path order, each scanned with what is left of a global offset
/// and limit; scanning stops once the limit is reached.
pub struct SequentialSearch {
    matches: Vec<GrepMatch>,
    total_matches: u64,
    collected: u64,
    files_with_matches: u32,
    files_searched: u32,
    limit_reached: bool,
    mode: OutputMode,
    max_count: Option<u64>,
    offset: u64,
    scanning: bool,
}

impl View for SequentialSearch {
    type V = SequentialView;

    closed spec fn view(&self) -> SequentialView {
        SequentialView {
            records: grep_views(self.matches@),
            total_matches: self.total_matches,
            collected: self.collected,
            files_with_matches: self.files_with_matches,
            files_searched: self.files_searched,
            limit_reached: self.limit_reached,
            mode: self.mode,
            max_count: self.max_count,
            offset: self.offset,
            scanning: self.scanning,
        }
    }
}

impl SequentialSearch {
    /// A search with nothing scanned yet.
    pub fn new(mode: OutputMode, max_count: Option<u64>, offset: u64) -> (r: SequentialSearch)
        ensures
            r@ == (SequentialView {
                records: Seq::empty(),
                total_matches: 0,
                collected: 0,
                files_with_matches: 0,
                files_searched: 0,
                limit_reached: false,
                mode,
                max_count,
                offset,
                scanning: false,
            }),
            sequential_wf(r@),
    {
        let r = SequentialSearch {
            matches: Vec::new(),
            total_matches: 0,
            collected: 0,
            files_with_matches: 0,
            files_searched: 0,
            limit_reached: false,
            mode,
            max_count,
            offset,
            scanning: false,
        };
        assert(r@.records =~= Seq::<GrepMatchView>::empty());
        r
    }

    /// The window for the next file, or `None` when no further file may be
    /// opened (the limit was reached, or nothing of it is left, which marks
    /// the limit reached).
    pub fn next_window(&mut self) -> (r: Option<(u64, Option<u64>)>)
        ensures
            old(self)@.limit_reached ==> r is None && final(self)@ == old(self)@,
            !old(self)@.limit_reached && window_of(old(self)@).1 == Some(0u64) ==> r is None
                && final(self)@ == (SequentialView { limit_reached: true, ..old(self)@ }),
            sequential_wf(old(self)@) ==> sequential_wf(final(self)@),
            !old(self)@.limit_reached && window_of(old(self)@).1 != Some(0u64) ==> r == Some(window_of(old(self)@))
                && final(self)@ == old(self)@,
    {
        if self.limit_reached {
            return None;
        }
        let file_offset = self.offset.saturating_sub(self.total_matches);
        let remaining = match self.max_count {
            Some(m) => Some(m.saturating_sub(self.collected)),
            None => None,
        };
        if remaining == Some(0u64) {
            self.limit_reached = true;
            return None;
        }
        Some((file_offset, remaining))
    }

    /// Records that a file was opened for scanning.
    pub fn file_opened(&mut self)
        ensures
            final(self)@ == (SequentialView {
                files_searched: sat_inc32(old(self)@.files_searched),
                scanning: true,
                ..old(self)@
            }),
            sequential_wf(old(self)@) ==> sequential_wf(final(self)@),
    {
        self.files_searched = self.files_searched.saturating_add(1);
        self.scanning = true;
    }

    /// Takes the outcome of scanning the file at `path` with the last window.
    /// The file counts as searched (if `file_opened` did not already count it).
    pub fn file_scanned(&mut self, path: &str, outcome: &ScanOutcome)
        ensures
            outcome.match_count == 0 ==> final(self)@ == with_file_counted(old(self)@),
            outcome.match_count > 0 ==> ({
                let s = with_file_counted(old(self)@);
                let collected = sat_add(s.collected, outcome.collected);
                final(self)@ == SequentialView {
                    records: s.records + file_records(path@, match_views(outcome.matches@), outcome.match_count, s.mode),
                    total_matches: sat_add(s.total_matches, outcome.match_count),
                    collected,
                    files_with_matches: sat_inc32(s.files_with_matches),
                    limit_reached: s.limit_reached || outcome.limit_reached || (s.max_count is Some && collected >= s.max_count->0),
                    ..s
                }
            }),
            sequential_wf(old(self)@) && crate::scanner::outcome_wf(*outcome) ==> sequential_wf(final(self)@),
    {
        if !self.scanning {
            self.files_searched = self.files_searched.saturating_add(1);
        }
        self.scanning = false;
        if outcome.match_count == 0 {
            return;
        }
        let ghost before = grep_views(self.matches@);
        self.files_with_matches = self.files_with_matches.saturating_add(1);
        self.total_matches = self.total_matches.saturating_add(outcome.match_count);
        self.collected = self.collected.saturating_add(outcome.collected);
        push_file_records(&mut self.matches, path, outcome, self.mode);
        let kept = self.matches.len();
        proof {
            let added = file_records(path@, match_views(outcome.matches@), outcome.match_count, self.mode);
            assert(grep_views(self.matches@) == before + added);
            assert(kept as nat == grep_views(self.matches@).len());
            if self.mode == OutputMode::Content {
                assert(added.len() == outcome.matches@.len());
            } else {
                assert(added.len() == 1);
            }
        }
        let over = match self.max_count {
            Some(m) => self.collected >= m,
            None => false,
        };
        if outcome.limit_reached || over {
            self.limit_reached = true;
        }
    }

    /// The result so far.
    pub fn into_result(self) -> (r: GrepResult)
        ensures
            grep_views(r.matches@) == self@.records,
            r.total_matches == clamp_line(self@.total_matches),
            r.files_with_matches == self@.files_with_matches,
            r.files_searched == self@.files_searched,
            r.limit_reached == if self@.limit_reached { Some(true) } else { None::<bool> },
            sequential_wf(self@) ==> r.files_with_matches <= r.files_searched && (r.matches@.len() <= r.total_matches
                || r.total_matches == u32::MAX),
    {
        GrepResult {
            matches: self.matches,
            total_matches: clamp_u32(self.total_matches),
            files_with_matches: self.files_with_matches,
            files_searched: self.files_searched,
            limit_reached: if self.limit_reached { Some(true) } else { None },
        }
    }
}

/// The scan of one file of a multi-file search.
pub struct FileSearchResult {
    /// The file, relative to the searched directory.
    pub relative_path: String,
    /// What its scan produced.
    pub outcome: ScanOutcome,
}

/// The records of `files`, in order.
pub open spec fn merged_records(files: Seq<FileSearchResult>, mode: OutputMode) -> Seq<GrepMatchView>
    decreases files.len(),
{
    if files.len() == 0 {
        Seq::empty()
    } else {
        let f = files.last();
        merged_records(files.drop_last(), mode) + file_records(f.relative_path@, match_views(f.outcome.matches@), f.outcome.match_count, mode)
    }
}

/// The matches of `files`, summed.
pub open spec fn merged_total(files: Seq<FileSearchResult>) -> nat
    decreases files.len(),
{
    if files.len() == 0 {
        0
    } else {
        merged_total(files.drop_last()) + files.last().outcome.match_count as nat
    }
}

/// How many of `files` have a match.
pub open spec fn merged_with_matches(files: Seq<FileSearchResult>) -> nat
    decreases files.len(),
{
    if files.len() == 0 {
        0
    } else {
        merged_with_matches(files.drop_last()) + if files.last().outcome.match_count > 0 { 1nat } else { 0nat }
    }
}

/// `files` are in path order.
pub open spec fn paths_sorted(files: Seq<FileSearchResult>) -> bool {
    forall|i: int, j: int| 0 <= i < j < files.len() ==> !chars_lt(#[trigger] files[j].relative_path@, #[trigger] files[i].relative_path@)
}

/// `files` rearranged by `p`.
pub open spec fn permuted(files: Seq<FileSearchResult>, p: Seq<int>) -> Seq<FileSearchResult> {
    Seq::new(files.len(), |i: int| files[p[i]])
}

proof fn lemma_merged_counts(files: Seq<FileSearchResult>, mode: OutputMode)
    ensures
        merged_with_matches(files) <= files.len(),
        (forall|i: int| 0 <= i < files.len() ==> crate::scanner::outcome_wf(#[trigger] files[i].outcome))
            ==> merged_records(files, mode).len() <= merged_total(files),
    decreases files.len(),
{
    if files.len() > 0 {
        let rest = files.drop_last();
        lemma_merged_counts(rest, mode);
        if forall|i: int| 0 <= i < files.len() ==> crate::scanner::outcome_wf(#[trigger] files[i].outcome) {
            assert forall|i: int| 0 <= i < rest.len() implies crate::scanner::outcome_wf(#[trigger] rest[i].outcome) by {
                assert(rest[i] == files[i]);
            }
            assert(crate::scanner::outcome_wf(files[files.len() - 1].outcome));
        }
    }
}

/// The per-file scans put in path order by `p`.
pub open spec fn merged_in_order(results: Seq<FileSearchResult>, p: Seq<int>) -> bool {
    is_permutation(p, results.len()) && paths_sorted(permuted(results, p))
}

/// `r` gathers `results` in path order.
pub open spec fn merge_outcome(results: Seq<FileSearchResult>, mode: OutputMode, r: GrepResult) -> bool {
    &&& exists|p: Seq<int>|
        #[trigger] merged_in_order(results, p) && grep_views(r.matches@) == merged_records(permuted(results, p), mode)
            && r.total_matches == crate::fuzzy::clamp_count(merged_total(permuted(results, p)))
            && r.files_with_matches == crate::fuzzy::clamp_count(merged_with_matches(permuted(results, p)))
    &&& r.files_searched == crate::fuzzy::clamp_count(results.len() as nat)
    &&& r.limit_reached is None
}

/// Every per-file outcome has consistent counts.
pub open spec fn outcomes_wf(results: Seq<FileSearchResult>) -> bool {
    forall|i: int| 0 <= i < results.len() ==> crate::scanner::outcome_wf(#[trigger] results[i].outcome)
}

/// Repeating a parallel search over the same files (distinct paths, as a
/// walk gives) gives the same records, totals and counts, whatever order
/// the scans finished in.
pub proof fn lemma_merge_idempotent(results: Seq<FileSearchResult>, mode: OutputMode, r1: GrepResult, r2: GrepResult)
    requires
        forall|i: int, j: int| 0 <= i < j < results.len() ==> #[trigger] results[i].relative_path@ != #[trigger] results[j].relative_path@,
        merge_outcome(results, mode, r1),
        merge_outcome(results, mode, r2),
    ensures
        grep_views(r1.matches@) == grep_views(r2.matches@),
        r1.total_matches == r2.total_matches,
        r1.files_with_matches == r2.files_with_matches,
        r1.files_searched == r2.files_searched,
{
    let n = results.len();
    let p = choose|p: Seq<int>|
        #[trigger] merged_in_order(results, p) && grep_views(r1.matches@) == merged_records(permuted(results, p), mode)
            && r1.total_matches == crate::fuzzy::clamp_count(merged_total(permuted(results, p)))
            && r1.files_with_matches == crate::fuzzy::clamp_count(merged_with_matches(permuted(results, p)));
    let q = choose|q: Seq<int>|
        #[trigger] merged_in_order(results, q) && grep_views(r2.matches@) == merged_records(permuted(results, q), mode)
            && r2.total_matches == crate::fuzzy::clamp_count(merged_total(permuted(results, q)))
            && r2.files_with_matches == crate::fuzzy::clamp_count(merged_with_matches(permuted(results, q)));
    let before = |a: int, b: int| chars_lt(results[a].relative_path@, results[b].relative_path@);
    assert forall|a: int, b: int| 0 <= a < n && 0 <= b < n && #[trigger] before(a, b) implies !before(b, a) by {
        crate::order::lemma_chars_lt_asymmetric(results[a].relative_path@, results[b].relative_path@);
    }
    assert forall|i: int, j: int| 0 <= i < j < n implies before(#[trigger] p[i], #[trigger] p[j]) by {
        let s = permuted(results, p);
        assert(!chars_lt(s[j].relative_path@, s[i].relative_path@));
        assert(p[i] != p[j]);
        if p[i] < p[j] {
            assert(results[p[i]].relative_path@ != results[p[j]].relative_path@);
        } else {
            assert(results[p[j]].relative_path@ != results[p[i]].relative_path@);
        }
        crate::order::lemma_chars_lt_total(results[p[i]].relative_path@, results[p[j]].relative_path@);
    }
    assert forall|i: int, j: int| 0 <= i < j < n implies before(#[trigger] q[i], #[trigger] q[j]) by {
        let s = permuted(results, q);
        assert(!chars_lt(s[j].relative_path@, s[i].relative_path@));
        assert(q[i] != q[j]);
        if q[i] < q[j] {
            assert(results[q[i]].relative_path@ != results[q[j]].relative_path@);
        } else {
            assert(results[q[j]].relative_path@ != results[q[i]].relative_path@);
        }
        crate::order::lemma_chars_lt_total(results[q[i]].relative_path@, results[q[j]].relative_path@);
    }
    crate::order::lemma_sorted_permutation_unique(n, p, q, before);
}

/// Merges per-file scans that finished in any order: the files are put in
/// path order, and their records, totals and counts are gathered in it.
pub fn merge_parallel(results: &Vec<FileSearchResult>, mode: OutputMode) -> (r: GrepResult)
    ensures
        merge_outcome(results@, mode, r),
        r.files_with_matches <= r.files_searched,
        outcomes_wf(results@) ==> (r.matches@.len() <= r.total_matches || r.total_matches == u32::MAX),
{
    let mut keys: Vec<SortKey> = Vec::new();
    let mut i: usize = 0;
    while i < results.len()
        invariant
            i <= results.len(),
            keys@.len() == i,
            forall|k: int| 0 <= k < i ==> (#[trigger] keys@[k]).index == k && keys@[k].rank == 0 && keys@[k].path@ == results@[k].relative_path@,
        decreases results.len() - i,
    {
        let path = chars_of(results[i].relative_path.as_str());
        keys.push(SortKey { rank: 0, path, index: i });
        i = i + 1;
    }
    let ghost keys0 = keys@;
    sort_keys(&mut keys);
    let ghost p = choose|p: Seq<int>| is_permutation(p, keys0.len()) && #[trigger] keys@.len() == keys0.len() && forall|i: int| 0 <= i < p.len() ==> #[trigger] keys@[i] == keys0[p[i]];
    let ghost sorted = permuted(results@, p);
    let mut matches: Vec<GrepMatch> = Vec::new();
    let mut total: u64 = 0;
    let mut with_matches: u32 = 0;
    let mut j: usize = 0;
    assert(grep_views(matches@) =~= Seq::<GrepMatchView>::empty());
    assert(sorted.take(0) =~= Seq::<FileSearchResult>::empty());
    while j < keys.len()
        invariant
            j <= keys@.len(),
            keys@.len() == keys0.len() == results@.len(),
            is_permutation(p, keys0.len()),
            forall|i: int| 0 <= i < p.len() ==> #[trigger] keys@[i] == keys0[p[i]],
            forall|k: int| 0 <= k < keys0.len() ==> (#[trigger] keys0[k]).index == k,
            sorted == permuted(results@, p),
            grep_views(matches@) == merged_records(sorted.take(j as int), mode),
            total as nat == if merged_total(sorted.take(j as int)) > u64::MAX { u64::MAX as nat } else { merged_total(sorted.take(j as int)) },
            with_matches as nat == if merged_with_matches(sorted.take(j as int)) > u32::MAX { u32::MAX as nat } else { merged_with_matches(sorted.take(j as int)) },
        decreases keys@.len() - j,
    {
        let idx = keys[j].index;
        assert(keys@[j as int] == keys0[p[j as int]]);
        assert(idx == p[j as int]);
        let f = &results[idx];
        assert(sorted[j as int] == *f);
        assert(sorted.take(j + 1).drop_last() =~= sorted.take(j as int));
        assert(sorted.take(j + 1).last() == *f);
        if f.outcome.match_count > 0 {
            with_matches = with_matches.saturating_add(1);
            total = total.saturating_add(f.outcome.match_count);
        }
        push_file_records(&mut matches, f.relative_path.as_str(), &f.outcome, mode);
        j = j + 1;
    }
    assert(sorted.take(keys@.len() as int) =~= sorted);
    proof {
        assert forall|a: int, b: int| 0 <= a < b < sorted.len() implies !chars_lt(#[trigger] sorted[b].relative_path@, #[trigger] sorted[a].relative_path@) by {
            assert(!crate::order::key_before(keys@[b], keys@[a]));
            assert(keys@[a] == keys0[p[a]] && keys@[b] == keys0[p[b]]);
        }
    }
    let files_searched: u32 = if results.len() > u32::MAX as usize { u32::MAX } else { results.len() as u32 };
    assert(merged_in_order(results@, p));
    proof {
        lemma_merged_counts(sorted, mode);
        assert(sorted.len() == results@.len());
        if outcomes_wf(results@) {
            assert forall|i: int| 0 <= i < sorted.len() implies crate::scanner::outcome_wf(#[trigger] sorted[i].outcome) by {
                assert(sorted[i] == results@[p[i]]);
            }
            assert(grep_views(matches@).len() == matches@.len());
        }
    }
    GrepResult { matches, total_matches: clamp_u32(total), files_with_matches: with_matches, files_searched, limit_reached: None }
}

/// The scan settings of a multi-file search: as for one buffer, but with no
/// context outside content mode.
pub open spec fn grep_params_of(o: GrepOptions) -> SearchParams {
    let base = params_of(
        SearchOptions {
            pattern: o.pattern,
            ignore_case: o.ignore_case,
            multiline: o.multiline,
            max_count: o.max_count,
            offset: o.offset,
            context_before: o.context_before,
            context_after: o.context_after,
            context: o.context,
            max_columns: o.max_columns,
            mode: o.mode,
        },
    );
    if base.mode == OutputMode::Content {
        base
    } else {
        SearchParams { context_before: 0, context_after: 0, ..base }
    }
}

/// Whether a strategy may scan files in parallel: only without a global
/// limit or offset, which need files scanned in order.
pub open spec fn parallel_allowed(params: SearchParams) -> bool {
    params.max_count is None && params.offset == 0
}

/// Everything a multi-file search needs once its options are checked.
pub struct GrepPlan {
    /// The compiled pattern.
    pub regex: Regex,
    /// Scan settings.
    pub params: SearchParams,
    /// Whether hidden files are walked.
    pub include_hidden: bool,
    /// The file glob, if one was given.
    pub glob: Option<PathGlob>,
    /// The file-type filter, if one was given.
    pub type_filter: Option<TypeFilter>,
    /// Whether `node_modules` contents are searched.
    pub wants_node_modules: bool,
}

impl GrepPlan {
    /// Whether the files may be scanned in parallel.
    pub fn allow_parallel(&self) -> (r: bool)
        ensures
            r == parallel_allowed(self.params),
    {
        self.params.max_count.is_none() && self.params.offset == 0
    }

    /// Whether a walked entry at `relative_path` is searched: a file, outside
    /// `.git` (and `node_modules` unless wanted), accepted by the glob and the
    /// type filter when given.
    pub fn select_file(&self, relative_path: &str, is_file: bool) -> (r: bool)
        ensures
            r == (is_file && !skipped(relative_path@, self.wants_node_modules) && match self.glob {
                Some(g) => glob_accepts(g.pattern(), relative_path@),
                None => true,
            } && match self.type_filter {
                Some(t) => passes_type_filter(relative_path@, t),
                None => true,
            }),
    {
        if !is_file {
            return false;
        }
        let chars = chars_of(relative_path);
        if should_skip_path(chars.as_slice(), self.wants_node_modules) {
            return false;
        }
        match &self.glob {
            Some(g) => {
                if !glob_is_match(g, relative_path) {
                    return false;
                }
            },
            None => {},
        }
        match &self.type_filter {
            Some(t) => matches_type_filter(chars.as_slice(), t),
            None => true,
        }
    }
}

/// A glob option as used: trimmed, and absent when blank.
pub open spec fn glob_text(glob: Option<String>) -> Option<Seq<char>> {
    match glob {
        Some(g) => if trim_spec(g@).len() == 0 { None } else { Some(trim_spec(g@)) },
        None => None,
    }
}

/// Compiles the optional file glob (trimmed; blank means none).
pub fn compile_filter_glob(glob: Option<&str>) -> (r: Result<Option<PathGlob>, SearchError>)
    ensures
        ({
            let t = match glob {
                Some(g) => if trim_spec(g@).len() == 0 { None } else { Some(trim_spec(g@)) },
                None => None::<Seq<char>>,
            };
            &&& t is None ==> r == Ok::<Option<PathGlob>, SearchError>(None)
            &&& t matches Some(s) ==> (r matches Ok(Some(g)) ==> g.pattern() == filter_pattern(s))
            &&& t matches Some(s) ==> (r is Ok <==> glob_compiles(filter_pattern(s)))
            &&& t matches Some(s) ==> !(r matches Ok(None))
            &&& r matches Err(e) ==> invalid_with_prefix(e, invalid_glob_prefix())
        }),
{
    let g = match glob {
        Some(g) => g,
        None => return Ok(None),
    };
    let chars = chars_of(g);
    let trimmed = trim_chars(chars.as_slice());
    if trimmed.len() == 0 {
        return Ok(None);
    }
    let pattern = build_filter_pattern(trimmed.as_slice());
    let compiled = compile_pattern(pattern)?;
    Ok(Some(compiled))
}

/// Checks and compiles the options of a multi-file search. The pattern is
/// checked first, then the glob.
pub fn plan_grep(o: &GrepOptions) -> (r: Result<GrepPlan, SearchError>)
    ensures
        ({
            let ic = match o.ignore_case {
                Some(b) => b,
                None => false,
            };
            let ml = match o.multiline {
                Some(b) => b,
                None => false,
            };
            &&& !regex_compiles(o.pattern@, ic, ml) ==> (r matches Err(e) && invalid_with_prefix(e, regex_error_prefix()))
            &&& regex_compiles(o.pattern@, ic, ml) ==> (glob_text(o.glob) matches Some(s) ==> (r is Ok <==> glob_compiles(filter_pattern(s))))
            &&& regex_compiles(o.pattern@, ic, ml) ==> (glob_text(o.glob) matches Some(s) ==> (r matches Err(e) ==> invalid_with_prefix(e, invalid_glob_prefix())))
            &&& (regex_compiles(o.pattern@, ic, ml) && glob_text(o.glob) is None) ==> r is Ok
            &&& r matches Err(e) ==> e is InvalidInput
            &&& r matches Ok(plan) ==> {
                &&& plan.regex.pattern() == o.pattern@ && plan.regex.ignore_case() == ic && plan.regex.multiline() == ml
                &&& plan.params == grep_params_of(*o)
                &&& plan.include_hidden == match o.hidden {
                    Some(b) => b,
                    None => true,
                }
                &&& match glob_text(o.glob) {
                    Some(s) => plan.glob matches Some(g) && g.pattern() == filter_pattern(s),
                    None => plan.glob is None,
                }
                &&& match o.type_filter {
                    Some(t) => crate::types::filter_matches_name(t@, plan.type_filter),
                    None => plan.type_filter is None,
                }
                &&& plan.wants_node_modules == match o.glob {
                    Some(g) => contains_spec(g@, node_modules_dir()),
                    None => false,
                }
            }
        }),
{
    let ignore_case = o.ignore_case.unwrap_or(false);
    let multiline = o.multiline.unwrap_or(false);
    let regex = build_matcher(o.pattern.as_str(), ignore_case, multiline)?;
    let (context_before, context_after) = crate::search::resolve_context(o.context, o.context_before, o.context_after);
    let mode = match &o.mode {
        Some(m) => crate::search::parse_output_mode(Some(m.as_str())),
        None => crate::search::parse_output_mode(None),
    };
    let (context_before, context_after) = if mode == OutputMode::Content {
        (context_before, context_after)
    } else {
        (0, 0)
    };
    let max_count: Option<u64> = match o.max_count {
        Some(m) => Some(m as u64),
        None => None,
    };
    let offset: u64 = match o.offset {
        Some(v) => v as u64,
        None => 0,
    };
    let params = SearchParams { context_before, context_after, max_columns: o.max_columns, mode, max_count, offset };
    let glob = match &o.glob {
        Some(g) => compile_filter_glob(Some(g.as_str()))?,
        None => compile_filter_glob(None)?,
    };
    let type_filter = match &o.type_filter {
        Some(t) => resolve_type_filter(Some(t.as_str())),
        None => resolve_type_filter(None),
    };
    let wants_node_modules = match &o.glob {
        Some(g) => {
            let chars = chars_of(g.as_str());
            crate::discovery::mentions_node_modules(chars.as_slice())
        },
        None => false,
    };
    Ok(GrepPlan { regex, params, include_hidden: o.hidden.unwrap_or(true), glob, type_filter, wants_node_modules })
}

} // verus!
