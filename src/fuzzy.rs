//! Fuzzy path scoring.

use crate::text::{
    char_lower_of, char_lowercase, contains_chars, contains_spec, is_white_space,
    is_white_space_spec, lower_of, lowercase, starts_with_chars, starts_with_spec,
};
use crate::cancel::CancelToken;
use crate::discovery::{FileType, GlobMatch};
use crate::error::SearchError;
use crate::order::{chars_lt, is_permutation, key_before, sort_keys, SortKey};
use crate::text::{chars_of, string_of, trim_chars, trim_spec};
use vstd::prelude::*;

verus! {

/// Characters that fuzzy matching ignores besides white space.
pub open spec fn is_fuzzy_separator(c: char) -> bool {
    c == '/' || c == '\\' || c == '.' || c == '_' || c == '-'
}

/// `s` without white space and separators, each remaining character lowered.
pub open spec fn normalized(s: Seq<char>) -> Seq<char>
    decreases s.len(),
{
    if s.len() == 0 {
        Seq::empty()
    } else {
        let c = s.last();
        normalized(s.drop_last()) + if is_white_space_spec(c) || is_fuzzy_separator(c) {
            Seq::empty()
        } else {
            char_lower_of(c)
        }
    }
}

/// The text that fuzzy matching compares: `value` stripped of white space
/// and of `/ \ . _ -`, and lowered.
pub fn normalize_fuzzy_text(value: &[char]) -> (r: Vec<char>)
    ensures
        r@ == normalized(value@),
{
    let mut r: Vec<char> = Vec::new();
    let mut i: usize = 0;
    while i < value.len()
        invariant
            i <= value.len(),
            r@ == normalized(value@.subrange(0, i as int)),
        decreases value.len() - i,
    {
        let c = value[i];
        let ghost before = r@;
        if !(is_white_space(c) || c == '/' || c == '\\' || c == '.' || c == '_' || c == '-') {
            let low = char_lowercase(c);
            let mut k: usize = 0;
            while k < low.len()
                invariant
                    k <= low.len(),
                    r@ == before + low@.subrange(0, k as int),
                decreases low.len() - k,
            {
                r.push(low[k]);
                k = k + 1;
                assert(r@ =~= before + low@.subrange(0, k as int));
            }
            assert(low@.subrange(0, low.len() as int) =~= low@);
        }
        proof {
            let s = value@.subrange(0, i + 1);
            assert(s.drop_last() =~= value@.subrange(0, i as int));
            assert(s.last() == c);
            if is_white_space_spec(c) || is_fuzzy_separator(c) {
                assert(r@ =~= before + Seq::<char>::empty());
            }
        }
        i = i + 1;
    }
    assert(value@.subrange(0, value.len() as int) =~= value@);
    r
}

/// The state of a greedy left-to-right match of `q` in the first `n`
/// characters of `t`: how many query characters matched, how many times a
/// match did not follow the previous one directly, and where the last one was
/// (-1 before any).
pub open spec fn greedy(q: Seq<char>, t: Seq<char>, n: nat) -> (nat, nat, int)
    decreases n,
{
    if n == 0 {
        (0, 0, -1)
    } else {
        let prev = greedy(q, t, (n - 1) as nat);
        let i = n - 1;
        if n <= t.len() && prev.0 < q.len() && q[prev.0 as int] == t[i] {
            (prev.0 + 1, if prev.2 >= 0 && i > prev.2 + 1 {
                prev.1 + 1
            } else {
                prev.1
            }, i)
        } else {
            prev
        }
    }
}

/// The subsequence score of query `q` against `t`: 0 if `q` is not a
/// subsequence of `t`, else `40 - 5 * gaps`, at least 1; 1 for an empty query.
pub open spec fn subsequence_score(q: Seq<char>, t: Seq<char>) -> nat {
    if q.len() == 0 {
        1
    } else {
        let st = greedy(q, t, t.len());
        if st.0 < q.len() {
            0
        } else if st.1 >= 8 {
            1
        } else {
            (40 - 5 * st.1) as nat
        }
    }
}

proof fn lemma_greedy_bounds(q: Seq<char>, t: Seq<char>, n: nat)
    ensures
        greedy(q, t, n).0 <= q.len(),
        greedy(q, t, n).2 < n,
        greedy(q, t, n).2 >= -1,
    decreases n,
{
    if n > 0 {
        lemma_greedy_bounds(q, t, (n - 1) as nat);
    }
}

/// Scores `query` as a subsequence of `target` (both already normalized).
pub fn fuzzy_subsequence_score(query: &[char], target: &[char]) -> (r: u32)
    ensures
        r as nat == subsequence_score(query@, target@),
{
    if query.len() == 0 {
        return 1;
    }
    let mut query_index: usize = 0;
    let mut gaps: u32 = 0;
    let mut last: Option<usize> = None;
    let mut i: usize = 0;
    while i < target.len()
        invariant
            i <= target.len(),
            query_index as nat == greedy(query@, target@, i as nat).0,
            gaps as nat == if greedy(query@, target@, i as nat).1 >= 8 {
                8
            } else {
                greedy(query@, target@, i as nat).1
            },
            match last {
                Some(l) => greedy(query@, target@, i as nat).2 == l as int,
                None => greedy(query@, target@, i as nat).2 == -1,
            },
        decreases target.len() - i,
    {
        proof {
            lemma_greedy_bounds(query@, target@, i as nat);
        }
        if query_index < query.len() && query[query_index] == target[i] {
            let gap = match last {
                Some(l) => i > l + 1,
                None => false,
            };
            if gap && gaps < 8 {
                gaps = gaps + 1;
            }
            last = Some(i);
            query_index = query_index + 1;
        }
        i = i + 1;
    }
    proof {
        lemma_greedy_bounds(query@, target@, target.len() as nat);
    }
    if query_index != query.len() {
        return 0;
    }
    if gaps >= 8 {
        1
    } else {
        40 - 5 * gaps
    }
}

/// `s` without its trailing `/` characters.
pub open spec fn strip_trailing_slashes(s: Seq<char>) -> Seq<char>
    decreases s.len(),
{
    if s.len() > 0 && s.last() == '/' {
        strip_trailing_slashes(s.drop_last())
    } else {
        s
    }
}

/// The characters of `s` after its last `/` (all of `s` if it has none).
pub open spec fn last_segment(s: Seq<char>) -> Seq<char>
    decreases s.len(),
{
    if s.len() == 0 {
        s
    } else if s.last() == '/' {
        Seq::empty()
    } else {
        last_segment(s.drop_last()).push(s.last())
    }
}

/// The final segment of a path, trailing separators ignored.
pub open spec fn file_name_of(path: Seq<char>) -> Seq<char> {
    last_segment(strip_trailing_slashes(path))
}

/// The final segment of `path`, trailing `/` ignored.
pub fn file_name_chars(path: &[char]) -> (r: Vec<char>)
    ensures
        r@ == file_name_of(path@),
{
    let mut end: usize = path.len();
    assert(path@.subrange(0, end as int) =~= path@);
    while end > 0 && path[end - 1] == '/'
        invariant
            end <= path.len(),
            strip_trailing_slashes(path@) == strip_trailing_slashes(path@.subrange(0, end as int)),
        decreases end,
    {
        assert(path@.subrange(0, end as int).drop_last() =~= path@.subrange(0, end - 1));
        end = end - 1;
    }
    let ghost s = path@.subrange(0, end as int);
    assert(strip_trailing_slashes(s) == s);
    let mut start: usize = end;
    assert(s.subrange(end as int, end as int) =~= Seq::<char>::empty());
    while start > 0 && path[start - 1] != '/'
        invariant
            start <= end <= path.len(),
            s == path@.subrange(0, end as int),
            last_segment(s) == last_segment(path@.subrange(0, start as int)) + path@.subrange(start as int, end as int),
        decreases start,
    {
        let ghost p = path@.subrange(0, start as int);
        assert(p.drop_last() =~= path@.subrange(0, start - 1));
        assert(path@.subrange(start - 1, end as int) =~= path@.subrange(start - 1, start as int) + path@.subrange(start as int, end as int));
        assert(last_segment(p) == last_segment(p.drop_last()).push(p.last()));
        assert(last_segment(p.drop_last()).push(p.last()) + path@.subrange(start as int, end as int) =~= last_segment(p.drop_last()) + path@.subrange(start - 1, end as int));
        start = start - 1;
    }
    assert(last_segment(path@.subrange(0, start as int)) =~= Seq::<char>::empty());
    assert(last_segment(s) =~= path@.subrange(start as int, end as int));
    crate::text::copy_range(path, start, end)
}

/// The tier score of one candidate, before the directory bonus.
pub open spec fn tier_score(path: Seq<char>, query_lower: Seq<char>, normalized_query: Seq<char>) -> nat {
    let name = file_name_of(path);
    let lower_name = lower_of(name);
    if query_lower.len() == 0 {
        1
    } else if lower_name == query_lower {
        120
    } else if starts_with_spec(lower_name, query_lower) {
        100
    } else if contains_spec(lower_name, query_lower) {
        80
    } else if contains_spec(lower_of(path), query_lower) {
        60
    } else if subsequence_score(normalized_query, normalized(name)) > 0 {
        50 + subsequence_score(normalized_query, normalized(name))
    } else if subsequence_score(normalized_query, normalized(path)) > 0 {
        30 + subsequence_score(normalized_query, normalized(path))
    } else {
        0
    }
}

/// The score of a candidate path: its tier, plus 10 for a directory that scored.
pub open spec fn fuzzy_score(path: Seq<char>, is_directory: bool, query_lower: Seq<char>, normalized_query: Seq<char>) -> nat {
    let s = tier_score(path, query_lower, normalized_query);
    if is_directory && s > 0 {
        s + 10
    } else {
        s
    }
}

/// Scores `path` against a query given lowered (`query_lower`) and
/// normalized (`normalized_query`); 0 means no match.
pub fn score_fuzzy_path(path: &[char], is_directory: bool, query_lower: &[char], normalized_query: &[char]) -> (r: u32)
    ensures
        r as nat == fuzzy_score(path@, is_directory, query_lower@, normalized_query@),
{
    let file_name = file_name_chars(path);
    let lower_file_name = lowercase(file_name.as_slice());
    let score: u32 = if query_lower.len() == 0 {
        1
    } else if crate::text::chars_equal(lower_file_name.as_slice(), query_lower) {
        120
    } else if starts_with_chars(lower_file_name.as_slice(), query_lower) {
        100
    } else if contains_chars(lower_file_name.as_slice(), query_lower) {
        80
    } else {
        let lower_path = lowercase(path);
        if contains_chars(lower_path.as_slice(), query_lower) {
            60
        } else {
            let normalized_file_name = normalize_fuzzy_text(file_name.as_slice());
            let by_name = fuzzy_subsequence_score(normalized_query, normalized_file_name.as_slice());
            if by_name > 0 {
                50 + by_name
            } else {
                let normalized_path = normalize_fuzzy_text(path);
                let by_path = fuzzy_subsequence_score(normalized_query, normalized_path.as_slice());
                if by_path > 0 {
                    30 + by_path
                } else {
                    0
                }
            }
        }
    };
    if is_directory && score > 0 {
        score + 10
    } else {
        score
    }
}

/// Options of a fuzzy path search.
pub struct FuzzyFindOptions {
    /// Query, matched case-insensitively.
    pub query: String,
    /// Directory to search.
    pub path: String,
    /// Include hidden entries (default: false).
    pub hidden: Option<bool>,
    /// Respect ignore files (default: true).
    pub gitignore: Option<bool>,
    /// Most matches to return (default: 100).
    pub max_results: Option<u32>,
    /// How long a scan of the same root may be reused, in milliseconds (default: 1000).
    pub cache_ttl_ms: Option<u32>,
    /// Timeout for the whole search, in milliseconds.
    pub timeout_ms: Option<u32>,
}

/// The cache lifetime used when a fuzzy search names none.
pub const DEFAULT_FUZZY_CACHE_TTL_MS: u32 = 1000;

/// The result count used when a fuzzy search names none.
pub const DEFAULT_FUZZY_MAX_RESULTS: u32 = 100;

/// One fuzzy match.
pub struct FuzzyFindMatch {
    /// Path relative to the root; directories end in `/`.
    pub path: String,
    /// Whether the entry is a directory.
    pub is_directory: bool,
    /// Match quality, higher is better.
    pub score: u32,
}

/// The outcome of a fuzzy search.
pub struct FuzzyFindResult {
    /// The best matches, best first, at most the requested number.
    pub matches: Vec<FuzzyFindMatch>,
    /// How many entries matched at all, saturating at `u32::MAX`.
    pub total_matches: u32,
}

/// A fuzzy match as plain values: path, directory flag, score.
pub type FuzzyView = (Seq<char>, bool, nat);

pub open spec fn fuzzy_view(m: FuzzyFindMatch) -> FuzzyView {
    (m.path@, m.is_directory, m.score as nat)
}

/// The candidate path of an entry: a directory gets a trailing `/`.
pub open spec fn candidate_path(e: GlobMatch) -> Seq<char> {
    if e.file_type == FileType::Dir {
        e.path@.push('/')
    } else {
        e.path@
    }
}

/// The entries that score above zero, in their input order, with their scores.
pub open spec fn scored_entries(entries: Seq<GlobMatch>, query_lower: Seq<char>, normalized_query: Seq<char>) -> Seq<FuzzyView>
    decreases entries.len(),
{
    if entries.len() == 0 {
        Seq::empty()
    } else {
        let rest = scored_entries(entries.drop_last(), query_lower, normalized_query);
        let e = entries.last();
        let is_dir = e.file_type == FileType::Dir;
        let s = fuzzy_score(candidate_path(e), is_dir, query_lower, normalized_query);
        if e.file_type == FileType::Symlink || s == 0 {
            rest
        } else {
            rest.push((candidate_path(e), is_dir, s))
        }
    }
}

/// `a` ranks strictly before `b`: higher score, or equal score and smaller path.
pub open spec fn ranks_before(a: FuzzyView, b: FuzzyView) -> bool {
    a.2 > b.2 || (a.2 == b.2 && chars_lt(a.0, b.0))
}

/// `s` is in rank order.
pub open spec fn rank_sorted(s: Seq<FuzzyView>) -> bool {
    forall|i: int, j: int| 0 <= i < j < s.len() ==> !ranks_before(#[trigger] s[j], #[trigger] s[i])
}

/// `r` is the first `max` of `all` put in rank order (all of them if fewer).
pub open spec fn top_ranked(all: Seq<FuzzyView>, max: nat, r: Seq<FuzzyView>) -> bool {
    exists|p: Seq<int>|
        #[trigger] is_permutation(p, all.len()) && rank_sorted(Seq::new(all.len(), |i: int| all[p[i]]))
            && r == Seq::new(all.len(), |i: int| all[p[i]]).take(
            if max < all.len() { max as int } else { all.len() as int },
        )
}

/// A count clamped to `u32::MAX`.
pub open spec fn clamp_count(n: nat) -> u32 {
    if n > u32::MAX {
        u32::MAX
    } else {
        n as u32
    }
}

/// `r` is the fuzzy search result for `query` over `entries`, keeping at most `max`.
pub open spec fn fuzzy_outcome(entries: Seq<GlobMatch>, query: Seq<char>, max: nat, r: FuzzyFindResult) -> bool {
    let ql = lower_of(trim_spec(query));
    let nq = normalized(ql);
    if max == 0 || (ql.len() > 0 && nq.len() == 0) {
        r.matches@.len() == 0 && r.total_matches == 0
    } else {
        let all = scored_entries(entries, ql, nq);
        &&& r.total_matches == clamp_count(all.len())
        &&& top_ranked(all, max, r.matches@.map_values(|m: FuzzyFindMatch| fuzzy_view(m)))
    }
}

/// Ranks `entries` against `query`: symbolic links are left out, each other
/// entry is scored, those above zero are ordered by score (descending) and
/// path, and the first `max_results` are kept. An empty query scores every
/// entry 1; a query made only of separators matches nothing.
pub fn fuzzy_rank(entries: &Vec<GlobMatch>, query: &str, max_results: usize) -> (r: FuzzyFindResult)
    ensures
        fuzzy_outcome(entries@, query@, max_results as nat, r),
{
    let ghost ql_spec = lower_of(trim_spec(query@));
    if max_results == 0 {
        return FuzzyFindResult { matches: Vec::new(), total_matches: 0 };
    }
    let query_chars = chars_of(query);
    let trimmed = trim_chars(query_chars.as_slice());
    let query_lower = lowercase(trimmed.as_slice());
    let normalized_query = normalize_fuzzy_text(query_lower.as_slice());
    if query_lower.len() > 0 && normalized_query.len() == 0 {
        return FuzzyFindResult { matches: Vec::new(), total_matches: 0 };
    }
    let ghost ql = query_lower@;
    let ghost nq = normalized_query@;
    let mut scored: Vec<FuzzyFindMatch> = Vec::new();
    let mut keys: Vec<SortKey> = Vec::new();
    let mut i: usize = 0;
    while i < entries.len()
        invariant
            i <= entries.len(),
            ql == query_lower@,
            nq == normalized_query@,
            scored@.len() == keys@.len(),
            scored@.map_values(|m: FuzzyFindMatch| fuzzy_view(m)) == scored_entries(entries@.subrange(0, i as int), ql, nq),
            forall|k: int| 0 <= k < keys@.len() ==> (#[trigger] keys@[k]).index == k && keys@[k].rank == scored@[k].score as u64 && keys@[k].path@ == scored@[k].path@,
        decreases entries.len() - i,
    {
        let e = &entries[i];
        proof {
            let s = entries@.subrange(0, i + 1);
            assert(s.drop_last() =~= entries@.subrange(0, i as int));
            assert(s.last() == *e);
        }
        let ghost before_all = scored@;
        proof {
            let s = entries@.subrange(0, i + 1);
            assert(scored_entries(s, ql, nq) == {
                let rest = scored_entries(s.drop_last(), ql, nq);
                let is_dir = s.last().file_type == FileType::Dir;
                let sc = fuzzy_score(candidate_path(s.last()), is_dir, ql, nq);
                if s.last().file_type == FileType::Symlink || sc == 0 {
                    rest
                } else {
                    rest.push((candidate_path(s.last()), is_dir, sc))
                }
            });
        }
        if e.file_type != FileType::Symlink {
            let is_directory = e.file_type == FileType::Dir;
            let mut cand = chars_of(e.path.as_str());
            if is_directory {
                cand.push('/');
            }
            assert(cand@ == candidate_path(*e));
            let score = score_fuzzy_path(cand.as_slice(), is_directory, query_lower.as_slice(), normalized_query.as_slice());
            if score > 0 {
                let ghost before = scored@;
                let path = string_of(cand.as_slice());
                let k = scored.len();
                scored.push(FuzzyFindMatch { path, is_directory, score });
                keys.push(SortKey { rank: score as u64, path: cand, index: k });
                assert(scored@.map_values(|m: FuzzyFindMatch| fuzzy_view(m)) =~= before.map_values(|m: FuzzyFindMatch| fuzzy_view(m)).push(fuzzy_view(scored@[k as int])));
            }
        }
        i = i + 1;
    }
    assert(entries@.subrange(0, entries.len() as int) =~= entries@);
    let ghost all = scored@.map_values(|m: FuzzyFindMatch| fuzzy_view(m));
    let total_matches: u32 = if scored.len() > u32::MAX as usize { u32::MAX } else { scored.len() as u32 };
    let ghost keys0 = keys@;
    sort_keys(&mut keys);
    let ghost p = choose|p: Seq<int>| is_permutation(p, keys0.len()) && #[trigger] keys@.len() == keys0.len() && forall|i: int| 0 <= i < p.len() ==> #[trigger] keys@[i] == keys0[p[i]];
    let ghost sorted = Seq::new(all.len(), |i: int| all[p[i]]);
    let limit: usize = if max_results < keys.len() { max_results } else { keys.len() };
    let mut matches: Vec<FuzzyFindMatch> = Vec::new();
    let mut j: usize = 0;
    while j < limit
        invariant
            j <= limit <= keys@.len(),
            matches@.len() == j,
            keys@.len() == keys0.len() == scored@.len() == all.len(),
            is_permutation(p, keys0.len()),
            forall|i: int| 0 <= i < p.len() ==> #[trigger] keys@[i] == keys0[p[i]],
            forall|k: int| 0 <= k < keys0.len() ==> (#[trigger] keys0[k]).index == k,
            matches@.map_values(|m: FuzzyFindMatch| fuzzy_view(m)) == sorted.take(j as int),
            all == scored@.map_values(|m: FuzzyFindMatch| fuzzy_view(m)),
            sorted == Seq::new(all.len(), |i: int| all[p[i]]),
        decreases limit - j,
    {
        let idx = keys[j].index;
        assert(keys@[j as int] == keys0[p[j as int]]);
        assert(idx == p[j as int]);
        assert(sorted[j as int] == all[p[j as int]]);
        assert(all[p[j as int]] == fuzzy_view(scored@[p[j as int]]));
        let m = &scored[idx];
        let ghost before = matches@;
        let path = m.path.clone();
        matches.push(FuzzyFindMatch { path, is_directory: m.is_directory, score: m.score });
        assert(matches@ == before.push(matches@[j as int]));
        assert(fuzzy_view(matches@[j as int]) == fuzzy_view(scored@[p[j as int]]));
        assert(before.map_values(|m: FuzzyFindMatch| fuzzy_view(m)) == sorted.take(j as int));
        assert(matches@.map_values(|m: FuzzyFindMatch| fuzzy_view(m)) =~= sorted.take(j + 1));
        j = j + 1;
    }
    proof {
        assert forall|a: int, b: int| 0 <= a < b < sorted.len() implies !ranks_before(#[trigger] sorted[b], #[trigger] sorted[a]) by {
            assert(!key_before(keys@[b], keys@[a]));
            assert(keys@[a] == keys0[p[a]] && keys@[b] == keys0[p[b]]);
        }
        assert(is_permutation(p, all.len()));
    }
    FuzzyFindResult { matches, total_matches }
}

/// The result is known without looking at any entry: a zero limit, or a
/// query made only of separators.
pub open spec fn needs_no_entries(query: Seq<char>, max: nat) -> bool {
    let ql = lower_of(trim_spec(query));
    max == 0 || (ql.len() > 0 && normalized(ql).len() == 0)
}

/// The empty result of a search that needs no entries, or `None` when the
/// entries must be walked and ranked.
pub fn fuzzy_early_result(query: &str, max_results: usize) -> (r: Option<FuzzyFindResult>)
    ensures
        r is Some == needs_no_entries(query@, max_results as nat),
        r matches Some(res) ==> res.matches@.len() == 0 && res.total_matches == 0,
{
    if max_results == 0 {
        return Some(FuzzyFindResult { matches: Vec::new(), total_matches: 0 });
    }
    let query_chars = chars_of(query);
    let trimmed = trim_chars(query_chars.as_slice());
    let query_lower = lowercase(trimmed.as_slice());
    let normalized_query = normalize_fuzzy_text(query_lower.as_slice());
    if query_lower.len() > 0 && normalized_query.len() == 0 {
        Some(FuzzyFindResult { matches: Vec::new(), total_matches: 0 })
    } else {
        None
    }
}

/// `fuzzy_rank`, polling `token` once per entry first; fails only when the
/// token trips, which cannot happen when no entry needs looking at.
pub fn fuzzy_find_entries(entries: &Vec<GlobMatch>, query: &str, max_results: usize, token: &CancelToken) -> (r: Result<FuzzyFindResult, SearchError>)
    ensures
        match r {
            Ok(res) => fuzzy_outcome(entries@, query@, max_results as nat, res),
            Err(e) => e is Cancelled,
        },
        needs_no_entries(query@, max_results as nat) || entries@.len() == 0 ==> r is Ok,
{
    if fuzzy_early_result(query, max_results).is_none() {
        let mut i: usize = 0;
        while i < entries.len()
            invariant
                i <= entries.len(),
                !needs_no_entries(query@, max_results as nat),
            decreases entries.len() - i,
        {
            if let Err(reason) = token.heartbeat() {
                return Err(SearchError::Cancelled(reason));
            }
            i = i + 1;
        }
    }
    Ok(fuzzy_rank(entries, query, max_results))
}

proof fn lemma_subsequence_score_bound(q: Seq<char>, t: Seq<char>)
    ensures
        subsequence_score(q, t) <= 40,
{
}

proof fn lemma_tier_below_exact(path: Seq<char>, ql: Seq<char>, nq: Seq<char>)
    requires
        ql.len() > 0,
        lower_of(file_name_of(path)) != ql,
    ensures
        tier_score(path, ql, nq) <= 100,
{
    lemma_subsequence_score_bound(nq, normalized(file_name_of(path)));
    lemma_subsequence_score_bound(nq, normalized(path));
}

/// An exact (case-insensitive) match of the file name outranks every other
/// match, whatever the kinds of the two entries.
pub proof fn lemma_exact_name_outranks(first: Seq<char>, first_is_dir: bool, second: Seq<char>, second_is_dir: bool, ql: Seq<char>, nq: Seq<char>)
    requires
        ql.len() > 0,
        lower_of(file_name_of(first)) == ql,
        lower_of(file_name_of(second)) != ql,
    ensures
        fuzzy_score(first, first_is_dir, ql, nq) > fuzzy_score(second, second_is_dir, ql, nq),
{
    lemma_tier_below_exact(second, ql, nq);
}

/// For entries of the same kind, a file name that contains the query
/// outranks an entry that matches only as a subsequence of its full path,
/// and a file name that starts with the query outranks any subsequence match.
pub proof fn lemma_substring_outranks_subsequence(first: Seq<char>, second: Seq<char>, d: bool, ql: Seq<char>, nq: Seq<char>)
    requires
        ql.len() > 0,
        contains_spec(lower_of(file_name_of(first)), ql),
        !contains_spec(lower_of(file_name_of(second)), ql),
        !contains_spec(lower_of(second), ql),
        subsequence_score(nq, normalized(file_name_of(second))) == 0 || starts_with_spec(lower_of(file_name_of(first)), ql),
    ensures
        fuzzy_score(first, d, ql, nq) > fuzzy_score(second, d, ql, nq),
{
    lemma_subsequence_score_bound(nq, normalized(file_name_of(second)));
    lemma_subsequence_score_bound(nq, normalized(second));
    if lower_of(file_name_of(second)) == ql {
        assert(ql.subrange(0, ql.len() as int) =~= ql);
        assert(crate::text::occurs_at(ql, ql, 0));
    }
    if starts_with_spec(lower_of(file_name_of(second)), ql) {
        assert(crate::text::occurs_at(lower_of(file_name_of(second)), ql, 0));
    }
    if starts_with_spec(lower_of(file_name_of(first)), ql) {
        assert(crate::text::occurs_at(lower_of(file_name_of(first)), ql, 0));
    }
}

/// Of two full subsequence matches, the one with fewer gaps scores higher
/// (until the score bottoms out at 1).
pub proof fn lemma_fewer_gaps_score_higher(q: Seq<char>, t1: Seq<char>, t2: Seq<char>)
    requires
        q.len() > 0,
        greedy(q, t1, t1.len()).0 == q.len(),
        greedy(q, t2, t2.len()).0 == q.len(),
        greedy(q, t1, t1.len()).1 < greedy(q, t2, t2.len()).1,
        greedy(q, t1, t1.len()).1 < 8,
    ensures
        subsequence_score(q, t1) > subsequence_score(q, t2),
{
}

} // verus!
