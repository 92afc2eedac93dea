//! Discovery entries and the path rules applied to them.

use crate::cancel::CancelToken;
use crate::error::{invalid_with_prefix, SearchError};
use crate::globs::{compile_glob, discovery_pattern, glob_accepts, glob_compiles, glob_is_match, invalid_glob_prefix, PathGlob};
use crate::order::{is_permutation, key_before, sort_keys, SortKey};
use crate::text::{chars_of, occurs_at};
use vstd::prelude::*;

verus! {

/// The kind of a filesystem entry, read without following links.
#[derive(Clone, Copy, Debug, PartialEq, Eq, Structural)]
pub enum FileType {
    /// Regular file.
    File,
    /// Directory.
    Dir,
    /// Symbolic link.
    Symlink,
}

/// One discovered entry.
#[derive(Clone, Debug)]
pub struct GlobMatch {
    /// Path relative to the scan root, with `/` separators.
    pub path: String,
    /// The entry's kind.
    pub file_type: FileType,
    /// Modification time in milliseconds since the Unix epoch, when known.
    pub mtime: Option<u64>,
}

/// A copy of `m`.
pub fn copy_match(m: &GlobMatch) -> (r: GlobMatch)
    ensures
        r == *m,
{
    GlobMatch { path: m.path.clone(), file_type: m.file_type, mtime: m.mtime }
}

/// `t` is one whole `/`-separated segment of `s`, starting at `i`.
pub open spec fn segment_at(s: Seq<char>, t: Seq<char>, i: int) -> bool {
    &&& occurs_at(s, t, i)
    &&& (i == 0 || s[i - 1] == '/')
    &&& (i + t.len() == s.len() || s[i + t.len()] == '/')
}

/// `t` is one of the `/`-separated segments of `s`.
pub open spec fn has_segment(s: Seq<char>, t: Seq<char>) -> bool {
    exists|i: int| #[trigger] segment_at(s, t, i)
}

/// Whether `target` is one of the `/`-separated segments of `path`.
pub fn contains_component(path: &[char], target: &[char]) -> (r: bool)
    ensures
        r == has_segment(path@, target@),
{
    if target.len() > path.len() {
        return false;
    }
    let last: usize = path.len() - target.len();
    let mut i: usize = 0;
    loop
        invariant
            target.len() <= path.len(),
            last == path.len() - target.len(),
            i <= last,
            forall|j: int| 0 <= j < i ==> !segment_at(path@, target@, j),
        ensures
            forall|j: int| 0 <= j <= last ==> !segment_at(path@, target@, j),
        decreases last - i,
    {
        if (i == 0 || path[i - 1] == '/') && (i == last || path[i + target.len()] == '/')
            && crate::text::occurs_at_exec(path, target, i) {
            assert(segment_at(path@, target@, i as int));
            return true;
        }
        if i == last {
            break;
        }
        i = i + 1;
    }
    assert forall|j: int| !segment_at(path@, target@, j) by {
        if 0 <= j && j + target@.len() <= path@.len() {
            assert(j <= last);
        }
    }
    false
}

/// The segment name of version-control internals.
pub open spec fn git_dir() -> Seq<char> {
    seq!['.', 'g', 'i', 't']
}

/// The segment name of installed JavaScript packages.
pub open spec fn node_modules_dir() -> Seq<char> {
    seq!['n', 'o', 'd', 'e', '_', 'm', 'o', 'd', 'u', 'l', 'e', 's']
}

/// An entry at `path` is left out: always under `.git`, and under
/// `node_modules` unless those were asked for.
pub open spec fn skipped(path: Seq<char>, wants_node_modules: bool) -> bool {
    has_segment(path, git_dir()) || (!wants_node_modules && has_segment(path, node_modules_dir()))
}

/// Whether an entry at `path` is left out of discovery results.
pub fn should_skip_path(path: &[char], wants_node_modules: bool) -> (r: bool)
    ensures
        r == skipped(path@, wants_node_modules),
{
    let git: Vec<char> = vec!['.', 'g', 'i', 't'];
    assert(git@ =~= git_dir());
    if contains_component(path, git.as_slice()) {
        return true;
    }
    if wants_node_modules {
        return false;
    }
    let nm: Vec<char> = vec!['n', 'o', 'd', 'e', '_', 'm', 'o', 'd', 'u', 'l', 'e', 's'];
    assert(nm@ =~= node_modules_dir());
    contains_component(path, nm.as_slice())
}

/// Whether `text` mentions `node_modules` anywhere.
pub fn mentions_node_modules(text: &[char]) -> (r: bool)
    ensures
        r == crate::text::contains_spec(text@, node_modules_dir()),
{
    let nm: Vec<char> = vec!['n', 'o', 'd', 'e', '_', 'm', 'o', 'd', 'u', 'l', 'e', 's'];
    assert(nm@ =~= node_modules_dir());
    crate::text::contains_chars(text, nm.as_slice())
}

/// An entry as a directory walk reports it, before selection.
pub struct WalkEntry {
    /// Path relative to the scan root, with `/` separators (empty for the root).
    pub relative_path: String,
    /// The kind, or `None` when the metadata lookup failed.
    pub file_type: Option<FileType>,
    /// Modification time in milliseconds since the Unix epoch, when known.
    pub mtime: Option<u64>,
}

/// The entries a walk keeps, in walk order: not the root itself, not under
/// `.git`, and with readable metadata. `node_modules` is kept here; it is
/// filtered per request.
pub open spec fn walk_selection(raw: Seq<WalkEntry>) -> Seq<GlobMatch>
    decreases raw.len(),
{
    if raw.len() == 0 {
        Seq::empty()
    } else {
        let rest = walk_selection(raw.drop_last());
        let w = raw.last();
        if skipped(w.relative_path@, true) || w.relative_path@.len() == 0 || w.file_type is None {
            rest
        } else {
            rest.push(GlobMatch { path: w.relative_path, file_type: w.file_type->0, mtime: w.mtime })
        }
    }
}

/// Selects the entries of a walk.
pub fn collect_entries(raw: &Vec<WalkEntry>) -> (r: Vec<GlobMatch>)
    ensures
        r@ == walk_selection(raw@),
{
    let mut out: Vec<GlobMatch> = Vec::new();
    let mut i: usize = 0;
    while i < raw.len()
        invariant
            i <= raw.len(),
            out@ == walk_selection(raw@.take(i as int)),
        decreases raw.len() - i,
    {
        let w = &raw[i];
        assert(raw@.take(i + 1).drop_last() =~= raw@.take(i as int));
        assert(raw@.take(i + 1).last() == *w);
        let chars = chars_of(w.relative_path.as_str());
        if !should_skip_path(chars.as_slice(), true) && chars.len() > 0 {
            match w.file_type {
                Some(ft) => {
                    out.push(GlobMatch { path: w.relative_path.clone(), file_type: ft, mtime: w.mtime });
                },
                None => {},
            }
        }
        i = i + 1;
    }
    assert(raw@.take(raw.len() as int) =~= raw@);
    out
}

/// Options of a glob search.
pub struct GlobOptions {
    /// Glob pattern; blank means `*`.
    pub pattern: String,
    /// Directory to search.
    pub path: String,
    /// Keep only entries of this kind.
    pub file_type: Option<FileType>,
    /// Include hidden entries (default: false).
    pub hidden: Option<bool>,
    /// Most results to return (default: all).
    pub max_results: Option<u32>,
    /// Respect ignore files (default: true).
    pub gitignore: Option<bool>,
    /// Order by modification time, newest first, before the limit (default: false).
    pub sort_by_mtime: Option<bool>,
    /// Include `node_modules` (default: whether the pattern mentions it).
    pub include_node_modules: Option<bool>,
    /// How long a scan of the same root may be reused, in milliseconds (default: 0, never).
    pub cache_ttl_ms: Option<u32>,
    /// Timeout for the whole search, in milliseconds.
    pub timeout_ms: Option<u32>,
}

/// The result of a glob search.
pub struct GlobResult {
    /// The matching entries.
    pub matches: Vec<GlobMatch>,
    /// `matches.len()`, saturating.
    pub total_matches: u32,
}

/// A glob search with its defaults applied.
pub struct GlobConfig {
    pub pattern: String,
    pub include_hidden: bool,
    pub file_type_filter: Option<FileType>,
    pub max_results: usize,
    pub use_gitignore: bool,
    pub mentions_node_modules: bool,
    pub sort_by_mtime: bool,
    pub cache_ttl_ms: u32,
}

/// The pattern a glob search uses: the trimmed option, or `*` when blank.
pub open spec fn effective_pattern(p: Seq<char>) -> Seq<char> {
    if crate::text::trim_spec(p).len() == 0 {
        seq!['*']
    } else {
        crate::text::trim_spec(p)
    }
}

/// `c` is `o` with the defaults of a glob search applied.
pub open spec fn config_of(o: GlobOptions, c: GlobConfig) -> bool {
    &&& c.pattern@ == effective_pattern(o.pattern@)
    &&& c.include_hidden == match o.hidden {
        Some(b) => b,
        None => false,
    }
    &&& c.file_type_filter == o.file_type
    &&& c.max_results == match o.max_results {
        Some(m) => m as usize,
        None => usize::MAX,
    }
    &&& c.use_gitignore == match o.gitignore {
        Some(b) => b,
        None => true,
    }
    &&& c.mentions_node_modules == match o.include_node_modules {
        Some(b) => b,
        None => crate::text::contains_spec(effective_pattern(o.pattern@), node_modules_dir()),
    }
    &&& c.sort_by_mtime == match o.sort_by_mtime {
        Some(b) => b,
        None => false,
    }
    &&& c.cache_ttl_ms == match o.cache_ttl_ms {
        Some(t) => t,
        None => 0,
    }
}

/// Applies the defaults of a glob search.
pub fn glob_config(o: &GlobOptions) -> (r: GlobConfig)
    ensures
        config_of(*o, r),
{
    let chars = chars_of(o.pattern.as_str());
    let trimmed = crate::text::trim_chars(chars.as_slice());
    let pattern: Vec<char> = if trimmed.len() == 0 {
        let star: Vec<char> = vec!['*'];
        assert(star@ =~= seq!['*']);
        star
    } else {
        trimmed
    };
    let mentions = match o.include_node_modules {
        Some(b) => b,
        None => mentions_node_modules(pattern.as_slice()),
    };
    GlobConfig {
        pattern: crate::text::string_of(pattern.as_slice()),
        include_hidden: o.hidden.unwrap_or(false),
        file_type_filter: o.file_type,
        max_results: match o.max_results {
            Some(m) => m as usize,
            None => usize::MAX,
        },
        use_gitignore: o.gitignore.unwrap_or(true),
        mentions_node_modules: mentions,
        sort_by_mtime: o.sort_by_mtime.unwrap_or(false),
        cache_ttl_ms: o.cache_ttl_ms.unwrap_or(0),
    }
}

/// An entry is a glob result: outside `.git` (and `node_modules` unless
/// wanted), matched by the glob, and of the requested kind if one is given.
pub open spec fn glob_keeps(e: GlobMatch, pattern: Seq<char>, wants_node_modules: bool, kind: Option<FileType>) -> bool {
    &&& !skipped(e.path@, wants_node_modules)
    &&& glob_accepts(pattern, e.path@)
    &&& match kind {
        Some(k) => e.file_type == k,
        None => true,
    }
}

/// The entries kept, in walk order.
pub open spec fn glob_filtered(entries: Seq<GlobMatch>, pattern: Seq<char>, wants_node_modules: bool, kind: Option<FileType>) -> Seq<GlobMatch>
    decreases entries.len(),
{
    if entries.len() == 0 {
        Seq::empty()
    } else {
        let rest = glob_filtered(entries.drop_last(), pattern, wants_node_modules, kind);
        if glob_keeps(entries.last(), pattern, wants_node_modules, kind) {
            rest.push(entries.last())
        } else {
            rest
        }
    }
}

/// The modification time used for ordering (0 when unknown).
pub open spec fn mtime_key(e: GlobMatch) -> u64 {
    match e.mtime {
        Some(t) => t,
        None => 0,
    }
}

/// `r` is `all` ordered newest first, equal times in their input order,
/// then cut to `max`.
pub open spec fn newest_first(all: Seq<GlobMatch>, max: nat, r: Seq<GlobMatch>) -> bool {
    exists|p: Seq<int>|
        #[trigger] is_permutation(p, all.len()) && (forall|i: int, j: int|
            0 <= i < j < all.len() ==> mtime_key(all[p[i]]) > mtime_key(all[p[j]]) || (mtime_key(all[p[i]])
                == mtime_key(all[p[j]]) && p[i] < p[j])) && r == Seq::new(all.len(), |i: int| all[p[i]]).take(
            if max < all.len() { max as int } else { all.len() as int },
        )
}

/// The result a glob search gives on `entries`.
pub open spec fn glob_outcome(entries: Seq<GlobMatch>, config: GlobConfig, pattern: Seq<char>, r: Seq<GlobMatch>) -> bool {
    let all = glob_filtered(entries, pattern, config.mentions_node_modules, config.file_type_filter);
    let max = config.max_results as nat;
    if config.sort_by_mtime {
        newest_first(all, max, r)
    } else {
        r == all.take(if max < all.len() { max as int } else { all.len() as int })
    }
}

/// Every glob result is an entry of the walk that the glob accepts, and
/// none lies under `.git`, or under `node_modules` unless it was asked for.
pub proof fn lemma_glob_results_from_walk(entries: Seq<GlobMatch>, pattern: Seq<char>, wants_node_modules: bool, kind: Option<FileType>, e: GlobMatch)
    requires
        glob_filtered(entries, pattern, wants_node_modules, kind).contains(e),
    ensures
        entries.contains(e),
        glob_accepts(pattern, e.path@),
        !has_segment(e.path@, git_dir()),
        !wants_node_modules ==> !has_segment(e.path@, node_modules_dir()),
    decreases entries.len(),
{
    let rest = glob_filtered(entries.drop_last(), pattern, wants_node_modules, kind);
    if rest.contains(e) {
        lemma_glob_results_from_walk(entries.drop_last(), pattern, wants_node_modules, kind, e);
        let i = choose|i: int| 0 <= i < entries.drop_last().len() && entries.drop_last()[i] == e;
        assert(entries[i] == e);
    } else {
        assert(entries[entries.len() - 1] == e);
    }
}

/// A glob search with its defaults applied and its pattern compiled.
pub struct GlobPlan {
    pub config: GlobConfig,
    pub glob: PathGlob,
}

/// What a glob search does after checking its options.
pub enum GlobStep {
    /// Nothing is left to do: the result is known without a walk.
    Finished(GlobResult),
    /// The root must be walked, then `run_glob` run with this plan.
    Walk(GlobPlan),
}

/// Checks a glob search before any walk: the pattern is compiled first (a
/// pattern that does not compile fails even with a zero limit), then a zero
/// limit finishes with no results.
pub fn plan_glob(o: &GlobOptions) -> (r: Result<GlobStep, SearchError>)
    ensures
        r is Ok == glob_compiles(discovery_pattern(effective_pattern(o.pattern@))),
        r matches Err(e) ==> invalid_with_prefix(e, invalid_glob_prefix()),
        r matches Ok(step) ==> (step is Finished <==> o.max_results == Some(0u32)),
        r matches Ok(GlobStep::Finished(res)) ==> res.matches@.len() == 0 && res.total_matches == 0,
        r matches Ok(GlobStep::Walk(plan)) ==> config_of(*o, plan.config) && plan.glob.pattern()
            == discovery_pattern(plan.config.pattern@),
{
    let config = glob_config(o);
    let glob = compile_glob(config.pattern.as_str())?;
    if config.max_results == 0 {
        return Ok(GlobStep::Finished(GlobResult { matches: Vec::new(), total_matches: 0 }));
    }
    Ok(GlobStep::Walk(GlobPlan { config, glob }))
}

/// Repeating a glob search over the same walk gives the same result; with
/// ordering by modification time, entries with equal times keep their walk
/// order, so the ordering too is fixed.
pub proof fn lemma_glob_idempotent(entries: Seq<GlobMatch>, config: GlobConfig, pattern: Seq<char>, r1: Seq<GlobMatch>, r2: Seq<GlobMatch>)
    requires
        glob_outcome(entries, config, pattern, r1),
        glob_outcome(entries, config, pattern, r2),
    ensures
        r1 == r2,
{
    if config.sort_by_mtime {
        let all = glob_filtered(entries, pattern, config.mentions_node_modules, config.file_type_filter);
        let p = choose|p: Seq<int>|
            #[trigger] is_permutation(p, all.len()) && (forall|i: int, j: int|
                0 <= i < j < all.len() ==> mtime_key(all[p[i]]) > mtime_key(all[p[j]]) || (mtime_key(all[p[i]])
                    == mtime_key(all[p[j]]) && p[i] < p[j])) && r1 == Seq::new(all.len(), |i: int| all[p[i]]).take(
                if config.max_results < all.len() { config.max_results as int } else { all.len() as int },
            );
        let q = choose|q: Seq<int>|
            #[trigger] is_permutation(q, all.len()) && (forall|i: int, j: int|
                0 <= i < j < all.len() ==> mtime_key(all[q[i]]) > mtime_key(all[q[j]]) || (mtime_key(all[q[i]])
                    == mtime_key(all[q[j]]) && q[i] < q[j])) && r2 == Seq::new(all.len(), |i: int| all[q[i]]).take(
                if config.max_results < all.len() { config.max_results as int } else { all.len() as int },
            );
        let before = |a: int, b: int| mtime_key(all[a]) > mtime_key(all[b]) || (mtime_key(all[a]) == mtime_key(all[b]) && a < b);
        assert forall|i: int, j: int| 0 <= i < j < all.len() implies before(#[trigger] p[i], #[trigger] p[j]) by {}
        assert forall|i: int, j: int| 0 <= i < j < all.len() implies before(#[trigger] q[i], #[trigger] q[j]) by {}
        crate::order::lemma_sorted_permutation_unique(all.len(), p, q, before);
    }
}

/// Filters, limits and optionally orders the walked `entries` for a glob
/// search, polling `token` once per entry considered.
pub fn run_glob(config: &GlobConfig, glob: &PathGlob, entries: &Vec<GlobMatch>, token: &CancelToken) -> (r: Result<GlobResult, SearchError>)
    requires
        glob.pattern() == crate::globs::discovery_pattern(config.pattern@),
    ensures
        match r {
            Ok(res) => glob_outcome(entries@, *config, glob.pattern(), res.matches@) && res.total_matches
                == crate::fuzzy::clamp_count(res.matches@.len()),
            Err(e) => e is Cancelled,
        },
        entries@.len() == 0 || (config.max_results == 0 && !config.sort_by_mtime) ==> r is Ok,
{
    let ghost pat = glob.pattern();
    let ghost wants = config.mentions_node_modules;
    let ghost kind = config.file_type_filter;
    let max_results = config.max_results;
    let mut matches: Vec<GlobMatch> = Vec::new();
    if max_results == 0 && !config.sort_by_mtime {
        proof {
            let all = glob_filtered(entries@, pat, wants, kind);
            assert(matches@ =~= all.take(0));
        }
        return Ok(GlobResult { matches, total_matches: 0 });
    }
    let mut i: usize = 0;
    while i < entries.len()
        invariant
            i <= entries.len(),
            !config.sort_by_mtime ==> 0 < max_results,
            max_results == config.max_results,
            glob.pattern() == pat,
            wants == config.mentions_node_modules,
            kind == config.file_type_filter,
            !config.sort_by_mtime ==> matches@.len() < max_results,
            matches@ == glob_filtered(entries@.take(i as int), pat, wants, kind),
        decreases entries.len() - i,
    {
        if let Err(reason) = token.heartbeat() {
            return Err(SearchError::Cancelled(reason));
        }
        let e = &entries[i];
        assert(entries@.take(i + 1).drop_last() =~= entries@.take(i as int));
        assert(entries@.take(i + 1).last() == *e);
        let chars = chars_of(e.path.as_str());
        let keep = !should_skip_path(chars.as_slice(), config.mentions_node_modules) && glob_is_match(glob, e.path.as_str())
            && match config.file_type_filter {
            Some(k) => k == e.file_type,
            None => true,
        };
        if keep {
            matches.push(copy_match(e));
            if !config.sort_by_mtime && matches.len() >= max_results {
                proof {
                    let all = glob_filtered(entries@, pat, wants, kind);
                    lemma_filtered_prefix(entries@, pat, wants, kind, i + 1);
                    assert(matches@.len() == max_results);
                    assert(all.take(max_results as int) =~= matches@);
                }
                let total_matches: u32 = if matches.len() > u32::MAX as usize { u32::MAX } else { matches.len() as u32 };
                return Ok(GlobResult { matches, total_matches });
            }
        }
        i = i + 1;
    }
    assert(entries@.take(entries.len() as int) =~= entries@);
    if config.sort_by_mtime {
        matches = sort_newest_first(&matches, max_results);
    } else {
        assert(matches@.take(matches@.len() as int) =~= matches@);
    }
    let total_matches: u32 = if matches.len() > u32::MAX as usize { u32::MAX } else { matches.len() as u32 };
    Ok(GlobResult { matches, total_matches })
}

proof fn lemma_filtered_prefix(entries: Seq<GlobMatch>, pattern: Seq<char>, wants: bool, kind: Option<FileType>, n: int)
    requires
        0 <= n <= entries.len(),
    ensures
        glob_filtered(entries.take(n), pattern, wants, kind).len() <= glob_filtered(entries, pattern, wants, kind).len(),
        glob_filtered(entries, pattern, wants, kind).take(glob_filtered(entries.take(n), pattern, wants, kind).len() as int)
            == glob_filtered(entries.take(n), pattern, wants, kind),
    decreases entries.len() - n,
{
    if n == entries.len() {
        assert(entries.take(n) =~= entries);
        let all = glob_filtered(entries, pattern, wants, kind);
        assert(all.take(all.len() as int) =~= all);
    } else {
        lemma_filtered_prefix(entries, pattern, wants, kind, n + 1);
        assert(entries.take(n + 1).drop_last() =~= entries.take(n));
        let a = glob_filtered(entries.take(n), pattern, wants, kind);
        let b = glob_filtered(entries.take(n + 1), pattern, wants, kind);
        let all = glob_filtered(entries, pattern, wants, kind);
        assert(a.len() <= b.len());
        assert(b.take(a.len() as int) =~= a);
        assert(all.take(a.len() as int) =~= all.take(b.len() as int).take(a.len() as int));
    }
}

/// `all` ordered newest first (equal times keep their order), cut to `max`.
fn sort_newest_first(all: &Vec<GlobMatch>, max: usize) -> (r: Vec<GlobMatch>)
    ensures
        newest_first(all@, max as nat, r@),
{
    let mut keys: Vec<SortKey> = Vec::new();
    let mut i: usize = 0;
    while i < all.len()
        invariant
            i <= all.len(),
            keys@.len() == i,
            forall|k: int| 0 <= k < i ==> (#[trigger] keys@[k]).index == k && keys@[k].rank == mtime_key(all@[k]) && keys@[k].path@.len() == 0,
        decreases all.len() - i,
    {
        let rank: u64 = match all[i].mtime {
            Some(t) => t,
            None => 0,
        };
        keys.push(SortKey { rank, path: Vec::new(), index: i });
        i = i + 1;
    }
    let ghost keys0 = keys@;
    sort_keys(&mut keys);
    let ghost p = choose|p: Seq<int>| is_permutation(p, keys0.len()) && #[trigger] keys@.len() == keys0.len() && forall|i: int| 0 <= i < p.len() ==> #[trigger] keys@[i] == keys0[p[i]];
    let ghost sorted = Seq::new(all@.len(), |i: int| all@[p[i]]);
    let limit: usize = if max < keys.len() { max } else { keys.len() };
    let mut r: Vec<GlobMatch> = Vec::new();
    let mut j: usize = 0;
    while j < limit
        invariant
            j <= limit <= keys@.len(),
            keys@.len() == keys0.len() == all@.len(),
            is_permutation(p, keys0.len()),
            forall|i: int| 0 <= i < p.len() ==> #[trigger] keys@[i] == keys0[p[i]],
            forall|k: int| 0 <= k < keys0.len() ==> (#[trigger] keys0[k]).index == k,
            sorted == Seq::new(all@.len(), |i: int| all@[p[i]]),
            r@ == sorted.take(j as int),
        decreases limit - j,
    {
        let idx = keys[j].index;
        assert(keys@[j as int] == keys0[p[j as int]]);
        r.push(copy_match(&all[idx]));
        assert(r@ =~= sorted.take(j + 1));
        j = j + 1;
    }
    proof {
        assert forall|a: int, b: int| 0 <= a < b < all@.len() implies mtime_key(all@[p[a]]) > mtime_key(all@[p[b]]) || (mtime_key(all@[p[a]]) == mtime_key(all@[p[b]]) && p[a] < p[b]) by {
            assert(!key_before(keys@[b], keys@[a]));
            assert(keys@[a] == keys0[p[a]] && keys@[b] == keys0[p[b]]);
            assert(!crate::order::chars_lt(keys@[b].path@, keys@[a].path@));
            assert(keys@[b].path@ =~= keys@[a].path@);
            assert(p[a] != p[b]);
        }
    }
    r
}

} // verus!
