use pi_natives::cache::{CacheKey, DiscoveryCache};
use pi_natives::cancel::{CancelReason, CancelToken};
use pi_natives::discovery::{
    collect_entries, glob_config, plan_glob, run_glob, FileType, GlobMatch, GlobOptions, GlobStep,
    WalkEntry,
};
use pi_natives::error::SearchError;
use pi_natives::fuzzy::{
    fuzzy_early_result, fuzzy_find_entries, fuzzy_rank, fuzzy_subsequence_score, normalize_fuzzy_text,
    score_fuzzy_path,
};
use pi_natives::globs::{build_glob_pattern, compile_glob};
use pi_natives::grep::{
    merge_parallel, plan_grep, single_file_result, FileSearchResult, GrepOptions,
    SequentialSearch,
};
use pi_natives::process::{collect_descendants, collect_descendants_from_tree, kill_order};
use pi_natives::scanner::{scan_events, ContextKind, ScanEvent};
use pi_natives::search::{
    has_match, parse_output_mode, plan_search, resolve_context, search_from_events,
    OutputMode, SearchOptions,
};
use pi_natives::types::{matches_type_filter, resolve_type_filter};
use std::collections::HashMap;

fn chars(s: &str) -> Vec<char> {
    s.chars().collect()
}

fn entry(path: &str, file_type: FileType, mtime: Option<u64>) -> GlobMatch {
    GlobMatch { path: path.to_string(), file_type, mtime }
}

fn m(line: u64, text: &str) -> ScanEvent {
    ScanEvent::Match { line_number: Some(line), bytes: text.as_bytes().to_vec() }
}

fn ctx(kind: ContextKind, line: u64, text: &str) -> ScanEvent {
    ScanEvent::Context { kind, line_number: Some(line), bytes: text.as_bytes().to_vec() }
}

fn search_options(pattern: &str) -> SearchOptions {
    SearchOptions {
        pattern: pattern.to_string(),
        ignore_case: None,
        multiline: None,
        max_count: None,
        offset: None,
        context_before: None,
        context_after: None,
        context: None,
        max_columns: None,
        mode: None,
    }
}

fn grep_options(pattern: &str) -> GrepOptions {
    GrepOptions {
        pattern: pattern.to_string(),
        path: "/work".to_string(),
        glob: None,
        type_filter: None,
        ignore_case: None,
        multiline: None,
        hidden: None,
        max_count: None,
        offset: None,
        context_before: None,
        context_after: None,
        context: None,
        max_columns: None,
        mode: None,
        timeout_ms: None,
    }
}

fn glob_options(pattern: &str) -> GlobOptions {
    GlobOptions {
        pattern: pattern.to_string(),
        path: "/work".to_string(),
        file_type: None,
        hidden: None,
        max_results: None,
        gitignore: None,
        sort_by_mtime: None,
        include_node_modules: None,
        cache_ttl_ms: None,
        timeout_ms: None,
    }
}

#[test]
fn fuzzy_fewer_gaps_scores_higher() {
    let q = chars("ab");
    let contiguous = score_fuzzy_path(&chars("abc"), false, &q, &q);
    let gapped = score_fuzzy_path(&chars("axbc"), false, &q, &q);
    assert_eq!(contiguous, 100);
    assert_eq!(gapped, 85);
    assert!(contiguous > gapped);
    assert_eq!(fuzzy_subsequence_score(&q, &chars("abc")), 40);
    assert_eq!(fuzzy_subsequence_score(&q, &chars("axbc")), 35);
    assert_eq!(fuzzy_subsequence_score(&q, &chars("ba")), 0);
    assert_eq!(fuzzy_subsequence_score(&[], &chars("xyz")), 1);
}

#[test]
fn fuzzy_tiers_and_directory_bonus() {
    let q = chars("main");
    assert_eq!(score_fuzzy_path(&chars("src/Main"), false, &q, &q), 120);
    assert_eq!(score_fuzzy_path(&chars("src/main/"), true, &q, &q), 130);
    assert_eq!(score_fuzzy_path(&chars("src/main.rs"), false, &q, &q), 100);
    assert_eq!(score_fuzzy_path(&chars("src/domain.rs"), false, &q, &q), 80);
    assert_eq!(score_fuzzy_path(&chars("main/x.rs"), false, &q, &q), 60);
    assert_eq!(score_fuzzy_path(&chars("zzz"), false, &q, &q), 0);
    assert_eq!(score_fuzzy_path(&chars("zzz"), true, &q, &q), 0);
    assert_eq!(score_fuzzy_path(&chars("anything"), false, &[], &[]), 1);
}

#[test]
fn fuzzy_gaps_floor_at_one() {
    let q = chars("abcdefghij");
    let target = chars("axbxcxdxexfxgxhxixj");
    assert_eq!(fuzzy_subsequence_score(&q, &target), 1);
}

#[test]
fn fuzzy_normalization_strips_separators() {
    assert_eq!(normalize_fuzzy_text(&chars("Src/My_File-Name.RS")), chars("srcmyfilenamers"));
    assert_eq!(normalize_fuzzy_text(&chars(" a b ")), chars("ab"));
}

#[test]
fn fuzzy_rank_orders_and_truncates() {
    let entries = vec![
        entry("src", FileType::Dir, None),
        entry("src/main.rs", FileType::File, None),
        entry("link", FileType::Symlink, None),
        entry("README.md", FileType::File, None),
        entry("main.rs", FileType::File, None),
    ];
    let r = fuzzy_rank(&entries, "  Main ", 100);
    assert_eq!(r.total_matches, 2);
    let paths: Vec<&str> = r.matches.iter().map(|m| m.path.as_str()).collect();
    assert_eq!(paths, vec!["main.rs", "src/main.rs"]);
    assert_eq!(r.matches[0].score, 100);
    let one = fuzzy_rank(&entries, "main", 1);
    assert_eq!(one.total_matches, 2);
    assert_eq!(one.matches.len(), 1);
    assert_eq!(one.matches[0].path, "main.rs");
}

#[test]
fn fuzzy_empty_query_lists_everything_but_links() {
    let entries = vec![
        entry("b", FileType::File, None),
        entry("a", FileType::Dir, None),
        entry("l", FileType::Symlink, None),
    ];
    let r = fuzzy_rank(&entries, "", 10);
    let got: Vec<(String, u32, bool)> = r.matches.iter().map(|m| (m.path.clone(), m.score, m.is_directory)).collect();
    assert_eq!(got, vec![("a/".to_string(), 11, true), ("b".to_string(), 1, false)]);
    assert_eq!(fuzzy_rank(&entries, "./_", 10).matches.len(), 0);
    assert_eq!(fuzzy_rank(&entries, "a", 0).total_matches, 0);
}

#[test]
fn cancelled_token_fails_before_work() {
    let token = CancelToken::never();
    token.cancel();
    let entries = vec![entry("a.ts", FileType::File, None)];
    match fuzzy_find_entries(&entries, "a", 10, &token) {
        Err(SearchError::Cancelled(CancelReason::Aborted)) => {},
        _ => panic!("expected a cancellation"),
    }
    let config = glob_config(&glob_options("*.ts"));
    let glob = compile_glob(&config.pattern).ok().unwrap();
    match run_glob(&config, &glob, &entries, &token) {
        Err(SearchError::Cancelled(CancelReason::Aborted)) => {},
        _ => panic!("expected a cancellation"),
    }
}

#[test]
fn token_deadline_times_out() {
    let token = CancelToken::new(Some(100), 1_000);
    assert!(token.check(false, 1_099).is_ok());
    assert_eq!(token.check(false, 1_100), Err(CancelReason::Timeout));
    assert_eq!(token.check(true, 0), Err(CancelReason::Aborted));
    assert!(CancelToken::never().heartbeat().is_ok());
}

#[test]
fn process_tree_depth_first() {
    let mut tree: HashMap<u32, Vec<u32>> = HashMap::new();
    tree.insert(1, vec![2, 3]);
    tree.insert(2, vec![4]);
    tree.insert(3, vec![]);
    let mut pids = Vec::new();
    collect_descendants_from_tree(1, &tree, &mut pids);
    assert_eq!(pids, vec![2, 4, 3]);
    assert_eq!(kill_order(1, &pids), vec![3, 4, 2, 1]);
    let mut none = vec![9];
    collect_descendants(7, &tree, &mut none);
    assert_eq!(none, vec![9]);
}

#[test]
fn process_tree_cycle_terminates() {
    let mut tree: HashMap<u32, Vec<u32>> = HashMap::new();
    tree.insert(0, vec![0, 5]);
    tree.insert(5, vec![0, 6]);
    let mut pids = Vec::new();
    collect_descendants(0, &tree, &mut pids);
    assert_eq!(pids, vec![5, 6]);
}

#[test]
fn offset_and_limit_window() {
    let events: Vec<ScanEvent> = (1..=5).map(|i| m(i, "hit")).collect();
    let r = scan_events(Some(2), 1, None, true, &events);
    let lines: Vec<u64> = r.matches.iter().map(|c| c.line_number).collect();
    assert_eq!(lines, vec![2, 3]);
    assert!(r.limit_reached);
    assert_eq!(r.match_count, 4);
    let all = scan_events(None, 3, None, true, &events);
    let lines: Vec<u64> = all.matches.iter().map(|c| c.line_number).collect();
    assert_eq!(lines, vec![4, 5]);
    assert_eq!(all.match_count, 5);
    let past = scan_events(Some(3), 7, None, true, &events);
    assert_eq!(past.matches.len(), 0);
    let zero = scan_events(Some(0), 0, None, true, &events);
    assert_eq!(zero.matches.len(), 0);
    assert!(zero.limit_reached);
}

#[test]
fn context_lines_attach_to_their_match() {
    let events = vec![
        ctx(ContextKind::Before, 2, "b"),
        ctx(ContextKind::Before, 3, "c"),
        m(4, "foo"),
        ctx(ContextKind::After, 5, "d"),
        ctx(ContextKind::After, 6, "e"),
    ];
    let r = scan_events(None, 0, None, true, &events);
    assert_eq!(r.matches.len(), 1);
    let rec = &r.matches[0];
    assert_eq!(rec.line_number, 4);
    let before: Vec<(u32, String)> = rec.context_before.to_vec().iter().map(|c| (c.line_number, c.line.clone())).collect();
    let after: Vec<(u32, String)> = rec.context_after.to_vec().iter().map(|c| (c.line_number, c.line.clone())).collect();
    assert_eq!(before, vec![(2, "b".to_string()), (3, "c".to_string())]);
    assert_eq!(after, vec![(5, "d".to_string()), (6, "e".to_string())]);
}

#[test]
fn skipped_match_drops_its_before_context() {
    let events = vec![
        ctx(ContextKind::Before, 1, "x"),
        m(2, "first"),
        ctx(ContextKind::Before, 3, "y"),
        m(4, "second"),
    ];
    let r = scan_events(None, 1, None, true, &events);
    assert_eq!(r.matches.len(), 1);
    assert_eq!(r.matches[0].line, "second");
    assert_eq!(r.matches[0].context_before.len(), 1);
    assert_eq!(r.matches[0].context_before.to_vec()[0].line, "y");
}

#[test]
fn lines_are_trimmed_decoded_and_truncated() {
    let events = vec![m(1, "abcdefgh  \r")];
    let r = scan_events(None, 0, Some(5), true, &events);
    assert_eq!(r.matches[0].line, "ab...");
    assert!(r.matches[0].truncated);
    let whole = scan_events(None, 0, Some(8), true, &events);
    assert_eq!(whole.matches[0].line, "abcdefgh");
    assert!(!whole.matches[0].truncated);
    let bad = vec![ScanEvent::Match { line_number: Some(1), bytes: vec![b'a', 0xFF, b'b'] }];
    let r = scan_events(None, 0, None, true, &bad);
    assert_eq!(r.matches[0].line, "a\u{FFFD}b");
}

#[test]
fn count_mode_collects_nothing() {
    let events = vec![ctx(ContextKind::Before, 1, "x"), m(2, "a"), m(3, "b")];
    let r = scan_events(None, 0, None, false, &events);
    assert_eq!(r.matches.len(), 0);
    assert_eq!(r.match_count, 2);
    assert_eq!(r.collected, 2);
}

#[test]
fn search_result_shapes_matches() {
    let mut options = search_options("foo");
    options.max_count = Some(1);
    let plan = plan_search(&options).ok().unwrap();
    let events = vec![ctx(ContextKind::Before, 1, "x"), m(2, "foo"), m(3, "foo again")];
    let r = search_from_events(&plan.params, &events);
    assert_eq!(r.matches.len(), 1);
    assert_eq!(r.matches[0].line_number, 2);
    assert_eq!(r.matches[0].context_before.as_ref().unwrap().len(), 1);
    assert!(r.matches[0].context_after.is_none());
    assert!(r.matches[0].truncated.is_none());
    assert!(r.limit_reached);
    assert_eq!(r.match_count, 2);
    assert!(r.error.is_none());
}

#[test]
fn invalid_regex_is_reported() {
    let r = plan_search(&search_options("(unclosed"));
    match r {
        Err(res) => {
            assert!(res.error.is_some());
            assert_eq!(res.matches.len(), 0);
        },
        Ok(_) => panic!("pattern should be rejected"),
    }
    match has_match(b"abc", "[", false, false) {
        Err(SearchError::InvalidInput(msg)) => assert!(msg.starts_with("Regex error: ")),
        _ => panic!("pattern should be rejected"),
    }
}

#[test]
fn has_match_uses_the_regex_engine() {
    assert_eq!(has_match(b"hello world", "wor.d", false, false).ok(), Some(true));
    assert_eq!(has_match(b"hello world", "WORLD", false, false).ok(), Some(false));
    assert_eq!(has_match(b"hello world", "WORLD", true, false).ok(), Some(true));
    assert_eq!(has_match(b"a\nb", "^b$", false, true).ok(), Some(true));
}

#[test]
fn output_mode_and_context_resolution() {
    assert_eq!(parse_output_mode(Some("count")), OutputMode::Count);
    assert_eq!(parse_output_mode(Some("filesWithMatches")), OutputMode::Count);
    assert_eq!(parse_output_mode(Some("content")), OutputMode::Content);
    assert_eq!(parse_output_mode(None), OutputMode::Content);
    assert_eq!(resolve_context(Some(2), None, None), (2, 2));
    assert_eq!(resolve_context(Some(2), Some(1), None), (1, 0));
    assert_eq!(resolve_context(None, None, Some(3)), (0, 3));
    assert_eq!(resolve_context(None, None, None), (0, 0));
}

fn scan(events: &Vec<ScanEvent>, offset: u64, max: Option<u64>) -> pi_natives::scanner::ScanOutcome {
    scan_events(max, offset, None, true, events)
}

#[test]
fn grep_end_to_end_skips_node_modules() {
    let plan = plan_grep(&grep_options("foo")).ok().unwrap();
    let walked = ["a.ts", "b.ts", "sub/node_modules/c.ts", ".git/config"];
    let selected: Vec<&str> = walked.iter().copied().filter(|p| plan.select_file(p, true)).collect();
    assert_eq!(selected, vec!["a.ts", "b.ts"]);
    assert!(!plan.select_file("sub", false));
    assert!(plan.allow_parallel());
    let results = vec![
        FileSearchResult { relative_path: "b.ts".to_string(), outcome: scan(&vec![m(3, "foo")], 0, None) },
        FileSearchResult { relative_path: "a.ts".to_string(), outcome: scan(&vec![], 0, None) },
    ];
    let r = merge_parallel(&results, OutputMode::Content);
    assert_eq!(r.matches.len(), 1);
    assert_eq!(r.matches[0].path, "b.ts");
    assert_eq!(r.matches[0].line_number, 3);
    assert_eq!(r.total_matches, 1);
    assert_eq!(r.files_with_matches, 1);
    assert_eq!(r.files_searched, 2);
    assert!(r.limit_reached.is_none());
}

#[test]
fn grep_glob_mentioning_node_modules_includes_it() {
    let mut o = grep_options("foo");
    o.glob = Some("node_modules/**".to_string());
    let plan = plan_grep(&o).ok().unwrap();
    assert!(plan.select_file("node_modules/x/c.ts", true));
    assert!(!plan.select_file("src/c.ts", true));
}

#[test]
fn grep_merge_sorts_by_path_and_counts() {
    let results = vec![
        FileSearchResult { relative_path: "z.rs".to_string(), outcome: scan(&vec![m(1, "x"), m(2, "x")], 0, None) },
        FileSearchResult { relative_path: "a.rs".to_string(), outcome: scan(&vec![m(5, "x")], 0, None) },
    ];
    let r = merge_parallel(&results, OutputMode::Count);
    let got: Vec<(String, u32, Option<u32>)> = r.matches.iter().map(|g| (g.path.clone(), g.line_number, g.match_count)).collect();
    assert_eq!(got, vec![("a.rs".to_string(), 0, Some(1)), ("z.rs".to_string(), 0, Some(2))]);
    assert_eq!(r.total_matches, 3);
}

#[test]
fn grep_sequential_global_offset_and_limit() {
    let files: Vec<(&str, Vec<ScanEvent>)> = vec![
        ("a.txt", vec![m(1, "x"), m(2, "x")]),
        ("b.txt", vec![m(1, "x"), m(2, "x"), m(3, "x")]),
        ("c.txt", vec![m(9, "x")]),
    ];
    let mut s = SequentialSearch::new(OutputMode::Content, Some(2), 3);
    for (path, events) in &files {
        let (offset, remaining) = match s.next_window() {
            Some(w) => w,
            None => break,
        };
        s.file_opened();
        let outcome = scan(events, offset, remaining);
        s.file_scanned(path, &outcome);
    }
    let r = s.into_result();
    let got: Vec<(String, u32)> = r.matches.iter().map(|g| (g.path.clone(), g.line_number)).collect();
    assert_eq!(got, vec![("b.txt".to_string(), 2), ("b.txt".to_string(), 3)]);
    assert_eq!(r.limit_reached, Some(true));
    assert_eq!(r.files_searched, 2);
    assert_eq!(r.files_with_matches, 2);
    assert_eq!(r.total_matches, 5);
}

#[test]
fn grep_single_file_result() {
    let outcome = scan(&vec![m(3, "foo")], 0, Some(1));
    let r = single_file_result("/abs/b.ts", &outcome, OutputMode::Content, Some(1));
    assert_eq!(r.matches.len(), 1);
    assert_eq!(r.matches[0].path, "/abs/b.ts");
    assert_eq!(r.limit_reached, Some(true));
    let none = single_file_result("/abs/a.ts", &scan(&vec![], 0, None), OutputMode::Content, None);
    assert_eq!(none.files_searched, 1);
    assert_eq!(none.matches.len(), 0);
}

#[test]
fn grep_rejects_bad_patterns() {
    assert!(matches!(plan_grep(&grep_options("(")), Err(SearchError::InvalidInput(_))));
    let mut o = grep_options("foo");
    o.glob = Some("a[".to_string());
    assert!(matches!(plan_grep(&o), Err(SearchError::InvalidInput(_))));
    o.glob = Some("   ".to_string());
    assert!(plan_grep(&o).ok().unwrap().glob.is_none());
}

#[test]
fn glob_shorthand_and_matching() {
    assert_eq!(build_glob_pattern("*.ts"), "**/*.ts");
    assert_eq!(build_glob_pattern("src/*.ts"), "src/*.ts");
    assert_eq!(build_glob_pattern("**/x"), "**/x");
    let mut o = grep_options("x");
    o.glob = Some("*.ts".to_string());
    let plan = plan_grep(&o).ok().unwrap();
    assert!(plan.select_file("deep/dir/x.ts", true));
    assert!(plan.select_file("x.ts", true));
    assert!(!plan.select_file("x.rs", true));
    o.glob = Some("src/*.ts".to_string());
    let plan = plan_grep(&o).ok().unwrap();
    assert!(plan.select_file("src/x.ts", true));
    assert!(!plan.select_file("lib/src/x.ts", true));
    assert!(matches!(compile_glob("a[b"), Err(SearchError::InvalidInput(_))));
}

#[test]
fn glob_run_filters_limits_and_sorts() {
    let entries = vec![
        entry("a.ts", FileType::File, Some(10)),
        entry("b.ts", FileType::File, Some(30)),
        entry("node_modules/c.ts", FileType::File, Some(50)),
        entry("d.ts", FileType::Dir, Some(20)),
        entry("e.rs", FileType::File, Some(40)),
    ];
    let token = CancelToken::never();
    let config = glob_config(&glob_options("  *.ts "));
    assert_eq!(config.pattern, "*.ts");
    let glob = compile_glob(&config.pattern).ok().unwrap();
    let r = run_glob(&config, &glob, &entries, &token).ok().unwrap();
    let paths: Vec<&str> = r.matches.iter().map(|e| e.path.as_str()).collect();
    assert_eq!(paths, vec!["a.ts", "b.ts", "d.ts"]);
    assert_eq!(r.total_matches, 3);

    let mut o = glob_options("*.ts");
    o.file_type = Some(FileType::File);
    o.sort_by_mtime = Some(true);
    o.max_results = Some(1);
    let config = glob_config(&o);
    let r = run_glob(&config, &glob, &entries, &token).ok().unwrap();
    let paths: Vec<&str> = r.matches.iter().map(|e| e.path.as_str()).collect();
    assert_eq!(paths, vec!["b.ts"]);

    let mut o = glob_options("*.ts");
    o.include_node_modules = Some(true);
    o.max_results = Some(2);
    let config = glob_config(&o);
    let r = run_glob(&config, &glob, &entries, &token).ok().unwrap();
    assert_eq!(r.matches.len(), 2);
    assert!(glob_config(&glob_options("node_modules/**")).mentions_node_modules);
    assert_eq!(glob_config(&glob_options("   ")).pattern, "*");
}

#[test]
fn walk_selection_drops_root_git_and_unreadable() {
    let raw = vec![
        WalkEntry { relative_path: "".to_string(), file_type: Some(FileType::Dir), mtime: None },
        WalkEntry { relative_path: ".git".to_string(), file_type: Some(FileType::Dir), mtime: None },
        WalkEntry { relative_path: ".git/HEAD".to_string(), file_type: Some(FileType::File), mtime: None },
        WalkEntry { relative_path: "src".to_string(), file_type: Some(FileType::Dir), mtime: Some(1) },
        WalkEntry { relative_path: "src/a.rs".to_string(), file_type: Some(FileType::File), mtime: Some(2) },
        WalkEntry { relative_path: "gone".to_string(), file_type: None, mtime: None },
        WalkEntry { relative_path: "node_modules/x".to_string(), file_type: Some(FileType::File), mtime: None },
        WalkEntry { relative_path: "my.git/x".to_string(), file_type: Some(FileType::File), mtime: None },
    ];
    let kept: Vec<String> = collect_entries(&raw).iter().map(|e| e.path.clone()).collect();
    assert_eq!(kept, vec!["src", "src/a.rs", "node_modules/x", "my.git/x"]);
}

#[test]
fn cache_serves_until_expiry() {
    let mut cache = DiscoveryCache::new();
    let key = CacheKey { root: "/work".to_string(), include_hidden: false, use_gitignore: true };
    let other = CacheKey { root: "/work".to_string(), include_hidden: true, use_gitignore: true };
    assert!(cache.lookup(&key, 0).is_none());
    let first = vec![entry("a.ts", FileType::File, None)];
    cache.store(&key, &first, 1_000, 5_000);
    let hit = cache.lookup(&key, 2_000).unwrap();
    assert_eq!(hit.len(), 1);
    assert_eq!(hit[0].path, "a.ts");
    let again = cache.lookup(&key, 5_999).unwrap();
    assert_eq!(again[0].path, "a.ts");
    assert!(cache.lookup(&other, 2_000).is_none());
    assert!(cache.lookup(&key, 6_000).is_none());
    assert!(cache.lookup(&key, 2_000).is_none());
}

#[test]
fn cache_evicts_the_earliest_expiry() {
    let mut cache = DiscoveryCache::new();
    let keys: Vec<CacheKey> = (0..17)
        .map(|i| CacheKey { root: format!("/r{i}"), include_hidden: false, use_gitignore: true })
        .collect();
    for (i, k) in keys.iter().enumerate() {
        let ttl = if i == 5 { 10 } else { 1_000 };
        cache.store(k, &vec![], 0, ttl);
    }
    assert!(cache.lookup(&keys[5], 1).is_none());
    for (i, k) in keys.iter().enumerate() {
        if i != 5 {
            assert!(cache.lookup(k, 1).is_some());
        }
    }
}

#[test]
fn type_filters_match_names_and_extensions() {
    let ts = resolve_type_filter(Some("ts")).unwrap();
    assert!(matches_type_filter(&chars("src/a.tsx"), &ts));
    assert!(matches_type_filter(&chars("src/A.TS"), &ts));
    assert!(!matches_type_filter(&chars("a.rs"), &ts));
    assert!(!matches_type_filter(&chars(".ts"), &ts));
    let rust = resolve_type_filter(Some(" .RS ")).unwrap();
    assert!(matches_type_filter(&chars("lib.rs"), &rust));
    let docker = resolve_type_filter(Some("docker")).unwrap();
    assert!(matches_type_filter(&chars("ctx/Dockerfile"), &docker));
    assert!(!matches_type_filter(&chars("ctx/dockerfile.txt"), &docker));
    let custom = resolve_type_filter(Some("vue")).unwrap();
    assert!(matches_type_filter(&chars("c/x.vue"), &custom));
    assert!(matches_type_filter(&chars("c/x.VUE"), &custom));
    assert!(!matches_type_filter(&chars("c/xvue"), &custom));
    assert!(resolve_type_filter(Some("   ")).is_none());
    assert!(resolve_type_filter(None).is_none());
}

#[test]
fn repeated_searches_agree() {
    let entries = vec![
        entry("b.ts", FileType::File, Some(5)),
        entry("a.ts", FileType::File, Some(5)),
        entry("c.ts", FileType::File, Some(9)),
    ];
    let token = CancelToken::never();
    let mut o = glob_options("*.ts");
    o.sort_by_mtime = Some(true);
    let config = glob_config(&o);
    let glob = compile_glob(&config.pattern).ok().unwrap();
    let first: Vec<String> = run_glob(&config, &glob, &entries, &token).ok().unwrap().matches.iter().map(|e| e.path.clone()).collect();
    let second: Vec<String> = run_glob(&config, &glob, &entries, &token).ok().unwrap().matches.iter().map(|e| e.path.clone()).collect();
    assert_eq!(first, vec!["c.ts", "b.ts", "a.ts"]);
    assert_eq!(first, second);
    let results = || {
        vec![
            FileSearchResult { relative_path: "y".to_string(), outcome: scan(&vec![m(1, "x")], 0, None) },
            FileSearchResult { relative_path: "x".to_string(), outcome: scan(&vec![m(2, "x")], 0, None) },
        ]
    };
    let a: Vec<(String, u32)> = merge_parallel(&results(), OutputMode::Content).matches.iter().map(|g| (g.path.clone(), g.line_number)).collect();
    let b: Vec<(String, u32)> = merge_parallel(&results(), OutputMode::Content).matches.iter().map(|g| (g.path.clone(), g.line_number)).collect();
    assert_eq!(a, vec![("x".to_string(), 2), ("y".to_string(), 1)]);
    assert_eq!(a, b);
}

#[test]
fn glob_plan_compiles_before_the_zero_limit() {
    let mut o = glob_options("a[");
    o.max_results = Some(0);
    match plan_glob(&o) {
        Err(SearchError::InvalidInput(msg)) => assert!(msg.starts_with("Invalid glob pattern: ")),
        _ => panic!("pattern should be rejected"),
    }
    o.pattern = "*.ts".to_string();
    match plan_glob(&o) {
        Ok(GlobStep::Finished(r)) => assert_eq!(r.matches.len(), 0),
        _ => panic!("a zero limit needs no walk"),
    }
    o.max_results = None;
    match plan_glob(&o) {
        Ok(GlobStep::Walk(plan)) => assert_eq!(plan.config.pattern, "*.ts"),
        _ => panic!("a walk is needed"),
    }
}

#[test]
fn grep_error_messages_name_the_cause() {
    match plan_grep(&grep_options("(")) {
        Err(SearchError::InvalidInput(msg)) => assert!(msg.starts_with("Regex error: ")),
        _ => panic!("pattern should be rejected"),
    }
    let mut o = grep_options("foo");
    o.glob = Some("a[".to_string());
    match plan_grep(&o) {
        Err(SearchError::InvalidInput(msg)) => assert!(msg.starts_with("Invalid glob pattern: ")),
        _ => panic!("glob should be rejected"),
    }
}

#[test]
fn fuzzy_early_result_needs_no_walk() {
    assert!(fuzzy_early_result("main", 0).is_some());
    assert!(fuzzy_early_result(" ./_ ", 10).is_some());
    assert!(fuzzy_early_result("main", 10).is_none());
    assert!(fuzzy_early_result("", 10).is_none());
    let token = CancelToken::never();
    token.cancel();
    let entries = vec![entry("a.ts", FileType::File, None)];
    assert!(fuzzy_find_entries(&entries, "./", 10, &token).is_ok());
    assert!(fuzzy_find_entries(&entries, "a", 0, &token).is_ok());
    assert!(fuzzy_find_entries(&vec![], "a", 5, &token).is_ok());
}

#[test]
fn cache_bypass_with_zero_lifetime() {
    let mut cache = DiscoveryCache::new();
    let key = CacheKey { root: "/w".to_string(), include_hidden: false, use_gitignore: true };
    let (hit, now) = cache.cached_entries(&key, 0);
    assert!(hit.is_none());
    cache.record(&key, &vec![entry("a", FileType::File, None)], now, 0);
    assert!(cache.cached_entries(&key, 60_000).0.is_none());
    let (_, now) = cache.cached_entries(&key, 60_000);
    cache.record(&key, &vec![entry("a", FileType::File, None)], now, 60_000);
    assert_eq!(cache.cached_entries(&key, 60_000).0.unwrap().len(), 1);
}

#[test]
fn scanned_file_counts_as_searched() {
    let mut s = SequentialSearch::new(OutputMode::Count, None, 0);
    s.file_scanned("a", &scan(&vec![m(1, "x"), m(2, "x")], 0, None));
    s.file_opened();
    s.file_scanned("b", &scan(&vec![], 0, None));
    let r = s.into_result();
    assert_eq!(r.files_searched, 2);
    assert_eq!(r.files_with_matches, 1);
    assert_eq!(r.total_matches, 2);
    assert_eq!(r.matches.len(), 1);
    assert_eq!(r.matches[0].match_count, Some(2));
}
