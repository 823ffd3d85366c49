use devtidy::catalog::Catalog;
use devtidy::matcher::{
    extension_key_of, gitignore_patterns, is_hidden_excluded, match_entry, matches_gitignore_pattern,
    path_file_name, pattern_matches, trim_trailing_slashes,
};
use devtidy::models::{CleanableItem, WalkEntry};
use devtidy::scanner::{
    dedup_by_path, directory_size, match_gitignore_entries, relative_path, scan_cleanable_items,
    scan_directory, scan_gitignore_items, size_jobs, split_into_chunks, split_into_chunks_ignore,
    worker_count, workers_for,
};
use devtidy::text::{decimal_string, str_contains, str_ends_with, str_starts_with, text_lines};

fn entry(rel: &str, is_file: bool, len: u64) -> WalkEntry {
    let components: Vec<String> = rel.split('/').map(|c| c.to_string()).collect();
    WalkEntry::new(format!("/root/{}", rel), components, is_file, len)
}

fn paths(items: &[CleanableItem]) -> Vec<String> {
    items.iter().map(|i| i.path.clone()).collect()
}

#[test]
fn catalog_holds_the_builtin_patterns() {
    let cat = Catalog::cleanable_patterns();
    assert_eq!(cat.len(), 47);
    assert_eq!(cat.key(0), "node_modules");
    assert_eq!(cat.get("node_modules"), Some("Node.js dependencies"));
    assert_eq!(cat.get("*.log"), Some("Log files"));
    assert_eq!(cat.get("src"), None);
}

#[test]
fn catalog_insert_replaces_existing_key() {
    let mut cat = Catalog::new();
    cat.insert("dist", "first");
    cat.insert("out", "second");
    cat.insert("dist", "third");
    assert_eq!(cat.len(), 2);
    assert_eq!(cat.key(0), "dist");
    assert_eq!(cat.description(0), "third");
    assert_eq!(cat.position("out"), Some(1));
}

#[test]
fn exact_names_match_with_their_description() {
    let cat = Catalog::cleanable_patterns();
    for i in 0..cat.len() {
        let key = cat.key(i).to_string();
        if key.contains('*') {
            continue;
        }
        assert_eq!(match_entry(&key, &cat), Some(cat.description(i).to_string()), "key {}", key);
    }
}

#[test]
fn globs_and_extensions_match() {
    let cat = Catalog::cleanable_patterns();
    assert_eq!(match_entry("build-x64", &cat), Some("Wildcard build output directories".to_string()));
    assert_eq!(match_entry("server.log", &cat), Some("Log files".to_string()));
    assert_eq!(match_entry("cache.sqlite3", &cat), Some("SQLite database files".to_string()));
    assert_eq!(match_entry("module.pyc", &cat), Some("Compiled Python files".to_string()));
    assert_eq!(match_entry("src", &cat), None);
    assert_eq!(match_entry("Node_modules", &cat), None);
    assert_eq!(match_entry("main.rs", &cat), None);
}

#[test]
fn extension_fallback_finds_key_the_glob_rejects() {
    let mut cat = Catalog::new();
    cat.insert("*.x[", "Odd extension");
    assert!(!pattern_matches("*.x[", "a.x["));
    assert_eq!(extension_key_of("a.x["), Some("*.x[".to_string()));
    assert_eq!(match_entry("a.x[", &cat), Some("Odd extension".to_string()));
    assert_eq!(extension_key_of("archive.tar.gz"), Some("*.gz".to_string()));
    assert_eq!(extension_key_of("Makefile"), None);
}

#[test]
fn hidden_names_are_excluded_except_git() {
    assert!(is_hidden_excluded(".venv"));
    assert!(is_hidden_excluded(".cache"));
    assert!(!is_hidden_excluded(".git"));
    assert!(!is_hidden_excluded("node_modules"));
    assert!(!is_hidden_excluded(""));
}

#[test]
fn gitignore_rules_match_as_described() {
    assert!(matches_gitignore_pattern("target/", "target"));
    assert!(matches_gitignore_pattern("target/", "target/debug"));
    assert!(!matches_gitignore_pattern("target/", "targets"));
    assert!(matches_gitignore_pattern("*.log", "logs/app.log"));
    assert!(matches_gitignore_pattern("logs/*", "logs/app.log"));
    assert!(matches_gitignore_pattern("node_modules", "web/node_modules/react"));
    assert!(matches_gitignore_pattern("dist", "dist"));
    assert!(!matches_gitignore_pattern("dist", "src/main.rs"));
    assert_eq!(trim_trailing_slashes("build//"), "build");
}

#[test]
fn gitignore_lines_become_rules() {
    let lines: Vec<String> = vec!["  target/ ", "# comment", "", "!keep.log", "*.log", "   "]
        .into_iter()
        .map(String::from)
        .collect();
    assert_eq!(gitignore_patterns(&lines), vec!["target/".to_string(), "*.log".to_string()]);
}

#[test]
fn catalog_scan_finds_items_with_sizes() {
    let cat = Catalog::cleanable_patterns();
    let entries = vec![
        entry("web", false, 0),
        entry("web/node_modules", false, 0),
        entry("web/server.log", true, 42),
        entry("web/src", false, 0),
        entry("web/src/main.rs", true, 7),
    ];
    let items = scan_cleanable_items(&entries, &cat, 10);
    assert_eq!(paths(&items), vec!["/root/web/node_modules".to_string(), "/root/web/server.log".to_string()]);
    assert_eq!(items[0].size, 0);
    assert_eq!(items[0].item_type, "Node.js dependencies");
    assert_eq!(items[0].info, "Node.js dependencies");
    assert!(!items[0].selected);
    assert_eq!(items[1].size, 42);
}

#[test]
fn hidden_subtrees_are_never_matched() {
    let cat = Catalog::cleanable_patterns();
    let entries = vec![
        entry(".venv", false, 0),
        entry(".hidden/target", false, 0),
        entry(".hidden/deep/dist", false, 0),
        entry(".git", false, 0),
        entry(".git/debug", false, 0),
        entry("target", false, 0),
    ];
    let items = scan_cleanable_items(&entries, &cat, 10);
    assert_eq!(paths(&items), vec!["/root/.git/debug".to_string(), "/root/target".to_string()]);
}

#[test]
fn depth_limit_and_root_are_respected() {
    let cat = Catalog::cleanable_patterns();
    let root = WalkEntry::new("/root".to_string(), vec![], false, 0);
    let entries = vec![root, entry("a/b/c/dist", false, 0), entry("dist", false, 0)];
    let items = scan_cleanable_items(&entries, &cat, 3);
    assert_eq!(paths(&items), vec!["/root/dist".to_string()]);
}

#[test]
fn rescanning_in_another_order_finds_the_same_paths() {
    let cat = Catalog::cleanable_patterns();
    let mut entries = vec![
        entry("a/target", false, 0),
        entry("b/build", false, 0),
        entry("c/x.tmp", true, 3),
        entry("c/y.rs", true, 3),
    ];
    let first = scan_directory(&entries, false, &cat, &vec![], 6);
    let again = scan_directory(&entries, false, &cat, &vec![], 6);
    entries.reverse();
    let reordered = scan_directory(&entries, false, &cat, &vec![], 6);
    let mut a = paths(&first);
    let mut b = paths(&again);
    let mut c = paths(&reordered);
    a.sort();
    b.sort();
    c.sort();
    assert_eq!(a, b);
    assert_eq!(a, c);
    assert_eq!(a.len(), 3);
}

#[test]
fn gitignore_scan_names_rule_and_drops_repeats() {
    let rules = vec!["target/".to_string(), "*.log".to_string()];
    let entries = vec![
        entry("target", false, 0),
        entry("target/app.log", true, 5),
        entry("target", false, 0),
        entry(".hidden/x.log", true, 2),
        entry("src", false, 0),
    ];
    let raw = match_gitignore_entries(&entries, &rules, 10);
    assert_eq!(raw.len(), 4);
    let items = scan_gitignore_items(&entries, &rules, 10);
    assert_eq!(
        paths(&items),
        vec!["/root/target".to_string(), "/root/target/app.log".to_string(), "/root/.hidden/x.log".to_string()]
    );
    assert_eq!(items[0].item_type, "Gitignore pattern: target/");
    assert_eq!(items[1].item_type, "Gitignore pattern: target/");
    assert_eq!(items[2].item_type, "Gitignore pattern: *.log");
    assert_eq!(items[2].info, "Matches .gitignore pattern");
    assert_eq!(items[1].size, 5);
    let via_directory = scan_directory(&entries, true, &Catalog::new(), &rules, 10);
    assert_eq!(paths(&via_directory), paths(&items));
    assert_eq!(dedup_by_path(raw).len(), 3);
}

#[test]
fn gitignore_scan_without_rules_finds_nothing() {
    let entries = vec![entry("target", false, 0)];
    assert!(scan_gitignore_items(&entries, &vec![], 10).is_empty());
}

#[test]
fn relative_paths_join_components() {
    assert_eq!(relative_path(&entry("a/b/c", false, 0)), "a/b/c");
    assert_eq!(relative_path(&entry("a", false, 0)), "a");
}

#[test]
fn chunks_share_work_in_order() {
    let items: Vec<u32> = (0..10).collect();
    let chunks = split_into_chunks(items, 3);
    assert_eq!(chunks, vec![vec![0, 1, 2, 3], vec![4, 5, 6, 7], vec![8, 9]]);
    let few = split_into_chunks(vec![1, 2, 3, 4, 5], 8);
    assert_eq!(few.len(), 5);
    assert!(split_into_chunks(Vec::<u8>::new(), 4).is_empty());
    assert_eq!(split_into_chunks_ignore(vec!['a', 'b'], 1), vec![vec!['a', 'b']]);
}

#[test]
fn size_resolution_emits_each_directory_once_for_any_worker_count() {
    let jobs: Vec<String> = (0..7).map(|i| format!("/root/dir{}", i)).collect();
    for workers in 1..=9 {
        let chunks = split_into_chunks(jobs.clone(), workers);
        assert!(chunks.len() <= workers);
        let emitted: Vec<String> = chunks.into_iter().flatten().collect();
        assert_eq!(emitted, jobs);
    }
}

#[test]
fn size_jobs_pick_unsized_directories() {
    let items = vec![
        CleanableItem::new("/root/a".into(), "t".into(), 0, "i".into()),
        CleanableItem::new("/root/b.log".into(), "t".into(), 9, "i".into()),
        CleanableItem::new("/root/c".into(), "t".into(), 0, "i".into()),
        CleanableItem::new("/root/d.log".into(), "t".into(), 0, "i".into()),
    ];
    let jobs = size_jobs(&items, &vec![true, false, true, false]);
    assert_eq!(jobs, vec!["/root/a".to_string(), "/root/c".to_string()]);
    assert!(size_jobs(&items, &vec![]).is_empty());
}

#[test]
fn directory_size_sums_nested_files() {
    let listing = vec![
        WalkEntry::new("/d".into(), vec![], false, 0),
        WalkEntry::new("/d/a".into(), vec!["a".into()], true, 100),
        WalkEntry::new("/d/sub".into(), vec!["sub".into()], false, 4096),
        WalkEntry::new("/d/sub/b".into(), vec!["sub".into(), "b".into()], true, 250),
        WalkEntry::new("/d/c".into(), vec!["c".into()], true, 0),
    ];
    assert_eq!(directory_size(&listing), 350);
    let empty = vec![WalkEntry::new("/e".into(), vec![], false, 0)];
    assert_eq!(directory_size(&empty), 0);
    assert_eq!(directory_size(&vec![]), 0);
}

#[test]
fn directory_size_saturates() {
    let listing = vec![
        WalkEntry::new("/d/a".into(), vec!["a".into()], true, u64::MAX - 1),
        WalkEntry::new("/d/b".into(), vec!["b".into()], true, 5),
    ];
    assert_eq!(directory_size(&listing), u64::MAX);
}

#[test]
fn there_are_at_least_two_workers() {
    assert!(worker_count() >= 2);
    assert_eq!(workers_for(0), 2);
    assert_eq!(workers_for(1), 2);
    assert_eq!(workers_for(2), 2);
    assert_eq!(workers_for(12), 12);
}

#[test]
fn text_helpers_work_on_characters() {
    assert!(str_starts_with("node_modules", "node"));
    assert!(!str_starts_with("no", "node"));
    assert!(str_ends_with("a/b", "/b"));
    assert!(str_contains("héllo wörld", "o w"));
    assert!(!str_contains("abc", "abd"));
    assert_eq!(decimal_string(0), "0");
    assert_eq!(decimal_string(1234), "1234");
}

#[test]
fn file_names_follow_path_components() {
    let cases = ["a/b", "/home/user/project/", "a/b/.", "a/..", ".", "./", "x", "", "/", "a//b//", "./a", "b.", "..x"];
    for case in cases {
        let expected = std::path::Path::new(case).file_name().map(|n| n.to_string_lossy().to_string());
        assert_eq!(path_file_name(case), expected, "path {:?}", case);
    }
}

#[test]
fn text_is_cut_into_lines() {
    let cases = ["a\r\nb\n\nc\r", "", "x\n", "\n", "one", "a\n\r\n", "\r\n\r"];
    for case in cases {
        let expected: Vec<String> = case.lines().map(|l| l.to_string()).collect();
        assert_eq!(text_lines(case), expected, "text {:?}", case);
    }
}
