use crow_core::tools::list::{glob_to_regex, keep_entry, matches_pattern, pattern_verdict, sort_entries, sort_entries_ignoring_case, level_listing, ListTool};
use crow_core::types::FileEntry;

#[test]
fn test_matches_pattern_wildcard() {
    assert!(matches_pattern("test.rs", "*.rs"));
    assert!(matches_pattern("foo.rs", "*.rs"));
    assert!(!matches_pattern("test.md", "*.rs"));
}

#[test]
fn test_matches_pattern_question_mark() {
    assert!(matches_pattern("test1.rs", "test?.rs"));
    assert!(matches_pattern("testA.rs", "test?.rs"));
    assert!(!matches_pattern("test12.rs", "test?.rs"));
}

#[test]
fn test_matches_pattern_exact() {
    assert!(matches_pattern("README.md", "README.md"));
    assert!(!matches_pattern("readme.md", "README.md"));
}

#[test]
fn glob_regex_conversion() {
    assert_eq!(glob_to_regex("*.rs"), "^.*\\.rs$");
    assert_eq!(glob_to_regex("a?b"), "^a.b$");
}

#[test]
fn invalid_regex_falls_back_to_contains() {
    // "(" makes an invalid regular expression.
    assert!(matches_pattern("a(b", "("));
    assert!(!matches_pattern("ab", "("));
    assert!(pattern_verdict(None, "xyz", "y"));
    assert!(!pattern_verdict(Some(false), "xyz", "y"));
}

#[test]
fn hidden_entries_are_not_listed() {
    assert!(!keep_entry(".git", None));
    assert!(keep_entry("src", None));
    assert!(keep_entry("main.rs", Some("*.rs")));
    assert!(!keep_entry("main.md", Some("*.rs")));
}

fn entry(name: &str, is_dir: bool) -> FileEntry {
    FileEntry { name: name.to_string(), path: format!("/x/{}", name), is_dir, size: if is_dir { None } else { Some(1) } }
}

#[test]
fn entries_directories_first_then_by_name() {
    let v = vec![entry("b.rs", false), entry("src", true), entry("a.rs", false), entry("B", true), entry("Z.rs", false)];
    let names: Vec<String> = sort_entries(v).into_iter().map(|e| e.name).collect();
    assert_eq!(names, vec!["B", "src", "Z.rs", "a.rs", "b.rs"]);
}

#[test]
fn browser_listing_ignores_case() {
    let v = vec![entry("b.rs", false), entry("src", true), entry("a.rs", false), entry("B", true), entry("Z.rs", false)];
    let names: Vec<String> = sort_entries_ignoring_case(v).into_iter().map(|e| e.name).collect();
    assert_eq!(names, vec!["B", "src", "a.rs", "b.rs", "Z.rs"]);
}

#[test]
fn list_tool_name() {
    assert_eq!(ListTool.name(), "list");
}

fn test_dir_entries() -> Vec<FileEntry> {
    vec![
        entry("main.rs", false),
        entry("lib.rs", false),
        entry("README.md", false),
        entry("config.json", false),
        entry("src", true),
        entry("tests", true),
    ]
}

#[test]
fn test_list_with_pattern() {
    let kept: Vec<FileEntry> = test_dir_entries().into_iter().filter(|e| keep_entry(&e.name, Some("*.rs"))).collect();
    assert!(!kept.is_empty());
    for e in &kept {
        if !e.is_dir {
            assert!(e.name.ends_with(".rs"), "Expected .rs file, got {}", e.name);
        }
    }
}

#[test]
fn test_list_directories_first() {
    let sorted = sort_entries(test_dir_entries());
    let mut seen_file = false;
    for e in &sorted {
        if !e.is_dir {
            seen_file = true;
        } else if seen_file {
            panic!("Directory found after file - should be sorted directories first");
        }
    }
}

#[test]
fn test_list_alphabetical_sort() {
    let sorted = sort_entries(test_dir_entries());
    let dirs: Vec<&str> = sorted.iter().filter(|e| e.is_dir).map(|e| e.name.as_str()).collect();
    let mut sorted_dirs = dirs.clone();
    sorted_dirs.sort();
    assert_eq!(dirs, sorted_dirs);
    let files: Vec<&str> = sorted.iter().filter(|e| !e.is_dir).map(|e| e.name.as_str()).collect();
    let mut sorted_files = files.clone();
    sorted_files.sort();
    assert_eq!(files, sorted_files);
}

#[test]
fn test_list_hidden_files_excluded() {
    assert!(!keep_entry(".hidden", None));
    assert!(keep_entry("visible.txt", None));
}

#[test]
fn recursive_listing_looks_into_every_subdirectory() {
    let e = |name: &str, is_dir: bool| FileEntry { name: name.to_string(), path: format!("/d/{}", name), is_dir, size: None };
    let all = vec![e("src", true), e("main.rs", false), e("docs", true), e(".git", true), e("notes.txt", false)];
    let (kept, subdirs) = level_listing(all.clone(), Some("*.rs"), true);
    assert_eq!(kept, vec![e("main.rs", false)]);
    assert_eq!(subdirs, vec!["/d/src".to_string(), "/d/docs".to_string()]);
    let (kept, subdirs) = level_listing(all, None, false);
    assert_eq!(kept.len(), 4);
    assert!(subdirs.is_empty());
}
