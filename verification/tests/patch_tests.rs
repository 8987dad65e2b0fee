use crow_core::patch::{apply_hunk_to_content, find_and_replace_lines, new_file_content, parse_unified_diff};

#[test]
fn test_parse_unified_diff_new_file() {
    let patch = r#"--- /dev/null
+++ b/new_file.txt
@@ -0,0 +1,3 @@
+line 1
+line 2
+line 3"#;

    let hunks = parse_unified_diff(patch).unwrap();
    assert_eq!(hunks.len(), 1);
    assert_eq!(hunks[0].file_path, "new_file.txt");
    assert!(hunks[0].is_new_file);
    assert!(!hunks[0].is_delete);
    assert_eq!(hunks[0].new_content, vec!["line 1", "line 2", "line 3"]);
}

#[test]
fn test_parse_unified_diff_delete_file() {
    let patch = r#"--- a/old_file.txt
+++ /dev/null
@@ -1,3 +0,0 @@
-line 1
-line 2
-line 3"#;

    let hunks = parse_unified_diff(patch).unwrap();
    assert_eq!(hunks.len(), 1);
    assert_eq!(hunks[0].file_path, "old_file.txt");
    assert!(!hunks[0].is_new_file);
    assert!(hunks[0].is_delete);
    assert_eq!(hunks[0].old_content, vec!["line 1", "line 2", "line 3"]);
}

#[test]
fn test_parse_unified_diff_modify_file() {
    let patch = r#"--- a/file.txt
+++ b/file.txt
@@ -1,3 +1,3 @@
 context line
-old line
+new line
 another context"#;

    let hunks = parse_unified_diff(patch).unwrap();
    assert_eq!(hunks.len(), 1);
    assert_eq!(hunks[0].file_path, "file.txt");
    assert!(!hunks[0].is_new_file);
    assert!(!hunks[0].is_delete);
    assert!(hunks[0].old_content.contains(&"old line".to_string()));
    assert!(hunks[0].new_content.contains(&"new line".to_string()));
}

#[test]
fn test_parse_unified_diff_multiple_files() {
    let patch = r#"--- a/file1.txt
+++ b/file1.txt
@@ -1 +1 @@
-old
+new
--- a/file2.txt
+++ b/file2.txt
@@ -1 +1 @@
-foo
+bar"#;

    let hunks = parse_unified_diff(patch).unwrap();
    assert_eq!(hunks.len(), 2);
    assert_eq!(hunks[0].file_path, "file1.txt");
    assert_eq!(hunks[1].file_path, "file2.txt");
}

#[test]
fn test_parse_unified_diff_strips_a_b_prefixes() {
    let patch = r#"--- a/src/main.rs
+++ b/src/main.rs
@@ -1 +1 @@
-old
+new"#;

    let hunks = parse_unified_diff(patch).unwrap();
    assert_eq!(hunks[0].file_path, "src/main.rs");
}

#[test]
fn test_find_and_replace_lines_exact_match() {
    let current = vec!["line 1", "old", "line 3"];
    let old = vec!["old"];
    let new = vec!["new".to_string()];

    let result = find_and_replace_lines(&current, &old, &new);
    assert!(result.is_some());
    let result = result.unwrap();
    assert!(result.contains("new"));
    assert!(!result.contains("old"));
}

#[test]
fn test_find_and_replace_lines_multiple_lines() {
    let current = vec!["a", "b", "c", "d"];
    let old = vec!["b", "c"];
    let new = vec!["x".to_string(), "y".to_string(), "z".to_string()];

    let result = find_and_replace_lines(&current, &old, &new);
    assert!(result.is_some());
    let result = result.unwrap();
    assert_eq!(result, "a\nx\ny\nz\nd");
}

#[test]
fn test_find_and_replace_lines_not_found() {
    let current = vec!["a", "b", "c"];
    let old = vec!["x", "y"];
    let new = vec!["z".to_string()];

    let result = find_and_replace_lines(&current, &old, &new);
    assert!(result.is_none());
}

#[test]
fn test_find_and_replace_lines_empty_old() {
    let current = vec!["a", "b"];
    let old: Vec<&str> = vec![];
    let new = vec!["c".to_string()];

    let result = find_and_replace_lines(&current, &old, &new);
    assert!(result.is_none());
}

#[test]
fn test_find_and_replace_lines_whitespace_tolerance() {
    let current = vec!["  line 1  ", "old", "line 3"];
    let old = vec!["line 1"];
    let new = vec!["replaced".to_string()];

    // Should match trimmed content
    let result = find_and_replace_lines(&current, &old, &new);
    assert!(result.is_some());
}

#[test]
fn parse_missing_plus_line_is_an_error() {
    let r = parse_unified_diff("--- a/x\nnot a header");
    assert_eq!(r.err().unwrap(), "Expected +++ line after ---");
    let r = parse_unified_diff("--- a/x");
    assert_eq!(r.err().unwrap(), "Expected +++ line after ---");
}

#[test]
fn parse_text_without_sections_gives_no_hunks() {
    assert!(parse_unified_diff("This is not a valid patch format").unwrap().is_empty());
    assert!(parse_unified_diff("").unwrap().is_empty());
}

#[test]
fn parse_keeps_empty_context_lines_and_skips_other_lines() {
    let patch = "junk\n--- a/f\n+++ b/f\n@@ -1 +1 @@\n\n~odd\n-x\n+y\ndiff --git a/g b/g\n--- a/g\n+++ b/g\n+z";
    let hunks = parse_unified_diff(patch).unwrap();
    assert_eq!(hunks.len(), 2);
    assert_eq!(hunks[0].old_content, vec!["", "x"]);
    assert_eq!(hunks[0].new_content, vec!["", "y"]);
    assert_eq!(hunks[1].file_path, "g");
    assert_eq!(hunks[1].new_content, vec!["z"]);
}

#[test]
fn apply_replaces_exact_text() {
    let hunks = parse_unified_diff("--- a/m\n+++ b/m\n line 1\n-old line\n+new line\n line 3").unwrap();
    let out = apply_hunk_to_content("line 1\nold line\nline 3", &hunks[0]).unwrap();
    assert_eq!(out, "line 1\nnew line\nline 3");
}

#[test]
fn apply_falls_back_to_trimmed_lines() {
    let hunks = parse_unified_diff("--- a/m\n+++ b/m\n-  old  \n+new").unwrap();
    let out = apply_hunk_to_content("a\n old\nb\n", &hunks[0]).unwrap();
    assert_eq!(out, "a\nnew\nb");
}

#[test]
fn apply_appends_when_nothing_is_removed() {
    let hunks = parse_unified_diff("--- a/m\n+++ b/m\n+tail").unwrap();
    assert_eq!(apply_hunk_to_content("head", &hunks[0]).unwrap(), "head\ntail");
    assert_eq!(apply_hunk_to_content("head\n", &hunks[0]).unwrap(), "head\ntail");
}

#[test]
fn apply_reports_missing_content() {
    let hunks = parse_unified_diff("--- a/m\n+++ b/m\n-gone\n+new").unwrap();
    assert_eq!(
        apply_hunk_to_content("a\nb\nc", &hunks[0]).err().unwrap(),
        "Could not find matching content to replace"
    );
}

#[test]
fn new_file_content_joins_lines() {
    let hunks = parse_unified_diff("--- /dev/null\n+++ b/n\n+Hello\n+World").unwrap();
    assert_eq!(new_file_content(&hunks[0]), "Hello\nWorld");
}

#[test]
fn parse_reads_a_removed_dashed_line_as_a_removal() {
    let patch = "--- a/q.sql\n+++ b/q.sql\n@@ -1,2 +1 @@\n--- old comment\n SELECT 1;";
    let hunks = parse_unified_diff(patch).unwrap();
    assert_eq!(hunks.len(), 1);
    assert_eq!(hunks[0].file_path, "q.sql");
    assert_eq!(hunks[0].old_content, vec!["-- old comment", "SELECT 1;"]);
    assert_eq!(hunks[0].new_content, vec!["SELECT 1;"]);
}

#[test]
fn parse_gives_one_hunk_per_block() {
    let patch = "--- a/f.txt\n+++ b/f.txt\n@@ -1 +1 @@\n-a\n+A\n@@ -7 +7 @@\n-g\n+G";
    let hunks = parse_unified_diff(patch).unwrap();
    assert_eq!(hunks.len(), 2);
    assert_eq!(hunks[0].file_path, "f.txt");
    assert_eq!(hunks[0].old_content, vec!["a"]);
    assert_eq!(hunks[0].new_content, vec!["A"]);
    assert_eq!(hunks[1].file_path, "f.txt");
    assert_eq!(hunks[1].old_content, vec!["g"]);
    assert_eq!(hunks[1].new_content, vec!["G"]);
    let once = apply_hunk_to_content("a\nb\nc\nd\ne\nf\ng", &hunks[0]).unwrap();
    let twice = apply_hunk_to_content(&once, &hunks[1]).unwrap();
    assert_eq!(twice, "A\nb\nc\nd\ne\nf\nG");
}

#[test]
fn parse_keeps_a_section_with_no_lines() {
    let hunks = parse_unified_diff("--- a/e\n+++ b/e\n@@ -0,0 +0,0 @@").unwrap();
    assert_eq!(hunks.len(), 1);
    assert!(hunks[0].old_content.is_empty());
    assert!(hunks[0].new_content.is_empty());
}

#[test]
fn find_and_replace_lines_with_old_longer_than_current() {
    let new = vec!["z".to_string()];
    assert_eq!(find_and_replace_lines(&["a"], &["a", "b"], &new), None);
    assert_eq!(find_and_replace_lines(&[], &["a"], &new), None);
}

#[test]
fn apply_with_a_file_shorter_than_the_old_lines() {
    let hunks = parse_unified_diff("--- a/m\n+++ b/m\n- a\n-b\n+z").unwrap();
    assert_eq!(
        apply_hunk_to_content("a", &hunks[0]).err().unwrap(),
        "Could not find matching content to replace"
    );
}
