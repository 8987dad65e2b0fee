use crow_core::tools::read::ReadTool;

#[test]
fn read_numbers_lines() {
    let out = ReadTool::listing("alpha\nbeta\ngamma\n", None, None);
    assert_eq!(out, "     1\talpha\n     2\tbeta\n     3\tgamma");
    assert_eq!(ReadTool::total_lines("alpha\nbeta\ngamma\n"), 3);
}

#[test]
fn read_offset_and_limit() {
    let content = "l1\nl2\nl3\nl4\nl5";
    assert_eq!(ReadTool::listing(content, Some(2), Some(2)), "     2\tl2\n     3\tl3");
    assert_eq!(ReadTool::lines_shown(content, Some(2), Some(2)), 2);
    assert_eq!(ReadTool::listing(content, Some(0), Some(1)), "     1\tl1");
    assert_eq!(ReadTool::listing(content, Some(9), None), "");
    assert_eq!(ReadTool::lines_shown(content, Some(9), None), 0);
}

#[test]
fn read_cuts_long_lines() {
    let long = "x".repeat(2500);
    let out = ReadTool::listing(&long, None, None);
    assert_eq!(out, format!("     1\t{}", "x".repeat(2000)));
}

#[test]
fn read_tool_name() {
    assert_eq!(ReadTool.name(), "read");
}

fn numbered(n: usize) -> String {
    (1..=n).map(|i| format!("line {}", i)).collect::<Vec<_>>().join("\n")
}

#[test]
fn test_read_tool_description() {
    let desc = ReadTool.description();
    assert!(desc.contains("file"));
    assert!(desc.contains("read"));
}

#[test]
fn test_read_file_with_line_numbers() {
    let out = ReadTool::listing("line 1\nline 2\nline 3", None, None);
    assert!(out.contains("     1\tline 1"));
    assert!(out.contains("     2\tline 2"));
    assert!(out.contains("     3\tline 3"));
}

#[test]
fn test_read_single_line_file() {
    assert!(ReadTool::listing("single line", None, None).contains("single line"));
}

#[test]
fn test_read_with_offset() {
    let out = ReadTool::listing(&numbered(10), Some(5), None);
    assert!(out.contains("line 5"));
    assert!(!out.contains("line 4"));
}

#[test]
fn test_read_with_limit() {
    let out = ReadTool::listing(&numbered(100), None, Some(5));
    assert!(out.contains("line 1"));
    assert!(out.contains("line 5"));
    assert!(!out.contains("line 6"));
}

#[test]
fn test_read_with_offset_and_limit() {
    let out = ReadTool::listing(&numbered(100), Some(50), Some(10));
    assert!(out.contains("    50\tline 50"));
    assert!(out.contains("    59\tline 59"));
    assert!(!out.contains("    60\tline 60"));
}

#[test]
fn test_read_offset_beyond_file() {
    assert!(ReadTool::listing("line 1\nline 2", Some(100), None).is_empty());
}

#[test]
fn test_line_truncation() {
    let long_line = "x".repeat(3000);
    assert!(ReadTool::listing(&long_line, None, None).len() < long_line.len());
}

#[test]
fn test_read_returns_metadata() {
    let content = "line 1\nline 2\nline 3";
    assert_eq!(ReadTool::total_lines(content), 3);
    assert_eq!(ReadTool::lines_shown(content, None, None), 3);
}

#[test]
fn test_read_metadata_with_limit() {
    let content = numbered(50);
    assert_eq!(ReadTool::total_lines(&content), 50);
    assert_eq!(ReadTool::lines_shown(&content, None, Some(10)), 10);
}

#[test]
fn test_read_preserves_whitespace() {
    let out = ReadTool::listing("  indented\n\ttabbed", None, None);
    assert!(out.contains("  indented"));
    assert!(out.contains("\ttabbed"));
}

#[test]
fn test_read_unicode_content() {
    let out = ReadTool::listing("Hello 世界 🌍", None, None);
    assert!(out.contains("世界"));
    assert!(out.contains("🌍"));
}

#[test]
fn read_clips_long_lines_at_two_thousand_characters() {
    let line = "\u{e9}".repeat(2500);
    let out = ReadTool::listing(&line, None, None);
    assert_eq!(out, format!("     1\t{}", "\u{e9}".repeat(2000)));
}
