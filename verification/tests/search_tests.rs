use crow_core::tools::search::{parse_match_line, parse_usize, GlobTool, GrepMatch, GrepTool};
use crow_core::tools::{MetaValue, ToolStatus};

#[test]
fn glob_report_lists_files() {
    let r = GlobTool::report("a.rs\nb.rs\n");
    assert_eq!(r.output, "a.rs\nb.rs");
    assert_eq!(r.count, 2);
    assert!(!r.truncated);
    let none = GlobTool::report("");
    assert_eq!(none.output, "No files found");
    assert_eq!(none.count, 0);
}

#[test]
fn glob_report_truncates_at_100() {
    let files: Vec<String> = (0..105).map(|i| format!("f{}.rs", i)).collect();
    let r = GlobTool::report(&files.join("\n"));
    assert_eq!(r.count, 105);
    assert!(r.truncated);
    let lines: Vec<&str> = r.output.split('\n').collect();
    assert_eq!(lines.len(), 102);
    assert_eq!(lines[99], "f99.rs");
    assert_eq!(lines[100], "");
    assert_eq!(lines[101], "(Results are truncated. Consider using a more specific path or pattern.)");
}

#[test]
fn grep_line_parsing() {
    let m = parse_match_line(&"src/main.rs|12|let x = a|b;".chars().collect::<Vec<char>>()).unwrap();
    assert_eq!(m, GrepMatch { path: "src/main.rs".to_string(), line_num: 12, line_text: "let x = a|b;".to_string() });
    let bad = parse_match_line(&"src/main.rs|x|t".chars().collect::<Vec<char>>()).unwrap();
    assert_eq!(bad.line_num, 0);
    assert!(parse_match_line(&"no bars".chars().collect::<Vec<char>>()).is_none());
    assert_eq!(parse_usize(&"+42".chars().collect::<Vec<char>>()), Some(42));
    assert_eq!(parse_usize(&"".chars().collect::<Vec<char>>()), None);
    assert_eq!(parse_usize(&"99999999999999999999999".chars().collect::<Vec<char>>()), None);
}

#[test]
fn grep_output_parsing_skips_bad_lines() {
    let ms = GrepTool::parse_output("a.rs|1|x\n\nnonsense\nb.rs|2|y\n");
    assert_eq!(ms.len(), 2);
    assert_eq!(ms[1].path, "b.rs");
}

#[test]
fn grep_orders_by_time_latest_first() {
    let m = |p: &str, n: usize| GrepMatch { path: p.to_string(), line_num: n, line_text: String::new() };
    let v = vec![(m("old", 1), 10u128), (m("new", 2), 30u128), (m("mid", 3), 20u128), (m("new2", 4), 30u128)];
    let paths: Vec<String> = GrepTool::order_by_time(v).into_iter().map(|x| x.path).collect();
    assert_eq!(paths, vec!["new", "new2", "mid", "old"]);
}

#[test]
fn grep_report_groups_by_file() {
    let m = |p: &str, n: usize, t: &str| GrepMatch { path: p.to_string(), line_num: n, line_text: t.to_string() };
    let r = GrepTool::report(&vec![m("a.rs", 1, "x"), m("a.rs", 5, "y"), m("b.rs", 2, "z")]);
    assert_eq!(r.output, "Found 3 matches\na.rs:\n  Line 1: x\n  Line 5: y\n\nb.rs:\n  Line 2: z");
    assert_eq!(r.count, 3);
    assert!(!r.truncated);
    assert_eq!(GrepTool::report(&vec![]).output, "No files found");
}

#[test]
fn grep_exit_codes() {
    let none = GrepTool::exit_report(Some(1), false, "").unwrap();
    assert_eq!(none.status, ToolStatus::Completed);
    assert_eq!(none.output, "No files found");
    let err = GrepTool::exit_report(Some(2), false, "bad regex").unwrap();
    assert_eq!(err.status, ToolStatus::Error);
    assert_eq!(err.error, Some("ripgrep failed: bad regex".to_string()));
    assert!(GrepTool::exit_report(Some(0), true, "").is_none());
}

#[test]
fn test_grep_no_matches() {
    let r = GrepTool::exit_report(Some(1), false, "").unwrap();
    assert_eq!(r.status, ToolStatus::Completed);
    assert!(r.output.contains("No files found"));
    assert_eq!(
        r.metadata,
        vec![("matches".to_string(), MetaValue::Count(0)), ("truncated".to_string(), MetaValue::Flag(false))]
    );
}

#[test]
fn search_reports_carry_counts_in_metadata() {
    let ms = GrepTool::parse_output("/p/a.rs|1|x\n/p/a.rs|2|y\n");
    let t = GrepTool::tool_report(GrepTool::report(&ms));
    assert_eq!(t.status, ToolStatus::Completed);
    assert_eq!(t.output, "Found 2 matches\n/p/a.rs:\n  Line 1: x\n  Line 2: y");
    assert_eq!(
        t.metadata,
        vec![("matches".to_string(), MetaValue::Count(2)), ("truncated".to_string(), MetaValue::Flag(false))]
    );
    let files: Vec<String> = (0..101).map(|i| format!("f{}.rs", i)).collect();
    let g = GlobTool::tool_report(GlobTool::report_files(&files));
    assert_eq!(
        g.metadata,
        vec![("count".to_string(), MetaValue::Count(101)), ("truncated".to_string(), MetaValue::Flag(true))]
    );
}

#[test]
fn test_grep_returns_line_numbers() {
    let ms = GrepTool::parse_output("/p/main.rs|1|fn main() {\n");
    let report = GrepTool::report(&ms);
    assert!(report.output.contains("Line"));
    assert_eq!(report.count, 1);
    assert!(!report.truncated);
}

#[test]
fn glob_lists_newest_files_first() {
    let files = GlobTool::listed_files("a.rs\nb.rs\nc.rs\n");
    assert_eq!(files, vec!["a.rs".to_string(), "b.rs".to_string(), "c.rs".to_string()]);
    let timed = vec![("a.rs".to_string(), 5u128), ("b.rs".to_string(), 9), ("c.rs".to_string(), 5)];
    let ordered = GlobTool::order_by_time(timed);
    assert_eq!(ordered, vec!["b.rs".to_string(), "a.rs".to_string(), "c.rs".to_string()]);
    assert_eq!(GlobTool::report_files(&ordered).output, "b.rs\na.rs\nc.rs");
    assert_eq!(GlobTool::report_files(&Vec::new()).output, "No files found");
}
