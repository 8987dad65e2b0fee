use crow_core::tools::edit::{PatchTool, WriteTool};
use crow_core::tools::{MetaValue, ToolStatus};

#[test]
fn patch_plan_errors() {
    assert_eq!(PatchTool::plan("   ").unwrap_err(), "patchText is required");
    assert_eq!(PatchTool::plan("just text").unwrap_err(), "No file changes found in patch");
    let bad = PatchTool::plan("--- a/x\nnot plus").unwrap_err();
    assert_eq!(bad, "Failed to parse patch: Expected +++ line after ---");
    let ok = PatchTool::plan("--- a/x.txt\n+++ b/x.txt\n@@ -1 +1 @@\n-a\n+b").unwrap();
    assert_eq!(ok.len(), 1);
    assert_eq!(ok[0].file_path, "x.txt");
}

#[test]
fn patch_paths_and_report() {
    assert_eq!(PatchTool::resolve_path("/work", "a/b.txt"), "/work/a/b.txt");
    assert_eq!(PatchTool::resolve_path("/work/", "b.txt"), "/work/b.txt");
    assert_eq!(PatchTool::resolve_path("/work", "/abs.txt"), "/abs.txt");
    let ok = PatchTool::report(&vec!["/w/a".to_string(), "/w/b".to_string()], &vec![]);
    assert_eq!(ok.status, ToolStatus::Completed);
    assert_eq!(ok.output, "Patch applied successfully. 2 files changed:\n  /w/a\n  /w/b");
    assert_eq!(ok.error, None);
    let partial = PatchTool::report(&vec!["/w/a".to_string()], &vec![PatchTool::hunk_error("b", "Failed to read: gone")]);
    assert_eq!(partial.status, ToolStatus::Completed);
    assert_eq!(partial.output, "Patch partially applied. 1/2 files changed.\nErrors:\n  b: Failed to read: gone");
    assert_eq!(partial.error, Some("1 files failed".to_string()));
    let failed = PatchTool::report(&vec![], &vec!["x: e".to_string()]);
    assert_eq!(failed.status, ToolStatus::Error);
}

#[test]
fn write_tool_counts_bytes() {
    assert_eq!(WriteTool::bytes_written("héllo"), 6);
    assert_eq!(WriteTool.name(), "write");
    assert!(WriteTool.description().contains("file"));
}

#[test]
fn test_patch_empty_patch_text() {
    assert!(PatchTool::plan("").unwrap_err().contains("patchText is required"));
}

#[test]
fn test_patch_whitespace_only() {
    assert!(PatchTool::plan("   \n\t  ").unwrap_err().contains("patchText is required"));
}

#[test]
fn test_patch_no_hunks_found() {
    assert!(PatchTool::plan("This is not a valid patch format").unwrap_err().contains("No file changes found"));
}

#[test]
fn test_write_bytes_written_accurate() {
    let content = "Hello, 世界!";
    assert_eq!(WriteTool::bytes_written(content), content.len() as u128);
}

#[test]
fn patch_notes_each_changed_file_once() {
    let mut changed = Vec::new();
    PatchTool::note_changed(&mut changed, "f.txt".to_string());
    PatchTool::note_changed(&mut changed, "g.txt".to_string());
    PatchTool::note_changed(&mut changed, "f.txt".to_string());
    assert_eq!(changed, vec!["f.txt".to_string(), "g.txt".to_string()]);
    let r = PatchTool::report(&changed, &Vec::new());
    assert_eq!(r.output, "Patch applied successfully. 2 files changed:\n  f.txt\n  g.txt");
}

#[test]
fn patch_report_carries_its_metadata() {
    let ok = PatchTool::report(&vec!["/w/f.txt".to_string()], &Vec::new());
    assert_eq!(
        ok.metadata,
        vec![
            ("filesChanged".to_string(), MetaValue::Count(1)),
            ("files".to_string(), MetaValue::Texts(vec!["/w/f.txt".to_string()])),
        ]
    );
    let bad = PatchTool::report(&Vec::new(), &vec!["g.txt: Failed to read: missing".to_string()]);
    assert_eq!(bad.status, ToolStatus::Error);
    assert_eq!(
        bad.metadata,
        vec![
            ("filesChanged".to_string(), MetaValue::Count(0)),
            ("filesFailed".to_string(), MetaValue::Count(1)),
            ("files".to_string(), MetaValue::Texts(Vec::new())),
            ("errors".to_string(), MetaValue::Texts(vec!["g.txt: Failed to read: missing".to_string()])),
        ]
    );
}
