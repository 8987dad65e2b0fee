use crow_core::tools::info::{format_hover_contents, HoverContents, HoverItem, LspHoverTool};

#[test]
fn test_format_hover_string() {
    let contents = HoverContents::Single(HoverItem::Text("Simple text".to_string()));
    assert_eq!(format_hover_contents(&contents), "Simple text");
}

#[test]
fn test_format_hover_markup() {
    let contents = HoverContents::Single(HoverItem::Object { language: None, value: Some("**bold** text".to_string()) });
    assert_eq!(format_hover_contents(&contents), "**bold** text");
}

#[test]
fn test_format_hover_marked_string() {
    let contents = HoverContents::Single(HoverItem::Object {
        language: Some("rust".to_string()),
        value: Some("fn main() {}".to_string()),
    });
    assert_eq!(format_hover_contents(&contents), "```rust\nfn main() {}\n```");
}

#[test]
fn test_format_hover_array() {
    let contents = HoverContents::List(vec![HoverItem::Text("first".to_string()), HoverItem::Text("second".to_string())]);
    assert_eq!(format_hover_contents(&contents), "first\n\nsecond");
}

#[test]
fn hover_output_joins_results() {
    let results = vec![
        Some(HoverContents::Single(HoverItem::Text("a".to_string()))),
        None,
        Some(HoverContents::Single(HoverItem::Other)),
        Some(HoverContents::List(vec![HoverItem::Text("b".to_string()), HoverItem::Text(String::new())])),
    ];
    assert_eq!(LspHoverTool::output(&results), "a\n---\nb");
    assert_eq!(LspHoverTool::output(&vec![]), "No hover information available at this position.");
}
