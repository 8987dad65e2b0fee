use crow_core::tools::webfetch::{strip_html, WebFetchTool};

#[test]
fn test_strip_html_simple() {
    let html = "<html><body><p>Hello World</p></body></html>";
    let text = strip_html(html);
    assert_eq!(text, "Hello World");
}

#[test]
fn test_strip_html_script_tags() {
    let html = "<html><script>alert('hi')</script><p>Content</p></html>";
    let text = strip_html(html);
    assert_eq!(text, "Content");
}

#[test]
fn test_strip_html_style_tags() {
    let html = "<html><style>.class { color: red; }</style><p>Styled</p></html>";
    let text = strip_html(html);
    assert_eq!(text, "Styled");
}

#[test]
fn test_strip_html_nested_tags() {
    let html = "<div><span><strong>Nested</strong></span></div>";
    let text = strip_html(html);
    assert_eq!(text, "Nested");
}

#[test]
fn test_strip_html_whitespace_cleanup() {
    let html = "<p>  Line 1  </p>   <p>  Line 2  </p>";
    let text = strip_html(html);
    assert!(text.contains("Line 1"));
    assert!(text.contains("Line 2"));
}

#[test]
fn test_strip_html_empty() {
    let html = "<html><body></body></html>";
    let text = strip_html(html);
    assert!(text.is_empty());
}

#[test]
fn test_strip_html_plain_text() {
    let text = "Plain text without HTML";
    let result = strip_html(text);
    assert_eq!(result, "Plain text without HTML");
}

#[test]
fn test_strip_html_special_characters() {
    let html = "<p>&amp; &lt; &gt;</p>";
    let text = strip_html(html);
    assert!(text.contains("&amp;"));
}

#[test]
fn test_strip_html_multiple_scripts() {
    let html = "<script>one</script><p>A</p><script>two</script><p>B</p>";
    let text = strip_html(html);
    assert!(text.contains("A"));
    assert!(text.contains("B"));
    assert!(!text.contains("one"));
    assert!(!text.contains("two"));
}

#[test]
fn strip_html_uppercase_script_is_removed() {
    let text = strip_html("<SCRIPT>bad()</SCRIPT><P>Good</P>");
    assert_eq!(text, "Good");
}

#[test]
fn strip_html_keeps_lines_trimmed_and_drops_blank_ones() {
    let text = strip_html("<p>  a  </p>\n\n   \n<p> b </p>");
    assert_eq!(text, "a\nb");
}

#[test]
fn strip_html_drops_scripts_after_characters_that_lowercase_to_two() {
    let s = "\u{130}".repeat(20) + "<script>secret</script>";
    assert_eq!(strip_html(&s), "\u{130}".repeat(20));
}

#[test]
fn strip_html_finds_scripts_and_styles_in_any_case() {
    assert_eq!(strip_html("<SCRIPT>x()</ScRiPt>a<Style>p{}</STYLE>b"), "ab");
}

#[test]
fn webfetch_upgrades_http() {
    assert_eq!(WebFetchTool::upgrade_url("http://example.com/http://x"), "https://example.com/http://x");
    assert_eq!(WebFetchTool::upgrade_url("https://example.com"), "https://example.com");
    assert_eq!(WebFetchTool::upgrade_url("ftp://example.com"), "ftp://example.com");
}

#[test]
fn webfetch_truncates_long_pages() {
    let page = "a".repeat(50010);
    let out = WebFetchTool::truncate_page(&page);
    assert_eq!(out, format!("{}...\n\n[Truncated - 50010 chars total]", "a".repeat(50000)));
    assert_eq!(WebFetchTool::truncate_page("short"), "short");
}

#[test]
fn webfetch_page_output_cuts_at_a_character_boundary() {
    // 49999 ASCII bytes then a two-byte character: byte 50000 is inside it,
    // so the cut comes before that character.
    let page = format!("{}é{}", "a".repeat(49999), "b".repeat(10));
    let total = page.len();
    assert_eq!(WebFetchTool::page_output(&page), format!("{}...\n\n[Truncated - {} chars total]", "a".repeat(49999), total));
    let ok = format!("<p>{}</p>", "c".repeat(100));
    assert_eq!(WebFetchTool::page_output(&ok), "c".repeat(100));
}

#[test]
fn webfetch_tool_name() {
    let tool = WebFetchTool;
    assert_eq!(tool.name(), "webfetch");
    assert!(tool.description().contains("HTTPS"));
}

#[test]
fn test_webfetch_upgrades_http_to_https() {
    assert!(WebFetchTool::upgrade_url("http://nonexistent-domain-xyz123.invalid").starts_with("https://"));
}

#[test]
fn strip_html_twice_is_strip_html_once() {
    for page in [
        "<html><body><h1>T</h1>\n  <p>a &amp; b</p>\n\n<script>x</script></body></html>",
        "plain\n\n  text  \r\n",
        "<style>p{}</style>  one\n<div>two</div>",
    ] {
        let once = strip_html(page);
        assert_eq!(strip_html(&once), once);
    }
}

#[test]
fn style_block_drops_out() {
    assert_eq!(strip_html("<style>body { color: red; }</style>after"), "after");
}
