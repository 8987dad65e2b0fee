use crow_core::lsp::{message_header, path_of_uri, read_header_line, Diagnostic};
use crow_core::types::{Position, Range};

#[test]
fn diagnostic_pretty() {
    let d = Diagnostic {
        range: Range { start: Position { line: 4, character: 0 }, end: Position { line: 4, character: 3 } },
        message: "unused variable".to_string(),
        severity: Some(2),
        code: None,
        source: None,
    };
    assert_eq!(d.pretty(), "WARN [5:1] unused variable");
    let e = Diagnostic { severity: Some(9), ..d.clone() };
    assert_eq!(e.pretty(), "ERROR [5:1] unused variable");
}

#[test]
fn headers_are_read_and_written() {
    assert_eq!(read_header_line(0, "Content-Length: 42\r\n"), (42, false));
    assert_eq!(read_header_line(42, "Content-Type: x\r\n"), (42, false));
    assert_eq!(read_header_line(42, "\r\n"), (42, true));
    assert_eq!(read_header_line(7, "Content-Length: abc\r\n"), (0, false));
    assert_eq!(message_header("{}"), "Content-Length: 2\r\n\r\n");
    assert_eq!(message_header("é"), "Content-Length: 2\r\n\r\n");
    assert_eq!(path_of_uri("file:///tmp/a.rs"), Some("/tmp/a.rs".to_string()));
    assert_eq!(path_of_uri("http://x"), None);
}
