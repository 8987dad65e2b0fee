//! Language-server support: diagnostics and their display, and the framing
//! of JSON-RPC messages (`Content-Length` headers). Talking to the server
//! process is I/O and happens outside.
use vstd::prelude::*;
use crate::text::{
    byte_len, chars_of, concat_str, decimal, decimal_of, has_prefix, lit, owned, push_all, push_str, slice_to_vec,
    starts_with, str_eq, string_from_chars, trim, trim_chars, utf8_len,
};
use crate::types::Range;
use crate::tools::search::{parse_usize, parsed_usize};

verus! {

/// A diagnostic published by a language server; `code` holds the JSON
/// text of the diagnostic's code.
#[derive(Debug, Clone, PartialEq)]
pub struct Diagnostic {
    pub range: Range,
    pub message: String,
    pub severity: Option<u32>,
    pub code: Option<String>,
    pub source: Option<String>,
}

/// The label of a severity: 1 error, 2 warning, 3 information, 4 hint;
/// anything else counts as an error.
pub open spec fn severity_label(s: Option<u32>) -> Seq<char> {
    match s {
        Some(1) => "ERROR"@,
        Some(2) => "WARN"@,
        Some(3) => "INFO"@,
        Some(4) => "HINT"@,
        _ => "ERROR"@,
    }
}

/// A diagnostic as one line: severity, 1-based line and column, message.
pub open spec fn pretty_diagnostic(d: Diagnostic) -> Seq<char> {
    severity_label(d.severity) + " ["@ + decimal((d.range.start.line + 1) as nat) + ":"@ + decimal(
        (d.range.start.character + 1) as nat,
    ) + "] "@ + d.message@
}

impl Diagnostic {
    /// The diagnostic as one line (see [`pretty_diagnostic`]).
    pub fn pretty(&self) -> (r: String)
        requires
            self.range.start.line < u32::MAX,
            self.range.start.character < u32::MAX,
        ensures
            r@ == pretty_diagnostic(*self),
    {
        proof {
            reveal_strlit("ERROR");
            reveal_strlit("WARN");
            reveal_strlit("INFO");
            reveal_strlit("HINT");
            reveal_strlit(" [");
            reveal_strlit(":");
            reveal_strlit("] ");
        }
        let sev = match self.severity {
            Some(1) => "ERROR",
            Some(2) => "WARN",
            Some(3) => "INFO",
            Some(4) => "HINT",
            _ => "ERROR",
        };
        let mut out = chars_of(sev);
        push_str(&mut out, " [");
        let l = decimal_of((self.range.start.line + 1) as u128);
        push_all(&mut out, &l);
        push_str(&mut out, ":");
        let c = decimal_of((self.range.start.character + 1) as u128);
        push_all(&mut out, &c);
        push_str(&mut out, "] ");
        push_str(&mut out, self.message.as_str());
        string_from_chars(&out)
    }
}

/// Reading the header block of a message: the content length seen so far,
/// and whether the block has ended.
pub open spec fn header_step(length: usize, line: Seq<char>) -> (usize, bool) {
    if line == "\r\n"@ || line == "\n"@ {
        (length, true)
    } else if starts_with(line, "Content-Length: "@) {
        (match parsed_usize(trim(line.skip(16))) {
            Some(v) => v as usize,
            None => 0,
        }, false)
    } else {
        (length, false)
    }
}

/// Take one header line (as read, with its line ending): the content length
/// after it, and whether it ended the header block. A `Content-Length`
/// that does not parse counts as 0.
pub fn read_header_line(length: usize, line: &str) -> (r: (usize, bool))
    ensures
        r == header_step(length, line@),
{
    proof {
        reveal_strlit("\r\n");
        reveal_strlit("\n");
        reveal_strlit("Content-Length: ");
    }
    if str_eq(line, "\r\n") || str_eq(line, "\n") {
        return (length, true);
    }
    let l = chars_of(line);
    let p = lit("Content-Length: ");
    if has_prefix(&l, &p) {
        let rest = slice_to_vec(&l, 16, l.len());
        assert(rest@ =~= l@.skip(16));
        let t = trim_chars(&rest);
        let v = match parse_usize(&t) {
            Some(v) => v,
            None => 0,
        };
        (v, false)
    } else {
        (length, false)
    }
}

/// The header that frames a message body of `content`.
pub open spec fn frame_header(content: Seq<char>) -> Seq<char> {
    "Content-Length: "@ + decimal(byte_len(content)) + "\r\n\r\n"@
}

/// The header for a message body (see [`frame_header`]).
pub fn message_header(content: &str) -> (r: String)
    ensures
        r@ == frame_header(content@),
{
    proof {
        reveal_strlit("Content-Length: ");
        reveal_strlit("\r\n\r\n");
    }
    let c = chars_of(content);
    let n = utf8_len(&c);
    let mut out = lit("Content-Length: ");
    let d = decimal_of(n);
    push_all(&mut out, &d);
    push_str(&mut out, "\r\n\r\n");
    string_from_chars(&out)
}

/// The file path of a `file://` document URI.
pub open spec fn uri_path(uri: Seq<char>) -> Option<Seq<char>> {
    if starts_with(uri, "file://"@) {
        Some(uri.skip(7))
    } else {
        None
    }
}

/// The file path of a document URI (see [`uri_path`]).
pub fn path_of_uri(uri: &str) -> (r: Option<String>)
    ensures
        match uri_path(uri@) {
            Some(p) => r is Some && r->Some_0@ == p,
            None => r is None,
        },
{
    proof {
        reveal_strlit("file://");
    }
    let u = chars_of(uri);
    let p = lit("file://");
    if has_prefix(&u, &p) {
        let rest = slice_to_vec(&u, 7, u.len());
        assert(rest@ =~= u@.skip(7));
        Some(string_from_chars(&rest))
    } else {
        None
    }
}

/// The labels of the LSP severities: 1 (Error) is `ERROR`, 2 (Warning)
/// `WARN`, 3 (Information) `INFO`, 4 (Hint) `HINT`, and any other value or
/// none is shown as an error; the four labels are distinct.
pub proof fn law_severity_labels(n: u32)
    ensures
        severity_label(Some(1)) == "ERROR"@,
        severity_label(Some(2)) == "WARN"@,
        severity_label(Some(3)) == "INFO"@,
        severity_label(Some(4)) == "HINT"@,
        (n < 1 || n > 4) ==> severity_label(Some(n)) == "ERROR"@,
        severity_label(None) == "ERROR"@,
{
}

/// A diagnostic's line starts with the label of its severity, then the
/// 1-based position in brackets, then the message.
pub proof fn law_pretty_starts_with_label(d: Diagnostic)
    ensures
        d.severity == Some(3u32) ==> pretty_diagnostic(d).take(5) == "INFO "@,
        d.severity == Some(4u32) ==> pretty_diagnostic(d).take(5) == "HINT "@,
        d.severity == Some(2u32) ==> pretty_diagnostic(d).take(5) == "WARN "@,
        pretty_diagnostic(d).take(severity_label(d.severity).len() as int) == severity_label(d.severity),
{
    reveal_strlit("INFO ");
    reveal_strlit("HINT ");
    reveal_strlit("WARN ");
    reveal_strlit("INFO");
    reveal_strlit("HINT");
    reveal_strlit("WARN");
    reveal_strlit(" [");
    let l = severity_label(d.severity);
    let p = pretty_diagnostic(d);
    assert(p.take(l.len() as int) =~= l);
    if d.severity == Some(3u32) || d.severity == Some(4u32) || d.severity == Some(2u32) {
        assert(p.take(5) =~= l + seq![' ']);
    }
}

} // verus!
