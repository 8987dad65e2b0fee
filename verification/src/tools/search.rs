//! Finding files by name (glob) and by content (grep): reading the output
//! of ripgrep and writing the report. Running ripgrep and reading file
//! times are I/O and happen outside.
use vstd::prelude::*;
use crate::text::{
    chars_of, concat_str, decimal, decimal_of, dv, find, find_in, join, join_vecs, lemma_find_from, lines,
    lines_of, lit, occurs_at, owned, push_all, push_str, slice_to_vec, split_char, split_on, string_from_chars,
    sv, trim, trim_chars,
};
use crate::sort::{insert_pos, stable_sort, lemma_insert_pos};
use crate::tools::{MetaValue, MetaView, ToolReport, ToolStatus, ReportView, failed};

verus! {

/// What the glob tool is for, as the model is told.
pub const GLOB_DESCRIPTION: &'static str = "Fast file pattern matching tool that works with any codebase size. Supports glob patterns like \"**/*.js\" or \"src/**/*.ts\". Returns matching file paths sorted by modification time.";

/// What the grep tool is for, as the model is told.
pub const GREP_DESCRIPTION: &'static str = "- Fast content search tool that works with any codebase size\n- Searches file contents using regular expressions\n- Supports full regex syntax (eg. \"log.*Error\", \"function\\s+\\w+\", etc.)\n- Filter files by pattern with the include parameter (eg. \"*.js\", \"*.{ts,tsx}\")\n- Returns file paths with at least one match sorted by modification time\n- Use this tool when you need to find files containing specific patterns\n- If you need to identify/count the number of matches within files, use the Bash tool with `rg` (ripgrep) directly. Do NOT use `grep`.\n- When you are doing an open ended search that may require multiple rounds of globbing and grepping, use the Task tool instead";


/// The tool that finds files by a glob pattern.
pub struct GlobTool;

/// The tool that finds lines matching a regular expression.
pub struct GrepTool;

/// At most this many files or matches are reported.
pub const RESULT_LIMIT: usize = 100;

/// The note added when results are cut.
pub open spec fn truncation_note() -> Seq<char> {
    "(Results are truncated. Consider using a more specific path or pattern.)"@
}

/// A report of found files or matches: the text, how many were found and
/// whether the list was cut.
#[derive(Debug, Clone, PartialEq)]
pub struct SearchReport {
    pub output: String,
    pub count: usize,
    pub truncated: bool,
}

/// The lines of the glob report for the listed files `files`.
pub open spec fn glob_lines(files: Seq<Seq<char>>) -> Seq<Seq<char>> {
    if files.len() == 0 {
        seq!["No files found"@]
    } else if files.len() > 100 {
        files.take(100) + seq![Seq::<char>::empty(), truncation_note()]
    } else {
        files
    }
}

/// The lines of a match in the grep report.
pub open spec fn match_line(m: GrepMatchView) -> Seq<char> {
    "  Line "@ + decimal(m.line_num as nat) + ": "@ + m.line_text
}

/// A match found by ripgrep: the file, the line number and the line.
#[derive(Debug, Clone, PartialEq)]
pub struct GrepMatch {
    pub path: String,
    pub line_num: usize,
    pub line_text: String,
}

/// The content of a match.
pub struct GrepMatchView {
    pub path: Seq<char>,
    pub line_num: usize,
    pub line_text: Seq<char>,
}

impl View for GrepMatch {
    type V = GrepMatchView;

    open spec fn view(&self) -> GrepMatchView {
        GrepMatchView { path: self.path@, line_num: self.line_num, line_text: self.line_text@ }
    }
}

/// The decimal value of a string of digits.
pub open spec fn digits_value(s: Seq<char>) -> nat
    decreases s.len(),
{
    if s.len() == 0 {
        0
    } else {
        digits_value(s.drop_last()) * 10 + (s.last() as nat - '0' as nat) as nat
    }
}

/// Every character of `s` is an ASCII digit.
pub open spec fn all_digits(s: Seq<char>) -> bool {
    forall|i: int| 0 <= i < s.len() ==> '0' <= #[trigger] s[i] <= '9'
}

/// What `str::parse::<usize>` gives for `s`: an optional `+` and at least
/// one digit, of a value that fits.
pub open spec fn parsed_usize(s: Seq<char>) -> Option<nat> {
    let d = if s.len() > 0 && s[0] == '+' { s.skip(1) } else { s };
    if d.len() > 0 && all_digits(d) && digits_value(d) <= usize::MAX {
        Some(digits_value(d))
    } else {
        None
    }
}

/// One line of `rg -nH --field-match-separator=|` output split at its first
/// two bars: the file, the line number (0 when it does not parse) and the
/// text. Lines with fewer than two bars give nothing.
pub open spec fn parse_match(l: Seq<char>) -> Option<GrepMatchView> {
    let a = find(l, "|"@);
    if a < 0 {
        None
    } else {
        let rest = l.skip(a + 1);
        let b = find(rest, "|"@);
        if b < 0 {
            None
        } else {
            Some(GrepMatchView {
                path: l.take(a),
                line_num: match parsed_usize(rest.take(b)) {
                    Some(v) => v as usize,
                    None => 0,
                },
                line_text: rest.skip(b + 1),
            })
        }
    }
}

/// The matches of a sequence of output lines, in order.
pub open spec fn parse_matches(ls: Seq<Seq<char>>) -> Seq<GrepMatchView>
    decreases ls.len(),
{
    if ls.len() == 0 {
        Seq::empty()
    } else {
        parse_matches(ls.drop_last()) + match parse_match(ls.last()) {
            Some(m) => seq![m],
            None => Seq::empty(),
        }
    }
}

/// The matches in ripgrep's output: the trimmed output split at newlines,
/// each line parsed.
pub open spec fn grep_matches(stdout: Seq<char>) -> Seq<GrepMatchView> {
    parse_matches(split_char(trim(stdout), '\n'))
}

/// The views of a list of matches.
pub open spec fn gvs(s: Seq<GrepMatch>) -> Seq<GrepMatchView> {
    s.map_values(|m: GrepMatch| m@)
}

/// Matches with their file's modification time: later first.
pub open spec fn later_first() -> spec_fn((GrepMatch, u128), (GrepMatch, u128)) -> bool {
    |a: (GrepMatch, u128), b: (GrepMatch, u128)| a.1 > b.1
}

/// Files with later modification times first.
pub open spec fn newer_first() -> spec_fn((String, u128), (String, u128)) -> bool {
    |a: (String, u128), b: (String, u128)| a.1 > b.1
}

/// The lines listing `ms`, a header line before the matches of each file
/// (after an empty line, unless it is the first); `cur` is the file of the
/// matches listed before.
pub open spec fn grep_body(ms: Seq<GrepMatchView>, cur: Seq<char>) -> Seq<Seq<char>>
    decreases ms.len(),
{
    if ms.len() == 0 {
        Seq::empty()
    } else {
        let m = ms[0];
        let head = if m.path != cur {
            (if cur.len() > 0 { seq![Seq::<char>::empty()] } else { Seq::empty() }) + seq![m.path + ":"@]
        } else {
            Seq::empty()
        };
        head + seq![match_line(m)] + grep_body(ms.drop_first(), m.path)
    }
}

/// The text of the grep report for the matches `ms`, already ordered.
pub open spec fn grep_text(ms: Seq<GrepMatchView>) -> Seq<char> {
    let shown = if ms.len() > 100 { ms.take(100) } else { ms };
    if shown.len() == 0 {
        "No files found"@
    } else {
        join(
            seq!["Found "@ + decimal(shown.len()) + " matches"@] + grep_body(shown, Seq::empty()) + (if ms.len()
                > 100 {
                seq![Seq::<char>::empty(), truncation_note()]
            } else {
                Seq::empty()
            }),
            "\n"@,
        )
    }
}

/// The value of a string of digits, if it fits in a `usize` (see
/// [`parsed_usize`]).
pub fn parse_usize(s: &[char]) -> (r: Option<usize>)
    ensures
        match parsed_usize(s@) {
            Some(v) => r == Some(v as usize),
            None => r is None,
        },
{
    let start: usize = if s.len() > 0 && s[0] == '+' { 1 } else { 0 };
    let ghost d = if s@.len() > 0 && s@[0] == '+' { s@.skip(1) } else { s@ };
    assert(d =~= s@.skip(start as int));
    if start >= s.len() {
        assert(d.len() == 0);
        return None;
    }
    let mut v: u128 = 0;
    let mut i: usize = start;
    assert(d.take(0) =~= Seq::<char>::empty());
    while i < s.len()
        invariant
            start <= i <= s@.len(),
            d =~= s@.skip(start as int),
            d == (if s@.len() > 0 && s@[0] == '+' { s@.skip(1) } else { s@ }),
            forall|k: int| 0 <= k < i - start ==> '0' <= #[trigger] d[k] <= '9',
            v == digits_value(d.take(i - start)),
            v <= usize::MAX,
        decreases s@.len() - i,
    {
        let c = s[i];
        if c < '0' || c > '9' {
            assert(d[i - start] == c);
            assert(!all_digits(d));
            return None;
        }
        let dv_: u128 = (c as u32 - '0' as u32) as u128;
        assert(d.take(i - start + 1).drop_last() =~= d.take(i - start));
        assert(d.take(i - start + 1).last() == c);
        assert(digits_value(d.take(i - start + 1)) == digits_value(d.take(i - start)) * 10 + dv_);
        v = v * 10 + dv_;
        if v > usize::MAX as u128 {
            proof {
                lemma_digits_grow(d, i - start + 1);
            }
            return None;
        }
        i = i + 1;
    }
    assert(d.take(d.len() as int) =~= d);
    Some(v as usize)
}

proof fn lemma_digits_grow(d: Seq<char>, k: int)
    requires
        0 <= k <= d.len(),
        digits_value(d.take(k)) > usize::MAX,
    ensures
        !(all_digits(d) && digits_value(d) <= usize::MAX),
    decreases d.len() - k,
{
    if k < d.len() && all_digits(d) {
        assert(d.take(k + 1).drop_last() =~= d.take(k));
        assert('0' <= d[k] <= '9');
        lemma_digits_grow(d, k + 1);
    } else if all_digits(d) {
        assert(d.take(k) =~= d);
    }
}

/// Parse one line of ripgrep output (see [`parse_match`]).
pub fn parse_match_line(l: &[char]) -> (r: Option<GrepMatch>)
    ensures
        match parse_match(l@) {
            Some(m) => r is Some && r->Some_0@ == m,
            None => r is None,
        },
{
    let bar = lit("|");
    proof {
        reveal_strlit("|");
        lemma_find_from(l@, bar@, 0);
    }
    assert(bar@.len() == 1);
    match find_in(l, &bar, 0) {
        None => None,
        Some(a) => {
            assert(a + 1 <= l@.len());
            assert(l@.len() == l.len());
            let rest = slice_to_vec(l, a + 1, l.len());
            assert(rest@ =~= l@.skip(a + 1));
            match find_in(&rest, &bar, 0) {
                None => None,
                Some(b) => {
                    proof {
                        lemma_find_from(rest@, bar@, 0);
                    }
                    let path = slice_to_vec(l, 0, a);
                    assert(path@ =~= l@.take(a as int));
                    let num = slice_to_vec(&rest, 0, b);
                    assert(num@ =~= rest@.take(b as int));
                    let text = slice_to_vec(&rest, b + 1, rest.len());
                    assert(text@ =~= rest@.skip(b + 1));
                    let line_num = match parse_usize(&num) {
                        Some(v) => v,
                        None => 0,
                    };
                    Some(GrepMatch {
                        path: string_from_chars(&path),
                        line_num,
                        line_text: string_from_chars(&text),
                    })
                },
            }
        },
    }
}

/// A completed report of a search with `output`, whose metadata gives
/// the number found under `key` and whether the list was cut.
fn counted_report(output: String, key: &str, count: usize, truncated: bool) -> (r: ToolReport)
    ensures
        r@ == (ReportView {
            status: ToolStatus::Completed,
            output: output@,
            error: None,
            metadata: seq![(key@, MetaView::Count(count as u64)), ("truncated"@, MetaView::Flag(truncated))],
        }),
{
    proof {
        reveal_strlit("truncated");
    }
    let mut metadata: Vec<(String, MetaValue)> = Vec::new();
    metadata.push((owned(key), MetaValue::Count(count as u64)));
    metadata.push((owned("truncated"), MetaValue::Flag(truncated)));
    let r = ToolReport { status: ToolStatus::Completed, output, error: None, metadata };
    assert(r@.metadata =~= seq![(key@, MetaView::Count(count as u64)), ("truncated"@, MetaView::Flag(truncated))]);
    r
}

impl GlobTool {
    /// The tool's name.
    pub fn name(&self) -> (r: &'static str)
        ensures
            r@ == "glob"@,
    {
        proof {
            reveal_strlit("glob");
        }
        "glob"
    }

    /// What the tool is for.
    pub fn description(&self) -> (r: &'static str)
        ensures
            r@ == GLOB_DESCRIPTION@,
    {
        GLOB_DESCRIPTION
    }

    /// The files that `rg --files --glob` listed in `stdout`, one a line.
    pub fn listed_files(stdout: &str) -> (r: Vec<String>)
        ensures
            sv(r@) == lines(stdout@),
    {
        let c = chars_of(stdout);
        let ls = lines_of(&c);
        let mut out: Vec<String> = Vec::new();
        let mut i: usize = 0;
        while i < ls.len()
            invariant
                i <= ls@.len(),
                sv(out@) =~= dv(ls@).take(i as int),
            decreases ls@.len() - i,
        {
            let f = string_from_chars(&ls[i]);
            let ghost b = sv(out@);
            out.push(f);
            assert(sv(out@) =~= b.push(f@));
            assert(dv(ls@).take(i as int + 1) =~= dv(ls@).take(i as int).push(ls@[i as int]@));
            i = i + 1;
        }
        assert(dv(ls@).take(ls@.len() as int) =~= dv(ls@));
        out
    }

    /// The files ordered by modification time, latest first; files with
    /// equal times keep their order.
    pub fn order_by_time(v: Vec<(String, u128)>) -> (r: Vec<String>)
        ensures
            sv(r@) == sv(stable_sort(v@, newer_first()).map_values(|p: (String, u128)| p.0)),
    {
        let ghost orig = v@;
        let ghost before = newer_first();
        let n = v.len();
        let mut src = v;
        let mut sorted: Vec<(String, u128)> = Vec::new();
        let mut i: usize = 0;
        assert(orig.skip(0) =~= orig);
        while src.len() > 0
            invariant
                i + src@.len() == orig.len(),
                orig.len() == n,
                src@ == orig.skip(i as int),
                sorted@ == stable_sort(orig.take(i as int), before),
                before == newer_first(),
            decreases src@.len(),
        {
            let x = src.remove(0);
            assert(orig.take(i as int + 1).drop_last() =~= orig.take(i as int));
            assert(orig.take(i as int + 1).last() == x);
            assert(src@ =~= orig.skip(i as int + 1));
            let ghost t = sorted@;
            let mut j: usize = sorted.len();
            assert(t.take(j as int) =~= t);
            while j > 0 && sorted[j - 1].1 < x.1
                invariant
                    j <= sorted@.len(),
                    t == sorted@,
                    before == newer_first(),
                    insert_pos(t, x, before) == insert_pos(t.take(j as int), x, before),
                decreases j,
            {
                assert(t.take(j as int).drop_last() =~= t.take(j - 1));
                j = j - 1;
            }
            proof {
                if j > 0 {
                    assert(t.take(j as int).last() == t[j - 1]);
                } else {
                    assert(t.take(0) =~= Seq::<(String, u128)>::empty());
                }
            }
            sorted.insert(j, x);
            i = i + 1;
        }
        assert(orig.take(orig.len() as int) =~= orig);
        let ghost s = sorted@;
        let mut out: Vec<String> = Vec::new();
        while sorted.len() > 0
            invariant
                sorted@.len() <= s.len(),
                sorted@ == s.skip(s.len() - sorted@.len()),
                sv(out@) == sv(s.take(s.len() - sorted@.len()).map_values(|p: (String, u128)| p.0)),
            decreases sorted@.len(),
        {
            let ghost k = s.len() - sorted@.len();
            let p = sorted.remove(0);
            assert(sorted@ =~= s.skip(k + 1));
            let ghost b = sv(out@);
            out.push(p.0);
            assert(sv(out@) =~= b.push(p.0@));
            assert(s.take(k + 1) =~= s.take(k).push(p));
            assert(sv(s.take(k + 1).map_values(|p: (String, u128)| p.0)) =~= b.push(p.0@));
        }
        assert(s.take(s.len() as int) =~= s);
        out
    }

    /// The report for the files found, in the order given (the tool orders
    /// them by modification time): at most 100 of them, or a note that
    /// none were found.
    pub fn report_files(files: &Vec<String>) -> (r: SearchReport)
        ensures
            r.output@ == join(glob_lines(sv(files@)), "\n"@),
            r.count == files@.len(),
            r.truncated == (files@.len() > 100),
    {
        let count = files.len();
        let truncated = count > 100;
        let mut out: Vec<Vec<char>> = Vec::new();
        proof {
            reveal_strlit("No files found");
            reveal_strlit("(Results are truncated. Consider using a more specific path or pattern.)");
        }
        if count == 0 {
            out.push(lit("No files found"));
            assert(dv(out@) =~= glob_lines(sv(files@)));
        } else {
            let limit = if truncated { 100 } else { count };
            let mut i: usize = 0;
            while i < limit
                invariant
                    i <= limit <= files@.len(),
                    dv(out@) =~= sv(files@).take(i as int),
                decreases limit - i,
            {
                let f = chars_of(files[i].as_str());
                let ghost b = dv(out@);
                out.push(f);
                assert(dv(out@) =~= b.push(f@));
                assert(sv(files@).take(i as int + 1) =~= sv(files@).take(i as int).push(files@[i as int]@));
                i = i + 1;
            }
            if truncated {
                out.push(Vec::new());
                out.push(lit("(Results are truncated. Consider using a more specific path or pattern.)"));
                assert(dv(out@) =~= glob_lines(sv(files@)));
            } else {
                assert(sv(files@).take(count as int) =~= sv(files@));
                assert(dv(out@) =~= glob_lines(sv(files@)));
            }
        }
        let nl = lit("\n");
        proof {
            reveal_strlit("\n");
        }
        let text = join_vecs(&out, &nl);
        SearchReport { output: string_from_chars(&text), count, truncated }
    }

    /// The report for the files of `stdout` in ripgrep's order (see
    /// [`GlobTool::report_files`]).
    pub fn report(stdout: &str) -> (r: SearchReport)
        ensures
            r.output@ == join(glob_lines(lines(stdout@)), "\n"@),
            r.count == lines(stdout@).len(),
            r.truncated == (lines(stdout@).len() > 100),
    {
        let files = Self::listed_files(stdout);
        Self::report_files(&files)
    }

    /// The tool's result for a search report: completed, with its output,
    /// and the number of files found and whether the list was cut as
    /// `count` and `truncated`.
    pub fn tool_report(r: SearchReport) -> (t: ToolReport)
        ensures
            t@ == (ReportView {
                status: ToolStatus::Completed,
                output: r.output@,
                error: None,
                metadata: seq![("count"@, MetaView::Count(r.count as u64)), ("truncated"@, MetaView::Flag(r.truncated))],
            }),
    {
        counted_report(r.output, "count", r.count, r.truncated)
    }
}

impl GrepTool {
    /// The tool's name.
    pub fn name(&self) -> (r: &'static str)
        ensures
            r@ == "grep"@,
    {
        proof {
            reveal_strlit("grep");
        }
        "grep"
    }

    /// What the tool is for.
    pub fn description(&self) -> (r: &'static str)
        ensures
            r@ == GREP_DESCRIPTION@,
    {
        GREP_DESCRIPTION
    }

    /// The matches in ripgrep's output (see [`grep_matches`]).
    pub fn parse_output(stdout: &str) -> (r: Vec<GrepMatch>)
        ensures
            gvs(r@) == grep_matches(stdout@),
    {
        let c = chars_of(stdout);
        let t = trim_chars(&c);
        let ls = split_on(&t, '\n');
        let mut out: Vec<GrepMatch> = Vec::new();
        let mut i: usize = 0;
        assert(dv(ls@).take(0) =~= Seq::<Seq<char>>::empty());
        while i < ls.len()
            invariant
                i <= ls@.len(),
                gvs(out@) == parse_matches(dv(ls@).take(i as int)),
            decreases ls@.len() - i,
        {
            assert(dv(ls@).take(i as int + 1).drop_last() =~= dv(ls@).take(i as int));
            assert(dv(ls@).take(i as int + 1).last() == ls@[i as int]@);
            match parse_match_line(&ls[i]) {
                Some(m) => {
                    let ghost b = gvs(out@);
                    out.push(m);
                    assert(gvs(out@) =~= b + seq![m@]);
                },
                None => {
                    assert(gvs(out@) =~= gvs(out@) + Seq::<GrepMatchView>::empty());
                },
            }
            i = i + 1;
        }
        assert(dv(ls@).take(ls@.len() as int) =~= dv(ls@));
        out
    }

    /// The matches ordered by their file's modification time, latest first;
    /// matches with equal times keep their order.
    pub fn order_by_time(v: Vec<(GrepMatch, u128)>) -> (r: Vec<GrepMatch>)
        ensures
            gvs(r@) == gvs(stable_sort(v@, later_first()).map_values(|p: (GrepMatch, u128)| p.0)),
    {
        let ghost orig = v@;
        let ghost before = later_first();
        let n = v.len();
        let mut src = v;
        let mut sorted: Vec<(GrepMatch, u128)> = Vec::new();
        let mut i: usize = 0;
        assert(orig.skip(0) =~= orig);
        while src.len() > 0
            invariant
                i + src@.len() == orig.len(),
                orig.len() == n,
                src@ == orig.skip(i as int),
                sorted@ == stable_sort(orig.take(i as int), before),
                before == later_first(),
            decreases src@.len(),
        {
            let x = src.remove(0);
            assert(orig.take(i as int + 1).drop_last() =~= orig.take(i as int));
            assert(orig.take(i as int + 1).last() == x);
            assert(src@ =~= orig.skip(i as int + 1));
            let ghost t = sorted@;
            let mut j: usize = sorted.len();
            assert(t.take(j as int) =~= t);
            while j > 0 && sorted[j - 1].1 < x.1
                invariant
                    j <= sorted@.len(),
                    t == sorted@,
                    before == later_first(),
                    insert_pos(t, x, before) == insert_pos(t.take(j as int), x, before),
                decreases j,
            {
                assert(t.take(j as int).drop_last() =~= t.take(j - 1));
                j = j - 1;
            }
            proof {
                if j > 0 {
                    assert(t.take(j as int).last() == t[j - 1]);
                } else {
                    assert(t.take(0) =~= Seq::<(GrepMatch, u128)>::empty());
                }
            }
            sorted.insert(j, x);
            i = i + 1;
        }
        assert(orig.take(orig.len() as int) =~= orig);
        let ghost s = sorted@;
        let mut out: Vec<GrepMatch> = Vec::new();
        while sorted.len() > 0
            invariant
                sorted@.len() <= s.len(),
                sorted@ == s.skip(s.len() - sorted@.len()),
                gvs(out@) == gvs(s.take(s.len() - sorted@.len()).map_values(|p: (GrepMatch, u128)| p.0)),
            decreases sorted@.len(),
        {
            let ghost k = s.len() - sorted@.len();
            let p = sorted.remove(0);
            assert(sorted@ =~= s.skip(k + 1));
            let ghost b = gvs(out@);
            out.push(p.0);
            assert(gvs(out@) =~= b.push(p.0@));
            assert(s.take(k + 1) =~= s.take(k).push(p));
            assert(gvs(s.take(k + 1).map_values(|p: (GrepMatch, u128)| p.0)) =~= b.push(p.0@));
        }
        assert(s.take(s.len() as int) =~= s);
        out
    }

    /// The report for matches already ordered: at most 100, grouped under
    /// a header line per file (see [`grep_text`]).
    pub fn report(ms: &Vec<GrepMatch>) -> (r: SearchReport)
        ensures
            r.output@ == grep_text(gvs(ms@)),
            r.count == if ms@.len() > 100 { 100 } else { ms@.len() },
            r.truncated == (ms@.len() > 100),
    {
        let truncated = ms.len() > 100;
        let shown_len: usize = if truncated { 100 } else { ms.len() };
        let ghost all = gvs(ms@);
        let ghost shown = if all.len() > 100 { all.take(100) } else { all };
        assert(shown.len() == shown_len);
        proof {
            reveal_strlit("No files found");
            reveal_strlit("Found ");
            reveal_strlit(" matches");
            reveal_strlit("(Results are truncated. Consider using a more specific path or pattern.)");
            reveal_strlit("\n");
        }
        if shown_len == 0 {
            return SearchReport { output: owned("No files found"), count: 0, truncated: false };
        }
        let mut out: Vec<Vec<char>> = Vec::new();
        let mut head = lit("Found ");
        let d = decimal_of(shown_len as u128);
        push_all(&mut head, &d);
        push_str(&mut head, " matches");
        assert(head@ =~= "Found "@ + decimal(shown_len as nat) + " matches"@);
        out.push(head);
        let ghost first = dv(out@);
        let mut cur: Vec<char> = Vec::new();
        let mut i: usize = 0;
        assert(shown.skip(0) =~= shown);
        assert(first + grep_body(shown.skip(0), Seq::empty()) =~= first + grep_body(shown, Seq::empty()));
        while i < shown_len
            invariant
                i <= shown_len <= ms@.len(),
                shown.len() == shown_len,
                forall|k: int| 0 <= k < shown_len ==> shown[k] == ms@[k]@,
                dv(out@) + grep_body(shown.skip(i as int), cur@) == first + grep_body(shown, Seq::empty()),
            decreases shown_len - i,
        {
            let m = &ms[i];
            let ghost rest = shown.skip(i as int);
            assert(rest[0] == m@);
            assert(rest.drop_first() =~= shown.skip(i as int + 1));
            let ghost b = dv(out@);
            let path = chars_of(m.path.as_str());
            let same = crate::text::chars_eq(&path, &cur);
            proof {
                reveal_strlit("  Line ");
                reveal_strlit(": ");
                reveal_strlit(":");
            }
            let ghost head_s = if m@.path != cur@ {
                (if cur@.len() > 0 { seq![Seq::<char>::empty()] } else { Seq::empty() }) + seq![m@.path + ":"@]
            } else {
                Seq::empty()
            };
            if !same {
                if cur.len() > 0 {
                    out.push(Vec::new());
                }
                let mut h = slice_to_vec(&path, 0, path.len());
                h.push(':');
                assert(h@ =~= m@.path + ":"@);
                out.push(h);
            }
            assert(dv(out@) =~= b + head_s);
            let mut line = lit("  Line ");
            let n = decimal_of(m.line_num as u128);
            push_all(&mut line, &n);
            push_str(&mut line, ": ");
            push_str(&mut line, m.line_text.as_str());
            assert(line@ =~= match_line(m@));
            let ghost b2 = dv(out@);
            out.push(line);
            assert(dv(out@) =~= b2.push(match_line(m@)));
            proof {
                assert(grep_body(rest, cur@) == head_s + seq![match_line(m@)] + grep_body(rest.drop_first(), m@.path));
                assert(dv(out@) =~= b + head_s + seq![match_line(m@)]);
                assert(path@ == m@.path);
            }
            cur = path;
            i = i + 1;
        }
        assert(shown.skip(shown_len as int) =~= Seq::<GrepMatchView>::empty());
        assert(grep_body(shown.skip(shown_len as int), cur@) =~= Seq::<Seq<char>>::empty());
        assert(dv(out@) =~= first + grep_body(shown, Seq::empty()));
        assert(first =~= seq!["Found "@ + decimal(shown.len()) + " matches"@]);
        let ghost mid = dv(out@);
        if truncated {
            out.push(Vec::new());
            out.push(lit("(Results are truncated. Consider using a more specific path or pattern.)"));
        }
        assert(dv(out@) =~= seq!["Found "@ + decimal(shown.len()) + " matches"@] + grep_body(shown, Seq::empty()) + (if all.len() > 100 {
            seq![Seq::<char>::empty(), truncation_note()]
        } else {
            Seq::empty()
        }));
        let nl = lit("\n");
        let text = join_vecs(&out, &nl);
        SearchReport { output: string_from_chars(&text), count: shown_len, truncated }
    }

    /// The tool's result for a search report: completed, with its output,
    /// and the number of matches shown and whether they were cut as
    /// `matches` and `truncated`.
    pub fn tool_report(r: SearchReport) -> (t: ToolReport)
        ensures
            t@ == (ReportView {
                status: ToolStatus::Completed,
                output: r.output@,
                error: None,
                metadata: seq![("matches"@, MetaView::Count(r.count as u64)), ("truncated"@, MetaView::Flag(r.truncated))],
            }),
    {
        counted_report(r.output, "matches", r.count, r.truncated)
    }

    /// What ripgrep's exit decides before its output is read: exit code 1
    /// means no match (a completed report saying so); any other failure is
    /// an error carrying ripgrep's message. `None` when the output is to be
    /// read.
    pub fn exit_report(exit_code: Option<i32>, success: bool, stderr: &str) -> (r: Option<ToolReport>)
        ensures
            exit_code == Some(1i32) ==> r is Some && r->Some_0@ == (ReportView {
                status: ToolStatus::Completed,
                output: "No files found"@,
                error: None,
                metadata: seq![("matches"@, MetaView::Count(0)), ("truncated"@, MetaView::Flag(false))],
            }),
            exit_code != Some(1i32) && !success ==> r is Some && r->Some_0@ == (ReportView {
                status: ToolStatus::Error,
                output: Seq::empty(),
                error: Some("ripgrep failed: "@ + stderr@),
                metadata: Seq::empty(),
            }),
            exit_code != Some(1i32) && success ==> r is None,
    {
        let code: i32 = match exit_code {
            Some(c) => c,
            None => -1,
        };
        if code == 1 {
            proof {
                reveal_strlit("No files found");
            }
            return Some(counted_report(owned("No files found"), "matches", 0, false));
        }
        if !success {
            return Some(failed(concat_str("ripgrep failed: ", stderr)));
        }
        None
    }
}

} // verus!
