//! Fetching a web page: the address upgrade, the HTML stripping and the
//! truncation of long pages. The fetch itself is I/O and happens outside.
use vstd::prelude::*;
use crate::text::{
    byte_len, byte_floor, char_index_floor, lemma_byte_floor, chars_of, concat_str, decimal, decimal_of, dv, join, join_vecs, lines,
    lines_of, lit, occurs_at, owned, push_all, push_str, slice_to_vec, string_from_chars,
    trim, trim_chars, utf8_len, starts_with, has_prefix, lacks, is_ws, lemma_lines_lacks, lemma_trim_props,
    lemma_trim_fixed, lemma_join_lacks, lemma_lines_join, lemma_filter_all,
};

verus! {

/// What the web fetch tool is for, as the model is told.
pub const WEB_FETCH_DESCRIPTION: &'static str = "Fetches content from a specified URL and returns the text content.\n\nUsage:\n- Provide a URL to fetch content from\n- Optionally provide a prompt to extract specific information\n- Returns the page content as text (HTML stripped)\n\nNotes:\n- HTTP URLs will be upgraded to HTTPS\n- Large pages may be truncated\n- Some sites may block automated requests";


/// The tool that fetches a web page.
pub struct WebFetchTool;

/// Pages longer than this many bytes are cut.
pub const MAX_PAGE_BYTES: usize = 50000;

/// `a` is the lowercase letter `b`, or its ASCII capital.
pub open spec fn folds_to(a: char, b: char) -> bool {
    a == b || (97 <= b as int <= 122 && a as int + 32 == b as int)
}

/// The lowercase word `w` stands at `i` in `c`, each letter in either
/// case, with at least one more character after it.
pub open spec fn window(c: Seq<char>, i: int, w: Seq<char>) -> bool {
    &&& 0 <= i
    &&& i + w.len() < c.len()
    &&& forall|k: int| 0 <= k < w.len() ==> folds_to(#[trigger] c[i + k], w[k])
}

/// The index of the first `>` at or after `i`, or the length of `c`.
pub open spec fn next_close(c: Seq<char>, i: int) -> int
    decreases c.len() - i,
{
    if i >= c.len() || c[i] == '>' {
        i
    } else {
        next_close(c, i + 1)
    }
}

pub proof fn lemma_next_close(c: Seq<char>, i: int)
    ensures
        next_close(c, i) >= i,
        next_close(c, i) >= c.len() || c[next_close(c, i)] == '>',
        i <= c.len() ==> next_close(c, i) <= c.len(),
        forall|j: int| i <= j < next_close(c, i) ==> c[j] != '>',
    decreases c.len() - i,
{
    if i < c.len() && c[i] != '>' {
        lemma_next_close(c, i + 1);
    }
}

/// The text of `c` from index `i` on with markup removed. `<script`,
/// `</scrip`, `<style` and `</styl` are recognised in any ASCII case;
/// `tag`, `script` and `style` tell whether the scan is inside a tag, a
/// script or a style block. A closing `</scrip` or `</styl` is skipped up
/// to and including the next `>`.
pub open spec fn strip_from(c: Seq<char>, i: int, tag: bool, script: bool, style: bool) -> Seq<char>
    decreases c.len() + 1 - i,
{
    if i < 0 || i >= c.len() {
        Seq::empty()
    } else if !window(c, i, "<script"@) && window(c, i, "</scrip"@) {
        proof {
            lemma_next_close(c, i);
        }
        strip_from(c, next_close(c, i) + 1, tag, false, style)
    } else {
        let script1 = if window(c, i, "<script"@) { true } else { script };
        if !window(c, i, "<style"@) && window(c, i, "</styl"@) {
            proof {
                lemma_next_close(c, i);
            }
            strip_from(c, next_close(c, i) + 1, tag, script1, false)
        } else {
            let style1 = if window(c, i, "<style"@) { true } else { style };
            if script1 || style1 {
                strip_from(c, i + 1, tag, script1, style1)
            } else if c[i] == '<' {
                strip_from(c, i + 1, true, script1, style1)
            } else if c[i] == '>' {
                strip_from(c, i + 1, false, script1, style1)
            } else if !tag {
                seq![c[i]] + strip_from(c, i + 1, tag, script1, style1)
            } else {
                strip_from(c, i + 1, tag, script1, style1)
            }
        }
    }
}

/// The non-empty trimmed lines of `s`, joined by newlines.
pub open spec fn tidy_lines(s: Seq<char>) -> Seq<char> {
    join(lines(s).map_values(|x: Seq<char>| trim(x)).filter(|x: Seq<char>| x.len() > 0), "\n"@)
}

/// The text of the HTML page `c`.
pub open spec fn stripped_html(c: Seq<char>) -> Seq<char> {
    tidy_lines(strip_from(c, 0, false, false, false))
}

fn letter_folds(a: char, b: char) -> (r: bool)
    ensures
        r == folds_to(a, b),
{
    let x = a as u32;
    let y = b as u32;
    a == b || (97 <= y && y <= 122 && x + 32 == y)
}

fn window_at(c: &[char], i: usize, w: &[char]) -> (b: bool)
    ensures
        b == window(c@, i as int, w@),
{
    if i >= c.len() || w.len() >= c.len() - i {
        return false;
    }
    let n = c.len();
    let mut k: usize = 0;
    while k < w.len()
        invariant
            n == c@.len(),
            i + w@.len() < c@.len(),
            k <= w@.len(),
            forall|j: int| 0 <= j < k ==> folds_to(#[trigger] c@[i + j], w@[j]),
        decreases w@.len() - k,
    {
        assert(i + k < c@.len());
        if !letter_folds(c[i + k], w[k]) {
            assert(!folds_to(c@[i + k as int], w@[k as int]));
            return false;
        }
        k = k + 1;
    }
    true
}

/// The markup-free text of `c` (see [`strip_from`]).
fn strip_tags(c: &[char]) -> (r: Vec<char>)
    ensures
        r@ == strip_from(c@, 0, false, false, false),
{
    let script_open = lit("<script");
    let script_close = lit("</scrip");
    let style_open = lit("<style");
    let style_close = lit("</styl");
    proof {
        reveal_strlit("<script");
        reveal_strlit("</scrip");
        reveal_strlit("<style");
        reveal_strlit("</styl");
    }
    let mut out: Vec<char> = Vec::new();
    let mut tag = false;
    let mut script = false;
    let mut style = false;
    let mut i: usize = 0;
    while i < c.len()
        invariant
            script_open@ == "<script"@,
            script_close@ == "</scrip"@,
            style_open@ == "<style"@,
            style_close@ == "</styl"@,
            i <= c@.len(),
            out@ + strip_from(c@, i as int, tag, script, style) == strip_from(c@, 0, false, false, false),
        decreases c@.len() - i,
    {
        let ghost before = strip_from(c@, i as int, tag, script, style);
        let s7 = window_at(c, i, &script_open);
        let e7 = window_at(c, i, &script_close);
        if !s7 && e7 {
            let ghost start = i as int;
            proof {
                lemma_next_close(c@, start);
                assert(before == strip_from(c@, next_close(c@, start) + 1, tag, false, style));
            }
            script = false;
            while i < c.len() && c[i] != '>'
                invariant
                    start <= i <= c@.len(),
                    next_close(c@, i as int) == next_close(c@, start),
                decreases c@.len() - i,
            {
                i = i + 1;
            }
            assert(next_close(c@, i as int) == i);
            if i < c.len() {
                i = i + 1;
            }
            assert(strip_from(c@, i as int, tag, script, style) == before);
            continue;
        }
        if s7 {
            script = true;
        }
        let s6 = window_at(c, i, &style_open);
        let e6 = window_at(c, i, &style_close);
        if !s6 && e6 {
            let ghost start = i as int;
            proof {
                lemma_next_close(c@, start);
                assert(before == strip_from(c@, next_close(c@, start) + 1, tag, script, false));
            }
            style = false;
            while i < c.len() && c[i] != '>'
                invariant
                    start <= i <= c@.len(),
                    next_close(c@, i as int) == next_close(c@, start),
                decreases c@.len() - i,
            {
                i = i + 1;
            }
            assert(next_close(c@, i as int) == i);
            if i < c.len() {
                i = i + 1;
            }
            assert(strip_from(c@, i as int, tag, script, style) == before);
            continue;
        }
        if s6 {
            style = true;
        }
        if script || style {
            i = i + 1;
            continue;
        }
        let ch = c[i];
        if ch == '<' {
            tag = true;
        } else if ch == '>' {
            tag = false;
        } else if !tag {
            out.push(ch);
        }
        i = i + 1;
    }
    out
}

/// The non-empty trimmed lines of `s`, joined by newlines.
fn tidy(s: &[char]) -> (r: Vec<char>)
    ensures
        r@ == tidy_lines(s@),
{
    let ls = lines_of(s);
    let ghost src = dv(ls@).map_values(|x: Seq<char>| trim(x));
    let ghost pred = |x: Seq<char>| x.len() > 0;
    let mut kept: Vec<Vec<char>> = Vec::new();
    let mut i: usize = 0;
    proof {
        reveal(Seq::filter);
    }
    assert(src.take(0) =~= Seq::<Seq<char>>::empty());
    while i < ls.len()
        invariant
            i <= ls@.len(),
            src == dv(ls@).map_values(|x: Seq<char>| trim(x)),
            pred == (|x: Seq<char>| x.len() > 0),
            dv(kept@) == src.take(i as int).filter(pred),
        decreases ls@.len() - i,
    {
        let t = trim_chars(&ls[i]);
        assert(src.take(i as int + 1).drop_last() =~= src.take(i as int));
        assert(src.take(i as int + 1).last() == t@);
        proof {
            reveal(Seq::filter);
        }
        if t.len() > 0 {
            let ghost b = dv(kept@);
            kept.push(t);
            assert(dv(kept@) =~= b.push(t@));
        }
        i = i + 1;
    }
    assert(src.take(ls@.len() as int) =~= src);
    let nl = lit("\n");
    proof {
        reveal_strlit("\n");
    }
    join_vecs(&kept, &nl)
}

/// The text of the HTML page `html`: markup, scripts and styles removed,
/// then the non-empty trimmed lines joined by newlines. Character entities
/// are left as they are.
pub fn strip_html(html: &str) -> (r: String)
    ensures
        r@ == stripped_html(html@),
{
    let c = chars_of(html);
    let t = strip_tags(&c);
    let r = tidy(&t);
    string_from_chars(&r)
}

/// The text left by [`strip_from`] holds no `<` and no `>`.
pub proof fn lemma_strip_from_plain(c: Seq<char>, i: int, tag: bool, script: bool, style: bool)
    ensures
        lacks(strip_from(c, i, tag, script, style), '<'),
        lacks(strip_from(c, i, tag, script, style), '>'),
    decreases c.len() + 1 - i,
{
    if i < 0 || i >= c.len() {
    } else if !window(c, i, "<script"@) && window(c, i, "</scrip"@) {
        lemma_next_close(c, i);
        lemma_strip_from_plain(c, next_close(c, i) + 1, tag, false, style);
    } else {
        let script1 = if window(c, i, "<script"@) { true } else { script };
        if !window(c, i, "<style"@) && window(c, i, "</styl"@) {
            lemma_next_close(c, i);
            lemma_strip_from_plain(c, next_close(c, i) + 1, tag, script1, false);
        } else {
            let style1 = if window(c, i, "<style"@) { true } else { style };
            if script1 || style1 {
                lemma_strip_from_plain(c, i + 1, tag, script1, style1);
            } else if c[i] == '<' {
                lemma_strip_from_plain(c, i + 1, true, script1, style1);
            } else if c[i] == '>' {
                lemma_strip_from_plain(c, i + 1, false, script1, style1);
            } else if !tag {
                lemma_strip_from_plain(c, i + 1, tag, script1, style1);
                let r = strip_from(c, i + 1, tag, script1, style1);
                assert forall|k: int| 0 <= k < (seq![c[i]] + r).len() implies (seq![c[i]] + r)[k] != '<'
                    && (seq![c[i]] + r)[k] != '>' by {
                    if k > 0 {
                        assert((seq![c[i]] + r)[k] == r[k - 1]);
                    }
                }
            } else {
                lemma_strip_from_plain(c, i + 1, tag, script1, style1);
            }
        }
    }
}

/// Text without `<` has no markup: [`strip_from`] keeps it as it is.
pub proof fn lemma_strip_from_text(c: Seq<char>, i: int)
    requires
        0 <= i <= c.len(),
        lacks(c, '<'),
        lacks(c, '>'),
    ensures
        strip_from(c, i, false, false, false) == c.skip(i),
    decreases c.len() - i,
{
    reveal_strlit("<script");
    reveal_strlit("</scrip");
    reveal_strlit("<style");
    reveal_strlit("</styl");
    if i < c.len() {
        assert(!window(c, i, "<script"@)) by {
            if window(c, i, "<script"@) {
                assert(folds_to(c[i + 0], "<script"@[0]));
            }
        }
        assert(!window(c, i, "</scrip"@)) by {
            if window(c, i, "</scrip"@) {
                assert(folds_to(c[i + 0], "</scrip"@[0]));
            }
        }
        assert(!window(c, i, "<style"@)) by {
            if window(c, i, "<style"@) {
                assert(folds_to(c[i + 0], "<style"@[0]));
            }
        }
        assert(!window(c, i, "</styl"@)) by {
            if window(c, i, "</styl"@) {
                assert(folds_to(c[i + 0], "</styl"@[0]));
            }
        }
        lemma_strip_from_text(c, i + 1);
        assert(seq![c[i]] + c.skip(i + 1) =~= c.skip(i));
    } else {
        assert(c.skip(i) =~= Seq::<char>::empty());
    }
}

proof fn lemma_next_close_shift(a: Seq<char>, r: Seq<char>, k: int)
    requires
        0 <= k,
    ensures
        next_close(a + r, a.len() + k) == a.len() + next_close(r, k),
    decreases r.len() - k,
{
    if k < r.len() {
        assert((a + r)[a.len() + k] == r[k]);
        if r[k] != '>' {
            lemma_next_close_shift(a, r, k + 1);
        }
    }
}

proof fn lemma_window_shift(a: Seq<char>, r: Seq<char>, k: int, w: Seq<char>)
    requires
        0 <= k,
    ensures
        window(a + r, a.len() + k, w) == window(r, k, w),
{
    if window(r, k, w) {
        assert forall|j: int| 0 <= j < w.len() implies folds_to(#[trigger] (a + r)[a.len() + k + j], w[j]) by {
            assert((a + r)[a.len() + k + j] == r[k + j]);
        }
    }
    if window(a + r, a.len() + k, w) {
        assert forall|j: int| 0 <= j < w.len() implies folds_to(#[trigger] r[k + j], w[j]) by {
            assert((a + r)[a.len() + k + j] == r[k + j]);
        }
    }
}

/// What follows a prefix is stripped as if the prefix were not there, from
/// the same state.
pub proof fn lemma_strip_from_shift(a: Seq<char>, r: Seq<char>, k: int, tag: bool, script: bool, style: bool)
    requires
        0 <= k,
    ensures
        strip_from(a + r, a.len() + k, tag, script, style) == strip_from(r, k, tag, script, style),
    decreases r.len() + 1 - k,
{
    let c = a + r;
    let i = a.len() + k;
    if k < r.len() {
        lemma_window_shift(a, r, k, "<script"@);
        lemma_window_shift(a, r, k, "</scrip"@);
        lemma_window_shift(a, r, k, "<style"@);
        lemma_window_shift(a, r, k, "</styl"@);
        assert(c[i] == r[k]);
        lemma_next_close_shift(a, r, k);
        lemma_next_close(r, k);
        let nk = next_close(r, k) + 1;
        if !window(r, k, "<script"@) && window(r, k, "</scrip"@) {
            lemma_strip_from_shift(a, r, nk, tag, false, style);
        } else {
            let script1 = if window(r, k, "<script"@) { true } else { script };
            if !window(r, k, "<style"@) && window(r, k, "</styl"@) {
                lemma_strip_from_shift(a, r, nk, tag, script1, false);
            } else {
                let style1 = if window(r, k, "<style"@) { true } else { style };
                lemma_strip_from_shift(a, r, k + 1, tag, script1, style1);
                lemma_strip_from_shift(a, r, k + 1, true, script1, style1);
                lemma_strip_from_shift(a, r, k + 1, false, script1, style1);
            }
        }
    }
}

/// A script block drops out of a page: the text of `<script>` and a body
/// without markup, closed by `</script>` and followed by `rest`, is the
/// text of `rest` alone.
pub proof fn law_script_drops_out(body: Seq<char>, rest: Seq<char>)
    requires
        lacks(body, '<'),
    ensures
        strip_from("<script>"@ + body + "</script>"@ + rest, 0, false, false, false) == strip_from(
            rest,
            0,
            false,
            false,
            false,
        ),
{
    reveal_strlit("<script>");
    reveal_strlit("</script>");
    reveal_strlit("<script");
    reveal_strlit("</scrip");
    reveal_strlit("<style");
    reveal_strlit("</styl");
    let open = "<script>"@;
    let close = "</script>"@;
    assert(open =~= seq!['<', 's', 'c', 'r', 'i', 'p', 't', '>']);
    assert(close =~= seq!['<', '/', 's', 'c', 'r', 'i', 'p', 't', '>']);
    assert("<script"@ =~= seq!['<', 's', 'c', 'r', 'i', 'p', 't']);
    assert("</scrip"@ =~= seq!['<', '/', 's', 'c', 'r', 'i', 'p']);
    assert("<style"@ =~= seq!['<', 's', 't', 'y', 'l', 'e']);
    assert("</styl"@ =~= seq!['<', '/', 's', 't', 'y', 'l']);
    let p = open + body + close + rest;
    let n = body.len() as int;
    let e = 8 + n;
    // Inside the block nothing is kept.
    assert forall|i: int| 1 <= i < e implies !window(p, i, "<script"@) && !window(p, i, "</scrip"@) && !window(
        p,
        i,
        "<style"@,
    ) && !window(p, i, "</styl"@) by {
        assert(p[i + 0] != '<') by {
            if i < 8 {
                assert(p[i] == open[i]);
            } else {
                assert(p[i] == body[i - 8]);
            }
        }
    }
    assert forall|i: int| 1 <= i <= e implies strip_from(p, i, false, true, false) == strip_from(p, e, false, true, false) by {
        lemma_block_inside(p, i, e, true, false);
    }
    // The start of the block opens it.
    assert(window(p, 0, "<script"@)) by {
        assert forall|j: int| 0 <= j < 7 implies folds_to(#[trigger] p[0 + j], "<script"@[j]) by {
            assert(p[j] == open[j]);
        }
    }
    assert(!window(p, 0, "<style"@)) by {
        assert(p[0int + 2] == open[2]);
        assert(!folds_to(p[0int + 2], "<style"@[2]));
    }
    assert(!window(p, 0, "</styl"@)) by {
        assert(p[0int + 1] == open[1]);
        assert(!folds_to(p[0int + 1], "</styl"@[1]));
    }
    // The closing tag is skipped up to its `>`.
    assert(!window(p, e, "<script"@)) by {
        assert(p[e + 1] == close[1]);
        assert(!folds_to(p[e + 1], "<script"@[1]));
    }
    assert(window(p, e, "</scrip"@)) by {
        assert forall|j: int| 0 <= j < 7 implies folds_to(#[trigger] p[e + j], "</scrip"@[j]) by {
            assert(p[e + j] == close[j]);
        }
    }
    assert forall|j: int| e <= j < e + 8 implies p[j] != '>' by {
        assert(p[j] == close[j - e]);
    }
    assert(p[e + 8] == '>') by {
        assert(p[e + 8] == close[8]);
    }
    lemma_next_close_from(p, e, e + 8);
    assert(strip_from(p, 0, false, false, false) == strip_from(p, 1, false, true, false));
    assert(strip_from(p, 1, false, true, false) == strip_from(p, e, false, true, false));
    assert(strip_from(p, e, false, true, false) == strip_from(p, e + 9, false, false, false));
    let a = open + body + close;
    assert(p =~= a + rest);
    assert(a.len() + 0 == e + 9);
    lemma_strip_from_shift(a, rest, 0, false, false, false);
}

/// A style block drops out of a page: the text of `<style>` and a body
/// without markup, closed by `</style>` and followed by `rest`, is the text
/// of `rest` alone.
pub proof fn law_style_drops_out(body: Seq<char>, rest: Seq<char>)
    requires
        lacks(body, '<'),
    ensures
        strip_from("<style>"@ + body + "</style>"@ + rest, 0, false, false, false) == strip_from(
            rest,
            0,
            false,
            false,
            false,
        ),
{
    reveal_strlit("<style>");
    reveal_strlit("</style>");
    reveal_strlit("<script");
    reveal_strlit("</scrip");
    reveal_strlit("<style");
    reveal_strlit("</styl");
    let open = "<style>"@;
    let close = "</style>"@;
    assert(open =~= seq!['<', 's', 't', 'y', 'l', 'e', '>']);
    assert(close =~= seq!['<', '/', 's', 't', 'y', 'l', 'e', '>']);
    assert("<script"@ =~= seq!['<', 's', 'c', 'r', 'i', 'p', 't']);
    assert("</scrip"@ =~= seq!['<', '/', 's', 'c', 'r', 'i', 'p']);
    assert("<style"@ =~= seq!['<', 's', 't', 'y', 'l', 'e']);
    assert("</styl"@ =~= seq!['<', '/', 's', 't', 'y', 'l']);
    let p = open + body + close + rest;
    let n = body.len() as int;
    let e = 7 + n;
    assert forall|i: int| 1 <= i < e implies !window(p, i, "<script"@) && !window(p, i, "</scrip"@) && !window(
        p,
        i,
        "<style"@,
    ) && !window(p, i, "</styl"@) by {
        assert(p[i + 0] != '<') by {
            if i < 7 {
                assert(p[i] == open[i]);
            } else {
                assert(p[i] == body[i - 7]);
            }
        }
    }
    assert forall|i: int| 1 <= i <= e implies strip_from(p, i, false, false, true) == strip_from(p, e, false, false, true) by {
        lemma_block_inside(p, i, e, false, true);
    }
    assert(!window(p, 0, "<script"@)) by {
        assert(p[0int + 2] == open[2]);
        assert(!folds_to(p[0int + 2], "<script"@[2]));
    }
    assert(!window(p, 0, "</scrip"@)) by {
        assert(p[0int + 1] == open[1]);
        assert(!folds_to(p[0int + 1], "</scrip"@[1]));
    }
    assert(window(p, 0, "<style"@)) by {
        assert forall|j: int| 0 <= j < 6 implies folds_to(#[trigger] p[0 + j], "<style"@[j]) by {
            assert(p[j] == open[j]);
        }
    }
    assert(!window(p, 0, "</styl"@)) by {
        assert(p[0int + 1] == open[1]);
        assert(!folds_to(p[0int + 1], "</styl"@[1]));
    }
    assert(!window(p, e, "<script"@)) by {
        assert(p[e + 1] == close[1]);
        assert(!folds_to(p[e + 1], "<script"@[1]));
    }
    assert(!window(p, e, "</scrip"@)) by {
        assert(p[e + 3] == close[3]);
        assert(!folds_to(p[e + 3], "</scrip"@[3]));
    }
    assert(!window(p, e, "<style"@)) by {
        assert(p[e + 1] == close[1]);
        assert(!folds_to(p[e + 1], "<style"@[1]));
    }
    assert(window(p, e, "</styl"@)) by {
        assert forall|j: int| 0 <= j < 6 implies folds_to(#[trigger] p[e + j], "</styl"@[j]) by {
            assert(p[e + j] == close[j]);
        }
    }
    assert forall|j: int| e <= j < e + 7 implies p[j] != '>' by {
        assert(p[j] == close[j - e]);
    }
    assert(p[e + 7] == '>') by {
        assert(p[e + 7] == close[7]);
    }
    lemma_next_close_from(p, e, e + 7);
    assert(strip_from(p, 0, false, false, false) == strip_from(p, 1, false, false, true));
    assert(strip_from(p, 1, false, false, true) == strip_from(p, e, false, false, true));
    assert(strip_from(p, e, false, false, true) == strip_from(p, e + 8, false, false, false));
    let a = open + body + close;
    assert(p =~= a + rest);
    assert(a.len() + 0 == e + 8);
    lemma_strip_from_shift(a, rest, 0, false, false, false);
}

/// Inside a block with no window from `i` to `e`, the scan carries on to `e`.
proof fn lemma_block_inside(p: Seq<char>, i: int, e: int, script: bool, style: bool)
    requires
        script || style,
        1 <= i <= e < p.len(),
        forall|j: int|
            1 <= j < e ==> !window(p, j, "<script"@) && !window(p, j, "</scrip"@) && !window(p, j, "<style"@)
                && !window(p, j, "</styl"@),
    ensures
        strip_from(p, i, false, script, style) == strip_from(p, e, false, script, style),
    decreases e - i,
{
    if i < e {
        lemma_block_inside(p, i + 1, e, script, style);
    }
}

/// The first `>` from `i` is at `k` when `k` holds one and none comes before.
proof fn lemma_next_close_from(c: Seq<char>, i: int, k: int)
    requires
        0 <= i <= k < c.len(),
        c[k] == '>',
        forall|j: int| i <= j < k ==> c[j] != '>',
    ensures
        next_close(c, i) == k,
    decreases k - i,
{
    if i < k {
        lemma_next_close_from(c, i + 1, k);
    }
}

/// The lines kept by [`tidy_lines`]: trimmed and non-empty.
pub open spec fn kept_lines(s: Seq<char>) -> Seq<Seq<char>> {
    lines(s).map_values(|x: Seq<char>| trim(x)).filter(|x: Seq<char>| x.len() > 0)
}

proof fn lemma_kept_line(s: Seq<char>, k: int, ch: char)
    requires
        0 <= k < kept_lines(s).len(),
        ch == '\n' || lacks(s, ch),
    ensures
        lacks(kept_lines(s)[k], ch),
        kept_lines(s)[k].len() > 0,
        !is_ws(kept_lines(s)[k][0]),
        !is_ws(kept_lines(s)[k].last()),
{
    let m = lines(s).map_values(|x: Seq<char>| trim(x));
    let pred = |x: Seq<char>| x.len() > 0;
    lemma_lines_lacks(s);
    m.lemma_filter_pred(pred, k);
    let e = kept_lines(s)[k];
    assert(m.filter(pred)[k] == e);
    assert(m.filter(pred).contains(e));
    m.lemma_filter_contains_rev(pred, e);
    let j = choose|j: int| 0 <= j < m.len() && m[j] == e;
    assert(lacks(lines(s)[j], ch));
    lemma_trim_props(lines(s)[j]);
    assert(m[j] == trim(lines(s)[j]));
}

/// Each kept line is non-empty, holds no line break, neither starts nor
/// ends with whitespace, and holds no character that `s` lacks.
proof fn lemma_kept_lines(s: Seq<char>)
    ensures
        forall|k: int|
            0 <= k < kept_lines(s).len() ==> #[trigger] kept_lines(s)[k].len() > 0 && lacks(kept_lines(s)[k], '\n')
                && !is_ws(kept_lines(s)[k][0]) && !is_ws(kept_lines(s)[k].last()),
        forall|ch: char, k: int|
            lacks(s, ch) && 0 <= k < kept_lines(s).len() ==> #[trigger] lacks(kept_lines(s)[k], ch),
{
    assert forall|k: int| 0 <= k < kept_lines(s).len() implies #[trigger] kept_lines(s)[k].len() > 0 && lacks(
        kept_lines(s)[k],
        '\n',
    ) && !is_ws(kept_lines(s)[k][0]) && !is_ws(kept_lines(s)[k].last()) by {
        lemma_kept_line(s, k, '\n');
    }
    assert forall|ch: char, k: int| lacks(s, ch) && 0 <= k < kept_lines(s).len() implies #[trigger] lacks(
        kept_lines(s)[k],
        ch,
    ) by {
        lemma_kept_line(s, k, ch);
    }
}

/// Tidying lines twice is tidying them once.
pub proof fn lemma_tidy_idempotent(s: Seq<char>)
    ensures
        tidy_lines(tidy_lines(s)) == tidy_lines(s),
{
    reveal_strlit("\n");
    assert("\n"@ =~= seq!['\n']);
    let ts = kept_lines(s);
    lemma_kept_lines(s);
    let y = tidy_lines(s);
    assert(y == join(ts, seq!['\n']));
    assert forall|k: int| 0 <= k < ts.len() implies #[trigger] ts[k].len() > 0 && lacks(ts[k], '\n') && ts[k].last()
        != '\r' by {
        assert(!is_ws(ts[k].last()));
    }
    lemma_lines_join(ts);
    assert forall|k: int| 0 <= k < ts.len() implies #[trigger] trim(ts[k]) == ts[k] by {
        lemma_trim_fixed(ts[k]);
    }
    let m = ts.map_values(|x: Seq<char>| trim(x));
    assert(m =~= ts);
    lemma_filter_all(ts, |x: Seq<char>| x.len() > 0);
}

/// Stripping a page twice is stripping it once: the text of a page's text
/// is that text.
pub proof fn law_strip_html_idempotent(html: Seq<char>)
    ensures
        stripped_html(stripped_html(html)) == stripped_html(html),
{
    reveal_strlit("\n");
    assert("\n"@ =~= seq!['\n']);
    let x = strip_from(html, 0, false, false, false);
    lemma_strip_from_plain(html, 0, false, false, false);
    let y = stripped_html(html);
    lemma_kept_lines(x);
    lemma_join_lacks(kept_lines(x), seq!['\n'], '<');
    lemma_join_lacks(kept_lines(x), seq!['\n'], '>');
    lemma_strip_from_text(y, 0);
    assert(y.skip(0) =~= y);
    lemma_tidy_idempotent(x);
}

/// `url` with a leading `http://` upgraded to `https://`.
pub open spec fn upgraded_url(url: Seq<char>) -> Seq<char> {
    if starts_with(url, "http://"@) {
        "https://"@ + url.skip(7)
    } else {
        url
    }
}


/// A page cut at the last character boundary at or before byte 50000,
/// with a note of its full length in bytes, when it is longer.
pub open spec fn truncated_page(t: Seq<char>) -> Seq<char> {
    if byte_len(t) > 50000 {
        byte_floor(t, 50000) + "...\n\n[Truncated - "@ + decimal(byte_len(t)) + " chars total]"@
    } else {
        t
    }
}

impl WebFetchTool {
    /// The tool's name.
    pub fn name(&self) -> (r: &'static str)
        ensures
            r@ == "webfetch"@,
    {
        proof {
            reveal_strlit("webfetch");
        }
        "webfetch"
    }

    /// What the tool is for.
    pub fn description(&self) -> (r: &'static str)
        ensures
            r@ == WEB_FETCH_DESCRIPTION@,
    {
        WEB_FETCH_DESCRIPTION
    }

    /// The address that is fetched for `url`.
    pub fn upgrade_url(url: &str) -> (r: String)
        ensures
            r@ == upgraded_url(url@),
    {
        let u = chars_of(url);
        let p = lit("http://");
        proof {
            reveal_strlit("http://");
            reveal_strlit("https://");
        }
        if has_prefix(&u, &p) {
            let mut r = lit("https://");
            let rest = slice_to_vec(&u, 7, u.len());
            push_all(&mut r, &rest);
            assert(u@.skip(7) =~= u@.subrange(7, u@.len() as int));
            string_from_chars(&r)
        } else {
            owned(url)
        }
    }

    /// The page text cut to at most 50000 bytes (see [`truncated_page`]).
    pub fn truncate_page(text: &str) -> (r: String)
        ensures
            r@ == truncated_page(text@),
    {
        let t = chars_of(text);
        let n = utf8_len(&t);
        if n <= 50000 {
            return owned(text);
        }
        let k = char_index_floor(&t, 50000);
        proof {
            lemma_byte_floor(t@, 50000, k as int);
            reveal_strlit("...\n\n[Truncated - ");
            reveal_strlit(" chars total]");
        }
        let mut r = slice_to_vec(&t, 0, k);
        assert(r@ =~= t@.take(k as int));
        push_str(&mut r, "...\n\n[Truncated - ");
        let d = decimal_of(n);
        push_all(&mut r, &d);
        push_str(&mut r, " chars total]");
        string_from_chars(&r)
    }

    /// The tool's output for the fetched page `content`: its text, cut at
    /// the last character boundary at or before byte 50000.
    pub fn page_output(content: &str) -> (r: String)
        ensures
            r@ == truncated_page(stripped_html(content@)),
    {
        let text = strip_html(content);
        Self::truncate_page(text.as_str())
    }
}

} // verus!
