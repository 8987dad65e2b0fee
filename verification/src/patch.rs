//! Unified-diff parsing and the text edits that applying a patch makes.
use vstd::prelude::*;
use crate::text::{
    chars_of, dv, has_prefix, join, join_vecs, lines, lines_of, push_all, replace_first,
    replace_first_in, slice_to_vec, starts_with, string_from_chars, sv, trim, trim_chars, contains,
    has_substring, ends_with, lit,
};

verus! {

/// One file section of a unified diff: the file it names, the lines it
/// removes and keeps (`old_content`), the lines it adds and keeps
/// (`new_content`), and whether it creates or deletes the file.
#[derive(Debug, Clone, PartialEq)]
pub struct DiffHunk {
    pub file_path: String,
    pub old_content: Vec<String>,
    pub new_content: Vec<String>,
    pub is_new_file: bool,
    pub is_delete: bool,
}

/// The mathematical content of a [`DiffHunk`].
pub struct HunkView {
    pub file_path: Seq<char>,
    pub old_content: Seq<Seq<char>>,
    pub new_content: Seq<Seq<char>>,
    pub is_new_file: bool,
    pub is_delete: bool,
}

impl View for DiffHunk {
    type V = HunkView;

    open spec fn view(&self) -> HunkView {
        HunkView {
            file_path: self.file_path@,
            old_content: sv(self.old_content@),
            new_content: sv(self.new_content@),
            is_new_file: self.is_new_file,
            is_delete: self.is_delete,
        }
    }
}

/// The views of a sequence of hunks.
pub open spec fn hv(v: Seq<DiffHunk>) -> Seq<HunkView> {
    v.map_values(|h: DiffHunk| h@)
}

pub open spec fn dashes3() -> Seq<char> {
    seq!['-', '-', '-']
}

pub open spec fn pluses3() -> Seq<char> {
    seq!['+', '+', '+']
}

pub open spec fn dev_null() -> Seq<char> {
    seq!['/', 'd', 'e', 'v', '/', 'n', 'u', 'l', 'l']
}

/// The path named by a `--- ` (or `+++ `) header line: the text after the
/// four-character marker (empty when the marker is absent), trimmed, with a
/// leading `a/` (or `b/`) removed.
pub open spec fn header_path(l: Seq<char>, marker: Seq<char>, side: Seq<char>) -> Seq<char> {
    let rest = if starts_with(l, marker) {
        l.skip(marker.len() as int)
    } else {
        Seq::<char>::empty()
    };
    let t = trim(rest);
    if starts_with(t, side) {
        t.skip(side.len() as int)
    } else {
        t
    }
}

pub open spec fn old_marker() -> Seq<char> {
    seq!['-', '-', '-', ' ']
}

pub open spec fn new_marker() -> Seq<char> {
    seq!['+', '+', '+', ' ']
}

/// What one body line contributes to the old and new sides of a hunk:
/// `-` lines to the old side, `+` lines to the new side, context (` ` or
/// empty) lines to both, any other line nothing.
pub open spec fn body_step(acc: (Seq<Seq<char>>, Seq<Seq<char>>), l: Seq<char>) -> (
    Seq<Seq<char>>,
    Seq<Seq<char>>,
) {
    if l.len() > 0 && l[0] == '-' {
        (acc.0.push(l.drop_first()), acc.1)
    } else if l.len() > 0 && l[0] == '+' {
        (acc.0, acc.1.push(l.drop_first()))
    } else if l.len() > 0 && l[0] == ' ' {
        (acc.0.push(l.drop_first()), acc.1.push(l.drop_first()))
    } else if l.len() == 0 {
        (acc.0.push(l), acc.1.push(l))
    } else {
        acc
    }
}

/// The state of the scan inside a file section: the file and what is done
/// to it, the old and new lines of the hunk being read, and whether a hunk
/// of this section has been given out already.
pub struct SectionView {
    pub file_path: Seq<char>,
    pub is_new_file: bool,
    pub is_delete: bool,
    pub old: Seq<Seq<char>>,
    pub new: Seq<Seq<char>>,
    pub emitted: bool,
}

/// The lines `ls[i]`, `ls[i + 1]` are a file header: `---` then `+++`.
pub open spec fn is_header(ls: Seq<Seq<char>>, i: int) -> bool {
    0 <= i && i + 1 < ls.len() && starts_with(ls[i], dashes3()) && starts_with(ls[i + 1], pluses3())
}

/// Line `i` ends a file section: a new file header, or a `diff ` line.
pub open spec fn ends_section(ls: Seq<Seq<char>>, i: int) -> bool {
    is_header(ls, i) || starts_with(ls[i], seq!['d', 'i', 'f', 'f', ' '])
}

/// The section opened by the header at `ls[i]`, `ls[i + 1]`: a creation
/// when the old side is `/dev/null`, a deletion when the new side is, else
/// an update of the file named on the new side.
pub open spec fn section_header(ls: Seq<Seq<char>>, i: int) -> SectionView {
    let old_file = header_path(ls[i], old_marker(), seq!['a', '/']);
    let new_file = header_path(ls[i + 1], new_marker(), seq!['b', '/']);
    let (path, is_new, is_del) = if old_file == dev_null() {
        (new_file, true, false)
    } else if new_file == dev_null() {
        (old_file, false, true)
    } else {
        (new_file, false, false)
    };
    SectionView {
        file_path: path,
        is_new_file: is_new,
        is_delete: is_del,
        old: Seq::empty(),
        new: Seq::empty(),
        emitted: false,
    }
}

/// The hunk being read in section `s`.
pub open spec fn hunk_of(s: SectionView) -> HunkView {
    HunkView {
        file_path: s.file_path,
        old_content: s.old,
        new_content: s.new,
        is_new_file: s.is_new_file,
        is_delete: s.is_delete,
    }
}

/// The hunk being read has lines.
pub open spec fn has_lines(s: SectionView) -> bool {
    s.old.len() > 0 || s.new.len() > 0
}

/// `done` with the last hunk of section `s`: given out when it has lines,
/// or when the section has given out none (so every section yields one).
pub open spec fn close_section(s: SectionView, done: Seq<HunkView>) -> Seq<HunkView> {
    if has_lines(s) || !s.emitted {
        done.push(hunk_of(s))
    } else {
        done
    }
}

/// Section `s` after a `@@` line: a new, empty hunk.
pub open spec fn next_hunk(s: SectionView) -> SectionView {
    SectionView { old: Seq::empty(), new: Seq::empty(), emitted: s.emitted || has_lines(s), ..s }
}

/// Section `s` after the body line `l`.
pub open spec fn take_line(s: SectionView, l: Seq<char>) -> SectionView {
    let acc = body_step((s.old, s.new), l);
    SectionView { old: acc.0, new: acc.1, ..s }
}

pub open spec fn missing_plus_message() -> Seq<char> {
    "Expected +++ line after ---"@
}

/// The hunks of the diff whose lines are `ls`, read from line `i` on, with
/// `cur` the section being read (if any) and `done` the hunks given out so
/// far. Outside a section, lines are skipped until a `---` line, which must
/// be followed by a `+++` line. Inside, a `@@` line starts a new hunk (the
/// one before it is given out when it has lines), other lines go to the
/// hunk being read, and a new header or a `diff ` line ends the section.
pub open spec fn scan(ls: Seq<Seq<char>>, i: int, cur: Option<SectionView>, done: Seq<HunkView>) -> Result<
    Seq<HunkView>,
    Seq<char>,
>
    decreases ls.len() - i, (if cur is Some { 1int } else { 0int }),
{
    if i < 0 || i >= ls.len() {
        match cur {
            Some(s) => Ok(close_section(s, done)),
            None => Ok(done),
        }
    } else {
        match cur {
            None => {
                if starts_with(ls[i], dashes3()) {
                    if is_header(ls, i) {
                        scan(ls, i + 2, Some(section_header(ls, i)), done)
                    } else {
                        Err(missing_plus_message())
                    }
                } else {
                    scan(ls, i + 1, None, done)
                }
            },
            Some(s) => {
                if ends_section(ls, i) {
                    scan(ls, i, None, close_section(s, done))
                } else if starts_with(ls[i], seq!['@', '@']) {
                    scan(
                        ls,
                        i + 1,
                        Some(next_hunk(s)),
                        if has_lines(s) {
                            done.push(hunk_of(s))
                        } else {
                            done
                        },
                    )
                } else {
                    scan(ls, i + 1, Some(take_line(s, ls[i])), done)
                }
            },
        }
    }
}

/// A body line that adds nothing to a hunk: not empty, not starting with
/// `-`, `+` or a space, and not a `@@` or `diff ` line (such as git's
/// `\ No newline at end of file`).
pub open spec fn other_line(l: Seq<char>) -> bool {
    &&& l.len() > 0
    &&& l[0] != '-' && l[0] != '+' && l[0] != ' '
    &&& !starts_with(l, seq!['@', '@'])
    &&& !starts_with(l, seq!['d', 'i', 'f', 'f', ' '])
}

/// Such a line leaves the hunk being read as it was.
pub proof fn law_other_line_adds_nothing(s: SectionView, l: Seq<char>)
    requires
        other_line(l),
    ensures
        take_line(s, l) == s,
{
}

/// The scan passes over such a line, inside a section or outside one.
pub proof fn law_other_line_skipped(ls: Seq<Seq<char>>, i: int, cur: Option<SectionView>, done: Seq<HunkView>)
    requires
        0 <= i < ls.len(),
        other_line(ls[i]),
    ensures
        scan(ls, i, cur, done) == scan(ls, i + 1, cur, done),
{
    assert(!starts_with(ls[i], dashes3()));
    assert(!is_header(ls, i));
    match cur {
        Some(s) => {
            law_other_line_adds_nothing(s, ls[i]);
        },
        None => {},
    }
}

/// The scan from `a` in `x` is the scan from `b` in `y` when what follows
/// is the same.
proof fn lemma_scan_suffix(
    x: Seq<Seq<char>>,
    a: int,
    y: Seq<Seq<char>>,
    b: int,
    cur: Option<SectionView>,
    done: Seq<HunkView>,
)
    requires
        0 <= a <= x.len(),
        0 <= b <= y.len(),
        x.skip(a) == y.skip(b),
    ensures
        scan(x, a, cur, done) == scan(y, b, cur, done),
    decreases x.len() - a, (if cur is Some { 1int } else { 0int }),
{
    assert(x.len() - a == x.skip(a).len());
    if a < x.len() {
        assert(x[a] == x.skip(a)[0] && y[b] == y.skip(b)[0]);
        if a + 1 < x.len() {
            assert(x[a + 1] == x.skip(a)[1] && y[b + 1] == y.skip(b)[1]);
        }
        assert(x.skip(a + 1) =~= x.skip(a).skip(1));
        assert(y.skip(b + 1) =~= y.skip(b).skip(1));
        if a + 2 <= x.len() {
            assert(x.skip(a + 2) =~= x.skip(a).skip(2));
            assert(y.skip(b + 2) =~= y.skip(b).skip(2));
        }
        match cur {
            None => {
                if starts_with(x[a], dashes3()) {
                    if is_header(x, a) {
                        assert(is_header(y, b));
                        assert(section_header(x, a) == section_header(y, b));
                        lemma_scan_suffix(x, a + 2, y, b + 2, Some(section_header(x, a)), done);
                    }
                } else {
                    lemma_scan_suffix(x, a + 1, y, b + 1, None, done);
                }
            },
            Some(s) => {
                assert(is_header(x, a) == is_header(y, b));
                if ends_section(x, a) {
                    lemma_scan_suffix(x, a, y, b, None, close_section(s, done));
                } else if starts_with(x[a], seq!['@', '@']) {
                    lemma_scan_suffix(
                        x,
                        a + 1,
                        y,
                        b + 1,
                        Some(next_hunk(s)),
                        if has_lines(s) {
                            done.push(hunk_of(s))
                        } else {
                            done
                        },
                    );
                } else {
                    lemma_scan_suffix(x, a + 1, y, b + 1, Some(take_line(s, x[a])), done);
                }
            },
        }
    }
}

proof fn lemma_scan_remove(
    ls: Seq<Seq<char>>,
    i: int,
    j: int,
    cur: Option<SectionView>,
    done: Seq<HunkView>,
)
    requires
        0 <= j <= i < ls.len(),
        other_line(ls[i]),
        i == 0 || !starts_with(ls[i - 1], dashes3()),
    ensures
        scan(ls, j, cur, done) == scan(ls.remove(i), j, cur, done),
    decreases i - j, (if cur is Some { 1int } else { 0int }),
{
    let r = ls.remove(i);
    if j == i {
        law_other_line_skipped(ls, i, cur, done);
        assert(ls.skip(i + 1) =~= r.skip(i));
        lemma_scan_suffix(ls, i + 1, r, i, cur, done);
    } else {
        assert(r[j] == ls[j]);
        if j + 1 < i {
            assert(r[j + 1] == ls[j + 1]);
        }
        assert(is_header(ls, j) == is_header(r, j));
        match cur {
            None => {
                if starts_with(ls[j], dashes3()) {
                    if is_header(ls, j) {
                        assert(section_header(ls, j) == section_header(r, j));
                        lemma_scan_remove(ls, i, j + 2, Some(section_header(ls, j)), done);
                    }
                } else {
                    lemma_scan_remove(ls, i, j + 1, None, done);
                }
            },
            Some(s) => {
                if ends_section(ls, j) {
                    lemma_scan_remove(ls, i, j, None, close_section(s, done));
                } else if starts_with(ls[j], seq!['@', '@']) {
                    lemma_scan_remove(
                        ls,
                        i,
                        j + 1,
                        Some(next_hunk(s)),
                        if has_lines(s) {
                            done.push(hunk_of(s))
                        } else {
                            done
                        },
                    );
                } else {
                    lemma_scan_remove(ls, i, j + 1, Some(take_line(s, ls[j])), done);
                }
            },
        }
    }
}

/// Lines that add nothing to a hunk (such as `\ No newline at end of
/// file`) change nothing in a parse: a diff parses as it does with such a
/// line removed, unless removing it would join a `---` line to a `+++`
/// line that it separated.
pub proof fn law_other_lines_ignored(patch: Seq<char>, shorter: Seq<char>, i: int)
    requires
        0 <= i < lines(patch).len(),
        lines(shorter) == lines(patch).remove(i),
        other_line(lines(patch)[i]),
        i == 0 || !starts_with(lines(patch)[i - 1], dashes3()),
    ensures
        parse_diff(patch) == parse_diff(shorter),
{
    lemma_scan_remove(lines(patch), i, 0, None, Seq::empty());
}

/// The result of parsing `patch` as a unified diff: one hunk per `@@`
/// block of each file section.
pub open spec fn parse_diff(patch: Seq<char>) -> Result<Seq<HunkView>, Seq<char>> {
    scan(lines(patch), 0, None, Seq::empty())
}

/// The path named by a header line (see [`header_path`]).
fn header_path_of(l: &[char], marker: &[char], side: &[char]) -> (r: Vec<char>)
    ensures
        r@ == header_path(l@, marker@, side@),
{
    let rest = if has_prefix(l, marker) {
        slice_to_vec(l, marker.len(), l.len())
    } else {
        Vec::new()
    };
    proof {
        if starts_with(l@, marker@) {
            assert(rest@ =~= l@.skip(marker@.len() as int));
        } else {
            assert(rest@ =~= Seq::<char>::empty());
        }
    }
    let t = trim_chars(&rest);
    if has_prefix(&t, side) {
        let r = slice_to_vec(&t, side.len(), t.len());
        assert(r@ =~= t@.skip(side@.len() as int));
        r
    } else {
        t
    }
}

fn eq_chars(a: &[char], b: &[char]) -> (r: bool)
    ensures
        r == (a@ == b@),
{
    if a.len() != b.len() {
        return false;
    }
    let r = has_prefix(a, b);
    proof {
        if r {
            assert(a@.take(b@.len() as int) =~= a@);
        } else {
            if a@ == b@ {
                assert(a@.take(b@.len() as int) =~= a@);
            }
        }
    }
    r
}

fn to_strings(v: &Vec<Vec<char>>) -> (r: Vec<String>)
    ensures
        sv(r@) == dv(v@),
{
    let mut r: Vec<String> = Vec::new();
    let mut i: usize = 0;
    while i < v.len()
        invariant
            i <= v@.len(),
            sv(r@) == dv(v@).take(i as int),
        decreases v@.len() - i,
    {
        let s = string_from_chars(&v[i]);
        let ghost rb = r@;
        r.push(s);
        assert(sv(r@) =~= sv(rb).push(s@));
        assert(sv(r@) =~= dv(v@).take(i as int + 1));
        i = i + 1;
    }
    assert(dv(v@).take(v@.len() as int) =~= dv(v@));
    r
}

/// The scan state held by [`parse_unified_diff`], as a [`SectionView`].
pub open spec fn state_view(
    in_section: bool,
    path: Seq<char>,
    is_new: bool,
    is_del: bool,
    old_c: Seq<Vec<char>>,
    new_c: Seq<Vec<char>>,
    emitted: bool,
) -> Option<SectionView> {
    if in_section {
        Some(
            SectionView {
                file_path: path,
                is_new_file: is_new,
                is_delete: is_del,
                old: dv(old_c),
                new: dv(new_c),
                emitted,
            },
        )
    } else {
        None
    }
}

fn make_hunk(path: &Vec<char>, is_new: bool, is_del: bool, old_c: &Vec<Vec<char>>, new_c: &Vec<Vec<char>>) -> (h: DiffHunk)
    ensures
        h@ == hunk_of(
            SectionView {
                file_path: path@,
                is_new_file: is_new,
                is_delete: is_del,
                old: dv(old_c@),
                new: dv(new_c@),
                emitted: false,
            },
        ),
{
    DiffHunk {
        file_path: string_from_chars(path),
        old_content: to_strings(old_c),
        new_content: to_strings(new_c),
        is_new_file: is_new,
        is_delete: is_del,
    }
}

/// Parse a unified diff into its hunks (see [`parse_diff`]).
pub fn parse_unified_diff(patch: &str) -> (r: Result<Vec<DiffHunk>, String>)
    ensures
        match r {
            Ok(h) => parse_diff(patch@) == Ok::<Seq<HunkView>, Seq<char>>(hv(h@)),
            Err(m) => parse_diff(patch@) == Err::<Seq<HunkView>, Seq<char>>(m@),
        },
{
    let pc = chars_of(patch);
    let ls = lines_of(&pc);
    let ghost big_l = dv(ls@);
    let dashes = lit("---");
    let pluses = lit("+++");
    let ats = lit("@@");
    let diff_sp = lit("diff ");
    let old_m = lit("--- ");
    let new_m = lit("+++ ");
    let side_a = lit("a/");
    let side_b = lit("b/");
    let devnull = lit("/dev/null");
    proof {
        reveal_strlit("---");
        reveal_strlit("+++");
        reveal_strlit("@@");
        reveal_strlit("diff ");
        reveal_strlit("--- ");
        reveal_strlit("+++ ");
        reveal_strlit("a/");
        reveal_strlit("b/");
        reveal_strlit("/dev/null");
        assert(dashes@ =~= dashes3());
        assert(pluses@ =~= pluses3());
        assert(ats@ =~= seq!['@', '@']);
        assert(diff_sp@ =~= seq!['d', 'i', 'f', 'f', ' ']);
        assert(old_m@ =~= old_marker());
        assert(new_m@ =~= new_marker());
        assert(side_a@ =~= seq!['a', '/']);
        assert(side_b@ =~= seq!['b', '/']);
        assert(devnull@ =~= dev_null());
    }
    let mut hunks: Vec<DiffHunk> = Vec::new();
    let mut in_section = false;
    let mut path: Vec<char> = Vec::new();
    let mut is_new = false;
    let mut is_del = false;
    let mut old_c: Vec<Vec<char>> = Vec::new();
    let mut new_c: Vec<Vec<char>> = Vec::new();
    let mut emitted = false;
    let mut i: usize = 0;
    assert(hv(hunks@) =~= Seq::<HunkView>::empty());
    while i < ls.len()
        invariant
            big_l == dv(ls@),
            big_l == lines(patch@),
            i <= ls@.len(),
            dashes@ == dashes3(),
            pluses@ == pluses3(),
            ats@ == seq!['@', '@'],
            diff_sp@ == seq!['d', 'i', 'f', 'f', ' '],
            old_m@ == old_marker(),
            new_m@ == new_marker(),
            side_a@ == seq!['a', '/'],
            side_b@ == seq!['b', '/'],
            devnull@ == dev_null(),
            scan(big_l, i as int, state_view(in_section, path@, is_new, is_del, old_c@, new_c@, emitted), hv(hunks@))
                == parse_diff(patch@),
        decreases ls@.len() - i,
    {
        let header = i + 1 < ls.len() && has_prefix(&ls[i], &dashes) && has_prefix(&ls[i + 1], &pluses);
        assert(header == is_header(big_l, i as int));
        if in_section && (header || has_prefix(&ls[i], &diff_sp)) {
            let ghost s = state_view(in_section, path@, is_new, is_del, old_c@, new_c@, emitted)->0;
            let ghost hb = hv(hunks@);
            assert(scan(big_l, i as int, Some(s), hb) == scan(big_l, i as int, None, close_section(s, hb)));
            if old_c.len() > 0 || new_c.len() > 0 || !emitted {
                let h = make_hunk(&path, is_new, is_del, &old_c, &new_c);
                hunks.push(h);
                assert(hv(hunks@) =~= hb.push(hunk_of(s)));
            }
            in_section = false;
            assert(hv(hunks@) == close_section(s, hb));
        }
        if !in_section {
            if has_prefix(&ls[i], &dashes) {
                if !header {
                    let m = "Expected +++ line after ---".to_string();
                    proof {
                        reveal_strlit("Expected +++ line after ---");
                    }
                    return Err(m);
                }
                let old_file = header_path_of(&ls[i], &old_m, &side_a);
                let new_file = header_path_of(&ls[i + 1], &new_m, &side_b);
                if eq_chars(&old_file, &devnull) {
                    path = new_file;
                    is_new = true;
                    is_del = false;
                } else if eq_chars(&new_file, &devnull) {
                    path = old_file;
                    is_new = false;
                    is_del = true;
                } else {
                    path = new_file;
                    is_new = false;
                    is_del = false;
                }
                old_c = Vec::new();
                new_c = Vec::new();
                emitted = false;
                in_section = true;
                assert(dv(old_c@) =~= Seq::<Seq<char>>::empty());
                assert(dv(new_c@) =~= Seq::<Seq<char>>::empty());
                assert(state_view(in_section, path@, is_new, is_del, old_c@, new_c@, emitted) == Some(
                    section_header(big_l, i as int),
                ));
                i = i + 2;
            } else {
                i = i + 1;
            }
        } else if has_prefix(&ls[i], &ats) {
            let ghost s = state_view(in_section, path@, is_new, is_del, old_c@, new_c@, emitted)->0;
            let had = old_c.len() > 0 || new_c.len() > 0;
            if had {
                let h = make_hunk(&path, is_new, is_del, &old_c, &new_c);
                let ghost hb = hv(hunks@);
                hunks.push(h);
                assert(hv(hunks@) =~= hb.push(hunk_of(s)));
            }
            old_c = Vec::new();
            new_c = Vec::new();
            emitted = emitted || had;
            assert(dv(old_c@) =~= Seq::<Seq<char>>::empty());
            assert(dv(new_c@) =~= Seq::<Seq<char>>::empty());
            assert(state_view(in_section, path@, is_new, is_del, old_c@, new_c@, emitted) == Some(next_hunk(s)));
            i = i + 1;
        } else {
            let ghost s = state_view(in_section, path@, is_new, is_del, old_c@, new_c@, emitted)->0;
            let l = &ls[i];
            let ghost acc = (dv(old_c@), dv(new_c@));
            if l.len() > 0 && l[0] == '-' {
                let piece = slice_to_vec(l, 1, l.len());
                assert(piece@ =~= l@.drop_first());
                old_c.push(piece);
                assert(dv(old_c@) =~= acc.0.push(l@.drop_first()));
            } else if l.len() > 0 && l[0] == '+' {
                let piece = slice_to_vec(l, 1, l.len());
                assert(piece@ =~= l@.drop_first());
                new_c.push(piece);
                assert(dv(new_c@) =~= acc.1.push(l@.drop_first()));
            } else if l.len() > 0 && l[0] == ' ' {
                let piece = slice_to_vec(l, 1, l.len());
                let piece2 = slice_to_vec(l, 1, l.len());
                assert(piece@ =~= l@.drop_first());
                old_c.push(piece);
                new_c.push(piece2);
                assert(dv(old_c@) =~= acc.0.push(l@.drop_first()));
                assert(dv(new_c@) =~= acc.1.push(l@.drop_first()));
            } else if l.len() == 0 {
                assert(l@ =~= Seq::<char>::empty());
                old_c.push(Vec::new());
                new_c.push(Vec::new());
                assert(dv(old_c@) =~= acc.0.push(l@));
                assert(dv(new_c@) =~= acc.1.push(l@));
            }
            assert((dv(old_c@), dv(new_c@)) == body_step(acc, big_l[i as int]));
            assert(state_view(in_section, path@, is_new, is_del, old_c@, new_c@, emitted) == Some(
                take_line(s, big_l[i as int]),
            ));
            i = i + 1;
        }
    }
    if in_section && (old_c.len() > 0 || new_c.len() > 0 || !emitted) {
        let ghost s = state_view(in_section, path@, is_new, is_del, old_c@, new_c@, emitted)->0;
        let h = make_hunk(&path, is_new, is_del, &old_c, &new_c);
        let ghost hb = hv(hunks@);
        hunks.push(h);
        assert(hv(hunks@) =~= hb.push(hunk_of(s)));
    }
    Ok(hunks)
}

/// The views of a sequence of string slices.
pub open spec fn strv(v: Seq<&str>) -> Seq<Seq<char>> {
    v.map_values(|x: &str| x@)
}

/// The lines `old` match the lines of `cur` from index `i` on, each compared
/// with surrounding whitespace trimmed.
pub open spec fn trimmed_match_at(cur: Seq<Seq<char>>, old: Seq<Seq<char>>, i: int) -> bool {
    forall|j: int| 0 <= j < old.len() ==> trim(#[trigger] cur[i + j]) == trim(old[j])
}

/// The first index `>= i` where `old` matches `cur` line by line, or `-1`.
pub open spec fn first_line_match(cur: Seq<Seq<char>>, old: Seq<Seq<char>>, i: int) -> int
    decreases cur.len() + 1 - i,
{
    if i < 0 || i + old.len() > cur.len() {
        -1
    } else if trimmed_match_at(cur, old, i) {
        i
    } else {
        first_line_match(cur, old, i + 1)
    }
}

pub open spec fn newline() -> Seq<char> {
    seq!['\n']
}

/// The lines `cur` with the first block that matches `old` (whitespace
/// trimmed) replaced by `new`, joined by newlines; none when `old` is empty
/// or does not match.
pub open spec fn replace_lines(cur: Seq<Seq<char>>, old: Seq<Seq<char>>, new: Seq<Seq<char>>) -> Option<
    Seq<char>,
> {
    if old.len() == 0 {
        None
    } else {
        let k = first_line_match(cur, old, 0);
        if k < 0 {
            None
        } else {
            Some(join(cur.take(k) + new + cur.skip(k + old.len()), newline()))
        }
    }
}

fn trimmed_eq(a: &str, b: &str) -> (r: bool)
    ensures
        r == (trim(a@) == trim(b@)),
{
    let ac = chars_of(a);
    let bc = chars_of(b);
    let at = trim_chars(&ac);
    let bt = trim_chars(&bc);
    eq_chars(&at, &bt)
}

fn trimmed_eq_string(a: &str, b: &String) -> (r: bool)
    ensures
        r == (trim(a@) == trim(b@)),
{
    trimmed_eq(a, b.as_str())
}

proof fn lemma_first_line_match(cur: Seq<Seq<char>>, old: Seq<Seq<char>>, i: int)
    requires
        0 <= i,
    ensures
        first_line_match(cur, old, i) == -1 || (i <= first_line_match(cur, old, i)
            && first_line_match(cur, old, i) + old.len() <= cur.len() && trimmed_match_at(
            cur,
            old,
            first_line_match(cur, old, i),
        )),
    decreases cur.len() + 1 - i,
{
    if i + old.len() <= cur.len() && !trimmed_match_at(cur, old, i) {
        lemma_first_line_match(cur, old, i + 1);
    }
}

/// Replace the first block of lines of `current` that matches `old` (compared
/// with whitespace trimmed) by `new`, and join the lines with newlines.
pub fn find_and_replace_lines(current: &[&str], old: &[&str], new: &[String]) -> (r: Option<
    String,
>)
    ensures
        match r {
            Some(t) => replace_lines(strv(current@), strv(old@), sv(new@)) == Some(t@),
            None => replace_lines(strv(current@), strv(old@), sv(new@)) is None,
        },
{
    let ghost cur = strv(current@);
    let ghost olds = strv(old@);
    if old.len() == 0 {
        return None;
    }
    let mut i: usize = 0;
    while i <= current.len() && old.len() <= current.len() - i
        invariant
            cur == strv(current@),
            olds == strv(old@),
            old@.len() > 0,
            first_line_match(cur, olds, 0) == first_line_match(cur, olds, i as int),
        decreases current@.len() - i,
    {
        let mut j: usize = 0;
        while j < old.len() && trimmed_eq(current[i + j], old[j])
            invariant
                cur == strv(current@),
                olds == strv(old@),
                i + old@.len() <= current@.len(),
                current@.len() == current.len(),
                old@.len() == old.len(),
                j <= old@.len(),
                forall|k: int| 0 <= k < j ==> trim(#[trigger] cur[i + k]) == trim(olds[k]),
            decreases old@.len() - j,
        {
            j = j + 1;
        }
        if j == old.len() {
            assert(trimmed_match_at(cur, olds, i as int));
            let mut pieces: Vec<Vec<char>> = Vec::new();
            let mut k: usize = 0;
            while k < i
                invariant
                    cur == strv(current@),
                    k <= i <= current@.len(),
                    dv(pieces@) == cur.take(k as int),
                decreases i - k,
            {
                let ghost pb = dv(pieces@);
                let c = chars_of(current[k]);
                pieces.push(c);
                assert(dv(pieces@) =~= pb.push(c@));
                assert(dv(pieces@) =~= cur.take(k as int + 1));
                k = k + 1;
            }
            let mut k: usize = 0;
            while k < new.len()
                invariant
                    cur == strv(current@),
                    i <= current@.len(),
                    k <= new@.len(),
                    dv(pieces@) == cur.take(i as int) + sv(new@).take(k as int),
                decreases new@.len() - k,
            {
                let ghost pb = dv(pieces@);
                let c = chars_of(new[k].as_str());
                pieces.push(c);
                assert(dv(pieces@) =~= pb.push(c@));
                assert(dv(pieces@) =~= cur.take(i as int) + sv(new@).take(k as int + 1));
                k = k + 1;
            }
            assert(sv(new@).take(new@.len() as int) =~= sv(new@));
            let mut k: usize = i + old.len();
            while k < current.len()
                invariant
                    cur == strv(current@),
                    i + old@.len() <= k <= current@.len(),
                    dv(pieces@) == cur.take(i as int) + sv(new@) + cur.subrange(
                        i + old@.len(),
                        k as int,
                    ),
                decreases current@.len() - k,
            {
                let ghost pb = dv(pieces@);
                let c = chars_of(current[k]);
                pieces.push(c);
                assert(dv(pieces@) =~= pb.push(c@));
                assert(dv(pieces@) =~= cur.take(i as int) + sv(new@) + cur.subrange(
                    i + old@.len(),
                    k + 1,
                ));
                k = k + 1;
            }
            assert(cur.subrange(i + old@.len(), current@.len() as int) =~= cur.skip(i + old@.len()));
            let nl = lit("\n");
            proof {
                reveal_strlit("\n");
                assert(nl@ =~= newline());
            }
            let joined = join_vecs(&pieces, &nl);
            return Some(string_from_chars(&joined));
        }
        assert(!trimmed_match_at(cur, olds, i as int)) by {
            assert(trim(cur[i + j as int]) != trim(olds[j as int]));
        }
        i = i + 1;
    }
    None
}

pub open spec fn no_match_message() -> Seq<char> {
    "Could not find matching content to replace"@
}

/// The new content of an existing file `current` after applying `h`: with no
/// old lines, the new lines are appended (after a newline when `current`
/// does not end with one and there is something to append); otherwise the
/// first exact occurrence of the old lines is replaced, or failing that the
/// first line-by-line match with whitespace trimmed.
pub open spec fn updated_content(current: Seq<char>, h: HunkView) -> Result<Seq<char>, Seq<char>> {
    if h.old_content.len() == 0 {
        let sep = if !ends_with(current, newline()) && h.new_content.len() > 0 {
            newline()
        } else {
            Seq::<char>::empty()
        };
        Ok(current + sep + join(h.new_content, newline()))
    } else {
        let old_text = join(h.old_content, newline());
        let new_text = join(h.new_content, newline());
        if contains(current, old_text) {
            Ok(replace_first(current, old_text, new_text))
        } else {
            match replace_lines(lines(current), h.old_content, h.new_content) {
                Some(r) => Ok(r),
                None => Err(no_match_message()),
            }
        }
    }
}

fn strings_to_vecs(v: &Vec<String>) -> (r: Vec<Vec<char>>)
    ensures
        dv(r@) == sv(v@),
{
    let mut r: Vec<Vec<char>> = Vec::new();
    let mut i: usize = 0;
    while i < v.len()
        invariant
            i <= v@.len(),
            dv(r@) == sv(v@).take(i as int),
        decreases v@.len() - i,
    {
        let ghost rb = dv(r@);
        let c = chars_of(v[i].as_str());
        r.push(c);
        assert(dv(r@) =~= rb.push(c@));
        assert(dv(r@) =~= sv(v@).take(i as int + 1));
        i = i + 1;
    }
    assert(sv(v@).take(v@.len() as int) =~= sv(v@));
    r
}

fn vecs_as_strs(v: &Vec<Vec<char>>) -> (r: Vec<String>)
    ensures
        sv(r@) == dv(v@),
{
    to_strings(v)
}

/// The lines of `s` joined by newlines.
pub fn join_lines(v: &Vec<String>) -> (r: String)
    ensures
        r@ == join(sv(v@), newline()),
{
    let vs = strings_to_vecs(v);
    let nl = lit("\n");
    proof {
        reveal_strlit("\n");
        assert(nl@ =~= newline());
    }
    let j = join_vecs(&vs, &nl);
    string_from_chars(&j)
}

/// The content of a file that `h` creates.
pub fn new_file_content(h: &DiffHunk) -> (r: String)
    ensures
        r@ == join(h@.new_content, newline()),
{
    join_lines(&h.new_content)
}

/// The content of an existing file after applying `h` to it (see [`updated_content`]).
pub fn apply_hunk_to_content(current: &str, h: &DiffHunk) -> (r: Result<String, String>)
    ensures
        match r {
            Ok(t) => updated_content(current@, h@) == Ok::<Seq<char>, Seq<char>>(t@),
            Err(m) => updated_content(current@, h@) == Err::<Seq<char>, Seq<char>>(m@),
        },
{
    let cur = chars_of(current);
    let nl = lit("\n");
    proof {
        reveal_strlit("\n");
        assert(nl@ =~= newline());
    }
    let new_text = join_lines(&h.new_content);
    if h.old_content.len() == 0 {
        let mut r = cur;
        if !has_suffix_char(&r, '\n') && h.new_content.len() > 0 {
            r.push('\n');
        }
        let nt = chars_of(new_text.as_str());
        push_all(&mut r, &nt);
        proof {
            if !ends_with(current@, newline()) && h@.new_content.len() > 0 {
                assert(r@ =~= current@ + newline() + join(h@.new_content, newline()));
            } else {
                assert(r@ =~= current@ + Seq::<char>::empty() + join(h@.new_content, newline()));
            }
        }
        return Ok(string_from_chars(&r));
    }
    let old_text = join_lines(&h.old_content);
    let ot = chars_of(old_text.as_str());
    let nt = chars_of(new_text.as_str());
    if has_substring(&cur, &ot) {
        let r = replace_first_in(&cur, &ot, &nt);
        return Ok(string_from_chars(&r));
    }
    let cur_lines = lines_of(&cur);
    let cur_strs = vecs_as_strs(&cur_lines);
    let mut cur_refs: Vec<&str> = Vec::new();
    let mut i: usize = 0;
    while i < cur_strs.len()
        invariant
            i <= cur_strs@.len(),
            strv(cur_refs@) == sv(cur_strs@).take(i as int),
        decreases cur_strs@.len() - i,
    {
        let ghost rb = strv(cur_refs@);
        cur_refs.push(cur_strs[i].as_str());
        assert(strv(cur_refs@) =~= rb.push(cur_strs@[i as int]@));
        assert(strv(cur_refs@) =~= sv(cur_strs@).take(i as int + 1));
        i = i + 1;
    }
    assert(sv(cur_strs@).take(cur_strs@.len() as int) =~= sv(cur_strs@));
    let mut old_refs: Vec<&str> = Vec::new();
    let mut i: usize = 0;
    while i < h.old_content.len()
        invariant
            i <= h.old_content@.len(),
            strv(old_refs@) == sv(h.old_content@).take(i as int),
        decreases h.old_content@.len() - i,
    {
        let ghost rb = strv(old_refs@);
        old_refs.push(h.old_content[i].as_str());
        assert(strv(old_refs@) =~= rb.push(h.old_content@[i as int]@));
        assert(strv(old_refs@) =~= sv(h.old_content@).take(i as int + 1));
        i = i + 1;
    }
    assert(sv(h.old_content@).take(h.old_content@.len() as int) =~= sv(h.old_content@));
    match find_and_replace_lines(cur_refs.as_slice(), old_refs.as_slice(), h.new_content.as_slice()) {
        Some(r) => Ok(r),
        None => {
            let m = "Could not find matching content to replace".to_string();
            Err(m)
        },
    }
}

fn has_suffix_char(v: &Vec<char>, c: char) -> (b: bool)
    ensures
        b == ends_with(v@, seq![c]),
{
    let n = v.len();
    if n == 0 {
        false
    } else {
        let b = v[n - 1] == c;
        proof {
            if b {
                assert(v@.skip(n - 1) =~= seq![c]);
            } else {
                assert(v@.skip(n - 1)[0] != c);
            }
        }
        b
    }
}

} // verus!
