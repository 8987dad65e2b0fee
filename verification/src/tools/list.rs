//! Listing a directory: which entries are kept, the glob patterns that
//! filter them, and the order they are listed in. Reading the directory is
//! I/O and happens outside.
use vstd::prelude::*;
use crate::text::{
    chars_of, concat_str, contains, has_substring, lit, lowercase, owned, push_all, replace_char,
    replace_char_in, starts_with, has_prefix, string_from_chars, to_lowercase,
};
use crate::types::FileEntry;
use crate::sort::{insert_pos, stable_sort};
use crate::text::{str_eq, sv};
use crate::tools::edit::{PatchTool, resolved_path};

verus! {

/// What the list tool is for, as the model is told.
pub const LIST_DESCRIPTION: &'static str = "Display files and directories in a given path. Accepts glob patterns to filter results (e.g., '*.rs', 'src/**/*.ts').";


/// The tool that lists a directory.
pub struct ListTool;

#[verifier::external_type_specification]
#[verifier::external_body]
pub struct ExRegex(regex::Regex);

/// Whether `regex::Regex::new` accepts `pattern`.
pub uninterp spec fn regex_compiles(pattern: Seq<char>) -> bool;

/// What `regex::Regex::is_match` answers for a regex built from `pattern`
/// on `text`.
pub uninterp spec fn regex_matches(pattern: Seq<char>, text: Seq<char>) -> bool;

/// A compiled regular expression and the pattern it was compiled from.
pub struct CompiledPattern {
    re: regex::Regex,
    source: Ghost<Seq<char>>,
}

impl CompiledPattern {
    /// The pattern the regex was compiled from.
    pub closed spec fn source_view(&self) -> Seq<char> {
        self.source@
    }
}

/// `regex::Regex::new`: compiles `pattern`. Whether it compiles depends on
/// the pattern alone.
#[verifier::external_body]
fn compile_regex(pattern: &str) -> (r: Option<CompiledPattern>)
    ensures
        r is Some <==> regex_compiles(pattern@),
        r is Some ==> r->Some_0.source_view() == pattern@,
{
    match regex::Regex::new(pattern) {
        Ok(re) => Some(CompiledPattern { re, source: Ghost(pattern@) }),
        Err(_) => None,
    }
}

/// `regex::Regex::is_match`: whether the regex matches somewhere in
/// `text`, which depends on the pattern and the text alone.
#[verifier::external_body]
fn regex_is_match(c: &CompiledPattern, text: &str) -> (r: bool)
    ensures
        r == regex_matches(c.source_view(), text@),
{
    c.re.is_match(text)
}

/// The regular expression for a glob pattern: `.` escaped, `*` any run of
/// characters, `?` any one character, anchored at both ends.
pub open spec fn glob_regex(pattern: Seq<char>) -> Seq<char> {
    "^"@ + replace_char(replace_char(replace_char(pattern, '.', "\\."@), '*', ".*"@), '?', "."@) + "$"@
}

/// Whether `name` matches the glob `pattern`: by the regular expression
/// when it compiles, else by containing the pattern.
pub open spec fn glob_match(name: Seq<char>, pattern: Seq<char>) -> bool {
    if regex_compiles(glob_regex(pattern)) {
        regex_matches(glob_regex(pattern), name)
    } else {
        contains(name, pattern)
    }
}

/// Whether an entry named `name` is listed: hidden entries (leading dot)
/// are not, and with a pattern only matching names are.
pub open spec fn listed(name: Seq<char>, pattern: Option<Seq<char>>) -> bool {
    !starts_with(name, "."@) && match pattern {
        Some(p) => glob_match(name, p),
        None => true,
    }
}

/// `a` comes before `b` in character (code point) order.
pub open spec fn name_lt(a: Seq<char>, b: Seq<char>) -> bool
    decreases a.len(),
{
    if a.len() == 0 {
        b.len() > 0
    } else if b.len() == 0 {
        false
    } else if a[0] != b[0] {
        (a[0] as u32) < (b[0] as u32)
    } else {
        name_lt(a.drop_first(), b.drop_first())
    }
}

/// Directories before files, then by name.
pub open spec fn dirs_then_name() -> spec_fn(FileEntry, FileEntry) -> bool {
    |a: FileEntry, b: FileEntry| (a.is_dir && !b.is_dir) || (a.is_dir == b.is_dir && name_lt(a.name@, b.name@))
}

/// Directories before files, then by lowercase name.
pub open spec fn dirs_then_lowercase_name() -> spec_fn(FileEntry, FileEntry) -> bool {
    |a: FileEntry, b: FileEntry|
        (a.is_dir && !b.is_dir) || (a.is_dir == b.is_dir && name_lt(lowercase(a.name@), lowercase(b.name@)))
}

/// Whether `a` comes before `b` in character order.
pub fn chars_lt(a: &[char], b: &[char]) -> (r: bool)
    ensures
        r == name_lt(a@, b@),
{
    let mut i: usize = 0;
    assert(a@.skip(0) =~= a@);
    assert(b@.skip(0) =~= b@);
    while i < a.len() && i < b.len() && a[i] == b[i]
        invariant
            i <= a@.len(),
            i <= b@.len(),
            name_lt(a@.skip(i as int), b@.skip(i as int)) == name_lt(a@, b@),
        decreases a@.len() - i,
    {
        assert(a@.skip(i as int).drop_first() =~= a@.skip(i as int + 1));
        assert(b@.skip(i as int).drop_first() =~= b@.skip(i as int + 1));
        i = i + 1;
    }
    let ghost sa = a@.skip(i as int);
    let ghost sb = b@.skip(i as int);
    if i == a.len() {
        assert(sa.len() == 0);
        i < b.len()
    } else if i == b.len() {
        false
    } else {
        assert(sa[0] == a@[i as int] && sb[0] == b@[i as int]);
        let ca: u32 = a[i] as u32;
        let cb: u32 = b[i] as u32;
        ca < cb
    }
}

/// The regular expression for a glob pattern (see [`glob_regex`]).
pub fn glob_to_regex(pattern: &str) -> (r: String)
    ensures
        r@ == glob_regex(pattern@),
{
    let p = chars_of(pattern);
    let dot_esc = lit("\\.");
    let any_run = lit(".*");
    let any_one = lit(".");
    proof {
        reveal_strlit("\\.");
        reveal_strlit(".*");
        reveal_strlit(".");
        reveal_strlit("^");
        reveal_strlit("$");
    }
    let a = replace_char_in(&p, '.', &dot_esc);
    let b = replace_char_in(&a, '*', &any_run);
    let c = replace_char_in(&b, '?', &any_one);
    let mut r = lit("^");
    push_all(&mut r, &c);
    r.push('$');
    assert(r@ =~= glob_regex(pattern@));
    string_from_chars(&r)
}

/// The verdict on a name given what the regular expression answered:
/// `Some(m)` when it compiled and `m` is whether it matched, `None` when it
/// did not compile (then the name must contain the pattern).
pub fn pattern_verdict(regex_answer: Option<bool>, name: &str, pattern: &str) -> (r: bool)
    ensures
        r == match regex_answer {
            Some(m) => m,
            None => contains(name@, pattern@),
        },
{
    match regex_answer {
        Some(m) => m,
        None => {
            let n = chars_of(name);
            let p = chars_of(pattern);
            has_substring(&n, &p)
        },
    }
}

/// Whether `name` matches the glob `pattern` (see [`glob_match`]).
pub fn matches_pattern(name: &str, pattern: &str) -> (r: bool)
    ensures
        r == glob_match(name@, pattern@),
{
    let re = glob_to_regex(pattern);
    let answer = match compile_regex(re.as_str()) {
        Some(c) => Some(regex_is_match(&c, name)),
        None => None,
    };
    pattern_verdict(answer, name, pattern)
}

/// Whether an entry named `name` is listed (see [`listed`]).
pub fn keep_entry(name: &str, pattern: Option<&str>) -> (r: bool)
    ensures
        r == listed(name@, match pattern {
            Some(p) => Some(p@),
            None => None,
        }),
{
    let n = chars_of(name);
    let dot = lit(".");
    proof {
        reveal_strlit(".");
    }
    if has_prefix(&n, &dot) {
        return false;
    }
    match pattern {
        Some(p) => matches_pattern(name, p),
        None => true,
    }
}

/// Insert `x` into the sorted `r` after the entries it does not go before.
fn insert_entry(r: &mut Vec<FileEntry>, x: FileEntry, keys: &mut Vec<Vec<char>>, key: Vec<char>, before: Ghost<spec_fn(FileEntry, FileEntry) -> bool>, lower: bool)
    requires
        old(keys)@.len() == old(r)@.len(),
        forall|j: int| 0 <= j < old(r)@.len() ==> (#[trigger] old(keys)@[j])@ == if lower {
            lowercase(old(r)@[j].name@)
        } else {
            old(r)@[j].name@
        },
        key@ == if lower { lowercase(x.name@) } else { x.name@ },
        before@ == if lower { dirs_then_lowercase_name() } else { dirs_then_name() },
    ensures
        final(r)@ == old(r)@.insert(insert_pos(old(r)@, x, before@), x),
        final(keys)@.len() == final(r)@.len(),
        forall|j: int| 0 <= j < final(r)@.len() ==> (#[trigger] final(keys)@[j])@ == if lower {
            lowercase(final(r)@[j].name@)
        } else {
            final(r)@[j].name@
        },
{
    let ghost t = r@;
    let ghost tk = keys@;
    let mut j: usize = r.len();
    assert(t.take(j as int) =~= t);
    loop
        invariant
            j <= r@.len(),
            t == r@,
            tk == keys@,
            keys@.len() == r@.len(),
            forall|q: int| 0 <= q < r@.len() ==> (#[trigger] keys@[q])@ == if lower {
                lowercase(r@[q].name@)
            } else {
                r@[q].name@
            },
            key@ == if lower { lowercase(x.name@) } else { x.name@ },
            before@ == if lower { dirs_then_lowercase_name() } else { dirs_then_name() },
            insert_pos(t, x, before@) == insert_pos(t.take(j as int), x, before@),
        ensures
            j <= r@.len(),
            t == r@,
            tk == keys@,
            insert_pos(t, x, before@) == j,
        decreases j,
    {
        if j == 0 {
            assert(t.take(0) =~= Seq::<FileEntry>::empty());
            break;
        }
        let e = &r[j - 1];
        let goes_before = (x.is_dir && !e.is_dir) || (x.is_dir == e.is_dir && chars_lt(&key, &keys[j - 1]));
        assert(t.take(j as int).last() == t[j - 1]);
        assert(goes_before == before@(x, t[j - 1]));
        if !goes_before {
            assert(t.take(j as int).len() == j);
            break;
        }
        assert(t.take(j as int).drop_last() =~= t.take(j - 1));
        j = j - 1;
    }
    r.insert(j, x);
    keys.insert(j, key);
    assert forall|q: int| 0 <= q < r@.len() implies (#[trigger] keys@[q])@ == if lower {
        lowercase(r@[q].name@)
    } else {
        r@[q].name@
    } by {
        if q < j {
            assert(keys@[q] == tk[q] && r@[q] == t[q]);
        } else if q > j {
            assert(keys@[q] == tk[q - 1] && r@[q] == t[q - 1]);
        }
    }
}

fn sort_by_kind_and_name(v: Vec<FileEntry>, lower: bool) -> (r: Vec<FileEntry>)
    ensures
        r@ == stable_sort(v@, if lower { dirs_then_lowercase_name() } else { dirs_then_name() }),
{
    let ghost orig = v@;
    let ghost before = if lower { dirs_then_lowercase_name() } else { dirs_then_name() };
    let n = v.len();
    let mut src = v;
    let mut sorted: Vec<FileEntry> = Vec::new();
    let mut keys: Vec<Vec<char>> = Vec::new();
    let mut i: usize = 0;
    assert(orig.skip(0) =~= orig);
    while src.len() > 0
        invariant
            i + src@.len() == orig.len(),
            orig.len() == n,
            src@ == orig.skip(i as int),
            sorted@ == stable_sort(orig.take(i as int), before),
            before == if lower { dirs_then_lowercase_name() } else { dirs_then_name() },
            keys@.len() == sorted@.len(),
            forall|j: int| 0 <= j < sorted@.len() ==> (#[trigger] keys@[j])@ == if lower {
                lowercase(sorted@[j].name@)
            } else {
                sorted@[j].name@
            },
        decreases src@.len(),
    {
        let x = src.remove(0);
        assert(orig.take(i as int + 1).drop_last() =~= orig.take(i as int));
        assert(orig.take(i as int + 1).last() == x);
        assert(src@ =~= orig.skip(i as int + 1));
        let key = if lower {
            let l = to_lowercase(x.name.as_str());
            chars_of(l.as_str())
        } else {
            chars_of(x.name.as_str())
        };
        insert_entry(&mut sorted, x, &mut keys, key, Ghost(before), lower);
        i = i + 1;
    }
    assert(orig.take(orig.len() as int) =~= orig);
    sorted
}

/// The entries of `es` that are listed for `pattern` (see [`listed`]), in
/// order.
pub open spec fn kept_entries(es: Seq<FileEntry>, pattern: Option<Seq<char>>) -> Seq<FileEntry>
    decreases es.len(),
{
    if es.len() == 0 {
        Seq::empty()
    } else {
        (if listed(es[0].name@, pattern) { seq![es[0]] } else { Seq::empty() }) + kept_entries(es.drop_first(), pattern)
    }
}

/// The paths of the directories among `es` that are not hidden (their
/// names do not start with `.`), in order, whether or not the pattern
/// lists them: a recursive listing looks into every visible subdirectory.
pub open spec fn dir_paths(es: Seq<FileEntry>) -> Seq<Seq<char>>
    decreases es.len(),
{
    if es.len() == 0 {
        Seq::empty()
    } else {
        (if es[0].is_dir && !starts_with(es[0].name@, "."@) { seq![es[0].path@] } else { Seq::empty() })
            + dir_paths(es.drop_first())
    }
}

/// One directory's entries split into those listed for `pattern` and,
/// when the listing is recursive, the subdirectories to look into next
/// (every visible one: the pattern filters what is listed, not where the
/// listing goes).
pub fn level_listing(entries: Vec<FileEntry>, pattern: Option<&str>, recursive: bool) -> (r: (Vec<FileEntry>, Vec<String>))
    ensures
        r.0@ == kept_entries(entries@, match pattern {
            Some(p) => Some(p@),
            None => None,
        }),
        sv(r.1@) == if recursive { dir_paths(entries@) } else { Seq::empty() },
{
    let ghost pv = match pattern {
        Some(p) => Some(p@),
        None => None,
    };
    let ghost orig = entries@;
    let dot = lit(".");
    proof {
        reveal_strlit(".");
    }
    let mut rest = entries;
    let mut kept: Vec<FileEntry> = Vec::new();
    let mut dirs: Vec<String> = Vec::new();
    while rest.len() > 0
        invariant
            kept@ + kept_entries(rest@, pv) == kept_entries(orig, pv),
            sv(dirs@) + (if recursive { dir_paths(rest@) } else { Seq::empty() }) == (if recursive {
                dir_paths(orig)
            } else {
                Seq::empty()
            }),
            pv == match pattern {
                Some(p) => Some(p@),
                None => None,
            },
            dot@ == "."@,
        decreases rest@.len(),
    {
        let ghost before = rest@;
        let e = rest.remove(0);
        assert(before.drop_first() =~= rest@);
        let ghost kb = kept@;
        let ghost db = sv(dirs@);
        let hidden = has_prefix(&chars_of(e.name.as_str()), &dot);
        if recursive && e.is_dir && !hidden {
            let p = owned(e.path.as_str());
            dirs.push(p);
            assert(sv(dirs@) =~= db + seq![e.path@]);
        }
        if keep_entry(e.name.as_str(), pattern) {
            kept.push(e);
            assert(kept@ =~= kb + seq![before[0]]);
        }
        assert(kept@ + kept_entries(rest@, pv) =~= kb + kept_entries(before, pv));
        assert(sv(dirs@) + (if recursive { dir_paths(rest@) } else { Seq::empty() }) =~= db + (if recursive {
            dir_paths(before)
        } else {
            Seq::empty()
        }));
    }
    assert(kept@ =~= kept@ + kept_entries(rest@, pv));
    assert(sv(dirs@) =~= sv(dirs@) + (if recursive { dir_paths(rest@) } else { Seq::<Seq<char>>::empty() }));
    (kept, dirs)
}

/// Entries ordered directories first, then by name (a stable sort).
pub fn sort_entries(v: Vec<FileEntry>) -> (r: Vec<FileEntry>)
    ensures
        r@ == stable_sort(v@, dirs_then_name()),
{
    sort_by_kind_and_name(v, false)
}

/// Entries ordered directories first, then by lowercase name (a stable
/// sort), as the file browser lists them.
pub fn sort_entries_ignoring_case(v: Vec<FileEntry>) -> (r: Vec<FileEntry>)
    ensures
        r@ == stable_sort(v@, dirs_then_lowercase_name()),
{
    sort_by_kind_and_name(v, true)
}

/// The directory the file browser lists for `path`: the working directory
/// for `.` or an empty path, else `path` resolved against it.
pub open spec fn browse_target(working_dir: Seq<char>, path: Seq<char>) -> Seq<char> {
    if path == "."@ || path.len() == 0 {
        working_dir
    } else {
        resolved_path(working_dir, path)
    }
}

/// The directory the file browser lists (see [`browse_target`]).
pub fn browse_path(working_dir: &str, path: &str) -> (r: String)
    ensures
        r@ == browse_target(working_dir@, path@),
{
    proof {
        reveal_strlit(".");
    }
    let p = chars_of(path);
    if str_eq(path, ".") || p.len() == 0 {
        owned(working_dir)
    } else {
        PatchTool::resolve_path(working_dir, path)
    }
}

impl ListTool {
    /// The tool's name.
    pub fn name(&self) -> (r: &'static str)
        ensures
            r@ == "list"@,
    {
        proof {
            reveal_strlit("list");
        }
        "list"
    }

    /// What the tool is for.
    pub fn description(&self) -> (r: &'static str)
        ensures
            r@ == LIST_DESCRIPTION@,
    {
        LIST_DESCRIPTION
    }
}

} // verus!
