//! Character-level text utilities with exact specifications.
use vstd::prelude::*;
use vstd::std_specs::iter::IteratorSpec;
use vstd::utf8::encode_utf8;
use vstd::utf8::encode_scalar;

verus! {

broadcast use vstd::string::group_string_axioms;

/// The characters of a string slice, in order.
pub fn chars_of(s: &str) -> (v: Vec<char>)
    ensures
        v@ == s@,
{
    let mut v: Vec<char> = Vec::new();
    for c in it: s.chars()
        invariant
            it.seq() == s@,
            v@ == s@.take(it.index() as int),
    {
        v.push(c);
        assert(v@ =~= s@.take(it.index() as int + 1));
    }
    assert(v@ =~= s@);
    v
}

/// The Unicode `White_Space` characters, the set that `char::is_whitespace` tests.
pub open spec fn is_ws(c: char) -> bool {
    let u = c as u32;
    (0x09 <= u && u <= 0x0d) || u == 0x20 || u == 0x85 || u == 0xa0 || u == 0x1680
        || (0x2000 <= u && u <= 0x200a) || u == 0x2028 || u == 0x2029 || u == 0x202f
        || u == 0x205f || u == 0x3000
}

/// Whitespace test on one character.
pub fn is_whitespace(c: char) -> (b: bool)
    ensures
        b == is_ws(c),
{
    let u = c as u32;
    (0x09 <= u && u <= 0x0d) || u == 0x20 || u == 0x85 || u == 0xa0 || u == 0x1680
        || (0x2000 <= u && u <= 0x200a) || u == 0x2028 || u == 0x2029 || u == 0x202f
        || u == 0x205f || u == 0x3000
}

/// `s` without its leading whitespace.
pub open spec fn trim_start(s: Seq<char>) -> Seq<char>
    decreases s.len(),
{
    if s.len() > 0 && is_ws(s[0]) {
        trim_start(s.drop_first())
    } else {
        s
    }
}

/// `s` without its trailing whitespace.
pub open spec fn trim_end(s: Seq<char>) -> Seq<char>
    decreases s.len(),
{
    if s.len() > 0 && is_ws(s.last()) {
        trim_end(s.drop_last())
    } else {
        s
    }
}

/// `s` without leading and trailing whitespace, as `str::trim` gives it.
pub open spec fn trim(s: Seq<char>) -> Seq<char> {
    trim_end(trim_start(s))
}

proof fn lemma_trim_start_skip(s: Seq<char>, i: int)
    requires
        0 <= i <= s.len(),
        forall|j: int| 0 <= j < i ==> is_ws(#[trigger] s[j]),
    ensures
        trim_start(s) == trim_start(s.skip(i)),
    decreases i,
{
    if i > 0 {
        lemma_trim_start_skip(s, i - 1);
        assert(s.skip(i - 1).drop_first() =~= s.skip(i));
    } else {
        assert(s.skip(0) =~= s);
    }
}

proof fn lemma_trim_end_take(s: Seq<char>, k: int)
    requires
        0 <= k <= s.len(),
        forall|j: int| k <= j < s.len() ==> is_ws(#[trigger] s[j]),
    ensures
        trim_end(s) == trim_end(s.take(k)),
    decreases s.len() - k,
{
    if k < s.len() {
        lemma_trim_end_take(s, k + 1);
        assert(s.take(k + 1).drop_last() =~= s.take(k));
    } else {
        assert(s.take(k) =~= s);
    }
}

/// The bounds `(a, b)` with `s[a..b]` equal to `trim(s)`.
pub fn trim_bounds(s: &[char]) -> (r: (usize, usize))
    ensures
        r.0 <= r.1 <= s@.len(),
        s@.subrange(r.0 as int, r.1 as int) == trim(s@),
{
    let n = s.len();
    let mut a: usize = 0;
    while a < n && is_whitespace(s[a])
        invariant
            a <= n == s@.len(),
            forall|j: int| 0 <= j < a ==> is_ws(#[trigger] s@[j]),
        decreases n - a,
    {
        a = a + 1;
    }
    proof {
        lemma_trim_start_skip(s@, a as int);
        if a < n {
            assert(trim_start(s@.skip(a as int)) == s@.skip(a as int));
        } else {
            assert(s@.skip(a as int) =~= Seq::<char>::empty());
        }
    }
    let mut b: usize = n;
    while b > a && is_whitespace(s[b - 1])
        invariant
            a <= b <= n == s@.len(),
            forall|j: int| b <= j < n ==> is_ws(#[trigger] s@[j]),
        decreases b,
    {
        b = b - 1;
    }
    proof {
        let t = s@.skip(a as int);
        assert forall|j: int| (b - a) <= j < t.len() implies is_ws(#[trigger] t[j]) by {
            assert(t[j] == s@[j + a]);
        }
        lemma_trim_end_take(t, (b - a) as int);
        assert(t.take((b - a) as int) =~= s@.subrange(a as int, b as int));
        if b > a {
            assert(trim_end(t.take((b - a) as int)) == t.take((b - a) as int));
        } else {
            assert(t.take(0) =~= Seq::<char>::empty());
        }
    }
    (a, b)
}

/// Copy of `s[a..b]`.
pub fn slice_to_vec(s: &[char], a: usize, b: usize) -> (v: Vec<char>)
    requires
        a <= b <= s@.len(),
    ensures
        v@ == s@.subrange(a as int, b as int),
{
    let mut v: Vec<char> = Vec::new();
    let mut i = a;
    while i < b
        invariant
            a <= i <= b <= s@.len(),
            v@ == s@.subrange(a as int, i as int),
        decreases b - i,
    {
        v.push(s[i]);
        assert(v@ =~= s@.subrange(a as int, i + 1));
        i = i + 1;
    }
    v
}

/// `trim(s)` as a vector.
pub fn trim_chars(s: &[char]) -> (v: Vec<char>)
    ensures
        v@ == trim(s@),
{
    let (a, b) = trim_bounds(s);
    slice_to_vec(s, a, b)
}

/// A string holding exactly the characters of `v` (`FromIterator<&char>` for `String`).
#[verifier::external_body]
pub fn string_from_chars(v: &[char]) -> (s: String)
    ensures
        s@ == v@,
{
    v.iter().collect()
}

/// The views of a sequence of character vectors.
pub open spec fn dv(v: Seq<Vec<char>>) -> Seq<Seq<char>> {
    v.map_values(|x: Vec<char>| x@)
}

/// The views of a sequence of strings.
pub open spec fn sv(v: Seq<String>) -> Seq<Seq<char>> {
    v.map_values(|x: String| x@)
}

/// The pieces of `s` between occurrences of `c`, as `str::split(c)` yields them
/// (always at least one piece).
pub open spec fn split_char(s: Seq<char>, c: char) -> Seq<Seq<char>>
    decreases s.len(),
{
    if s.len() == 0 {
        seq![Seq::<char>::empty()]
    } else {
        let prev = split_char(s.drop_last(), c);
        if s.last() == c {
            prev.push(Seq::<char>::empty())
        } else {
            prev.update(prev.len() - 1, prev.last().push(s.last()))
        }
    }
}

pub proof fn lemma_split_char_nonempty(s: Seq<char>, c: char)
    ensures
        split_char(s, c).len() >= 1,
    decreases s.len(),
{
    if s.len() > 0 {
        lemma_split_char_nonempty(s.drop_last(), c);
    }
}

/// `s` split at every `c`.
pub fn split_on(s: &[char], c: char) -> (r: Vec<Vec<char>>)
    ensures
        dv(r@) == split_char(s@, c),
{
    let mut pieces: Vec<Vec<char>> = Vec::new();
    let mut cur: Vec<char> = Vec::new();
    let mut i: usize = 0;
    assert(s@.take(0) =~= Seq::<char>::empty());
    assert(dv(pieces@).push(cur@) =~= split_char(s@.take(0), c));
    while i < s.len()
        invariant
            i <= s@.len(),
            dv(pieces@).push(cur@) == split_char(s@.take(i as int), c),
        decreases s@.len() - i,
    {
        let ch = s[i];
        let ghost t = s@.take(i as int + 1);
        assert(t.drop_last() =~= s@.take(i as int));
        proof { lemma_split_char_nonempty(s@.take(i as int), c); }
        if ch == c {
            let done = cur;
            pieces.push(done);
            cur = Vec::new();
            assert(dv(pieces@).push(cur@) =~= split_char(t, c));
        } else {
            cur.push(ch);
            assert(dv(pieces@).push(cur@) =~= split_char(t, c));
        }
        i = i + 1;
    }
    assert(s@.take(s@.len() as int) =~= s@);
    pieces.push(cur);
    assert(dv(pieces@) =~= split_char(s@, c));
    pieces
}

/// `l` without one trailing carriage return.
pub open spec fn strip_cr(l: Seq<char>) -> Seq<char> {
    if l.len() > 0 && l.last() == '\r' {
        l.drop_last()
    } else {
        l
    }
}

/// The lines of `s`, as `str::lines` yields them: split at `\n`, a final
/// line ending yields no extra empty line, and one `\r` before each `\n`
/// or at the very end of a line is removed.
pub open spec fn lines(s: Seq<char>) -> Seq<Seq<char>> {
    if s.len() == 0 {
        Seq::<Seq<char>>::empty()
    } else {
        let p = split_char(s, '\n');
        let q = if s.last() == '\n' {
            p.drop_last()
        } else {
            p
        };
        q.map_values(|l: Seq<char>| strip_cr(l))
    }
}

/// Remove one trailing `\r`.
pub fn strip_cr_vec(l: &mut Vec<char>)
    ensures
        final(l)@ == strip_cr(old(l)@),
{
    let n = l.len();
    if n > 0 && l[n - 1] == '\r' {
        l.pop();
        assert(l@ =~= strip_cr(old(l)@));
    }
}

/// The lines of `s` (see `lines`).
pub fn lines_of(s: &[char]) -> (r: Vec<Vec<char>>)
    ensures
        dv(r@) == lines(s@),
{
    if s.len() == 0 {
        let r: Vec<Vec<char>> = Vec::new();
        assert(dv(r@) =~= lines(s@));
        return r;
    }
    let mut parts = split_on(s, '\n');
    proof { lemma_split_char_nonempty(s@, '\n'); }
    if s[s.len() - 1] == '\n' {
        parts.pop();
    }
    let ghost q = dv(parts@);
    let mut r: Vec<Vec<char>> = Vec::new();
    let mut i: usize = 0;
    while i < parts.len()
        invariant
            i <= parts@.len(),
            q == dv(parts@),
            dv(r@) == q.take(i as int).map_values(|l: Seq<char>| strip_cr(l)),
        decreases parts@.len() - i,
    {
        let mut l = slice_to_vec(&parts[i], 0, parts[i].len());
        assert(l@ =~= q[i as int]);
        strip_cr_vec(&mut l);
        let ghost rb = r@;
        r.push(l);
        assert(r@ == rb.push(l));
        assert(dv(r@) =~= dv(rb).push(strip_cr(q[i as int])));
        assert(dv(r@) =~= q.take(i as int + 1).map_values(|l: Seq<char>| strip_cr(l)));
        i = i + 1;
    }
    assert(q.take(parts@.len() as int) =~= q);
    assert(dv(r@) =~= lines(s@));
    r
}

/// The pieces of `ps` joined by `sep`, as `[S]::join` gives it.
pub open spec fn join(ps: Seq<Seq<char>>, sep: Seq<char>) -> Seq<char>
    decreases ps.len(),
{
    if ps.len() == 0 {
        Seq::<char>::empty()
    } else if ps.len() == 1 {
        ps[0]
    } else {
        join(ps.drop_last(), sep) + sep + ps.last()
    }
}

/// `ps` joined by `sep`.
pub fn join_vecs(ps: &Vec<Vec<char>>, sep: &[char]) -> (r: Vec<char>)
    ensures
        r@ == join(dv(ps@), sep@),
{
    let mut r: Vec<char> = Vec::new();
    let mut i: usize = 0;
    while i < ps.len()
        invariant
            i <= ps@.len(),
            r@ == join(dv(ps@).take(i as int), sep@),
        decreases ps@.len() - i,
    {
        let ghost t = dv(ps@).take(i as int + 1);
        assert(t.drop_last() =~= dv(ps@).take(i as int));
        if i > 0 {
            let mut k: usize = 0;
            while k < sep.len()
                invariant
                    k <= sep@.len(),
                    r@ == join(dv(ps@).take(i as int), sep@) + sep@.take(k as int),
                decreases sep@.len() - k,
            {
                r.push(sep[k]);
                assert(r@ =~= join(dv(ps@).take(i as int), sep@) + sep@.take(k as int + 1));
                k = k + 1;
            }
            assert(sep@.take(sep@.len() as int) =~= sep@);
        }
        let ghost before = r@;
        let mut k: usize = 0;
        while k < ps[i].len()
            invariant
                i < ps@.len(),
                k <= ps@[i as int]@.len(),
                r@ == before + ps@[i as int]@.take(k as int),
            decreases ps@[i as int]@.len() - k,
        {
            r.push(ps[i][k]);
            assert(r@ =~= before + ps@[i as int]@.take(k as int + 1));
            k = k + 1;
        }
        assert(ps@[i as int]@.take(ps@[i as int]@.len() as int) =~= ps@[i as int]@);
        if i == 0 {
            assert(t =~= seq![ps@[0]@]);
            assert(r@ =~= join(t, sep@));
        } else {
            assert(r@ =~= join(t, sep@));
        }
        i = i + 1;
    }
    assert(dv(ps@).take(ps@.len() as int) =~= dv(ps@));
    r
}

/// Append `t` to `v`.
pub fn push_all(v: &mut Vec<char>, t: &[char])
    ensures
        final(v)@ == old(v)@ + t@,
{
    let mut k: usize = 0;
    while k < t.len()
        invariant
            k <= t@.len(),
            v@ == old(v)@ + t@.take(k as int),
        decreases t@.len() - k,
    {
        v.push(t[k]);
        assert(v@ =~= old(v)@ + t@.take(k as int + 1));
        k = k + 1;
    }
    assert(t@.take(t@.len() as int) =~= t@);
}

/// Append the characters of `t` to `v`.
pub fn push_str(v: &mut Vec<char>, t: &str)
    ensures
        final(v)@ == old(v)@ + t@,
{
    let tc = chars_of(t);
    push_all(v, &tc);
}

/// `p` occurs in `s` at index `i`.
pub open spec fn occurs_at(s: Seq<char>, p: Seq<char>, i: int) -> bool {
    0 <= i && i + p.len() <= s.len() && s.subrange(i, i + p.len()) == p
}

/// The first index `>= i` at which `p` occurs in `s`, or `-1`.
pub open spec fn find_from(s: Seq<char>, p: Seq<char>, i: int) -> int
    decreases s.len() + 1 - i,
{
    if i < 0 || i + p.len() > s.len() {
        -1
    } else if occurs_at(s, p, i) {
        i
    } else {
        find_from(s, p, i + 1)
    }
}

/// The first index at which `p` occurs in `s`, or `-1` (as `str::find`).
pub open spec fn find(s: Seq<char>, p: Seq<char>) -> int {
    find_from(s, p, 0)
}

/// `s` contains `p` (as `str::contains`).
pub open spec fn contains(s: Seq<char>, p: Seq<char>) -> bool {
    find(s, p) >= 0
}

/// `s` starts with `p`.
pub open spec fn starts_with(s: Seq<char>, p: Seq<char>) -> bool {
    p.len() <= s.len() && s.take(p.len() as int) == p
}

/// `s` ends with `p`.
pub open spec fn ends_with(s: Seq<char>, p: Seq<char>) -> bool {
    p.len() <= s.len() && s.skip(s.len() - p.len()) == p
}

pub proof fn lemma_find_from(s: Seq<char>, p: Seq<char>, i: int)
    requires
        0 <= i,
    ensures
        find_from(s, p, i) == -1 || (i <= find_from(s, p, i) && occurs_at(s, p, find_from(s, p, i))),
        forall|j: int|
            i <= j && (find_from(s, p, i) == -1 || j < find_from(s, p, i)) ==> !occurs_at(s, p, j),
    decreases s.len() + 1 - i,
{
    if i + p.len() > s.len() {
    } else if occurs_at(s, p, i) {
    } else {
        lemma_find_from(s, p, i + 1);
        assert forall|j: int|
            i <= j && (find_from(s, p, i) == -1 || j < find_from(s, p, i)) implies !occurs_at(s, p, j) by {
            if j == i {
            } else {
            }
        }
    }
}

/// `find` is the first occurrence: an occurrence at `k` with none before.
pub proof fn lemma_find_at(s: Seq<char>, p: Seq<char>, k: int)
    requires
        0 <= k,
        occurs_at(s, p, k),
        forall|j: int| 0 <= j < k ==> !occurs_at(s, p, j),
    ensures
        find(s, p) == k,
{
    lemma_find_from(s, p, 0);
}

/// `s` does not contain `p`: `p` occurs nowhere in it.
pub proof fn lemma_absent(s: Seq<char>, p: Seq<char>)
    requires
        !contains(s, p),
    ensures
        forall|j: int| 0 <= j ==> !occurs_at(s, p, j),
{
    lemma_find_from(s, p, 0);
}

/// `find` gives -1 when `p` occurs nowhere in `s`.
pub proof fn lemma_find_absent(s: Seq<char>, p: Seq<char>)
    requires
        forall|j: int| 0 <= j ==> !occurs_at(s, p, j),
    ensures
        find(s, p) == -1,
{
    lemma_find_from(s, p, 0);
}

/// Does `p` occur in `s` at `i`.
pub fn matches_at(s: &[char], p: &[char], i: usize) -> (b: bool)
    ensures
        b == occurs_at(s@, p@, i as int),
{
    if i > s.len() || p.len() > s.len() - i {
        return false;
    }
    let mut k: usize = 0;
    while k < p.len()
        invariant
            i + p@.len() <= s@.len(),
            s@.len() == s.len(),
            p@.len() == p.len(),
            k <= p@.len(),
            forall|j: int| 0 <= j < k ==> s@[i + j] == p@[j],
        decreases p@.len() - k,
    {
        if s[i + k] != p[k] {
            assert(s@.subrange(i as int, i + p@.len())[k as int] != p@[k as int]);
            return false;
        }
        k = k + 1;
    }
    assert(s@.subrange(i as int, i + p@.len()) =~= p@);
    true
}

/// The first index `>= from` at which `p` occurs in `s`.
pub fn find_in(s: &[char], p: &[char], from: usize) -> (r: Option<usize>)
    ensures
        match r {
            Some(k) => k as int == find_from(s@, p@, from as int),
            None => find_from(s@, p@, from as int) == -1,
        },
{
    if p.len() == 0 {
        if from <= s.len() {
            assert(s@.subrange(from as int, from as int) =~= p@);
            return Some(from);
        } else {
            return None;
        }
    }
    let mut i = from;
    while i <= s.len() && p.len() <= s.len() - i
        invariant
            from <= i,
            p@.len() >= 1,
            find_from(s@, p@, from as int) == find_from(s@, p@, i as int),
        decreases s@.len() - i,
    {
        if matches_at(s, p, i) {
            return Some(i);
        }
        i = i + 1;
    }
    None
}

/// Does `s` start with `p`.
pub fn has_prefix(s: &[char], p: &[char]) -> (b: bool)
    ensures
        b == starts_with(s@, p@),
{
    let b = matches_at(s, p, 0);
    proof {
        if p@.len() <= s@.len() {
            assert(s@.subrange(0, p@.len() as int) =~= s@.take(p@.len() as int));
        }
    }
    b
}

/// Does `s` end with `p`.
pub fn has_suffix(s: &[char], p: &[char]) -> (b: bool)
    ensures
        b == ends_with(s@, p@),
{
    if p.len() > s.len() {
        return false;
    }
    let b = matches_at(s, p, s.len() - p.len());
    proof {
        assert(s@.subrange(s@.len() - p@.len(), s@.len() as int) =~= s@.skip(s@.len() - p@.len()));
    }
    b
}

/// Does `s` contain `p`.
pub fn has_substring(s: &[char], p: &[char]) -> (b: bool)
    ensures
        b == contains(s@, p@),
{
    find_in(s, p, 0).is_some()
}

/// `s` with its first occurrence of `p` replaced by `t` (as `str::replacen(p, t, 1)`).
pub open spec fn replace_first(s: Seq<char>, p: Seq<char>, t: Seq<char>) -> Seq<char> {
    let k = find(s, p);
    if k < 0 {
        s
    } else {
        s.take(k) + t + s.skip(k + p.len())
    }
}

/// Replace the first occurrence of `p` in `s` by `t`.
pub fn replace_first_in(s: &[char], p: &[char], t: &[char]) -> (r: Vec<char>)
    ensures
        r@ == replace_first(s@, p@, t@),
{
    match find_in(s, p, 0) {
        None => slice_to_vec(s, 0, s.len()),
        Some(k) => {
            proof { lemma_find_from(s@, p@, 0); }
            assert(occurs_at(s@, p@, k as int));
            assert(k + p@.len() <= s@.len());
            assert(p@.len() == p.len() && s@.len() == s.len());
            let mut r = slice_to_vec(s, 0, k);
            push_all(&mut r, t);
            let rest = slice_to_vec(s, k + p.len(), s.len());
            push_all(&mut r, &rest);
            assert(s@.take(k as int) =~= s@.subrange(0, k as int));
            assert(s@.skip(k + p@.len()) =~= s@.subrange(k + p@.len(), s@.len() as int));
            r
        },
    }
}

/// `s` with every `c` replaced by `t` (as `str::replace` with a one-character pattern).
pub open spec fn replace_char(s: Seq<char>, c: char, t: Seq<char>) -> Seq<char>
    decreases s.len(),
{
    if s.len() == 0 {
        s
    } else {
        replace_char(s.drop_last(), c, t) + (if s.last() == c {
            t
        } else {
            seq![s.last()]
        })
    }
}

/// Replace every `c` in `s` by `t`.
pub fn replace_char_in(s: &[char], c: char, t: &[char]) -> (r: Vec<char>)
    ensures
        r@ == replace_char(s@, c, t@),
{
    let mut r: Vec<char> = Vec::new();
    let mut i: usize = 0;
    assert(s@.take(0) =~= Seq::<char>::empty());
    while i < s.len()
        invariant
            i <= s@.len(),
            r@ == replace_char(s@.take(i as int), c, t@),
        decreases s@.len() - i,
    {
        assert(s@.take(i as int + 1).drop_last() =~= s@.take(i as int));
        if s[i] == c {
            push_all(&mut r, t);
        } else {
            r.push(s[i]);
        }
        assert(r@ =~= replace_char(s@.take(i as int + 1), c, t@));
        i = i + 1;
    }
    assert(s@.take(s@.len() as int) =~= s@);
    r
}

/// The decimal digit for `d < 10`.
pub open spec fn digit_char(d: nat) -> char {
    if d == 0 {
        '0'
    } else if d == 1 {
        '1'
    } else if d == 2 {
        '2'
    } else if d == 3 {
        '3'
    } else if d == 4 {
        '4'
    } else if d == 5 {
        '5'
    } else if d == 6 {
        '6'
    } else if d == 7 {
        '7'
    } else if d == 8 {
        '8'
    } else {
        '9'
    }
}

/// The decimal notation of `n`, as `{}` formats an unsigned integer.
pub open spec fn decimal(n: nat) -> Seq<char>
    decreases n,
{
    if n < 10 {
        seq![digit_char(n)]
    } else {
        decimal(n / 10).push(digit_char(n % 10))
    }
}

fn digit(d: u128) -> (c: char)
    requires
        d < 10,
    ensures
        c == digit_char(d as nat),
{
    if d == 0 {
        '0'
    } else if d == 1 {
        '1'
    } else if d == 2 {
        '2'
    } else if d == 3 {
        '3'
    } else if d == 4 {
        '4'
    } else if d == 5 {
        '5'
    } else if d == 6 {
        '6'
    } else if d == 7 {
        '7'
    } else if d == 8 {
        '8'
    } else {
        '9'
    }
}

/// Decimal notation of `n`.
pub fn decimal_of(n: u128) -> (v: Vec<char>)
    ensures
        v@ == decimal(n as nat),
    decreases n,
{
    if n < 10 {
        let mut v: Vec<char> = Vec::new();
        v.push(digit(n));
        assert(v@ =~= decimal(n as nat));
        v
    } else {
        let mut v = decimal_of(n / 10);
        v.push(digit(n % 10));
        v
    }
}

/// `k` spaces.
pub open spec fn spaces(k: nat) -> Seq<char> {
    Seq::new(k, |i: int| ' ')
}

/// `s` right-aligned in a field of `w` characters (as `{:w}` formats a number).
pub open spec fn pad_left(s: Seq<char>, w: nat) -> Seq<char> {
    if s.len() < w {
        spaces((w - s.len()) as nat) + s
    } else {
        s
    }
}

/// Right-align `s` in a field of `w` characters.
pub fn pad_left_vec(s: &[char], w: usize) -> (r: Vec<char>)
    ensures
        r@ == pad_left(s@, w as nat),
{
    let mut r: Vec<char> = Vec::new();
    if s.len() < w {
        let k = w - s.len();
        let mut i: usize = 0;
        while i < k
            invariant
                i <= k,
                r@ == spaces(i as nat),
            decreases k - i,
        {
            r.push(' ');
            assert(r@ =~= spaces((i + 1) as nat));
            i = i + 1;
        }
    }
    push_all(&mut r, s);
    assert(r@ =~= pad_left(s@, w as nat));
    r
}

/// Number of bytes of the UTF-8 encoding of `s` (what `str::len` returns).
pub open spec fn byte_len(s: Seq<char>) -> nat {
    encode_utf8(s).len()
}

/// Number of bytes of the UTF-8 encoding of `c`.
pub open spec fn char_byte_len(c: char) -> nat {
    encode_scalar(c as u32).len()
}

pub proof fn lemma_encode_concat(a: Seq<char>, b: Seq<char>)
    ensures
        encode_utf8(a + b) == encode_utf8(a) + encode_utf8(b),
    decreases a.len(),
{
    if a.len() == 0 {
        assert(a + b =~= b);
    } else {
        assert((a + b).drop_first() =~= a.drop_first() + b);
        lemma_encode_concat(a.drop_first(), b);
        assert(encode_utf8(a + b) =~= encode_utf8(a) + encode_utf8(b));
    }
}

pub proof fn lemma_byte_len_push(s: Seq<char>, c: char)
    ensures
        byte_len(s.push(c)) == byte_len(s) + char_byte_len(c),
{
    lemma_encode_concat(s, seq![c]);
    assert(s.push(c) =~= s + seq![c]);
    assert(seq![c].drop_first() =~= Seq::<char>::empty());
    assert(encode_utf8(Seq::<char>::empty()) =~= Seq::<u8>::empty());
    assert(encode_utf8(seq![c]) =~= encode_scalar(c as u32));
}

/// Number of UTF-8 bytes of one character.
pub fn utf8_width(c: char) -> (n: usize)
    ensures
        n == char_byte_len(c),
        1 <= n <= 4,
{
    let u = c as u32;
    proof {
        vstd::utf8::char_is_scalar(c);
    }
    if u <= 0x7f {
        1
    } else if u <= 0x7ff {
        2
    } else if u <= 0xffff {
        3
    } else {
        4
    }
}

/// Number of UTF-8 bytes of `s`.
pub fn utf8_len(s: &[char]) -> (n: u128)
    ensures
        n == byte_len(s@),
{
    let mut n: u128 = 0;
    let mut i: usize = 0;
    assert(s@.take(0) =~= Seq::<char>::empty());
    while i < s.len()
        invariant
            i <= s@.len(),
            n == byte_len(s@.take(i as int)),
            n <= 4 * i,
        decreases s@.len() - i,
    {
        proof {
            lemma_byte_len_push(s@.take(i as int), s@[i as int]);
            assert(s@.take(i as int).push(s@[i as int]) =~= s@.take(i as int + 1));
        }
        n = n + utf8_width(s[i]) as u128;
        i = i + 1;
    }
    assert(s@.take(s@.len() as int) =~= s@);
    n
}

/// The character count `k` whose first `k` characters take exactly `b` bytes,
/// if there is one (that is, whether byte `b` is a character boundary).
pub fn char_index_at_byte(s: &[char], b: u128) -> (r: Option<usize>)
    ensures
        match r {
            Some(k) => k <= s@.len() && byte_len(s@.take(k as int)) == b,
            None => forall|k: int| 0 <= k <= s@.len() ==> byte_len(#[trigger] s@.take(k)) != b,
        },
{
    let mut n: u128 = 0;
    let mut i: usize = 0;
    assert(s@.take(0) =~= Seq::<char>::empty());
    while i < s.len() && n < b
        invariant
            i <= s@.len(),
            n == byte_len(s@.take(i as int)),
            n <= 4 * i,
            forall|k: int| 0 <= k < i ==> byte_len(#[trigger] s@.take(k)) < b,
        decreases s@.len() - i,
    {
        proof {
            lemma_byte_len_push(s@.take(i as int), s@[i as int]);
            assert(s@.take(i as int).push(s@[i as int]) =~= s@.take(i as int + 1));
        }
        n = n + utf8_width(s[i]) as u128;
        i = i + 1;
    }
    if n == b {
        Some(i)
    } else {
        proof {
            assert forall|k: int| 0 <= k <= s@.len() implies byte_len(#[trigger] s@.take(k)) != b by {
                if k > i {
                    lemma_byte_len_mono(s@, i as int, k);
                }
            }
        }
        None
    }
}

/// `k` is the most leading characters of `s` whose encoding fits in `b`
/// bytes: the cut at the last character boundary at or before byte `b`.
pub open spec fn fits_bytes(s: Seq<char>, b: nat, k: int) -> bool {
    &&& 0 <= k <= s.len()
    &&& byte_len(s.take(k)) <= b
    &&& (k == s.len() || byte_len(s.take(k + 1)) > b)
}

/// The longest prefix of `s` that takes at most `b` bytes.
pub open spec fn byte_floor(s: Seq<char>, b: nat) -> Seq<char> {
    s.take(choose|k: int| fits_bytes(s, b, k))
}

pub proof fn lemma_byte_floor(s: Seq<char>, b: nat, k: int)
    requires
        fits_bytes(s, b, k),
    ensures
        byte_floor(s, b) == s.take(k),
{
    let c = choose|k: int| fits_bytes(s, b, k);
    assert(fits_bytes(s, b, c));
    if c < k {
        lemma_byte_len_mono(s, c + 1, k);
    } else if c > k {
        lemma_byte_len_mono(s, k + 1, c);
    }
}

/// The number of leading characters of `s` that fit in `b` bytes (see
/// [`fits_bytes`]).
pub fn char_index_floor(s: &[char], b: u128) -> (k: usize)
    ensures
        fits_bytes(s@, b as nat, k as int),
{
    let mut n: u128 = 0;
    let mut i: usize = 0;
    assert(s@.take(0) =~= Seq::<char>::empty());
    while i < s.len()
        invariant
            i <= s@.len(),
            n == byte_len(s@.take(i as int)),
            n <= b,
        decreases s@.len() - i,
    {
        proof {
            lemma_byte_len_push(s@.take(i as int), s@[i as int]);
            assert(s@.take(i as int).push(s@[i as int]) =~= s@.take(i as int + 1));
        }
        let w = utf8_width(s[i]) as u128;
        if w > b - n {
            return i;
        }
        n = n + w;
        i = i + 1;
    }
    i
}

pub proof fn lemma_byte_len_mono(s: Seq<char>, i: int, k: int)
    requires
        0 <= i <= k <= s.len(),
    ensures
        byte_len(s.take(i)) + (k - i) <= byte_len(s.take(k)),
    decreases k - i,
{
    if k > i {
        lemma_byte_len_mono(s, i, k - 1);
        lemma_byte_len_push(s.take(k - 1), s[k - 1]);
        assert(s.take(k - 1).push(s[k - 1]) =~= s.take(k));
        vstd::utf8::char_is_scalar(s[k - 1]);
    }
}

/// The characters of a literal.
pub fn lit(s: &str) -> (v: Vec<char>)
    ensures
        v@ == s@,
{
    chars_of(s)
}

/// Equality of two character slices.
pub fn chars_eq(a: &[char], b: &[char]) -> (r: bool)
    ensures
        r == (a@ == b@),
{
    if a.len() != b.len() {
        return false;
    }
    let mut i: usize = 0;
    while i < a.len()
        invariant
            a@.len() == b@.len(),
            i <= a@.len(),
            forall|j: int| 0 <= j < i ==> a@[j] == b@[j],
        decreases a@.len() - i,
    {
        if a[i] != b[i] {
            return false;
        }
        i = i + 1;
    }
    assert(a@ =~= b@);
    true
}

/// Equality of two string slices.
pub fn str_eq(a: &str, b: &str) -> (r: bool)
    ensures
        r == (a@ == b@),
{
    let ac = chars_of(a);
    let bc = chars_of(b);
    chars_eq(&ac, &bc)
}

/// A new string with the characters of `s`.
pub fn owned(s: &str) -> (r: String)
    ensures
        r@ == s@,
{
    s.to_string()
}

/// What `str::to_lowercase` returns for `s` (the Unicode lowercase mapping).
pub uninterp spec fn lowercase(s: Seq<char>) -> Seq<char>;

/// `str::to_lowercase`: the lowercase form of `s`, which depends on `s` alone.
#[verifier::external_body]
pub fn to_lowercase(s: &str) -> (r: String)
    ensures
        r@ == lowercase(s@),
{
    s.to_lowercase()
}

/// Concatenation of two strings.
pub fn concat_str(a: &str, b: &str) -> (r: String)
    ensures
        r@ == a@ + b@,
{
    let mut v = chars_of(a);
    push_str(&mut v, b);
    string_from_chars(&v)
}


/// `ch` does not occur in `s`.
pub open spec fn lacks(s: Seq<char>, ch: char) -> bool {
    forall|k: int| 0 <= k < s.len() ==> s[k] != ch
}

/// The pieces of `s` split at `c` hold no `c`, and no character that `s`
/// lacks.
pub proof fn lemma_split_lacks(s: Seq<char>, c: char)
    ensures
        split_char(s, c).len() >= 1,
        forall|k: int| 0 <= k < split_char(s, c).len() ==> lacks(#[trigger] split_char(s, c)[k], c),
        forall|ch: char, k: int|
            lacks(s, ch) && 0 <= k < split_char(s, c).len() ==> #[trigger] lacks(split_char(s, c)[k], ch),
    decreases s.len(),
{
    if s.len() > 0 {
        lemma_split_lacks(s.drop_last(), c);
        let prev = split_char(s.drop_last(), c);
        let cur = split_char(s, c);
        assert forall|ch: char, k: int| (lacks(s, ch) || ch == c) && 0 <= k < cur.len() && (ch == c || lacks(
            s.drop_last(),
            ch,
        )) && (forall|k2: int| 0 <= k2 < prev.len() ==> #[trigger] lacks(prev[k2], ch)) implies lacks(cur[k], ch) by {
            if s.last() == c {
                if k < prev.len() {
                    assert(cur[k] == prev[k]);
                } else {
                    assert(cur[k] =~= Seq::<char>::empty());
                }
            } else {
                if k < prev.len() - 1 {
                    assert(cur[k] == prev[k]);
                } else {
                    assert(lacks(prev[prev.len() - 1], ch));
                    assert(cur[k] == prev.last().push(s.last()));
                    assert forall|j: int| 0 <= j < cur[k].len() implies cur[k][j] != ch by {
                        if j < prev.last().len() {
                            assert(cur[k][j] == prev.last()[j]);
                        } else {
                            assert(cur[k][j] == s[s.len() - 1]);
                        }
                    }
                }
            }
        }
        assert forall|ch: char| lacks(s, ch) implies lacks(s.drop_last(), ch) by {
            assert forall|k: int| 0 <= k < s.drop_last().len() implies s.drop_last()[k] != ch by {
                assert(s.drop_last()[k] == s[k]);
            }
        }
        assert forall|ch: char, k: int| lacks(s, ch) && 0 <= k < cur.len() implies #[trigger] lacks(cur[k], ch) by {
            assert(lacks(s.drop_last(), ch));
        }
    }
}

/// The lines of `s` hold no line break, and no character that `s` lacks.
pub proof fn lemma_lines_lacks(s: Seq<char>)
    ensures
        forall|k: int| 0 <= k < lines(s).len() ==> lacks(#[trigger] lines(s)[k], '\n'),
        forall|ch: char, k: int| lacks(s, ch) && 0 <= k < lines(s).len() ==> #[trigger] lacks(lines(s)[k], ch),
{
    if s.len() > 0 {
        lemma_split_lacks(s, '\n');
        let p = split_char(s, '\n');
        let q = if s.last() == '\n' { p.drop_last() } else { p };
        assert forall|ch: char, k: int| (lacks(s, ch) || ch == '\n') && 0 <= k < lines(s).len() implies #[trigger] lacks(
            lines(s)[k],
            ch,
        ) by {
            assert(q[k] == p[k]);
            assert(lacks(p[k], ch));
            assert(lines(s)[k] == strip_cr(q[k]));
            assert forall|j: int| 0 <= j < strip_cr(q[k]).len() implies strip_cr(q[k])[j] != ch by {
                assert(strip_cr(q[k])[j] == q[k][j]);
            }
        }
    }
}

/// `trim_start(s)` is a suffix of `s` that does not start with whitespace.
pub proof fn lemma_trim_start_suffix(s: Seq<char>) -> (i: int)
    ensures
        0 <= i <= s.len(),
        trim_start(s) == s.skip(i),
        trim_start(s).len() > 0 ==> !is_ws(trim_start(s)[0]),
    decreases s.len(),
{
    if s.len() > 0 && is_ws(s[0]) {
        let j = lemma_trim_start_suffix(s.drop_first());
        assert(s.drop_first().skip(j) =~= s.skip(j + 1));
        j + 1
    } else {
        assert(s.skip(0) =~= s);
        0
    }
}

/// `trim_end(s)` is a prefix of `s` that does not end with whitespace.
pub proof fn lemma_trim_end_prefix(s: Seq<char>) -> (k: int)
    ensures
        0 <= k <= s.len(),
        trim_end(s) == s.take(k),
        trim_end(s).len() > 0 ==> !is_ws(trim_end(s).last()),
    decreases s.len(),
{
    if s.len() > 0 && is_ws(s.last()) {
        let j = lemma_trim_end_prefix(s.drop_last());
        assert(s.drop_last().take(j) =~= s.take(j));
        j
    } else {
        assert(s.take(s.len() as int) =~= s);
        s.len() as int
    }
}

/// A trimmed text starts and ends with non-whitespace, and holds no
/// character that the text lacks.
pub proof fn lemma_trim_props(s: Seq<char>)
    ensures
        trim(s).len() > 0 ==> !is_ws(trim(s)[0]) && !is_ws(trim(s).last()),
        forall|ch: char| lacks(s, ch) ==> #[trigger] lacks(trim(s), ch),
{
    let i = lemma_trim_start_suffix(s);
    let u = trim_start(s);
    let k = lemma_trim_end_prefix(u);
    assert(trim(s) =~= s.subrange(i, i + k));
    if trim(s).len() > 0 {
        assert(trim(s)[0] == u[0]);
    }
    assert forall|ch: char| lacks(s, ch) implies lacks(trim(s), ch) by {
        assert forall|j: int| 0 <= j < trim(s).len() implies trim(s)[j] != ch by {
            assert(trim(s)[j] == s[i + j]);
        }
    }
}

/// A text that neither starts nor ends with whitespace is its own trim.
pub proof fn lemma_trim_fixed(t: Seq<char>)
    requires
        t.len() == 0 || (!is_ws(t[0]) && !is_ws(t.last())),
    ensures
        trim(t) == t,
{
}

/// Joining texts that lack `ch` with a separator that lacks it gives a text
/// that lacks it.
pub proof fn lemma_join_lacks(ps: Seq<Seq<char>>, sep: Seq<char>, ch: char)
    requires
        forall|k: int| 0 <= k < ps.len() ==> lacks(#[trigger] ps[k], ch),
        lacks(sep, ch),
    ensures
        lacks(join(ps, sep), ch),
    decreases ps.len(),
{
    if ps.len() > 1 {
        lemma_join_lacks(ps.drop_last(), sep, ch);
        let a = join(ps.drop_last(), sep);
        assert(ps.last() == ps[ps.len() - 1]);
        assert forall|j: int| 0 <= j < join(ps, sep).len() implies join(ps, sep)[j] != ch by {
            if j < a.len() {
                assert(join(ps, sep)[j] == a[j]);
            } else if j < a.len() + sep.len() {
                assert(join(ps, sep)[j] == sep[j - a.len()]);
            } else {
                assert(join(ps, sep)[j] == ps.last()[j - a.len() - sep.len()]);
            }
        }
    } else if ps.len() == 1 {
        assert(ps[0] == ps[0]);
    }
}

/// Splitting at `c` a text that holds no `c` gives the text alone.
pub proof fn lemma_split_single(b: Seq<char>, c: char)
    requires
        lacks(b, c),
    ensures
        split_char(b, c) == seq![b],
    decreases b.len(),
{
    if b.len() > 0 {
        lemma_split_single(b.drop_last(), c);
        assert(b.drop_last().push(b.last()) =~= b);
        assert(seq![b.drop_last()].update(0, b.drop_last().push(b.last())) =~= seq![b]);
    } else {
        assert(b =~= Seq::<char>::empty());
    }
}

/// Splitting `a`, `c`, `b` at `c`, where `b` holds no `c`, gives the pieces
/// of `a` and then `b`.
pub proof fn lemma_split_append(a: Seq<char>, b: Seq<char>, c: char)
    requires
        lacks(b, c),
    ensures
        split_char(a + seq![c] + b, c) == split_char(a, c).push(b),
    decreases b.len(),
{
    lemma_split_char_nonempty(a, c);
    if b.len() == 0 {
        assert((a + seq![c] + b).drop_last() =~= a);
        assert(b =~= Seq::<char>::empty());
    } else {
        lemma_split_append(a, b.drop_last(), c);
        assert((a + seq![c] + b).drop_last() =~= a + seq![c] + b.drop_last());
        assert((a + seq![c] + b).last() == b.last());
        let prev = split_char(a, c).push(b.drop_last());
        assert(b.drop_last().push(b.last()) =~= b);
        assert(prev.last() == b.drop_last());
        assert(prev.update(prev.len() - 1, prev.last().push(b.last())) =~= split_char(a, c).push(b));
    }
}

/// Texts that hold no `c`, joined by `c`, split back at `c` into themselves.
pub proof fn lemma_split_join(ts: Seq<Seq<char>>, c: char)
    requires
        ts.len() > 0,
        forall|k: int| 0 <= k < ts.len() ==> lacks(#[trigger] ts[k], c),
    ensures
        split_char(join(ts, seq![c]), c) == ts,
    decreases ts.len(),
{
    if ts.len() == 1 {
        lemma_split_single(ts[0], c);
        assert(seq![ts[0]] =~= ts);
    } else {
        lemma_split_join(ts.drop_last(), c);
        assert(ts.last() == ts[ts.len() - 1]);
        lemma_split_append(join(ts.drop_last(), seq![c]), ts.last(), c);
        assert(ts.drop_last().push(ts.last()) =~= ts);
    }
}

/// The join of texts ends with the last text.
pub proof fn lemma_join_last(ts: Seq<Seq<char>>, sep: Seq<char>)
    requires
        ts.len() > 0,
        ts.last().len() > 0,
    ensures
        join(ts, sep).len() > 0,
        join(ts, sep).last() == ts.last().last(),
{
}

/// Non-empty texts that hold no line break and do not end with `\r`,
/// joined by line breaks, have themselves as lines.
pub proof fn lemma_lines_join(ts: Seq<Seq<char>>)
    requires
        forall|k: int|
            0 <= k < ts.len() ==> #[trigger] ts[k].len() > 0 && lacks(ts[k], '\n') && ts[k].last() != '\r',
    ensures
        lines(join(ts, seq!['\n'])) == ts,
{
    if ts.len() > 0 {
        assert(ts.last() == ts[ts.len() - 1]);
        lemma_join_last(ts, seq!['\n']);
        lemma_split_join(ts, '\n');
        assert(ts.map_values(|l: Seq<char>| strip_cr(l)) =~= ts);
    } else {
        assert(join(ts, seq!['\n']) =~= Seq::<char>::empty());
    }
}

/// Filtering by a predicate that every element meets changes nothing.
pub proof fn lemma_filter_all<A>(s: Seq<A>, pred: spec_fn(A) -> bool)
    requires
        forall|k: int| 0 <= k < s.len() ==> pred(#[trigger] s[k]),
    ensures
        s.filter(pred) == s,
    decreases s.len(),
{
    reveal(Seq::filter);
    if s.len() > 0 {
        lemma_filter_all(s.drop_last(), pred);
        assert(s.drop_last().push(s.last()) =~= s);
    } else {
        assert(s =~= Seq::<A>::empty());
    }
}

} // verus!
