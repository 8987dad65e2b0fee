//! Reading a file: the numbered listing of a window of its lines. Reading
//! the file itself is I/O and happens outside.
use vstd::prelude::*;
use crate::text::{
    byte_len, chars_of, char_index_at_byte, decimal, decimal_of, dv, join, join_vecs, lines, lines_of, lit,
    pad_left, pad_left_vec, push_all, slice_to_vec, string_from_chars, utf8_len,
};

verus! {

/// What the read tool is for, as the model is told.
pub const READ_DESCRIPTION: &'static str = "Reads a file from the local filesystem. You can access any file directly by using this tool.\nAssume this tool is able to read all files on the machine. If the User provides a path to a file assume that path is valid. It is okay to read a file that does not exist; an error will be returned.\n\nUsage:\n- The filePath parameter must be an absolute path, not a relative path\n- By default, it reads up to 2000 lines starting from the beginning of the file\n- You can optionally specify a line offset and limit (especially handy for long files), but it's recommended to read the whole file by not providing these parameters\n- Any lines longer than 2000 characters will be truncated\n- Results are returned using cat -n format, with line numbers starting at 1\n- You have the capability to call multiple tools in a single response. It is always better to speculatively read multiple files as a batch that are potentially useful.\n- If you read a file that exists but has empty contents you will receive a system reminder warning in place of file contents.\n- You can read image files using this tool.";


/// The tool that reads a file.
pub struct ReadTool;

/// Lines shown when no limit is given.
pub const DEFAULT_LINE_LIMIT: usize = 2000;

/// Lines longer than this many characters are cut.
pub const MAX_LINE_LENGTH: usize = 2000;

/// A line cut to its first 2000 characters when it is longer.
pub open spec fn clip_line(l: Seq<char>) -> Seq<char> {
    if l.len() > 2000 {
        l.take(2000)
    } else {
        l
    }
}

/// Line `l` listed as line number `n`: the number right-aligned in six
/// columns, a tab, and the (cut) line.
pub open spec fn numbered_line(n: nat, l: Seq<char>) -> Seq<char> {
    pad_left(decimal(n), 6) + "\t"@ + clip_line(l)
}

/// The index of the first line shown: the 1-based `offset` made 0-based.
pub open spec fn first_shown(offset: Option<usize>) -> nat {
    match offset {
        Some(o) => if o >= 1 { (o - 1) as nat } else { 0 },
        None => 0,
    }
}

/// The most lines shown.
pub open spec fn line_limit(limit: Option<usize>) -> nat {
    match limit {
        Some(l) => l as nat,
        None => 2000,
    }
}

/// The lines of `content` that are shown.
pub open spec fn shown_lines(content: Seq<char>, offset: Option<usize>, limit: Option<usize>) -> Seq<Seq<char>> {
    let ls = lines(content);
    let off = first_shown(offset);
    if off >= ls.len() {
        Seq::empty()
    } else {
        let rest = ls.skip(off as int);
        if line_limit(limit) < rest.len() {
            rest.take(line_limit(limit) as int)
        } else {
            rest
        }
    }
}

/// The numbered listing of the shown lines, one per line.
pub open spec fn listing(content: Seq<char>, offset: Option<usize>, limit: Option<usize>) -> Seq<char> {
    let shown = shown_lines(content, offset, limit);
    let off = first_shown(offset);
    join(Seq::new(shown.len(), |k: int| numbered_line((off + k + 1) as nat, shown[k])), "\n"@)
}

fn clip(l: &[char]) -> (r: Vec<char>)
    ensures
        r@ == clip_line(l@),
{
    if l.len() <= 2000 {
        let r = slice_to_vec(l, 0, l.len());
        assert(r@ =~= l@);
        return r;
    }
    let r = slice_to_vec(l, 0, 2000);
    assert(r@ =~= l@.take(2000));
    r
}

impl ReadTool {
    /// The tool's name.
    pub fn name(&self) -> (r: &'static str)
        ensures
            r@ == "read"@,
    {
        proof {
            reveal_strlit("read");
        }
        "read"
    }

    /// What the tool is for.
    pub fn description(&self) -> (r: &'static str)
        ensures
            r@ == READ_DESCRIPTION@,
    {
        READ_DESCRIPTION
    }

    /// The numbered listing of the lines of `content` from the 1-based line
    /// `offset` on (default 1), at most `limit` of them (default 2000), each
    /// cut to 2000 characters.
    pub fn listing(content: &str, offset: Option<usize>, limit: Option<usize>) -> (r: String)
        ensures
            r@ == listing(content@, offset, limit),
    {
        let c = chars_of(content);
        let ls = lines_of(&c);
        let off: usize = match offset {
            Some(o) => if o >= 1 { o - 1 } else { 0 },
            None => 0,
        };
        let lim: usize = match limit {
            Some(l) => l,
            None => 2000,
        };
        let ghost shown = shown_lines(content@, offset, limit);
        let ghost f = |k: int| numbered_line((off + k + 1) as nat, shown[k]);
        let mut out: Vec<Vec<char>> = Vec::new();
        if off < ls.len() {
            let count: usize = if lim < ls.len() - off { lim } else { ls.len() - off };
            assert(shown.len() == count);
            let mut k: usize = 0;
            while k < count
                invariant
                    k <= count,
                    off + count <= ls@.len(),
                    ls@.len() == ls.len(),
                    shown.len() == count,
                    forall|j: int| 0 <= j < count ==> shown[j] == dv(ls@)[off + j],
                    f == (|k: int| numbered_line((off + k + 1) as nat, shown[k])),
                    shown == shown_lines(content@, offset, limit),
                    dv(out@) =~= Seq::new(k as nat, f),
                decreases count - k,
            {
                let line = &ls[off + k];
                assert(line@ == shown[k as int]);
                let num = decimal_of((off + k + 1) as u128);
                let mut entry = pad_left_vec(&num, 6);
                entry.push('\t');
                let cl = clip(line);
                push_all(&mut entry, &cl);
                proof {
                    reveal_strlit("\t");
                }
                assert(entry@ =~= f(k as int));
                let ghost b = dv(out@);
                let ghost e = entry@;
                out.push(entry);
                assert(dv(out@) =~= b.push(e));
                assert(b.push(e) =~= Seq::new((k + 1) as nat, f));
                k = k + 1;
            }
        } else {
            assert(dv(out@) =~= Seq::new(shown.len(), f));
        }
        let nl = lit("\n");
        proof {
            reveal_strlit("\n");
        }
        let r = join_vecs(&out, &nl);
        string_from_chars(&r)
    }

    /// How many lines the listing shows.
    pub fn lines_shown(content: &str, offset: Option<usize>, limit: Option<usize>) -> (r: usize)
        ensures
            r == shown_lines(content@, offset, limit).len(),
    {
        let c = chars_of(content);
        let ls = lines_of(&c);
        let off: usize = match offset {
            Some(o) => if o >= 1 { o - 1 } else { 0 },
            None => 0,
        };
        let lim: usize = match limit {
            Some(l) => l,
            None => 2000,
        };
        if off >= ls.len() {
            0
        } else if lim < ls.len() - off {
            lim
        } else {
            ls.len() - off
        }
    }

    /// How many lines `content` has.
    pub fn total_lines(content: &str) -> (r: usize)
        ensures
            r == lines(content@).len(),
    {
        let c = chars_of(content);
        let ls = lines_of(&c);
        ls.len()
    }
}

/// A read without a limit shows up to [`DEFAULT_LINE_LIMIT`] lines, which
/// is 2000 as the tool's description says: a file of at most that many
/// lines, read from the start, is shown whole, and a longer one shows
/// exactly its first [`DEFAULT_LINE_LIMIT`] lines.
pub proof fn law_default_limit(content: Seq<char>)
    ensures
        DEFAULT_LINE_LIMIT == 2000,
        line_limit(None) == DEFAULT_LINE_LIMIT,
        lines(content).len() <= DEFAULT_LINE_LIMIT ==> shown_lines(content, None, None) == lines(content),
        lines(content).len() > DEFAULT_LINE_LIMIT ==> shown_lines(content, None, None) == lines(content).take(
            DEFAULT_LINE_LIMIT as int,
        ),
        shown_lines(content, None, None).len() == if lines(content).len() <= DEFAULT_LINE_LIMIT {
            lines(content).len()
        } else {
            DEFAULT_LINE_LIMIT as nat
        },
{
    let ls = lines(content);
    assert(ls.skip(0) =~= ls);
}

/// A given limit bounds the lines shown: at most `limit` lines, and all
/// the lines from the offset on when there are no more than that.
pub proof fn law_given_limit(content: Seq<char>, offset: Option<usize>, limit: usize)
    ensures
        shown_lines(content, offset, Some(limit)).len() <= limit,
        first_shown(offset) < lines(content).len() && lines(content).len() - first_shown(offset) <= limit
            ==> shown_lines(content, offset, Some(limit)) == lines(content).skip(first_shown(offset) as int),
{
}

} // verus!
