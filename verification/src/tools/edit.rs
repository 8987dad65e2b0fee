//! Changing files: the write tool and the patch tool. What they decide and
//! report is here; reading and writing the files happens outside.
use vstd::prelude::*;
use crate::text::{
    byte_len, chars_of, concat_str, decimal, decimal_of, dv, join, join_vecs, lit, owned, push_all, push_str,
    starts_with, ends_with, has_prefix, has_suffix, string_from_chars, trim, trim_chars, sv, utf8_len, str_eq,
};
use crate::patch::{DiffHunk, HunkView, hv, parse_diff, parse_unified_diff};
use crate::tools::{copy_strings, MetaValue, MetaView, ToolReport, ToolStatus, ReportView};

verus! {

/// What the write tool is for, as the model is told.
pub const WRITE_DESCRIPTION: &'static str = "Writes a file to the local filesystem.\n\nUsage:\n- This tool will overwrite the existing file if there is one at the provided path.\n- If this is an existing file, you MUST use the Read tool first to read the file's contents. This tool will fail if you did not read the file first.\n- ALWAYS prefer editing existing files in the codebase. NEVER write new files unless explicitly required.\n- NEVER proactively create documentation files (*.md) or README files. Only create documentation files if explicitly requested by the User.\n- Only use emojis if the user explicitly requests it. Avoid writing emojis to files unless asked.";

/// What the patch tool is for, as the model is told.
pub const PATCH_DESCRIPTION: &'static str = "Apply a unified diff patch to modify multiple files at once.\n\nThis tool parses and applies patches in unified diff format, supporting:\n- Adding new files\n- Modifying existing files\n- Deleting files\n\nThe patch format should follow standard unified diff format with:\n- --- a/path/to/file (old file)\n- +++ b/path/to/file (new file)\n- @@ -start,count +start,count @@ (hunk header)\n- Lines starting with - (removed)\n- Lines starting with + (added)\n- Lines starting with space (context)\n\nUse this for bulk modifications across multiple files.";


/// The tool that writes a file.
pub struct WriteTool;

/// The tool that applies a unified diff.
pub struct PatchTool;

impl WriteTool {
    /// The tool's name.
    pub fn name(&self) -> (r: &'static str)
        ensures
            r@ == "write"@,
    {
        proof {
            reveal_strlit("write");
        }
        "write"
    }

    /// What the tool is for.
    pub fn description(&self) -> (r: &'static str)
        ensures
            r@ == WRITE_DESCRIPTION@,
    {
        WRITE_DESCRIPTION
    }

    /// The number of bytes written for `content`.
    pub fn bytes_written(content: &str) -> (r: u128)
        ensures
            r == byte_len(content@),
    {
        let c = chars_of(content);
        utf8_len(&c)
    }
}

/// The error for an empty patch.
pub open spec fn empty_patch_message() -> Seq<char> {
    "patchText is required"@
}

/// The error for a patch without file changes.
pub open spec fn no_changes_message() -> Seq<char> {
    "No file changes found in patch"@
}

/// What the patch tool makes of a patch text: an error for a blank text,
/// the parse error, an error when no file is changed, else the hunks.
pub open spec fn patch_plan(text: Seq<char>) -> Result<Seq<HunkView>, Seq<char>> {
    if trim(text).len() == 0 {
        Err(empty_patch_message())
    } else {
        match parse_diff(text) {
            Err(e) => Err("Failed to parse patch: "@ + e),
            Ok(h) => if h.len() == 0 {
                Err(no_changes_message())
            } else {
                Ok(h)
            },
        }
    }
}

/// `p` is an absolute path (it starts at the root).
pub open spec fn is_absolute(p: Seq<char>) -> bool {
    starts_with(p, "/"@)
}

/// `p` resolved against the working directory `wd`, as `Path::join` does.
pub open spec fn resolved_path(wd: Seq<char>, p: Seq<char>) -> Seq<char> {
    if is_absolute(p) || wd.len() == 0 {
        p
    } else if ends_with(wd, "/"@) {
        wd + p
    } else {
        wd + "/"@ + p
    }
}

/// Each item indented by two spaces, one per line.
pub open spec fn indented(items: Seq<Seq<char>>) -> Seq<char> {
    join(items.map_values(|x: Seq<char>| "  "@ + x), "\n"@)
}

/// The report of applying a patch, given the files changed and the
/// errors of the hunks that failed.
pub open spec fn patch_report(changed: Seq<Seq<char>>, errors: Seq<Seq<char>>) -> ReportView {
    if errors.len() == 0 {
        ReportView {
            status: ToolStatus::Completed,
            output: "Patch applied successfully. "@ + decimal(changed.len()) + " files changed:\n"@ + indented(changed),
            error: None,
            metadata: seq![
                ("filesChanged"@, MetaView::Count(changed.len() as u64)),
                ("files"@, MetaView::Texts(changed)),
            ],
        }
    } else {
        ReportView {
            status: if changed.len() > 0 { ToolStatus::Completed } else { ToolStatus::Error },
            output: "Patch partially applied. "@ + decimal(changed.len()) + "/"@ + decimal(changed.len() + errors.len())
                + " files changed.\nErrors:\n"@ + indented(errors),
            error: Some(decimal(errors.len()) + " files failed"@),
            metadata: seq![
                ("filesChanged"@, MetaView::Count(changed.len() as u64)),
                ("filesFailed"@, MetaView::Count(errors.len() as u64)),
                ("files"@, MetaView::Texts(changed)),
                ("errors"@, MetaView::Texts(errors)),
            ],
        }
    }
}

fn indent_all(items: &Vec<String>) -> (r: Vec<char>)
    ensures
        r@ == indented(sv(items@)),
{
    let mut v: Vec<Vec<char>> = Vec::new();
    let mut i: usize = 0;
    let ghost f = |x: Seq<char>| "  "@ + x;
    proof {
        reveal_strlit("  ");
        reveal_strlit("\n");
    }
    while i < items.len()
        invariant
            i <= items@.len(),
            f == (|x: Seq<char>| "  "@ + x),
            dv(v@) =~= sv(items@).take(i as int).map_values(f),
        decreases items@.len() - i,
    {
        let mut e = lit("  ");
        push_str(&mut e, items[i].as_str());
        let ghost b = dv(v@);
        v.push(e);
        assert(dv(v@) =~= b.push(e@));
        assert(sv(items@).take(i as int + 1).map_values(f) =~= sv(items@).take(i as int).map_values(f).push(f(items@[i as int]@)));
        i = i + 1;
    }
    assert(sv(items@).take(items@.len() as int) =~= sv(items@));
    let nl = lit("\n");
    join_vecs(&v, &nl)
}

impl PatchTool {
    /// The tool's name.
    pub fn name(&self) -> (r: &'static str)
        ensures
            r@ == "patch"@,
    {
        proof {
            reveal_strlit("patch");
        }
        "patch"
    }

    /// What the tool is for.
    pub fn description(&self) -> (r: &'static str)
        ensures
            r@ == PATCH_DESCRIPTION@,
    {
        PATCH_DESCRIPTION
    }

    /// The hunks to apply for a patch text (see [`patch_plan`]).
    pub fn plan(patch_text: &str) -> (r: Result<Vec<DiffHunk>, String>)
        ensures
            match r {
                Ok(h) => patch_plan(patch_text@) == Ok::<Seq<HunkView>, Seq<char>>(hv(h@)),
                Err(e) => patch_plan(patch_text@) == Err::<Seq<HunkView>, Seq<char>>(e@),
            },
    {
        let c = chars_of(patch_text);
        let t = trim_chars(&c);
        if t.len() == 0 {
            return Err(owned("patchText is required"));
        }
        match parse_unified_diff(patch_text) {
            Err(e) => Err(concat_str("Failed to parse patch: ", e.as_str())),
            Ok(h) => {
                if h.len() == 0 {
                    Err(owned("No file changes found in patch"))
                } else {
                    Ok(h)
                }
            },
        }
    }

    /// The path a hunk's file is written at (see [`resolved_path`]).
    pub fn resolve_path(working_dir: &str, file_path: &str) -> (r: String)
        ensures
            r@ == resolved_path(working_dir@, file_path@),
    {
        let p = chars_of(file_path);
        let w = chars_of(working_dir);
        let slash = lit("/");
        proof {
            reveal_strlit("/");
        }
        if has_prefix(&p, &slash) || w.len() == 0 {
            return owned(file_path);
        }
        if has_suffix(&w, &slash) {
            concat_str(working_dir, file_path)
        } else {
            let a = concat_str(working_dir, "/");
            concat_str(a.as_str(), file_path)
        }
    }

    /// Record that `file` was changed, once however many of its hunks apply.
    pub fn note_changed(changed: &mut Vec<String>, file: String)
        ensures
            sv(old(changed)@).contains(file@) ==> sv(final(changed)@) == sv(old(changed)@),
            !sv(old(changed)@).contains(file@) ==> sv(final(changed)@) == sv(old(changed)@).push(file@),
    {
        let mut i: usize = 0;
        while i < changed.len()
            invariant
                i <= changed@.len(),
                changed@ == old(changed)@,
                forall|j: int| 0 <= j < i ==> sv(changed@)[j] != file@,
            decreases changed@.len() - i,
        {
            if str_eq(changed[i].as_str(), file.as_str()) {
                assert(sv(changed@)[i as int] == file@);
                return;
            }
            i = i + 1;
        }
        let ghost b = sv(changed@);
        changed.push(file);
        assert(sv(changed@) =~= b.push(file@));
    }

    /// The message recorded for a hunk that failed.
    pub fn hunk_error(file_path: &str, error: &str) -> (r: String)
        ensures
            r@ == file_path@ + ": "@ + error@,
    {
        let a = concat_str(file_path, ": ");
        concat_str(a.as_str(), error)
    }

    /// The report of applying a patch (see [`patch_report`]).
    pub fn report(changed: &Vec<String>, errors: &Vec<String>) -> (r: ToolReport)
        ensures
            r@ == patch_report(sv(changed@), sv(errors@)),
    {
        proof {
            reveal_strlit("Patch applied successfully. ");
            reveal_strlit(" files changed:\n");
            reveal_strlit("Patch partially applied. ");
            reveal_strlit("/");
            reveal_strlit(" files changed.\nErrors:\n");
            reveal_strlit(" files failed");
        }
        let n = changed.len();
        if errors.len() == 0 {
            let mut out = lit("Patch applied successfully. ");
            let d = decimal_of(n as u128);
            push_all(&mut out, &d);
            push_str(&mut out, " files changed:\n");
            let body = indent_all(changed);
            push_all(&mut out, &body);
            let mut metadata: Vec<(String, MetaValue)> = Vec::new();
            metadata.push((owned("filesChanged"), MetaValue::Count(n as u64)));
            metadata.push((owned("files"), MetaValue::Texts(copy_strings(changed))));
            proof {
                reveal_strlit("filesChanged");
                reveal_strlit("files");
            }
            let r = ToolReport { status: ToolStatus::Completed, output: string_from_chars(&out), error: None, metadata };
            assert(r@.metadata =~= patch_report(sv(changed@), sv(errors@)).metadata);
            r
        } else {
            let k = errors.len();
            let mut out = lit("Patch partially applied. ");
            let d = decimal_of(n as u128);
            push_all(&mut out, &d);
            push_str(&mut out, "/");
            let total = decimal_of(n as u128 + k as u128);
            push_all(&mut out, &total);
            push_str(&mut out, " files changed.\nErrors:\n");
            let body = indent_all(errors);
            push_all(&mut out, &body);
            let mut err = decimal_of(k as u128);
            push_str(&mut err, " files failed");
            let status = if n > 0 { ToolStatus::Completed } else { ToolStatus::Error };
            let mut metadata: Vec<(String, MetaValue)> = Vec::new();
            metadata.push((owned("filesChanged"), MetaValue::Count(n as u64)));
            metadata.push((owned("filesFailed"), MetaValue::Count(k as u64)));
            metadata.push((owned("files"), MetaValue::Texts(copy_strings(changed))));
            metadata.push((owned("errors"), MetaValue::Texts(copy_strings(errors))));
            proof {
                reveal_strlit("filesChanged");
                reveal_strlit("filesFailed");
                reveal_strlit("files");
                reveal_strlit("errors");
            }
            let r = ToolReport { status, output: string_from_chars(&out), error: Some(string_from_chars(&err)), metadata };
            assert(r@.metadata =~= patch_report(sv(changed@), sv(errors@)).metadata);
            r
        }
    }
}

} // verus!
