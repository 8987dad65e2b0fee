//! Tools that gather information: hover text from a language server, web
//! search results, and the arbiter's completion signal. The requests
//! themselves are I/O and happen outside; the text they produce is made
//! here.
use vstd::prelude::*;
use crate::text::{chars_of, concat_str, dv, join, join_vecs, lit, owned, push_all, push_str, string_from_chars, sv};

verus! {

/// What the hover tool is for, as the model is told.
pub const LSP_HOVER_DESCRIPTION: &'static str = "Get hover information (type hints, documentation) at a specific position in a file.\n\nThis tool provides IDE-like hover tooltips showing:\n- Type information for variables, functions, etc.\n- Documentation comments\n- Function signatures\n\nUse this when you need to understand the type or documentation of code at a specific location.";

/// What the web search tool is for, as the model is told.
pub const WEB_SEARCH_DESCRIPTION: &'static str = "Search the internet using SearXNG.\n\nUsage:\n  {\"query\": \"rust web frameworks\", \"limit\": 5}\n\nArguments:\n  - query (required): Your search query for the search engine\n  - limit (optional): Number of results to return (default: 5)\n\nReturns a formatted text with search results including titles, URLs, and content snippets.\n\nExample:\n  To search for information about Rust web frameworks:\n  {\"query\": \"rust web frameworks comparison\", \"limit\": 3}\n";

/// What the task-complete tool is for, as the model is told.
pub const TASK_COMPLETE_DESCRIPTION: &'static str = "Mark the task as complete. Call ONCE with summary and verification details. After calling this tool, write a final response summarizing the completed work, what was verified, and any relevant file paths or documentation links. This final response is what the calling agent sees. Do not call any more tools after this.";


/// The tool that shows hover information at a position.
pub struct LspHoverTool;

/// The tool that searches the web.
pub struct WebSearchTool;

/// The tool the arbiter calls when the work is verified.
pub struct TaskCompleteTool;

/// One entry of hover contents: a plain string, an object with an optional
/// language and an optional value, or anything else.
#[derive(Debug, Clone, PartialEq)]
pub enum HoverItem {
    Text(String),
    Object { language: Option<String>, value: Option<String> },
    Other,
}

/// The `contents` of a hover result: one entry or a list of entries.
#[derive(Debug, Clone, PartialEq)]
pub enum HoverContents {
    Single(HoverItem),
    List(Vec<HoverItem>),
}

/// The text of one hover entry: a string as it is; an object with a
/// language and a value as a fenced code block; an object with a value as
/// the value; anything else as nothing.
pub open spec fn item_text(h: HoverItem) -> Seq<char> {
    match h {
        HoverItem::Text(s) => s@,
        HoverItem::Object { language, value } => match (language, value) {
            (Some(l), Some(v)) => "```"@ + l@ + "\n"@ + v@ + "\n```"@,
            (None, Some(v)) => v@,
            _ => Seq::empty(),
        },
        HoverItem::Other => Seq::empty(),
    }
}

/// The texts of a list of entries.
pub open spec fn item_texts(v: Seq<HoverItem>) -> Seq<Seq<char>> {
    v.map_values(|h: HoverItem| item_text(h))
}

/// The text of hover contents; the non-empty texts of a list are joined by
/// blank lines.
pub open spec fn hover_text(c: HoverContents) -> Seq<char> {
    match c {
        HoverContents::Single(h) => item_text(h),
        HoverContents::List(v) => join(item_texts(v@).filter(|t: Seq<char>| t.len() > 0), "\n\n"@),
    }
}

/// What the hover tool says when there is nothing to show.
pub open spec fn no_hover_message() -> Seq<char> {
    "No hover information available at this position."@
}

/// The non-empty texts of the hover results that have contents.
pub open spec fn result_texts(results: Seq<Option<HoverContents>>) -> Seq<Seq<char>>
    decreases results.len(),
{
    if results.len() == 0 {
        Seq::empty()
    } else {
        result_texts(results.drop_last()) + match results.last() {
            Some(c) => if hover_text(c).len() > 0 {
                seq![hover_text(c)]
            } else {
                Seq::empty()
            },
            None => Seq::empty(),
        }
    }
}

/// The hover tool's output for the results of a request: the texts
/// separated by `---` lines, or a note that there is nothing to show.
pub open spec fn hover_output(results: Seq<Option<HoverContents>>) -> Seq<char> {
    let ts = result_texts(results);
    if ts.len() == 0 {
        no_hover_message()
    } else {
        join(ts, "\n---\n"@)
    }
}

/// The text of one hover entry (see [`item_text`]).
pub fn format_hover_item(h: &HoverItem) -> (r: String)
    ensures
        r@ == item_text(*h),
{
    match h {
        HoverItem::Text(s) => owned(s.as_str()),
        HoverItem::Object { language, value } => match (language, value) {
            (Some(l), Some(v)) => {
                proof {
                    reveal_strlit("```");
                    reveal_strlit("\n");
                    reveal_strlit("\n```");
                }
                let mut out = lit("```");
                push_str(&mut out, l.as_str());
                push_str(&mut out, "\n");
                push_str(&mut out, v.as_str());
                push_str(&mut out, "\n```");
                string_from_chars(&out)
            },
            (None, Some(v)) => owned(v.as_str()),
            _ => String::new(),
        },
        HoverItem::Other => String::new(),
    }
}

/// The text of hover contents (see [`hover_text`]).
pub fn format_hover_contents(c: &HoverContents) -> (r: String)
    ensures
        r@ == hover_text(*c),
{
    match c {
        HoverContents::Single(h) => format_hover_item(h),
        HoverContents::List(v) => {
            let ghost pred = |t: Seq<char>| t.len() > 0;
            let mut kept: Vec<Vec<char>> = Vec::new();
            let mut i: usize = 0;
            proof {
                reveal(Seq::filter);
            }
            assert(item_texts(v@).take(0) =~= Seq::<Seq<char>>::empty());
            while i < v.len()
                invariant
                    i <= v@.len(),
                    pred == (|t: Seq<char>| t.len() > 0),
                    dv(kept@) == item_texts(v@).take(i as int).filter(pred),
                decreases v@.len() - i,
            {
                let t = format_hover_item(&v[i]);
                let tc = chars_of(t.as_str());
                assert(item_texts(v@).take(i as int + 1).drop_last() =~= item_texts(v@).take(i as int));
                assert(item_texts(v@).take(i as int + 1).last() == tc@);
                proof {
                    reveal(Seq::filter);
                }
                if tc.len() > 0 {
                    let ghost b = dv(kept@);
                    kept.push(tc);
                    assert(dv(kept@) =~= b.push(t@));
                }
                i = i + 1;
            }
            assert(item_texts(v@).take(v@.len() as int) =~= item_texts(v@));
            let sep = lit("\n\n");
            proof {
                reveal_strlit("\n\n");
            }
            let r = join_vecs(&kept, &sep);
            string_from_chars(&r)
        },
    }
}

impl LspHoverTool {
    /// The tool's name.
    pub fn name(&self) -> (r: &'static str)
        ensures
            r@ == "lsp_hover"@,
    {
        proof {
            reveal_strlit("lsp_hover");
        }
        "lsp_hover"
    }

    /// What the tool is for.
    pub fn description(&self) -> (r: &'static str)
        ensures
            r@ == LSP_HOVER_DESCRIPTION@,
    {
        LSP_HOVER_DESCRIPTION
    }

    /// The output for the hover results of a request; `None` stands for a
    /// result without contents (see [`hover_output`]).
    pub fn output(results: &Vec<Option<HoverContents>>) -> (r: String)
        ensures
            r@ == hover_output(results@),
    {
        let mut texts: Vec<Vec<char>> = Vec::new();
        let mut i: usize = 0;
        assert(results@.take(0) =~= Seq::<Option<HoverContents>>::empty());
        while i < results.len()
            invariant
                i <= results@.len(),
                dv(texts@) == result_texts(results@.take(i as int)),
            decreases results@.len() - i,
        {
            assert(results@.take(i as int + 1).drop_last() =~= results@.take(i as int));
            assert(results@.take(i as int + 1).last() == results@[i as int]);
            match &results[i] {
                Some(c) => {
                    let t = format_hover_contents(c);
                    let tc = chars_of(t.as_str());
                    if tc.len() > 0 {
                        let ghost b = dv(texts@);
                        texts.push(tc);
                        assert(dv(texts@) =~= b + seq![t@]);
                    } else {
                        assert(dv(texts@) =~= dv(texts@) + Seq::<Seq<char>>::empty());
                    }
                },
                None => {
                    assert(dv(texts@) =~= dv(texts@) + Seq::<Seq<char>>::empty());
                },
            }
            i = i + 1;
        }
        assert(results@.take(results@.len() as int) =~= results@);
        proof {
            reveal_strlit("No hover information available at this position.");
            reveal_strlit("\n---\n");
        }
        if texts.len() == 0 {
            return owned("No hover information available at this position.");
        }
        let sep = lit("\n---\n");
        let r = join_vecs(&texts, &sep);
        string_from_chars(&r)
    }
}

/// A search result: page address, title and snippet.
#[derive(Debug, Clone, PartialEq)]
pub struct SearchResult {
    pub url: String,
    pub title: String,
    pub content: String,
}

/// An infobox of a search answer.
#[derive(Debug, Clone, PartialEq)]
pub struct Infobox {
    pub infobox: String,
    pub id: String,
    pub content: String,
}

/// The text for the infoboxes.
pub open spec fn infobox_text(b: Seq<Infobox>) -> Seq<char>
    decreases b.len(),
{
    if b.len() == 0 {
        Seq::empty()
    } else {
        infobox_text(b.drop_last()) + "Infobox: "@ + b.last().infobox@ + "\nID: "@ + b.last().id@ + "\nContent: "@
            + b.last().content@ + "\n\n"@
    }
}

/// The text for the results.
pub open spec fn results_text(r: Seq<SearchResult>) -> Seq<char>
    decreases r.len(),
{
    if r.len() == 0 {
        Seq::empty()
    } else {
        results_text(r.drop_last()) + "Title: "@ + r.last().title@ + "\nURL: "@ + r.last().url@ + "\nContent: "@
            + r.last().content@ + "\n\n"@
    }
}

/// The search tool's output: the infoboxes, then the first `limit` results
/// or a note that there are none.
pub open spec fn search_text(boxes: Seq<Infobox>, results: Seq<SearchResult>, limit: nat) -> Seq<char> {
    infobox_text(boxes) + if results.len() == 0 {
        "No results found\n"@
    } else {
        results_text(results.take(if limit < results.len() { limit as int } else { results.len() as int }))
    }
}

impl WebSearchTool {
    /// The search tool.
    pub fn new() -> WebSearchTool {
        WebSearchTool
    }

    /// The tool's name.
    pub fn name(&self) -> (r: &'static str)
        ensures
            r@ == "websearch"@,
    {
        proof {
            reveal_strlit("websearch");
        }
        "websearch"
    }

    /// What the tool is for.
    pub fn description(&self) -> (r: &'static str)
        ensures
            r@ == WEB_SEARCH_DESCRIPTION@,
    {
        WEB_SEARCH_DESCRIPTION
    }

    /// The text of a search answer (see [`search_text`]).
    pub fn format_results(boxes: &Vec<Infobox>, results: &Vec<SearchResult>, limit: usize) -> (r: String)
        ensures
            r@ == search_text(boxes@, results@, limit as nat),
    {
        proof {
            reveal_strlit("Infobox: ");
            reveal_strlit("\nID: ");
            reveal_strlit("\nContent: ");
            reveal_strlit("\n\n");
            reveal_strlit("Title: ");
            reveal_strlit("\nURL: ");
            reveal_strlit("No results found\n");
        }
        let mut out: Vec<char> = Vec::new();
        let mut i: usize = 0;
        assert(boxes@.take(0) =~= Seq::<Infobox>::empty());
        while i < boxes.len()
            invariant
                i <= boxes@.len(),
                out@ == infobox_text(boxes@.take(i as int)),
            decreases boxes@.len() - i,
        {
            assert(boxes@.take(i as int + 1).drop_last() =~= boxes@.take(i as int));
            assert(boxes@.take(i as int + 1).last() == boxes@[i as int]);
            let b = &boxes[i];
            push_str(&mut out, "Infobox: ");
            push_str(&mut out, b.infobox.as_str());
            push_str(&mut out, "\nID: ");
            push_str(&mut out, b.id.as_str());
            push_str(&mut out, "\nContent: ");
            push_str(&mut out, b.content.as_str());
            push_str(&mut out, "\n\n");
            i = i + 1;
        }
        assert(boxes@.take(boxes@.len() as int) =~= boxes@);
        let ghost pre = out@;
        if results.len() == 0 {
            push_str(&mut out, "No results found\n");
        } else {
            let n: usize = if limit < results.len() { limit } else { results.len() };
            let mut k: usize = 0;
            assert(results@.take(0) =~= Seq::<SearchResult>::empty());
            while k < n
                invariant
                    k <= n <= results@.len(),
                    out@ == pre + results_text(results@.take(k as int)),
                decreases n - k,
            {
                assert(results@.take(k as int + 1).drop_last() =~= results@.take(k as int));
                assert(results@.take(k as int + 1).last() == results@[k as int]);
                let r = &results[k];
                push_str(&mut out, "Title: ");
                push_str(&mut out, r.title.as_str());
                push_str(&mut out, "\nURL: ");
                push_str(&mut out, r.url.as_str());
                push_str(&mut out, "\nContent: ");
                push_str(&mut out, r.content.as_str());
                push_str(&mut out, "\n\n");
                k = k + 1;
            }
        }
        string_from_chars(&out)
    }
}

/// The completion message for a summary and how the work was verified.
pub open spec fn completion_text(summary: Seq<char>, verification: Seq<char>) -> Seq<char> {
    "Task complete.\n\nSummary: "@ + summary + "\n\nVerification: "@ + verification
}

impl TaskCompleteTool {
    /// The tool's name.
    pub fn name(&self) -> (r: &'static str)
        ensures
            r@ == "task_complete"@,
    {
        proof {
            reveal_strlit("task_complete");
        }
        "task_complete"
    }

    /// What the tool is for.
    pub fn description(&self) -> (r: &'static str)
        ensures
            r@ == TASK_COMPLETE_DESCRIPTION@,
    {
        TASK_COMPLETE_DESCRIPTION
    }

    /// The tool's output for the arguments given (see [`completion_text`]).
    pub fn output(summary: &str, verification: &str) -> (r: String)
        ensures
            r@ == completion_text(summary@, verification@),
    {
        proof {
            reveal_strlit("Task complete.\n\nSummary: ");
            reveal_strlit("\n\nVerification: ");
        }
        let mut out = lit("Task complete.\n\nSummary: ");
        push_str(&mut out, summary);
        push_str(&mut out, "\n\nVerification: ");
        push_str(&mut out, verification);
        string_from_chars(&out)
    }
}

} // verus!
