//! The tools agents call, and what they report back.
use vstd::prelude::*;

pub mod webfetch;
pub mod read;
pub mod search;
pub mod list;
pub mod edit;
pub mod info;
pub mod task;

use crate::text::{owned, sv};

verus! {

/// Outcome of a tool call.
#[derive(Debug, Clone, Copy, PartialEq, Eq, Structural)]
pub enum ToolStatus {
    Pending,
    Running,
    Completed,
    Error,
}

/// A value in the metadata of a tool report.
#[derive(Debug, Clone, PartialEq)]
pub enum MetaValue {
    Null,
    Count(u64),
    Flag(bool),
    Text(String),
    Texts(Vec<String>),
}

/// The content of a metadata value.
pub enum MetaView {
    Null,
    Count(u64),
    Flag(bool),
    Text(Seq<char>),
    Texts(Seq<Seq<char>>),
}

impl View for MetaValue {
    type V = MetaView;

    open spec fn view(&self) -> MetaView {
        match self {
            MetaValue::Null => MetaView::Null,
            MetaValue::Count(n) => MetaView::Count(*n),
            MetaValue::Flag(b) => MetaView::Flag(*b),
            MetaValue::Text(t) => MetaView::Text(t@),
            MetaValue::Texts(ts) => MetaView::Texts(sv(ts@)),
        }
    }
}

/// The views of metadata entries.
pub open spec fn meta_view(m: Seq<(String, MetaValue)>) -> Seq<(Seq<char>, MetaView)> {
    m.map_values(|e: (String, MetaValue)| (e.0@, e.1@))
}

/// A copy of a list of strings.
pub fn copy_strings(v: &Vec<String>) -> (r: Vec<String>)
    ensures
        sv(r@) == sv(v@),
{
    let mut r: Vec<String> = Vec::new();
    let mut i: usize = 0;
    while i < v.len()
        invariant
            i <= v@.len(),
            sv(r@) == sv(v@).take(i as int),
        decreases v@.len() - i,
    {
        let ghost b = sv(r@);
        let c = owned(v[i].as_str());
        r.push(c);
        assert(sv(r@) =~= b.push(c@));
        assert(sv(v@).take(i as int + 1) =~= sv(v@).take(i as int).push(v@[i as int]@));
        assert(sv(r@) =~= sv(v@).take(i as int + 1));
        i = i + 1;
    }
    assert(sv(v@).take(v@.len() as int) =~= sv(v@));
    r
}

/// What a tool call reports: its status, its output, on failure the error
/// message, and named facts about the call (its metadata).
#[derive(Debug, Clone, PartialEq)]
pub struct ToolReport {
    pub status: ToolStatus,
    pub output: String,
    pub error: Option<String>,
    pub metadata: Vec<(String, MetaValue)>,
}

/// The content of a tool report.
pub struct ReportView {
    pub status: ToolStatus,
    pub output: Seq<char>,
    pub error: Option<Seq<char>>,
    pub metadata: Seq<(Seq<char>, MetaView)>,
}

impl View for ToolReport {
    type V = ReportView;

    open spec fn view(&self) -> ReportView {
        ReportView {
            status: self.status,
            output: self.output@,
            error: match self.error {
                Some(e) => Some(e@),
                None => None,
            },
            metadata: meta_view(self.metadata@),
        }
    }
}

/// A completed report with `output`, no error and no metadata.
pub fn completed(output: String) -> (r: ToolReport)
    ensures
        r@ == (ReportView { status: ToolStatus::Completed, output: output@, error: None, metadata: Seq::empty() }),
{
    let r = ToolReport { status: ToolStatus::Completed, output, error: None, metadata: Vec::new() };
    assert(r@.metadata =~= Seq::<(Seq<char>, MetaView)>::empty());
    r
}

/// A failed report with an empty output, the error `error` and no metadata.
pub fn failed(error: String) -> (r: ToolReport)
    ensures
        r@ == (ReportView {
            status: ToolStatus::Error,
            output: Seq::empty(),
            error: Some(error@),
            metadata: Seq::empty(),
        }),
{
    let r = ToolReport { status: ToolStatus::Error, output: String::new(), error: Some(error), metadata: Vec::new() };
    assert(r@.output =~= Seq::<char>::empty());
    assert(r@.metadata =~= Seq::<(Seq<char>, MetaView)>::empty());
    r
}

} // verus!
