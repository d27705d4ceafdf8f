//! Errors of tools and workspace transactions.

use vstd::prelude::*;

use crate::text::{decimal, push_decimal};

verus! {

/// Tool or workspace transaction failure.
#[derive(Debug)]
pub enum ToolError {
    PathEscape(String),
    InvalidPath(String),
    Io(String),
    Core(String),
    Load(String),
    Save(String),
    Workspace(String),
    Search(String),
    Serde(String),
    Message(String),
    ShellDenied(String),
    FileTooLarge { path: String, max: usize },
    BufferMissing,
}

pub enum ToolErrorView {
    PathEscape(Seq<char>),
    InvalidPath(Seq<char>),
    Io(Seq<char>),
    Core(Seq<char>),
    Load(Seq<char>),
    Save(Seq<char>),
    Workspace(Seq<char>),
    Search(Seq<char>),
    Serde(Seq<char>),
    Message(Seq<char>),
    ShellDenied(Seq<char>),
    FileTooLarge { path: Seq<char>, max: usize },
    BufferMissing,
}

impl View for ToolError {
    type V = ToolErrorView;

    open spec fn view(&self) -> ToolErrorView {
        match self {
            ToolError::PathEscape(s) => ToolErrorView::PathEscape(s@),
            ToolError::InvalidPath(s) => ToolErrorView::InvalidPath(s@),
            ToolError::Io(s) => ToolErrorView::Io(s@),
            ToolError::Core(s) => ToolErrorView::Core(s@),
            ToolError::Load(s) => ToolErrorView::Load(s@),
            ToolError::Save(s) => ToolErrorView::Save(s@),
            ToolError::Workspace(s) => ToolErrorView::Workspace(s@),
            ToolError::Search(s) => ToolErrorView::Search(s@),
            ToolError::Serde(s) => ToolErrorView::Serde(s@),
            ToolError::Message(s) => ToolErrorView::Message(s@),
            ToolError::ShellDenied(s) => ToolErrorView::ShellDenied(s@),
            ToolError::FileTooLarge { path, max } => ToolErrorView::FileTooLarge { path: path@, max: *max },
            ToolError::BufferMissing => ToolErrorView::BufferMissing,
        }
    }
}

/// The error's text (what `Display` shows).
pub open spec fn tool_error_text(e: ToolErrorView) -> Seq<char> {
    match e {
        ToolErrorView::PathEscape(s) => "path escapes workspace: "@ + s,
        ToolErrorView::InvalidPath(s) => "invalid path: "@ + s,
        ToolErrorView::Io(s) => "IO error: "@ + s,
        ToolErrorView::Core(s) => "editor core: "@ + s,
        ToolErrorView::Load(s) => "load error: "@ + s,
        ToolErrorView::Save(s) => "save error: "@ + s,
        ToolErrorView::Workspace(s) => "workspace: "@ + s,
        ToolErrorView::Search(s) => "search: "@ + s,
        ToolErrorView::Serde(s) => "serde: "@ + s,
        ToolErrorView::Message(s) => s,
        ToolErrorView::ShellDenied(s) => "shell disabled or command not allowed: "@ + s,
        ToolErrorView::FileTooLarge { path, max } => "file too large (max "@ + decimal(max as nat)
            + " bytes): \""@ + path + "\""@,
        ToolErrorView::BufferMissing => "buffer not found for path (internal)"@,
    }
}

fn prefixed(prefix: &str, s: &String) -> (r: String)
    ensures
        r@ == prefix@ + s@,
{
    let mut r = prefix.to_owned();
    r.append(s.as_str());
    r
}

impl ToolError {
    pub fn msg(s: String) -> (r: ToolError)
        ensures
            r@ == ToolErrorView::Message(s@),
    {
        ToolError::Message(s)
    }

    /// The error's text.
    pub fn text(&self) -> (r: String)
        ensures
            r@ == tool_error_text(self@),
    {
        match self {
            ToolError::PathEscape(s) => prefixed("path escapes workspace: ", s),
            ToolError::InvalidPath(s) => prefixed("invalid path: ", s),
            ToolError::Io(s) => prefixed("IO error: ", s),
            ToolError::Core(s) => prefixed("editor core: ", s),
            ToolError::Load(s) => prefixed("load error: ", s),
            ToolError::Save(s) => prefixed("save error: ", s),
            ToolError::Workspace(s) => prefixed("workspace: ", s),
            ToolError::Search(s) => prefixed("search: ", s),
            ToolError::Serde(s) => prefixed("serde: ", s),
            ToolError::Message(s) => s.clone(),
            ToolError::ShellDenied(s) => prefixed("shell disabled or command not allowed: ", s),
            ToolError::FileTooLarge { path, max } => {
                let mut r = "file too large (max ".to_owned();
                push_decimal(&mut r, *max as u64);
                r.append(" bytes): \"");
                r.append(path.as_str());
                r.append("\"");
                r
            },
            ToolError::BufferMissing => "buffer not found for path (internal)".to_owned(),
        }
    }
}

} // verus!
