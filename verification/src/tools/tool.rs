//! What a tool call hands back to the model.

use vstd::prelude::*;

verus! {

/// A tool's answer: the text the model reads, and whether it reports a
/// failure.
#[derive(Debug, Clone)]
pub struct ToolOutput {
    pub content: String,
    pub is_error: bool,
}

impl ToolOutput {
    pub fn text(s: String) -> (r: ToolOutput)
        ensures
            r.content@ == s@,
            !r.is_error,
    {
        ToolOutput { content: s, is_error: false }
    }

    pub fn error(s: String) -> (r: ToolOutput)
        ensures
            r.content@ == s@,
            r.is_error,
    {
        ToolOutput { content: s, is_error: true }
    }
}

} // verus!
