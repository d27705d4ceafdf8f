//! `replace_in_file`: exact string replacement with occurrence control.

use vstd::prelude::*;
use vstd::string::StringSliceAdditionalSpecFns;
use vstd::utf8::encode_utf8;

use crate::search::{match_byte_indices, match_positions, replace_all, replace_all_chars};
use crate::text::{chars_of, decimal, push_decimal, string_from_chars};
use crate::tools::error::{ToolError, ToolErrorView};
use crate::tools::transaction::{BufferEdit, BufferEditView, PendingChange, PendingChangeView, WorkspaceTx};

verus! {

/// Input of `replace_in_file`.
pub struct ReplaceInFileInput {
    pub path: String,
    pub old_text: String,
    pub new_text: String,
    /// 1 = first match; `0` = replace all occurrences.
    pub occurrence: Option<u32>,
}

/// What one `replace_in_file` call decides, before it is staged or previewed.
pub enum ReplacePlan {
    /// Replace every match: the new text of the whole file.
    All { count: nat, new_text: Seq<char> },
    /// Replace the single match at these byte offsets.
    One { start: int, end: int },
}

/// The decision of `replace_in_file` on file bytes `b` (text `t`): every
/// match for occurrence 0, else the `occurrence`-th (the first by default).
pub open spec fn replace_plan(t: Seq<char>, old_text: Seq<char>, new_text: Seq<char>, occurrence: Option<u32>) -> Result<ReplacePlan, ToolErrorView> {
    let b = encode_utf8(t);
    let pat = encode_utf8(old_text);
    let m = match_positions(b, pat);
    let n = m.len();
    let occ: u32 = match occurrence { Some(o) => o, None => 1 };
    if n == 0 {
        Err(ToolErrorView::Message("old_text not found — use grep to locate the exact snippet first."@))
    } else if occ == 0 {
        Ok(ReplacePlan::All { count: n, new_text: replace_all(t, old_text, new_text) })
    } else if occ as nat - 1 >= n {
        Err(ToolErrorView::Message("occurrence "@ + decimal(occ as nat) + " out of range ("@ + decimal(n)
            + " matches)"@))
    } else {
        Ok(ReplacePlan::One { start: m[occ - 1], end: m[occ - 1] + pat.len() })
    }
}

/// Exact string replacement (not regex) in one file.
pub struct ReplaceInFileTool;

impl ReplaceInFileTool {
    pub fn name(&self) -> (r: &'static str)
        ensures
            r@ == "replace_in_file"@,
    {
        "replace_in_file"
    }

    pub fn description(&self) -> (r: &'static str)
        ensures
            r@ == "Exact string replacement (not regex). Use occurrence=0 for all; default first match only."@,
    {
        "Exact string replacement (not regex). Use occurrence=0 for all; default first match only."
    }

    /// Runs the tool. `target` is the resolved path of `p.path` with the
    /// file's current text, or the error that resolving or reading gave.
    pub fn invoke(
        &self,
        p: ReplaceInFileInput,
        target: Result<(String, String), ToolError>,
        tx: &mut WorkspaceTx,
        dry_run: bool,
    ) -> (r: Result<String, ToolError>)
        ensures
            final(tx).root_view() == old(tx).root_view(),
            p.old_text@.len() == 0 ==> r is Err && r->Err_0@ == ToolErrorView::Message(
                "old_text must not be empty"@,
            ) && final(tx).pending_view() == old(tx).pending_view(),
            p.old_text@.len() > 0 ==> match target {
                Err(e) => r is Err && r->Err_0@ == e@ && final(tx).pending_view() == old(
                    tx,
                ).pending_view(),
                Ok((path, text)) => match replace_plan(text@, p.old_text@, p.new_text@, p.occurrence) {
                    Err(ev) => r is Err && r->Err_0@ == ev && final(tx).pending_view() == old(
                        tx,
                    ).pending_view(),
                    Ok(ReplacePlan::All { count, new_text }) => r is Ok && if dry_run {
                        &&& final(tx).pending_view() == old(tx).pending_view()
                        &&& r->Ok_0@ == "Will replace all "@ + decimal(count) + " occurrences ("@
                            + decimal((encode_utf8(p.old_text@).len() as usize) as nat)
                            + " bytes each)."@
                    } else {
                        &&& final(tx).pending_view() == old(tx).pending_view().push(
                            PendingChangeView::EditBuffer {
                                path: path@,
                                edit: BufferEditView::FullReplace { new_text },
                            },
                        )
                        &&& r->Ok_0@ == "Staged replace of all "@ + decimal(count)
                            + " occurrences."@
                    },
                    Ok(ReplacePlan::One { start, end }) => r is Ok && if dry_run {
                        &&& final(tx).pending_view() == old(tx).pending_view()
                        &&& r->Ok_0@ == "Will replace bytes "@ + decimal(start as nat) + "-"@
                            + decimal(end as nat) + " (one occurrence)."@
                    } else {
                        &&& final(tx).pending_view() == old(tx).pending_view().push(
                            PendingChangeView::EditBuffer {
                                path: path@,
                                edit: BufferEditView::ReplaceRange {
                                    start_byte: start as usize,
                                    end_byte: end as usize,
                                    new_text: p.new_text@,
                                },
                            },
                        )
                        &&& r->Ok_0@ == "Staged replace_in_file."@
                    },
                },
            },
    {
        if p.old_text.as_str().is_empty() {
            return Err(ToolError::msg("old_text must not be empty".to_owned()));
        }
        let (path, text) = target?;
        let occ: u32 = match p.occurrence {
            Some(o) => o,
            None => 1,
        };
        let hay = text.as_str().as_bytes();
        let pat = p.old_text.as_str().as_bytes();
        let matches = match_byte_indices(hay, pat);
        let n = matches.len();
        proof {
            assert(matches@.map_values(|i: usize| i as int).len() == n);
        }
        if n == 0 {
            return Err(
                ToolError::msg("old_text not found — use grep to locate the exact snippet first.".to_owned()),
            );
        }
        if occ == 0 {
            if dry_run {
                let mut msg = "Will replace all ".to_owned();
                push_decimal(&mut msg, n as u64);
                msg.append(" occurrences (");
                push_decimal(&mut msg, pat.len() as u64);
                msg.append(" bytes each).");
                return Ok(msg);
            }
            let tc = chars_of(text.as_str());
            let oc = chars_of(p.old_text.as_str());
            let nc = chars_of(p.new_text.as_str());
            let replaced = replace_all_chars(tc.as_slice(), oc.as_slice(), nc.as_slice());
            let buf = string_from_chars(replaced.as_slice());
            let mut msg = "Staged replace of all ".to_owned();
            push_decimal(&mut msg, n as u64);
            msg.append(" occurrences.");
            tx.stage_change(
                PendingChange::EditBuffer { path, edit: BufferEdit::FullReplace { new_text: buf } },
            );
            return Ok(msg);
        }
        let idx = (occ - 1) as usize;
        if idx >= n {
            let mut msg = "occurrence ".to_owned();
            push_decimal(&mut msg, occ as u64);
            msg.append(" out of range (");
            push_decimal(&mut msg, n as u64);
            msg.append(" matches)");
            return Err(ToolError::msg(msg));
        }
        let hl = hay.len();
        let start = matches[idx];
        assert(start + pat@.len() <= hay@.len());
        let end = start + pat.len();
        assert(matches@.map_values(|i: usize| i as int)[idx as int] == start as int);
        if dry_run {
            let mut msg = "Will replace bytes ".to_owned();
            push_decimal(&mut msg, start as u64);
            msg.append("-");
            push_decimal(&mut msg, end as u64);
            msg.append(" (one occurrence).");
            return Ok(msg);
        }
        tx.stage_change(
            PendingChange::EditBuffer {
                path,
                edit: BufferEdit::ReplaceRange { start_byte: start, end_byte: end, new_text: p.new_text },
            },
        );
        Ok("Staged replace_in_file.".to_owned())
    }
}

/// A single replacement covers one real occurrence of the old text's bytes
/// (the first one unless another occurrence is asked for); "not found"
/// comes exactly when the old text does not occur; replacing all reports
/// at least one match; an occurrence past the last match is refused.
pub proof fn law_replace_plan_targets_an_occurrence(
    t: Seq<char>,
    old_text: Seq<char>,
    new_text: Seq<char>,
    occurrence: Option<u32>,
)
    requires
        encode_utf8(old_text).len() > 0,
    ensures
        ({
            let b = encode_utf8(t);
            let pat = encode_utf8(old_text);
            &&& !(exists|i: int| crate::search::occurs_at(b, pat, i)) ==> replace_plan(
                t,
                old_text,
                new_text,
                occurrence,
            ) == Err::<ReplacePlan, ToolErrorView>(
                ToolErrorView::Message("old_text not found — use grep to locate the exact snippet first."@),
            )
            &&& replace_plan(t, old_text, new_text, occurrence) matches Ok(ReplacePlan::One { start, end }) ==> {
                &&& crate::search::occurs_at(b, pat, start)
                &&& end == start + pat.len()
                &&& (occurrence is None || occurrence == Some(1u32)) ==> forall|i: int|
                    0 <= i < start ==> !crate::search::occurs_at(b, pat, i)
            }
            &&& replace_plan(t, old_text, new_text, occurrence) matches Ok(ReplacePlan::All { count, .. })
                ==> occurrence == Some(0u32) && count >= 1
            &&& ((exists|i: int| crate::search::occurs_at(b, pat, i)) && (occurrence is None || occurrence
                == Some(0u32) || occurrence == Some(1u32))) ==> replace_plan(t, old_text, new_text, occurrence) is Ok
        }),
{
    let b = encode_utf8(t);
    let pat = encode_utf8(old_text);
    crate::search::law_matches_are_first_occurrences(b, pat, 0);
    let m = match_positions(b, pat);
    if exists|i: int| crate::search::occurs_at(b, pat, i) {
        let i = choose|i: int| crate::search::occurs_at(b, pat, i);
        assert(0 <= i);
        assert(m.len() > 0);
    }
    if m.len() > 0 {
        assert(crate::search::occurs_at(b, pat, m[0]));
    }
    let occ: u32 = match occurrence { Some(o) => o, None => 1 };
    if m.len() > 0 && occ >= 1 && (occ as nat - 1) < m.len() {
        assert(crate::search::occurs_at(b, pat, m[occ - 1]));
    }
}

} // verus!
