//! `create_file`, `delete_file`, `move_file`.
//!
//! The caller resolves the paths and checks the file system; these tools
//! decide from what it found and stage the change.

use vstd::prelude::*;
use vstd::utf8::encode_utf8;

use crate::text::{decimal, push_decimal};
use crate::tools::error::{ToolError, ToolErrorView};
use crate::tools::transaction::{opt_text, PendingChange, PendingChangeView, WorkspaceTx};

verus! {

fn path_message(path: &String, tail: &str) -> (r: String)
    ensures
        r@ == path@ + tail@,
{
    let mut s = path.clone();
    s.append(tail);
    s
}

/// Input of `create_file`.
pub struct CreateFileInput {
    pub path: String,
    pub content: String,
}

/// Creates a new file; fails when the path already exists.
pub struct CreateFileTool;

impl CreateFileTool {
    pub fn name(&self) -> (r: &'static str)
        ensures
            r@ == "create_file"@,
    {
        "create_file"
    }

    pub fn description(&self) -> (r: &'static str)
        ensures
            r@ == "Create a new file under the workspace. Fails if the path already exists."@,
    {
        "Create a new file under the workspace. Fails if the path already exists."
    }

    /// `present` tells whether something is at the resolved `path` already.
    pub fn invoke(
        &self,
        p: CreateFileInput,
        path: String,
        present: bool,
        tx: &mut WorkspaceTx,
        dry_run: bool,
    ) -> (r: Result<String, ToolError>)
        ensures
            final(tx).root_view() == old(tx).root_view(),
            present ==> r is Err && r->Err_0@ == ToolErrorView::Message(path@ + " already exists"@),
            (present || dry_run) ==> final(tx).pending_view() == old(tx).pending_view(),
            (!present && dry_run) ==> r is Ok && r->Ok_0@ == "Will create "@ + path@ + " ("@ + decimal(
                (encode_utf8(p.content@).len() as usize) as nat,
            ) + " bytes)."@,
            (!present && !dry_run) ==> r is Ok && r->Ok_0@ == "Staged create_file."@
                && final(tx).pending_view() == old(tx).pending_view().push(
                PendingChangeView::WriteNewFile { path: path@, contents: p.content@ },
            ),
    {
        if present {
            return Err(ToolError::msg(path_message(&path, " already exists")));
        }
        if dry_run {
            let mut msg = "Will create ".to_owned();
            msg.append(path.as_str());
            msg.append(" (");
            push_decimal(&mut msg, p.content.as_str().len() as u64);
            msg.append(" bytes).");
            return Ok(msg);
        }
        tx.stage_change(PendingChange::WriteNewFile { path, contents: p.content });
        Ok("Staged create_file.".to_owned())
    }
}

/// Input of `delete_file`.
pub struct DeleteFileInput {
    pub path: String,
}

/// Byte length of an optional prior text (0 when unreadable).
pub open spec fn prior_len(prior: Option<Seq<char>>) -> nat {
    match prior {
        Some(t) => (encode_utf8(t).len() as usize) as nat,
        None => 0,
    }
}

/// Deletes a file (staged until commit).
pub struct DeleteFileTool;

impl DeleteFileTool {
    pub fn name(&self) -> (r: &'static str)
        ensures
            r@ == "delete_file"@,
    {
        "delete_file"
    }

    pub fn description(&self) -> (r: &'static str)
        ensures
            r@ == "Delete a file under the workspace (staged until commit)."@,
    {
        "Delete a file under the workspace (staged until commit)."
    }

    /// `present` tells whether the file is there; `prior` is its text when it
    /// could be read (kept so the deletion can be previewed).
    pub fn invoke(
        &self,
        p: DeleteFileInput,
        path: String,
        present: bool,
        prior: Option<String>,
        tx: &mut WorkspaceTx,
        dry_run: bool,
    ) -> (r: Result<String, ToolError>)
        ensures
            final(tx).root_view() == old(tx).root_view(),
            !present ==> r is Err && r->Err_0@ == ToolErrorView::Message(path@ + " does not exist"@),
            (!present || dry_run) ==> final(tx).pending_view() == old(tx).pending_view(),
            (present && dry_run) ==> r is Ok && r->Ok_0@ == "Will delete "@ + path@ + " ("@ + decimal(
                prior_len(opt_text(prior)),
            ) + " bytes)."@,
            (present && !dry_run) ==> r is Ok && r->Ok_0@ == "Staged delete_file."@
                && final(tx).pending_view() == old(tx).pending_view().push(
                PendingChangeView::DeleteFile { path: path@, prior_contents: opt_text(prior) },
            ),
    {
        if !present {
            return Err(ToolError::msg(path_message(&path, " does not exist")));
        }
        if dry_run {
            let n: usize = match &prior {
                Some(s) => s.as_str().len(),
                None => 0,
            };
            let mut msg = "Will delete ".to_owned();
            msg.append(path.as_str());
            msg.append(" (");
            push_decimal(&mut msg, n as u64);
            msg.append(" bytes).");
            return Ok(msg);
        }
        tx.stage_change(PendingChange::DeleteFile { path, prior_contents: prior });
        Ok("Staged delete_file.".to_owned())
    }
}

/// Input of `move_file`.
pub struct MoveFileInput {
    pub from: String,
    pub to: String,
}

/// Renames or moves a file within the workspace.
pub struct MoveFileTool;

impl MoveFileTool {
    pub fn name(&self) -> (r: &'static str)
        ensures
            r@ == "move_file"@,
    {
        "move_file"
    }

    pub fn description(&self) -> (r: &'static str)
        ensures
            r@ == "Rename or move a file within the workspace."@,
    {
        "Rename or move a file within the workspace."
    }

    /// `from_present` and `to_present` tell what is at the resolved paths.
    pub fn invoke(
        &self,
        p: MoveFileInput,
        from: String,
        to: String,
        from_present: bool,
        to_present: bool,
        tx: &mut WorkspaceTx,
        dry_run: bool,
    ) -> (r: Result<String, ToolError>)
        ensures
            final(tx).root_view() == old(tx).root_view(),
            !from_present ==> r is Err && r->Err_0@ == ToolErrorView::Message(
                from@ + " does not exist"@,
            ),
            (from_present && to_present) ==> r is Err && r->Err_0@ == ToolErrorView::Message(
                to@ + " already exists"@,
            ),
            (!from_present || to_present || dry_run) ==> final(tx).pending_view() == old(
                tx,
            ).pending_view(),
            (from_present && !to_present && dry_run) ==> r is Ok && r->Ok_0@ == "Will move "@ + from@
                + " -> "@ + to@ + "."@,
            (from_present && !to_present && !dry_run) ==> r is Ok && r->Ok_0@ == "Staged move_file."@
                && final(tx).pending_view() == old(tx).pending_view().push(
                PendingChangeView::MoveFile { from: from@, to: to@ },
            ),
    {
        if !from_present {
            return Err(ToolError::msg(path_message(&from, " does not exist")));
        }
        if to_present {
            return Err(ToolError::msg(path_message(&to, " already exists")));
        }
        if dry_run {
            let mut msg = "Will move ".to_owned();
            msg.append(from.as_str());
            msg.append(" -> ");
            msg.append(to.as_str());
            msg.append(".");
            return Ok(msg);
        }
        tx.stage_change(PendingChange::MoveFile { from, to });
        Ok("Staged move_file.".to_owned())
    }
}

} // verus!
