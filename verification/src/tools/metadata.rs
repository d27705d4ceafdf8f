//! `read_metadata` and `write_metadata_note`: the per-file metadata sidecars
//! under `.ide/meta/`. Loading a sidecar and rendering it as markdown is the
//! caller's work; this module holds what the tools decide.

use vstd::prelude::*;

use crate::text::{chars_of, string_from_chars, trim_chars, trim_seq};
use crate::tools::transaction::{PendingChange, PendingChangeView, WorkspaceTx};

verus! {

/// Input of `read_metadata`.
pub struct ReadMetadataInput {
    /// Workspace-relative path to a source file (not `.ide/meta/...`).
    pub path: String,
}

/// Loads the metadata sidecar of a source file, or a blank skeleton.
pub struct ReadMetadataTool;

impl ReadMetadataTool {
    pub fn name(&self) -> (r: &'static str)
        ensures
            r@ == "read_metadata"@,
    {
        "read_metadata"
    }

    pub fn description(&self) -> (r: &'static str)
        ensures
            r@ == "Load the metadata sidecar for a source file (.ide/meta/…), or a blank skeleton when none exists."@,
    {
        "Load the metadata sidecar for a source file (.ide/meta/…), or a blank skeleton when none exists."
    }

    /// The provenance written into a skeleton sidecar made by this tool.
    pub fn skeleton_source(&self) -> (r: &'static str)
        ensures
            r@ == "skeleton"@,
    {
        "skeleton"
    }
}

/// Input of `write_metadata_note`.
pub struct WriteMetadataNoteInput {
    pub path: String,
    pub note: String,
}

/// Appends to the Notes section of a sidecar (a staged upsert).
pub struct WriteMetadataNoteTool;

/// The notes after appending `note`: its trimmed text, after a blank line
/// when there were notes already.
pub open spec fn appended_notes(notes: Seq<char>, note: Seq<char>) -> Seq<char> {
    if notes.len() == 0 {
        trim_seq(note)
    } else {
        notes + "\n\n"@ + trim_seq(note)
    }
}

impl WriteMetadataNoteTool {
    pub fn name(&self) -> (r: &'static str)
        ensures
            r@ == "write_metadata_note"@,
    {
        "write_metadata_note"
    }

    pub fn description(&self) -> (r: &'static str)
        ensures
            r@ == "Append to the sidecar Notes section (staged upsert under `.ide/meta/`)."@,
    {
        "Append to the sidecar Notes section (staged upsert under `.ide/meta/`)."
    }

    /// The provenance written into a sidecar that this tool creates.
    pub fn new_sidecar_source(&self) -> (r: &'static str)
        ensures
            r@ == "manual"@,
    {
        "manual"
    }

    /// Appends `note` to the notes of a sidecar.
    pub fn append_note(&self, notes: &mut String, note: &str)
        ensures
            final(notes)@ == appended_notes(old(notes)@, note@),
    {
        if !notes.as_str().is_empty() {
            notes.append("\n\n");
        }
        let trimmed = trim_chars(&chars_of(note));
        let t = string_from_chars(trimmed.as_slice());
        notes.append(t.as_str());
        proof {
            reveal_strlit("\n\n");
        }
    }

    /// Finishes the tool once the caller has rendered the updated sidecar
    /// as `markdown` for the sidecar file `sidecar_path`: describes the write
    /// on a dry run, and stages it otherwise.
    pub fn finish(&self, sidecar_path: String, markdown: String, tx: &mut WorkspaceTx, dry_run: bool) -> (r:
        String)
        ensures
            final(tx).root_view() == old(tx).root_view(),
            dry_run ==> final(tx).pending_view() == old(tx).pending_view() && r@ == "Would write "@
                + sidecar_path@ + "."@,
            !dry_run ==> final(tx).pending_view() == old(tx).pending_view().push(
                PendingChangeView::UpsertFile { path: sidecar_path@, contents: markdown@ },
            ) && r@ == "Staged metadata note upsert."@,
    {
        if dry_run {
            let mut s = "Would write ".to_owned();
            s.append(sidecar_path.as_str());
            s.append(".");
            return s;
        }
        tx.stage_change(PendingChange::UpsertFile { path: sidecar_path, contents: markdown });
        "Staged metadata note upsert.".to_owned()
    }
}

/// What the editor's own `read_metadata` answers when a file has no sidecar.
pub fn no_sidecar_hint(path: &str) -> (r: String)
    ensures
        r@ == "No sidecar found for "@ + path@ + ". Use write_metadata_note to create one."@,
{
    let mut s = "No sidecar found for ".to_owned();
    s.append(path);
    s.append(". Use write_metadata_note to create one.");
    s
}

/// The notes after the editor's own `write_metadata_note` appends `note`
/// stamped with the time `stamp`: on a new line when there were notes.
pub open spec fn stamped_notes(notes: Seq<char>, stamp: Seq<char>, note: Seq<char>) -> Seq<char> {
    let entry = "["@ + stamp + "] "@ + note;
    if notes.len() == 0 {
        entry
    } else {
        notes.push('\n') + entry
    }
}

pub fn append_stamped_note(notes: &mut String, stamp: &str, note: &str)
    ensures
        final(notes)@ == stamped_notes(old(notes)@, stamp@, note@),
{
    let mut entry = "[".to_owned();
    entry.append(stamp);
    entry.append("] ");
    entry.append(note);
    if notes.as_str().is_empty() {
        *notes = entry;
    } else {
        notes.append("\n");
        notes.append(entry.as_str());
        proof {
            reveal_strlit("\n");
            assert(notes@ =~= old(notes)@.push('\n') + entry@);
        }
    }
}

/// What the editor's own `write_metadata_note` answers once the sidecar is
/// saved.
pub fn note_written_text(path: &str) -> (r: String)
    ensures
        r@ == "Wrote metadata note for "@ + path@,
{
    let mut s = "Wrote metadata note for ".to_owned();
    s.append(path);
    s
}

} // verus!
