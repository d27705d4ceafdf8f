//! Precision edits: `edit_lines`, `insert_at`, `append_to`.
//!
//! Each tool works on the text that the file holds once the already staged
//! changes are applied (read by the caller), computes where the change goes,
//! and either describes it (dry run) or stages it in the transaction.

use vstd::prelude::*;
use vstd::string::StringSliceAdditionalSpecFns;
use vstd::utf8::encode_utf8;

use crate::text::{decimal, push_decimal};
use crate::tools::error::{ToolError, ToolErrorView};
use crate::tools::lines::{
    law_line_start_after_newlines, LF,
    lemma_line_start_bounds, lemma_line_start_exists, line_start, line_start_from, line_to_byte,
    newline_count_from,
    count_newlines,
};
use crate::tools::transaction::{BufferEdit, BufferEditView, PendingChange, PendingChangeView, WorkspaceTx};

verus! {

/// Text of the error for a line index that the text does not have.
pub open spec fn missing_line_text(i: nat) -> Seq<char> {
    "line index "@ + decimal(i) + " is past the end of the text"@
}

fn missing_line(i: usize) -> (r: ToolError)
    ensures
        r@ == ToolErrorView::Core(missing_line_text(i as nat)),
{
    let mut s = "line index ".to_owned();
    push_decimal(&mut s, i as u64);
    s.append(" is past the end of the text");
    ToolError::Core(s)
}

/// Byte offset of 0-based line `i`, or the error for a missing line.
fn line_byte(text: &str, i: usize) -> (r: Result<usize, ToolError>)
    ensures
        match line_start(text.spec_bytes(), i as nat) {
            Some(p) => r is Ok && r->Ok_0 == p,
            None => r is Err && r->Err_0@ == ToolErrorView::Core(missing_line_text(i as nat)),
        },
{
    match line_to_byte(text, i) {
        Some(p) => Ok(p),
        None => Err(missing_line(i)),
    }
}

/// Where the replaced range of an `edit_lines` call ends: the start of the
/// line after `end_line`, or the end of the text when there is none.
pub open spec fn span_end(b: Seq<u8>, end_line: u64) -> int {
    if (end_line as usize) as nat > newline_count_from(b, 0) {
        b.len() as int
    } else {
        line_start(b, (end_line as usize) as nat).unwrap()
    }
}

/// The byte range that lines `start_line..=end_line` (1-based) occupy.
pub open spec fn line_span(b: Seq<u8>, start_line: u64, end_line: u64) -> Result<
    (usize, usize),
    ToolErrorView,
> {
    if start_line == 0 || end_line < start_line {
        Err(ToolErrorView::Message("invalid line range (use 1-based inclusive lines)"@))
    } else {
        match line_start(b, ((start_line - 1) as usize) as nat) {
            None => Err(ToolErrorView::Core(missing_line_text(((start_line - 1) as usize) as nat))),
            Some(s) => Ok((s as usize, span_end(b, end_line) as usize)),
        }
    }
}

/// Byte range replaced by an `edit_lines` call.
pub fn line_replacement_span(text: &str, start_line: u64, end_line: u64) -> (r: Result<
    (usize, usize),
    ToolError,
>)
    ensures
        match line_span(text.spec_bytes(), start_line, end_line) {
            Ok(span) => r is Ok && r->Ok_0 == span,
            Err(ev) => r is Err && r->Err_0@ == ev,
        },
{
    if start_line == 0 || end_line < start_line {
        return Err(ToolError::msg("invalid line range (use 1-based inclusive lines)".to_owned()));
    }
    let s0 = (start_line - 1) as usize;
    let next_line = end_line as usize;
    let start_byte = line_byte(text, s0)?;
    let newlines = count_newlines(text);
    let end_byte = if next_line > newlines {
        text.len()
    } else {
        proof {
            lemma_line_start_exists(text.spec_bytes(), next_line as nat, 0);
        }
        line_byte(text, next_line)?
    };
    Ok((start_byte, end_byte))
}

/// The byte offset before 1-based line `line` (where `insert_at` inserts).
pub open spec fn insert_offset(b: Seq<u8>, line: u64) -> Result<usize, ToolErrorView> {
    if line == 0 {
        Err(ToolErrorView::Message("line must be >= 1"@))
    } else {
        match line_start(b, ((line - 1) as usize) as nat) {
            None => Err(ToolErrorView::Core(missing_line_text(((line - 1) as usize) as nat))),
            Some(p) => Ok(p as usize),
        }
    }
}

pub fn insert_byte_before_line(text: &str, line: u64) -> (r: Result<usize, ToolError>)
    ensures
        match insert_offset(text.spec_bytes(), line) {
            Ok(p) => r is Ok && r->Ok_0 == p,
            Err(ev) => r is Err && r->Err_0@ == ev,
        },
{
    if line == 0 {
        return Err(ToolError::msg("line must be >= 1".to_owned()));
    }
    let idx = (line - 1) as usize;
    line_byte(text, idx)
}

/// How many lines `start..=end` spans, saturating in `u64`.
pub open spec fn spanned_lines(start_line: u64, end_line: u64) -> nat {
    let d: int = if end_line >= start_line { end_line - start_line } else { 0 };
    if d + 1 > u64::MAX { u64::MAX as nat } else { (d + 1) as nat }
}

pub open spec fn preview_range_text(old_len: nat, new_len: nat, start_line: nat, end_line: nat, n_lines: nat) -> Seq<char> {
    "Will replace lines "@ + decimal(start_line) + "-"@ + decimal(end_line) + " ("@ + decimal(n_lines)
        + " lines, "@ + decimal(old_len) + " bytes) with new content ("@ + decimal(new_len)
        + " bytes)."@
}

/// The dry-run description of an `edit_lines` call.
pub fn preview_range_msg(old_len: usize, new_len: usize, start_line: u64, end_line: u64) -> (r: String)
    ensures
        r@ == preview_range_text(
            old_len as nat,
            new_len as nat,
            start_line as nat,
            end_line as nat,
            spanned_lines(start_line, end_line),
        ),
{
    let n_lines = end_line.saturating_sub(start_line).saturating_add(1);
    let mut s = "Will replace lines ".to_owned();
    push_decimal(&mut s, start_line);
    s.append("-");
    push_decimal(&mut s, end_line);
    s.append(" (");
    push_decimal(&mut s, n_lines);
    s.append(" lines, ");
    push_decimal(&mut s, old_len as u64);
    s.append(" bytes) with new content (");
    push_decimal(&mut s, new_len as u64);
    s.append(" bytes).");
    s
}

/// Input of `edit_lines`.
pub struct EditLinesInput {
    pub path: String,
    pub start_line: u64,
    pub end_line: u64,
    pub new_content: String,
}

/// Replaces a 1-based inclusive range of lines with new content.
pub struct EditLinesTool;

impl EditLinesTool {
    pub fn name(&self) -> (r: &'static str)
        ensures
            r@ == "edit_lines"@,
    {
        "edit_lines"
    }

    pub fn description(&self) -> (r: &'static str)
        ensures
            r@ == "Replace a 1-based inclusive range of lines with new UTF-8 content (staged until commit)."@,
    {
        "Replace a 1-based inclusive range of lines with new UTF-8 content (staged until commit)."
    }

    /// Runs the tool on `text`, the current text of the file at the resolved
    /// `path`.
    pub fn invoke(
        &self,
        p: EditLinesInput,
        path: String,
        text: &str,
        tx: &mut WorkspaceTx,
        dry_run: bool,
    ) -> (r: Result<String, ToolError>)
        ensures
            final(tx).root_view() == old(tx).root_view(),
            match line_span(text.spec_bytes(), p.start_line, p.end_line) {
                Err(ev) => r is Err && r->Err_0@ == ev && final(tx).pending_view() == old(
                    tx,
                ).pending_view(),
                Ok((s, e)) => r is Ok && if dry_run {
                    &&& final(tx).pending_view() == old(tx).pending_view()
                    &&& r->Ok_0@ == preview_range_text(
                        (if e >= s { e - s } else { 0 }) as nat,
                        (encode_utf8(p.new_content@).len() as usize) as nat,
                        p.start_line as nat,
                        p.end_line as nat,
                        spanned_lines(p.start_line, p.end_line),
                    )
                } else {
                    &&& final(tx).pending_view() == old(tx).pending_view().push(
                        PendingChangeView::EditBuffer {
                            path: path@,
                            edit: BufferEditView::ReplaceRange {
                                start_byte: s,
                                end_byte: e,
                                new_text: p.new_content@,
                            },
                        },
                    )
                    &&& r->Ok_0@ == "Staged replace for lines "@ + decimal(p.start_line as nat) + "-"@
                        + decimal(p.end_line as nat) + "."@
                },
            },
    {
        let (start_b, end_b) = line_replacement_span(text, p.start_line, p.end_line)?;
        let removed_len = end_b.saturating_sub(start_b);
        let new_len = p.new_content.as_str().len();
        if dry_run {
            return Ok(preview_range_msg(removed_len, new_len, p.start_line, p.end_line));
        }
        let mut msg = "Staged replace for lines ".to_owned();
        push_decimal(&mut msg, p.start_line);
        msg.append("-");
        push_decimal(&mut msg, p.end_line);
        msg.append(".");
        tx.stage_change(
            PendingChange::EditBuffer {
                path,
                edit: BufferEdit::ReplaceRange {
                    start_byte: start_b,
                    end_byte: end_b,
                    new_text: p.new_content,
                },
            },
        );
        Ok(msg)
    }
}

} // verus!

verus! {

/// Input of `insert_at`.
pub struct InsertAtInput {
    pub path: String,
    pub line: u64,
    pub content: String,
}

/// Inserts text before a 1-based line.
pub struct InsertAtTool;

impl InsertAtTool {
    pub fn name(&self) -> (r: &'static str)
        ensures
            r@ == "insert_at"@,
    {
        "insert_at"
    }

    pub fn description(&self) -> (r: &'static str)
        ensures
            r@ == "Insert text before the given 1-based line number (`line=1` inserts at file start)."@,
    {
        "Insert text before the given 1-based line number (`line=1` inserts at file start)."
    }

    /// Runs the tool on `text`, the current text of the file at `path`.
    pub fn invoke(
        &self,
        p: InsertAtInput,
        path: String,
        text: &str,
        tx: &mut WorkspaceTx,
        dry_run: bool,
    ) -> (r: Result<String, ToolError>)
        ensures
            final(tx).root_view() == old(tx).root_view(),
            match insert_offset(text.spec_bytes(), p.line) {
                Err(ev) => r is Err && r->Err_0@ == ev && final(tx).pending_view() == old(
                    tx,
                ).pending_view(),
                Ok(off) => r is Ok && if dry_run {
                    &&& final(tx).pending_view() == old(tx).pending_view()
                    &&& r->Ok_0@ == "Will insert "@ + decimal(
                        (encode_utf8(p.content@).len() as usize) as nat,
                    ) + " bytes before line "@ + decimal(p.line as nat) + "."@
                } else {
                    &&& final(tx).pending_view() == old(tx).pending_view().push(
                        PendingChangeView::EditBuffer {
                            path: path@,
                            edit: BufferEditView::InsertAt { byte_offset: off, text: p.content@ },
                        },
                    )
                    &&& r->Ok_0@ == "Staged insert_at."@
                },
            },
    {
        let off = insert_byte_before_line(text, p.line)?;
        if dry_run {
            let mut msg = "Will insert ".to_owned();
            push_decimal(&mut msg, p.content.as_str().len() as u64);
            msg.append(" bytes before line ");
            push_decimal(&mut msg, p.line);
            msg.append(".");
            return Ok(msg);
        }
        tx.stage_change(
            PendingChange::EditBuffer {
                path,
                edit: BufferEdit::InsertAt { byte_offset: off, text: p.content },
            },
        );
        Ok("Staged insert_at.".to_owned())
    }
}

/// Input of `append_to`.
pub struct AppendToInput {
    pub path: String,
    pub content: String,
}

/// What `append_to` inserts at the end of `text`: the content, after a
/// newline when the text is non-empty and does not end with one.
pub open spec fn append_text(text: Seq<char>, content: Seq<char>) -> Seq<char> {
    if text.len() > 0 && text.last() != '\n' {
        seq!['\n'] + content
    } else {
        content
    }
}

/// Appends text at the end of a file.
pub struct AppendToTool;

impl AppendToTool {
    pub fn name(&self) -> (r: &'static str)
        ensures
            r@ == "append_to"@,
    {
        "append_to"
    }

    pub fn description(&self) -> (r: &'static str)
        ensures
            r@ == "Append text at end of file. Inserts a leading newline when the file has content but no trailing newline."@,
    {
        "Append text at end of file. Inserts a leading newline when the file has content but no trailing newline."
    }

    /// Runs the tool on `text`, the current text of the file at `path`.
    pub fn invoke(
        &self,
        p: AppendToInput,
        path: String,
        text: &str,
        tx: &mut WorkspaceTx,
        dry_run: bool,
    ) -> (r: Result<String, ToolError>)
        ensures
            final(tx).root_view() == old(tx).root_view(),
            r is Ok,
            ({
                let insert = append_text(text@, p.content@);
                let off = (text.spec_bytes().len() as usize) as nat;
                if dry_run {
                    &&& final(tx).pending_view() == old(tx).pending_view()
                    &&& r->Ok_0@ == "Will append "@ + decimal(
                        (encode_utf8(insert).len() as usize) as nat,
                    ) + " bytes at EOF (offset "@ + decimal(off) + ")."@
                } else {
                    &&& final(tx).pending_view() == old(tx).pending_view().push(
                        PendingChangeView::EditBuffer {
                            path: path@,
                            edit: BufferEditView::InsertAt { byte_offset: off as usize, text: insert },
                        },
                    )
                    &&& r->Ok_0@ == "Staged append_to."@
                }
            }),
    {
        let mut insert = p.content;
        let needs_newline = if text.is_empty() {
            false
        } else {
            let cs = crate::text::chars_of(text);
            cs[cs.len() - 1] != '\n'
        };
        if needs_newline {
            let mut with_nl = "\n".to_owned();
            with_nl.append(insert.as_str());
            proof {
                reveal_strlit("\n");
                assert(with_nl@ =~= seq!['\n'] + p.content@);
            }
            insert = with_nl;
        }
        let off = text.len();
        if dry_run {
            let mut msg = "Will append ".to_owned();
            push_decimal(&mut msg, insert.as_str().len() as u64);
            msg.append(" bytes at EOF (offset ");
            push_decimal(&mut msg, off as u64);
            msg.append(").");
            return Ok(msg);
        }
        tx.stage_change(
            PendingChange::EditBuffer {
                path,
                edit: BufferEdit::InsertAt { byte_offset: off, text: insert },
            },
        );
        Ok("Staged append_to.".to_owned())
    }
}

} // verus!

verus! {

proof fn lemma_line_start_shape(b: Seq<u8>, i: nat, from: int)
    requires
        0 <= from <= b.len(),
    ensures
        line_start_from(b, i, from) matches Some(p) ==> (from <= p <= b.len() && (i == 0 ==> p == from)
            && (i > 0 ==> from < p && b[p - 1] == crate::tools::lines::LF())),
    decreases i, b.len() - from,
{
    if i == 0 {
    } else if from >= b.len() {
    } else if b[from] == crate::tools::lines::LF() {
        lemma_line_start_shape(b, (i - 1) as nat, from + 1);
    } else {
        lemma_line_start_shape(b, i, from + 1);
    }
}

proof fn lemma_line_start_mono(b: Seq<u8>, i: nat, j: nat, from: int)
    requires
        0 <= from <= b.len(),
        i <= j,
        line_start_from(b, i, from) is Some,
        line_start_from(b, j, from) is Some,
    ensures
        line_start_from(b, i, from)->Some_0 <= line_start_from(b, j, from)->Some_0,
    decreases i, b.len() - from,
{
    lemma_line_start_bounds(b, j, from);
    if i == 0 {
    } else if from >= b.len() {
    } else if b[from] == crate::tools::lines::LF() {
        lemma_line_start_mono(b, (i - 1) as nat, (j - 1) as nat, from + 1);
    } else {
        lemma_line_start_mono(b, i, j, from + 1);
    }
}

/// Where a line starts is a character boundary.
proof fn lemma_line_start_is_boundary(t: Seq<char>, i: nat)
    ensures
        line_start(encode_utf8(t), i) matches Some(p) ==> vstd::utf8::is_char_boundary(encode_utf8(t), p),
{
    let b = encode_utf8(t);
    vstd::utf8::encode_utf8_valid_utf8(t);
    vstd::utf8::is_char_boundary_start_end_of_seq(b);
    lemma_line_start_shape(b, i, 0);
    if let Some(p) = line_start(b, i) {
        if p > 0 {
            vstd::utf8::is_char_boundary_iff_not_is_continuation_byte(b, p - 1);
            crate::editor::text_field::lemma_boundary_after_ascii(b, p - 1);
        }
    }
}

/// The replacement that `edit_lines` stages always applies to the text it
/// was computed on: both ends are character boundaries, in order.
pub proof fn law_edit_lines_edit_applies(t: Seq<char>, start_line: u64, end_line: u64, new_text: Seq<char>)
    requires
        encode_utf8(t).len() <= usize::MAX,
        end_line <= usize::MAX,
    ensures
        line_span(encode_utf8(t), start_line, end_line) matches Ok((s, e)) ==> {
            let edit = BufferEditView::ReplaceRange { start_byte: s, end_byte: e, new_text };
            &&& crate::tools::transaction::edit_well_ordered(encode_utf8(t), edit)
            &&& crate::tools::transaction::edited_bytes(encode_utf8(t), edit) is Some
        },
{
    let b = encode_utf8(t);
    if let Ok((s, e)) = line_span(b, start_line, end_line) {
        let i = (start_line - 1) as nat;
        let j = end_line as nat;
        assert(((start_line - 1) as usize) as nat == i);
        assert((end_line as usize) as nat == j);
        vstd::utf8::encode_utf8_valid_utf8(t);
        vstd::utf8::is_char_boundary_start_end_of_seq(b);
        lemma_line_start_is_boundary(t, i);
        lemma_line_start_bounds(b, i, 0);
        let ps = line_start(b, i).unwrap();
        assert(s as int == ps);
        if j > newline_count_from(b, 0) {
            assert(e as int == b.len());
        } else {
            lemma_line_start_exists(b, j, 0);
            lemma_line_start_is_boundary(t, j);
            lemma_line_start_bounds(b, j, 0);
            lemma_line_start_mono(b, i, j, 0);
            assert(e as int == line_start(b, j).unwrap());
        }
    }
}

/// The offset that `insert_at` stages always lies on a character boundary
/// of the text it was computed on, so the insertion applies.
pub proof fn law_insert_at_edit_applies(t: Seq<char>, line: u64, text: Seq<char>)
    requires
        encode_utf8(t).len() <= usize::MAX,
        line <= usize::MAX,
    ensures
        insert_offset(encode_utf8(t), line) matches Ok(off) ==> crate::tools::transaction::edited_bytes(
            encode_utf8(t),
            BufferEditView::InsertAt { byte_offset: off, text },
        ) is Some,
{
    let b = encode_utf8(t);
    if line > 0 {
        let i = (line - 1) as nat;
        assert(((line - 1) as usize) as nat == i);
        lemma_line_start_is_boundary(t, i);
        lemma_line_start_bounds(b, i, 0);
    }
}

/// What `append_to` leaves at the end of a file holding `text`: the text
/// unchanged, then the content, starting on a line of its own; a newline
/// goes between them exactly when the text is non-empty and does not
/// already end with one, and nothing else is added.
pub proof fn law_append_to_starts_new_line(text: Seq<char>, content: Seq<char>)
    ensures
        ({
            let r = text + append_text(text, content);
            let sep = r.len() - text.len() - content.len();
            &&& r.take(text.len() as int) == text
            &&& r.skip(r.len() - content.len()) == content
            &&& 0 <= sep <= 1
            &&& sep == 1 ==> r[text.len() as int] == '\n'
            &&& text.len() > 0 ==> r[r.len() - content.len() - 1] == '\n'
            &&& (sep == 0 <==> (text.len() == 0 || text.last() == '\n'))
        }),
{
    let r = text + append_text(text, content);
    assert(r.take(text.len() as int) =~= text);
    assert(r.skip(r.len() - content.len()) =~= content);
    if text.len() > 0 && text.last() != '\n' {
        assert(r[text.len() as int] == '\n');
    } else if text.len() > 0 {
        assert(r[text.len() - 1] == text.last());
    }
}

/// `insert_at` inserts before line `line` (1-based): at the start of the
/// text for line 1, else just after the `line - 1`-th newline; it refuses
/// line 0 and lines past the last newline's following line.
pub proof fn law_insert_at_position(b: Seq<u8>, line: u64)
    requires
        line <= usize::MAX,
        b.len() <= usize::MAX,
    ensures
        line == 0 ==> insert_offset(b, line) is Err,
        line > 0 ==> (insert_offset(b, line) is Ok <==> line - 1 <= newline_count_from(b, 0)),
        insert_offset(b, line) matches Ok(p) ==> {
            &&& p <= b.len()
            &&& line == 1 ==> p == 0
            &&& line > 1 ==> b[p - 1] == LF()
            &&& newline_count_from(b.take(p as int), 0) == line - 1
        },
{
    if line > 0 {
        let i = (line - 1) as nat;
        assert(((line - 1) as usize) as nat == i);
        lemma_line_start_exists(b, i, 0);
        if line_start(b, i) is Some {
            law_line_start_after_newlines(b, i, 0);
            lemma_line_start_bounds(b, i, 0);
        }
    }
}

/// `edit_lines` replaces the bytes of lines `start_line..=end_line`
/// (1-based, inclusive): from just after the `start_line - 1`-th newline
/// (the start of the text for line 1) to just after the `end_line`-th
/// newline, or to the end of the text when it has fewer newlines.
pub proof fn law_edit_lines_range(b: Seq<u8>, start_line: u64, end_line: u64)
    requires
        end_line <= usize::MAX,
        b.len() <= usize::MAX,
    ensures
        (start_line == 0 || end_line < start_line) ==> line_span(b, start_line, end_line) is Err,
        line_span(b, start_line, end_line) matches Ok((s, e)) ==> {
            &&& 1 <= start_line <= end_line
            &&& start_line - 1 <= newline_count_from(b, 0)
            &&& s <= b.len() && e <= b.len()
            &&& start_line == 1 ==> s == 0
            &&& start_line > 1 ==> b[s - 1] == LF()
            &&& newline_count_from(b.take(s as int), 0) == start_line - 1
            &&& end_line > newline_count_from(b, 0) ==> e == b.len()
            &&& end_line <= newline_count_from(b, 0) ==> e > 0 && b[e - 1] == LF()
                && newline_count_from(b.take(e as int), 0) == end_line
        },
        (1 <= start_line <= end_line && start_line - 1 <= newline_count_from(b, 0)) ==> line_span(
            b,
            start_line,
            end_line,
        ) is Ok,
{
    if 1 <= start_line <= end_line {
        let i = (start_line - 1) as nat;
        assert(((start_line - 1) as usize) as nat == i);
        assert((end_line as usize) as nat == end_line as nat);
        lemma_line_start_exists(b, i, 0);
        if line_start(b, i) is Some {
            law_line_start_after_newlines(b, i, 0);
            lemma_line_start_bounds(b, i, 0);
        }
        if end_line as nat <= newline_count_from(b, 0) {
            lemma_line_start_exists(b, end_line as nat, 0);
            law_line_start_after_newlines(b, end_line as nat, 0);
            lemma_line_start_bounds(b, end_line as nat, 0);
        }
    }
}

} // verus!
