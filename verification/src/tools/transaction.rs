//! Staged workspace changes: what the agent's tools queue up, how an edit
//! rewrites a file's text, and which changes a commit takes out of the queue.

use vstd::prelude::*;
use vstd::string::StringSliceAdditionalSpecFns;
use vstd::utf8::{
    encode_utf8, encode_utf8_valid_utf8, is_char_boundary, is_char_boundary_iff_not_is_continuation_byte,
    is_char_boundary_start_end_of_seq, valid_utf8, valid_utf8_split,
};

use crate::text::trim_seq;
use crate::tools::error::{ToolError, ToolErrorView};
use crate::tools::path::{canonical_under_workspace, resolve_under};

verus! {

/// One logical edit staged against a buffer (UTF-8 byte offsets).
#[derive(Debug)]
pub enum BufferEdit {
    ReplaceRange { start_byte: usize, end_byte: usize, new_text: String },
    InsertAt { byte_offset: usize, text: String },
    FullReplace { new_text: String },
}

pub enum BufferEditView {
    ReplaceRange { start_byte: usize, end_byte: usize, new_text: Seq<char> },
    InsertAt { byte_offset: usize, text: Seq<char> },
    FullReplace { new_text: Seq<char> },
}

impl View for BufferEdit {
    type V = BufferEditView;

    open spec fn view(&self) -> BufferEditView {
        match self {
            BufferEdit::ReplaceRange { start_byte, end_byte, new_text } => BufferEditView::ReplaceRange {
                start_byte: *start_byte,
                end_byte: *end_byte,
                new_text: new_text@,
            },
            BufferEdit::InsertAt { byte_offset, text } => BufferEditView::InsertAt {
                byte_offset: *byte_offset,
                text: text@,
            },
            BufferEdit::FullReplace { new_text } => BufferEditView::FullReplace { new_text: new_text@ },
        }
    }
}

impl BufferEdit {
    pub fn duplicate(&self) -> (r: BufferEdit)
        ensures
            r@ == self@,
    {
        match self {
            BufferEdit::ReplaceRange { start_byte, end_byte, new_text } => BufferEdit::ReplaceRange {
                start_byte: *start_byte,
                end_byte: *end_byte,
                new_text: new_text.clone(),
            },
            BufferEdit::InsertAt { byte_offset, text } => BufferEdit::InsertAt {
                byte_offset: *byte_offset,
                text: text.clone(),
            },
            BufferEdit::FullReplace { new_text } => BufferEdit::FullReplace {
                new_text: new_text.clone(),
            },
        }
    }
}

/// An edit that the text can take without panicking: a range whose both ends
/// fall on character boundaries is not reversed.
pub open spec fn edit_well_ordered(b: Seq<u8>, e: BufferEditView) -> bool {
    match e {
        BufferEditView::ReplaceRange { start_byte, end_byte, .. } => (is_char_boundary(
            b,
            start_byte as int,
        ) && is_char_boundary(b, end_byte as int)) ==> start_byte <= end_byte,
        _ => true,
    }
}

/// The UTF-8 bytes after applying `e` to text with bytes `b`, or `None` when
/// an offset is not on a character boundary.
pub open spec fn edited_bytes(b: Seq<u8>, e: BufferEditView) -> Option<Seq<u8>> {
    match e {
        BufferEditView::ReplaceRange { start_byte, end_byte, new_text } => {
            if is_char_boundary(b, start_byte as int) && is_char_boundary(b, end_byte as int) {
                Some(
                    b.subrange(0, start_byte as int) + encode_utf8(new_text) + b.subrange(
                        end_byte as int,
                        b.len() as int,
                    ),
                )
            } else {
                None
            }
        },
        BufferEditView::InsertAt { byte_offset, text } => {
            if is_char_boundary(b, byte_offset as int) {
                Some(
                    b.subrange(0, byte_offset as int) + encode_utf8(text) + b.subrange(
                        byte_offset as int,
                        b.len() as int,
                    ),
                )
            } else {
                None
            }
        },
        BufferEditView::FullReplace { new_text } => Some(encode_utf8(new_text)),
    }
}

/// The error text for an edit whose offsets miss character boundaries.
pub open spec fn boundary_error(e: BufferEditView) -> Seq<char> {
    match e {
        BufferEditView::InsertAt { .. } => "insert offset not on UTF-8 boundary"@,
        _ => "edit byte offsets not on UTF-8 boundaries"@,
    }
}

/// UTF-8 encoding distributes over concatenation.
pub proof fn lemma_encode_concat(a: Seq<char>, b: Seq<char>)
    ensures
        encode_utf8(a + b) == encode_utf8(a) + encode_utf8(b),
    decreases a.len(),
{
    if a.len() == 0 {
        assert(a + b =~= b);
        assert(encode_utf8(a) =~= Seq::<u8>::empty());
        assert(encode_utf8(a) + encode_utf8(b) =~= encode_utf8(b));
    } else {
        lemma_encode_concat(a.drop_first(), b);
        assert((a + b).drop_first() =~= a.drop_first() + b);
        assert((a + b)[0] == a[0]);
        assert(encode_utf8(a + b) =~= encode_utf8(a) + encode_utf8(b));
    }
}

/// A boundary at or after `start` stays a boundary in the text from `start` on.
pub proof fn lemma_boundary_in_suffix(b: Seq<u8>, start: int, end: int)
    requires
        valid_utf8(b),
        is_char_boundary(b, start),
        is_char_boundary(b, end),
        start <= end,
    ensures
        is_char_boundary(b.subrange(start, b.len() as int), end - start),
{
    assert(0 <= start <= b.len());
    assert(0 <= end <= b.len());
    let rest = b.subrange(start, b.len() as int);
    valid_utf8_split(b, start);
    if end == b.len() {
        is_char_boundary_start_end_of_seq(rest);
    } else {
        is_char_boundary_iff_not_is_continuation_byte(b, end);
        is_char_boundary_iff_not_is_continuation_byte(rest, end - start);
        assert(rest[end - start] == b[end]);
    }
}

/// `a` followed by `mid` followed by `c`, as one `String`.
fn concat3(a: &str, mid: &str, c: &str) -> (r: String)
    ensures
        r@ == a@ + mid@ + c@,
        encode_utf8(r@) == a.spec_bytes() + mid.spec_bytes() + c.spec_bytes(),
{
    let mut out = a.to_owned();
    out.append(mid);
    out.append(c);
    proof {
        lemma_encode_concat(a@ + mid@, c@);
        lemma_encode_concat(a@, mid@);
    }
    out
}

/// Applies one staged edit to `s` (used to preview pending changes).
pub fn apply_edit_to_string(s: &mut String, e: &BufferEdit) -> (r: Result<(), ToolError>)
    requires
        edit_well_ordered(encode_utf8(old(s)@), e@),
    ensures
        match edited_bytes(encode_utf8(old(s)@), e@) {
            Some(nb) => r is Ok && encode_utf8(final(s)@) == nb,
            None => r is Err && r->Err_0@ == ToolErrorView::Message(boundary_error(e@))
                && final(s)@ == old(s)@,
        },
{
    proof {
        encode_utf8_valid_utf8(s@);
    }
    match e {
        BufferEdit::ReplaceRange { start_byte, end_byte, new_text } => {
            let st = s.as_str();
            if !st.is_char_boundary(*start_byte) || !st.is_char_boundary(*end_byte) {
                return Err(ToolError::msg("edit byte offsets not on UTF-8 boundaries".to_owned()));
            }
            let (a, rest) = st.split_at(*start_byte);
            proof {
                lemma_boundary_in_suffix(st.spec_bytes(), *start_byte as int, *end_byte as int);
            }
            let (_gone, c) = rest.split_at(*end_byte - *start_byte);
            let out = concat3(a, new_text.as_str(), c);
            proof {
                assert(c.spec_bytes() =~= st.spec_bytes().subrange(
                    *end_byte as int,
                    st.spec_bytes().len() as int,
                ));
            }
            *s = out;
            Ok(())
        },
        BufferEdit::InsertAt { byte_offset, text } => {
            let st = s.as_str();
            if !st.is_char_boundary(*byte_offset) {
                return Err(ToolError::msg("insert offset not on UTF-8 boundary".to_owned()));
            }
            let (a, c) = st.split_at(*byte_offset);
            let out = concat3(a, text.as_str(), c);
            *s = out;
            Ok(())
        },
        BufferEdit::FullReplace { new_text } => {
            *s = new_text.clone();
            Ok(())
        },
    }
}

} // verus!

verus! {

/// A pending file-system or buffer mutation (paths are absolute, resolved
/// under the workspace root).
#[derive(Debug)]
pub enum PendingChange {
    EditBuffer { path: String, edit: BufferEdit },
    WriteNewFile { path: String, contents: String },
    /// Create or overwrite a file (used for `.ide/` metadata and the task list).
    UpsertFile { path: String, contents: String },
    DeleteFile { path: String, prior_contents: Option<String> },
    MoveFile { from: String, to: String },
}

pub enum PendingChangeView {
    EditBuffer { path: Seq<char>, edit: BufferEditView },
    WriteNewFile { path: Seq<char>, contents: Seq<char> },
    UpsertFile { path: Seq<char>, contents: Seq<char> },
    DeleteFile { path: Seq<char>, prior_contents: Option<Seq<char>> },
    MoveFile { from: Seq<char>, to: Seq<char> },
}

pub open spec fn opt_text(o: Option<String>) -> Option<Seq<char>> {
    match o {
        Some(s) => Some(s@),
        None => None,
    }
}

impl View for PendingChange {
    type V = PendingChangeView;

    open spec fn view(&self) -> PendingChangeView {
        match self {
            PendingChange::EditBuffer { path, edit } => PendingChangeView::EditBuffer {
                path: path@,
                edit: edit@,
            },
            PendingChange::WriteNewFile { path, contents } => PendingChangeView::WriteNewFile {
                path: path@,
                contents: contents@,
            },
            PendingChange::UpsertFile { path, contents } => PendingChangeView::UpsertFile {
                path: path@,
                contents: contents@,
            },
            PendingChange::DeleteFile { path, prior_contents } => PendingChangeView::DeleteFile {
                path: path@,
                prior_contents: opt_text(*prior_contents),
            },
            PendingChange::MoveFile { from, to } => PendingChangeView::MoveFile {
                from: from@,
                to: to@,
            },
        }
    }
}

pub open spec fn changes_view(v: Seq<PendingChange>) -> Seq<PendingChangeView> {
    v.map_values(|c: PendingChange| c@)
}

/// `i` is one of the requested indices.
pub open spec fn is_selected(indices: Seq<usize>, i: int) -> bool {
    exists|k: int| 0 <= k < indices.len() && indices[k] == i
}

/// The entries of `p` whose index is selected (`want`) or not (`!want`), in
/// their original order.
pub open spec fn pick<A>(p: Seq<A>, indices: Seq<usize>, want: bool) -> Seq<A>
    decreases p.len(),
{
    if p.len() == 0 {
        Seq::empty()
    } else if is_selected(indices, p.len() - 1) == want {
        pick(p.drop_last(), indices, want).push(p.last())
    } else {
        pick(p.drop_last(), indices, want)
    }
}

proof fn lemma_pick_map(p: Seq<PendingChange>, indices: Seq<usize>, want: bool)
    ensures
        changes_view(pick(p, indices, want)) == pick(changes_view(p), indices, want),
    decreases p.len(),
{
    if p.len() > 0 {
        lemma_pick_map(p.drop_last(), indices, want);
        assert(changes_view(p).drop_last() =~= changes_view(p.drop_last()));
        let q = pick(p.drop_last(), indices, want);
        assert(changes_view(q.push(p.last())) =~= changes_view(q).push(p.last()@));
    }
}

/// Transaction scoped to one workspace root: the queue of staged changes.
/// Applying a change to buffers and disk is the caller's work.
#[derive(Debug)]
pub struct WorkspaceTx {
    root: String,
    pending: Vec<PendingChange>,
}

impl WorkspaceTx {
    pub closed spec fn root_view(&self) -> Seq<char> {
        self.root@
    }

    pub closed spec fn pending_view(&self) -> Seq<PendingChangeView> {
        changes_view(self.pending@)
    }

    /// `workspace_root` should already be canonical.
    pub fn new(workspace_root: String) -> (r: WorkspaceTx)
        ensures
            r.root_view() == workspace_root@,
            r.pending_view() == Seq::<PendingChangeView>::empty(),
    {
        let r = WorkspaceTx { root: workspace_root, pending: Vec::new() };
        assert(r.pending_view() =~= Seq::<PendingChangeView>::empty());
        r
    }

    pub fn workspace_root(&self) -> (r: &str)
        ensures
            r@ == self.root_view(),
    {
        self.root.as_str()
    }

    /// `relative` resolved under the workspace root, which is canonical
    /// already (see [`WorkspaceTx::new`]); the caller re-checks the part that
    /// exists after resolving symbolic links.
    pub fn canonical_path(&self, relative: &str) -> (r: Result<String, ToolError>)
        ensures
            trim_seq(relative@).len() == 0 ==> r is Err && r->Err_0@ == ToolErrorView::Message(
                "empty path"@,
            ),
            (trim_seq(relative@).len() > 0 && trim_seq(relative@)[0] == '/') ==> r is Err
                && r->Err_0@ == ToolErrorView::PathEscape(trim_seq(relative@)),
            (trim_seq(relative@).len() > 0 && trim_seq(relative@)[0] != '/') ==> match resolve_under(
                self.root_view(),
                relative@,
            ) {
                Ok(t) => r is Ok && r->Ok_0@ == t,
                Err(ev) => r is Err && r->Err_0@ == ev,
            },
    {
        canonical_under_workspace(Ok(self.root.clone()), relative)
    }

    pub fn stage_change(&mut self, change: PendingChange)
        ensures
            final(self).pending_view() == old(self).pending_view().push(change@),
            final(self).root_view() == old(self).root_view(),
    {
        self.pending.push(change);
        assert(changes_view(self.pending@) =~= changes_view(old(self).pending@).push(change@));
    }

    pub fn pending_changes(&self) -> (r: &[PendingChange])
        ensures
            changes_view(r@) == self.pending_view(),
    {
        self.pending.as_slice()
    }

    pub fn rollback_all(&mut self)
        ensures
            final(self).pending_view() == Seq::<PendingChangeView>::empty(),
            final(self).root_view() == old(self).root_view(),
    {
        self.pending.clear();
        assert(changes_view(self.pending@) =~= Seq::<PendingChangeView>::empty());
    }

    /// Takes every staged change out of the queue, in order.
    fn take_all(&mut self) -> (r: Vec<PendingChange>)
        ensures
            changes_view(r@) == old(self).pending_view(),
            final(self).pending_view() == Seq::<PendingChangeView>::empty(),
            final(self).root_view() == old(self).root_view(),
    {
        let mut taken: Vec<PendingChange> = Vec::new();
        std::mem::swap(&mut taken, &mut self.pending);
        assert(changes_view(self.pending@) =~= Seq::<PendingChangeView>::empty());
        taken
    }

    /// Takes the staged changes whose indices in the queue are listed in
    /// `indices` (indices past the end are ignored), in queue order; the
    /// others stay queued in their order.
    fn take_selected(&mut self, indices: &[usize]) -> (r: Vec<PendingChange>)
        ensures
            changes_view(r@) == pick(old(self).pending_view(), indices@, true),
            final(self).pending_view() == pick(old(self).pending_view(), indices@, false),
            final(self).root_view() == old(self).root_view(),
    {
        if indices.len() == 0 {
            let r: Vec<PendingChange> = Vec::new();
            proof {
                law_commit_selected_none(old(self).pending_view(), indices@);
            }
            assert(changes_view(r@) =~= Seq::<PendingChangeView>::empty());
            return r;
        }
        let n = self.pending.len();
        let mut selected: Vec<bool> = Vec::new();
        let mut i: usize = 0;
        while i < n
            invariant
                0 <= i <= n,
                selected@.len() == i,
                forall|j: int| 0 <= j < i ==> !selected@[j],
            decreases n - i,
        {
            selected.push(false);
            i = i + 1;
        }
        let mut k: usize = 0;
        while k < indices.len()
            invariant
                0 <= k <= indices@.len(),
                selected@.len() == n,
                forall|j: int|
                    0 <= j < n ==> (selected@[j] <==> exists|m: int|
                        0 <= m < k && indices@[m] == j),
            decreases indices@.len() - k,
        {
            let idx = indices[k];
            if idx < n {
                selected.set(idx, true);
            }
            proof {
                assert forall|j: int| 0 <= j < n implies (selected@[j] <==> exists|m: int|
                    0 <= m < k + 1 && indices@[m] == j) by {
                    if exists|m: int| 0 <= m < k + 1 && indices@[m] == j {
                        let m = choose|m: int| 0 <= m < k + 1 && indices@[m] == j;
                        if m < k {
                            assert(exists|m2: int| 0 <= m2 < k && indices@[m2] == j);
                        }
                    }
                    if exists|m: int| 0 <= m < k && indices@[m] == j {
                        let m = choose|m: int| 0 <= m < k && indices@[m] == j;
                        assert(0 <= m < k + 1 && indices@[m] == j);
                    }
                    if idx == j {
                        assert(0 <= k < k + 1 && indices@[k as int] == j);
                    }
                }
            }
            k = k + 1;
        }
        let mut old_list: Vec<PendingChange> = Vec::new();
        std::mem::swap(&mut old_list, &mut self.pending);
        let ghost p = old_list@;
        let mut kept: Vec<PendingChange> = Vec::new();
        let mut to_apply: Vec<PendingChange> = Vec::new();
        let mut pos: usize = 0;
        for c in it: old_list.into_iter()
            invariant
                it.seq() == p,
                pos == it.index(),
                p.len() == n,
                selected@.len() == n,
                forall|j: int| 0 <= j < n ==> (selected@[j] <==> is_selected(indices@, j)),
                kept@ == pick(p.take(pos as int), indices@, false),
                to_apply@ == pick(p.take(pos as int), indices@, true),
        {
            proof {
                assert(p.take(pos + 1).drop_last() =~= p.take(pos as int));
                assert(p.take(pos + 1).last() == c);
            }
            if selected[pos] {
                to_apply.push(c);
            } else {
                kept.push(c);
            }
            pos = pos + 1;
        }
        proof {
            assert(p.take(n as int) =~= p);
            lemma_pick_map(p, indices@, true);
            lemma_pick_map(p, indices@, false);
        }
        self.pending = kept;
        to_apply
    }
}

impl WorkspaceTx {
    /// Commits every staged change: the queue is emptied, and the changes
    /// are applied in order through the returned run, which stops at the
    /// first failure.
    pub fn commit_all(&mut self) -> (r: CommitRun)
        ensures
            final(self).pending_view() == Seq::<PendingChangeView>::empty(),
            final(self).root_view() == old(self).root_view(),
            r.changes() == old(self).pending_view(),
            r.applied_count() == 0,
            r.failure() is None,
    {
        CommitRun::new(self.take_all())
    }

    /// Commits the staged changes whose indices in the queue are listed in
    /// `indices` (in any order, repeated or past the end): they leave the
    /// queue and are applied in queue order through the returned run, which
    /// stops at the first failure; the others stay queued in their order.
    /// No index selects nothing.
    pub fn commit_selected(&mut self, indices: &[usize]) -> (r: CommitRun)
        ensures
            r.changes() == pick(old(self).pending_view(), indices@, true),
            final(self).pending_view() == pick(old(self).pending_view(), indices@, false),
            final(self).root_view() == old(self).root_view(),
            r.applied_count() == 0,
            r.failure() is None,
    {
        CommitRun::new(self.take_selected(indices))
    }
}

/// Committed changes being applied one at a time, in order. The caller
/// applies [`CommitRun::next_change`] and records how that went; the first
/// failure ends the run, and the changes after it are dropped unapplied.
#[derive(Debug)]
pub struct CommitRun {
    changes: Vec<PendingChange>,
    applied: usize,
    failure: Option<ToolError>,
}

impl CommitRun {
    /// The changes of the commit, in the order they are applied.
    pub closed spec fn changes(&self) -> Seq<PendingChangeView> {
        changes_view(self.changes@)
    }

    /// How many of them have been applied (the first ones).
    pub closed spec fn applied_count(&self) -> nat {
        self.applied as nat
    }

    /// The failure that ended the run, if any.
    pub closed spec fn failure(&self) -> Option<ToolErrorView> {
        match self.failure {
            Some(e) => Some(e@),
            None => None,
        }
    }

    pub closed spec fn wf(&self) -> bool {
        &&& self.applied <= self.changes@.len()
        &&& self.failure is Some ==> self.applied < self.changes@.len()
    }

    /// The run is over: a change failed, or every change was applied.
    pub open spec fn is_done(&self) -> bool {
        self.failure() is Some || self.applied_count() == self.changes().len()
    }

    /// The changes that were applied.
    pub open spec fn applied_changes(&self) -> Seq<PendingChangeView> {
        self.changes().take(self.applied_count() as int)
    }

    /// The changes after a failed one, which are never applied.
    pub open spec fn dropped_changes(&self) -> Seq<PendingChangeView> {
        if self.failure() is Some {
            self.changes().skip(self.applied_count() + 1int)
        } else {
            Seq::empty()
        }
    }

    fn new(changes: Vec<PendingChange>) -> (r: CommitRun)
        ensures
            r.wf(),
            r.changes() == changes_view(changes@),
            r.applied_count() == 0,
            r.failure() is None,
    {
        CommitRun { changes, applied: 0, failure: None }
    }

    /// The change to apply next, or `None` once the run is over.
    pub fn next_change(&self) -> (r: Option<&PendingChange>)
        requires
            self.wf(),
        ensures
            self.is_done() ==> r is None,
            !self.is_done() ==> (r matches Some(c) && c@ == self.changes()[self.applied_count() as int]),
    {
        assert(self.changes().len() == self.changes@.len());
        if self.failure.is_some() || self.applied >= self.changes.len() {
            None
        } else {
            Some(&self.changes[self.applied])
        }
    }

    /// Records how applying [`CommitRun::next_change`] went: success counts
    /// it as applied; a failure ends the run.
    pub fn record(&mut self, result: Result<(), ToolError>)
        requires
            old(self).wf(),
            !old(self).is_done(),
        ensures
            final(self).wf(),
            final(self).changes() == old(self).changes(),
            result is Ok ==> final(self).applied_count() == old(self).applied_count() + 1
                && final(self).failure() is None,
            result matches Err(e) ==> final(self).applied_count() == old(self).applied_count()
                && final(self).failure() == Some(e@),
    {
        let n = self.changes.len();
        assert(self.changes().len() == n);
        match result {
            Ok(()) => {
                self.applied = self.applied + 1;
            },
            Err(e) => {
                self.failure = Some(e);
            },
        }
    }

    /// The commit's result once the run is over: the failure that ended
    /// it, or `Ok` when every change was applied.
    pub fn finish(self) -> (r: Result<(), ToolError>)
        requires
            self.wf(),
            self.is_done(),
        ensures
            match self.failure() {
                Some(e) => r is Err && r->Err_0@ == e,
                None => r is Ok && self.applied_count() == self.changes().len(),
            },
    {
        assert(self.changes().len() == self.changes@.len());
        match self.failure {
            Some(e) => Err(e),
            None => Ok(()),
        }
    }
}

/// A finished run splits the commit's changes, in order, into those that
/// were applied, the one that failed (if any) and those dropped after it;
/// the run succeeded exactly when every change was applied.
pub proof fn law_commit_run_partition(r: &CommitRun)
    requires
        r.wf(),
        r.is_done(),
    ensures
        r.failure() is None <==> r.applied_changes() == r.changes(),
        r.failure() is None ==> r.dropped_changes() == Seq::<PendingChangeView>::empty(),
        r.failure() is Some ==> r.applied_changes() + seq![r.changes()[r.applied_count() as int]]
            + r.dropped_changes() == r.changes(),
{
    assert(r.changes().len() == r.changes@.len());
    if r.failure() is Some {
        let k = r.applied_count() as int;
        assert(r.applied_changes() + seq![r.changes()[k]] + r.dropped_changes() =~= r.changes());
        assert(r.applied_changes().len() < r.changes().len());
    } else {
        assert(r.applied_changes() =~= r.changes());
    }
}

/// Every staged change leaves the queue in exactly one of the two halves of
/// a selective commit: the counts add up.
pub proof fn law_commit_selected_partitions<A>(p: Seq<A>, indices: Seq<usize>)
    ensures
        pick(p, indices, true).len() + pick(p, indices, false).len() == p.len(),
    decreases p.len(),
{
    if p.len() > 0 {
        law_commit_selected_partitions(p.drop_last(), indices);
    }
}

/// Selecting every index commits the whole queue in order, as `commit_all`
/// does, and leaves nothing behind.
pub proof fn law_commit_selected_all<A>(p: Seq<A>, indices: Seq<usize>)
    requires
        forall|i: int| 0 <= i < p.len() ==> is_selected(indices, i),
    ensures
        pick(p, indices, true) == p,
        pick(p, indices, false) == Seq::<A>::empty(),
    decreases p.len(),
{
    if p.len() > 0 {
        law_commit_selected_all(p.drop_last(), indices);
        assert(is_selected(indices, p.len() - 1));
        assert(p.drop_last().push(p.last()) =~= p);
    }
}

/// Selecting nothing commits nothing and leaves the queue as it was.
pub proof fn law_commit_selected_none<A>(p: Seq<A>, indices: Seq<usize>)
    requires
        forall|i: int| 0 <= i < p.len() ==> !is_selected(indices, i),
    ensures
        pick(p, indices, true) == Seq::<A>::empty(),
        pick(p, indices, false) == p,
    decreases p.len(),
{
    if p.len() > 0 {
        law_commit_selected_none(p.drop_last(), indices);
        assert(!is_selected(indices, p.len() - 1));
        assert(p.drop_last().push(p.last()) =~= p);
    }
}

/// Why applying `c` must be refused, given whether its target path (the new
/// file, or a move's destination) already exists on disk.
pub open spec fn apply_refusal(c: PendingChangeView, target_exists: bool) -> Option<Seq<char>> {
    match c {
        PendingChangeView::WriteNewFile { path, .. } => if target_exists {
            Some("create_file: "@ + path + " exists"@)
        } else {
            None
        },
        PendingChangeView::MoveFile { to, .. } => if target_exists {
            Some("move_file: destination "@ + to + " already exists"@)
        } else {
            None
        },
        _ => None,
    }
}

/// The check made before a committed change touches the disk: a new file
/// may not overwrite, and a move may not land on, an existing path.
pub fn check_apply(c: &PendingChange, target_exists: bool) -> (r: Result<(), ToolError>)
    ensures
        match apply_refusal(c@, target_exists) {
            Some(m) => r is Err && r->Err_0@ == ToolErrorView::Message(m),
            None => r is Ok,
        },
{
    match c {
        PendingChange::WriteNewFile { path, .. } => {
            if target_exists {
                return Err(ToolError::msg(concat3("create_file: ", path.as_str(), " exists")));
            }
            Ok(())
        },
        PendingChange::MoveFile { to, .. } => {
            if target_exists {
                return Err(
                    ToolError::msg(concat3("move_file: destination ", to.as_str(), " already exists")),
                );
            }
            Ok(())
        },
        _ => Ok(()),
    }
}

} // verus!

verus! {

/// One step of rebuilding a file's previewed text.
pub enum PreviewStep {
    /// Apply this edit to the text so far.
    Edit(BufferEdit),
    /// Replace the text with what the file at this path holds now.
    ContentsOf(String),
}

pub enum StepView {
    Edit(BufferEditView),
    ContentsOf(Seq<char>),
}

impl View for PreviewStep {
    type V = StepView;

    open spec fn view(&self) -> StepView {
        match self {
            PreviewStep::Edit(e) => StepView::Edit(e@),
            PreviewStep::ContentsOf(p) => StepView::ContentsOf(p@),
        }
    }
}

/// A file the pending changes touch, with the steps that turn its current
/// text into its text after commit.
pub struct PathPreview {
    pub path: String,
    pub steps: Vec<PreviewStep>,
}

pub open spec fn steps_view(v: Seq<PreviewStep>) -> Seq<StepView> {
    v.map_values(|s: PreviewStep| s@)
}

pub open spec fn preview_view(v: Seq<PathPreview>) -> Seq<(Seq<char>, Seq<StepView>)> {
    v.map_values(|p: PathPreview| (p.path@, steps_view(p.steps@)))
}

/// The paths a change touches, in order.
pub open spec fn touched(c: PendingChangeView) -> Seq<Seq<char>> {
    match c {
        PendingChangeView::EditBuffer { path, .. } => seq![path],
        PendingChangeView::WriteNewFile { path, .. } => seq![path],
        PendingChangeView::UpsertFile { path, .. } => seq![path],
        PendingChangeView::DeleteFile { path, .. } => seq![path],
        PendingChangeView::MoveFile { from, to } => seq![from, to],
    }
}

/// The paths the changes touch, in order, with repeats.
pub open spec fn all_touched(cs: Seq<PendingChangeView>) -> Seq<Seq<char>>
    decreases cs.len(),
{
    if cs.len() == 0 {
        Seq::empty()
    } else {
        all_touched(cs.drop_last()) + touched(cs.last())
    }
}

/// `s` with each value kept at its first occurrence only.
pub open spec fn first_occurrences(s: Seq<Seq<char>>) -> Seq<Seq<char>>
    decreases s.len(),
{
    if s.len() == 0 {
        Seq::empty()
    } else {
        let d = first_occurrences(s.drop_last());
        if d.contains(s.last()) {
            d
        } else {
            d.push(s.last())
        }
    }
}

pub open spec fn full_replace(t: Seq<char>) -> StepView {
    StepView::Edit(BufferEditView::FullReplace { new_text: t })
}

/// The steps that change `c` contributes to the preview of path `p`: a
/// created or overwritten file gets its contents, a deleted file and the
/// source of a move become empty, the target of a move gets the source's
/// current text.
pub open spec fn contribution(c: PendingChangeView, p: Seq<char>) -> Seq<StepView> {
    match c {
        PendingChangeView::EditBuffer { path, edit } => if path == p {
            seq![StepView::Edit(edit)]
        } else {
            Seq::empty()
        },
        PendingChangeView::WriteNewFile { path, contents } => if path == p {
            seq![full_replace(contents)]
        } else {
            Seq::empty()
        },
        PendingChangeView::UpsertFile { path, contents } => if path == p {
            seq![full_replace(contents)]
        } else {
            Seq::empty()
        },
        PendingChangeView::DeleteFile { path, .. } => if path == p {
            seq![full_replace(Seq::empty())]
        } else {
            Seq::empty()
        },
        PendingChangeView::MoveFile { from, to } => (if from == p {
            seq![full_replace(Seq::empty())]
        } else {
            Seq::empty()
        }) + (if to == p {
            seq![StepView::ContentsOf(from)]
        } else {
            Seq::empty()
        }),
    }
}

/// All steps for path `p`, change after change.
pub open spec fn steps_for(cs: Seq<PendingChangeView>, p: Seq<char>) -> Seq<StepView>
    decreases cs.len(),
{
    if cs.len() == 0 {
        Seq::empty()
    } else {
        steps_for(cs.drop_last(), p) + contribution(cs.last(), p)
    }
}

/// The preview plan: every touched path once, in the order first touched,
/// with its steps.
pub open spec fn preview_plan_of(cs: Seq<PendingChangeView>) -> Seq<(Seq<char>, Seq<StepView>)> {
    first_occurrences(all_touched(cs)).map_values(|p: Seq<char>| (p, steps_for(cs, p)))
}

fn change_paths(c: &PendingChange) -> (r: Vec<String>)
    ensures
        r@.map_values(|s: String| s@) == touched(c@),
{
    let mut v: Vec<String> = Vec::new();
    match c {
        PendingChange::EditBuffer { path, .. } => v.push(path.clone()),
        PendingChange::WriteNewFile { path, .. } => v.push(path.clone()),
        PendingChange::UpsertFile { path, .. } => v.push(path.clone()),
        PendingChange::DeleteFile { path, .. } => v.push(path.clone()),
        PendingChange::MoveFile { from, to } => {
            v.push(from.clone());
            v.push(to.clone());
        },
    }
    assert(v@.map_values(|s: String| s@) =~= touched(c@));
    v
}

fn contains_string(v: &Vec<String>, s: &String) -> (r: bool)
    ensures
        r == v@.map_values(|x: String| x@).contains(s@),
{
    let ghost vv = v@.map_values(|x: String| x@);
    let mut i: usize = 0;
    while i < v.len()
        invariant
            0 <= i <= v@.len(),
            vv == v@.map_values(|x: String| x@),
            forall|k: int| 0 <= k < i ==> vv[k] != s@,
        decreases v@.len() - i,
    {
        if v[i] == *s {
            assert(vv[i as int] == s@);
            return true;
        }
        i = i + 1;
    }
    false
}

fn contribution_exec(c: &PendingChange, p: &String) -> (r: Vec<PreviewStep>)
    ensures
        steps_view(r@) == contribution(c@, p@),
{
    let mut v: Vec<PreviewStep> = Vec::new();
    match c {
        PendingChange::EditBuffer { path, edit } => {
            if *path == *p {
                v.push(PreviewStep::Edit(edit.duplicate()));
            }
        },
        PendingChange::WriteNewFile { path, contents } => {
            if *path == *p {
                v.push(PreviewStep::Edit(BufferEdit::FullReplace { new_text: contents.clone() }));
            }
        },
        PendingChange::UpsertFile { path, contents } => {
            if *path == *p {
                v.push(PreviewStep::Edit(BufferEdit::FullReplace { new_text: contents.clone() }));
            }
        },
        PendingChange::DeleteFile { path, .. } => {
            if *path == *p {
                v.push(PreviewStep::Edit(BufferEdit::FullReplace { new_text: String::new() }));
            }
        },
        PendingChange::MoveFile { from, to } => {
            if *from == *p {
                v.push(PreviewStep::Edit(BufferEdit::FullReplace { new_text: String::new() }));
            }
            if *to == *p {
                v.push(PreviewStep::ContentsOf(from.clone()));
            }
        },
    }
    assert(steps_view(v@) =~= contribution(c@, p@));
    v
}

impl WorkspaceTx {
    /// What previewing the pending changes takes, file by file: each
    /// touched path once, in the order first touched, with the steps that
    /// turn its current text into its text after commit (the caller reads
    /// the texts, applies the steps and diffs the results).
    pub fn preview_plan(&self) -> (r: Vec<PathPreview>)
        ensures
            preview_view(r@) == preview_plan_of(self.pending_view()),
    {
        let ghost cs = self.pending_view();
        let mut order: Vec<String> = Vec::new();
        let mut i: usize = 0;
        while i < self.pending.len()
            invariant
                0 <= i <= self.pending@.len(),
                cs == changes_view(self.pending@),
                order@.map_values(|x: String| x@) == first_occurrences(all_touched(cs.subrange(0, i as int))),
            decreases self.pending@.len() - i,
        {
            let ps = change_paths(&self.pending[i]);
            let ghost pre = all_touched(cs.subrange(0, i as int));
            proof {
                assert(cs.subrange(0, i + 1).drop_last() =~= cs.subrange(0, i as int));
                assert(cs.subrange(0, i + 1).last() == self.pending@[i as int]@);
            }
            let mut k: usize = 0;
            while k < ps.len()
                invariant
                    0 <= k <= ps@.len(),
                    order@.map_values(|x: String| x@) == first_occurrences(
                        pre + ps@.map_values(|s: String| s@).subrange(0, k as int),
                    ),
                decreases ps@.len() - k,
            {
                let ghost tp = ps@.map_values(|s: String| s@);
                let ghost before = order@.map_values(|x: String| x@);
                proof {
                    assert((pre + tp.subrange(0, k + 1)).drop_last() =~= pre + tp.subrange(0, k as int));
                    assert((pre + tp.subrange(0, k + 1)).last() == ps@[k as int]@);
                }
                if !contains_string(&order, &ps[k]) {
                    order.push(ps[k].clone());
                    assert(order@.map_values(|x: String| x@) =~= before.push(ps@[k as int]@));
                }
                k = k + 1;
            }
            proof {
                assert(ps@.map_values(|s: String| s@).subrange(0, ps@.len() as int) =~= ps@.map_values(
                    |s: String| s@,
                ));
            }
            i = i + 1;
        }
        proof {
            assert(cs.subrange(0, cs.len() as int) =~= cs);
        }
        let mut out: Vec<PathPreview> = Vec::new();
        let ghost ov = order@.map_values(|x: String| x@);
        let mut j: usize = 0;
        while j < order.len()
            invariant
                0 <= j <= order@.len(),
                cs == changes_view(self.pending@),
                ov == order@.map_values(|x: String| x@),
                ov == first_occurrences(all_touched(cs)),
                preview_view(out@) == ov.subrange(0, j as int).map_values(
                    |p: Seq<char>| (p, steps_for(cs, p)),
                ),
            decreases order@.len() - j,
        {
            let p = &order[j];
            let mut steps: Vec<PreviewStep> = Vec::new();
            let mut m: usize = 0;
            while m < self.pending.len()
                invariant
                    0 <= m <= self.pending@.len(),
                    cs == changes_view(self.pending@),
                    steps_view(steps@) == steps_for(cs.subrange(0, m as int), p@),
                decreases self.pending@.len() - m,
            {
                let more = contribution_exec(&self.pending[m], p);
                let ghost pre = steps_view(steps@);
                let mut more = more;
                let n = more.len();
                let mut q: usize = 0;
                let ghost mv = steps_view(more@);
                while q < n
                    invariant
                        0 <= q <= n,
                        more@.len() == n - q,
                        steps_view(more@) == mv.subrange(q as int, n as int),
                        mv.len() == n,
                        steps_view(steps@) == pre + mv.subrange(0, q as int),
                    decreases n - q,
                {
                    let ghost old_more = more@;
                    assert(steps_view(old_more)[0] == mv.subrange(q as int, n as int)[0]);
                    let s = more.remove(0);
                    let ghost before = steps_view(steps@);
                    steps.push(s);
                    assert(steps_view(steps@) =~= before.push(mv[q as int]));
                    assert(pre + mv.subrange(0, q + 1) =~= (pre + mv.subrange(0, q as int)).push(mv[q as int]));
                    assert(more@ =~= old_more.drop_first());
                    assert(steps_view(more@) =~= steps_view(old_more).drop_first());
                    assert(steps_view(more@) =~= mv.subrange(q + 1, n as int));
                    q = q + 1;
                }
                proof {
                    assert(mv.subrange(0, n as int) =~= mv);
                    assert(cs.subrange(0, m + 1).drop_last() =~= cs.subrange(0, m as int));
                    assert(cs.subrange(0, m + 1).last() == self.pending@[m as int]@);
                }
                m = m + 1;
            }
            proof {
                assert(cs.subrange(0, cs.len() as int) =~= cs);
            }
            let ghost before = preview_view(out@);
            out.push(PathPreview { path: p.clone(), steps });
            assert(preview_view(out@) =~= before.push((ov[j as int], steps_for(cs, ov[j as int]))));
            assert(ov.subrange(0, j + 1).map_values(|p: Seq<char>| (p, steps_for(cs, p))) =~= ov.subrange(
                0,
                j as int,
            ).map_values(|p: Seq<char>| (p, steps_for(cs, p))).push((ov[j as int], steps_for(cs, ov[j as int]))));
            j = j + 1;
        }
        assert(ov.subrange(0, ov.len() as int) =~= ov);
        out
    }
}

} // verus!

verus! {

/// The UTF-8 bytes that `steps` leave, starting from the bytes `b`, or the
/// error of the first edit that misses a character boundary. A
/// `ContentsOf` step takes the next of `contents`, the texts read for such
/// steps in order (empty where none was read).
pub open spec fn run_steps(b: Seq<u8>, steps: Seq<StepView>, contents: Seq<Seq<char>>) -> Result<
    Seq<u8>,
    ToolErrorView,
>
    decreases steps.len(),
{
    if steps.len() == 0 {
        Ok(b)
    } else {
        match steps[0] {
            StepView::Edit(e) => match edited_bytes(b, e) {
                Some(nb) => run_steps(nb, steps.drop_first(), contents),
                None => Err(ToolErrorView::Message(boundary_error(e))),
            },
            StepView::ContentsOf(_) => {
                let t = if contents.len() > 0 { contents[0] } else { Seq::empty() };
                let rest = if contents.len() > 0 { contents.drop_first() } else { contents };
                run_steps(encode_utf8(t), steps.drop_first(), rest)
            },
        }
    }
}

/// No edit along the way is a reversed range (which would panic).
pub open spec fn steps_well_ordered(b: Seq<u8>, steps: Seq<StepView>, contents: Seq<Seq<char>>) -> bool
    decreases steps.len(),
{
    if steps.len() == 0 {
        true
    } else {
        match steps[0] {
            StepView::Edit(e) => edit_well_ordered(b, e) && match edited_bytes(b, e) {
                Some(nb) => steps_well_ordered(nb, steps.drop_first(), contents),
                None => true,
            },
            StepView::ContentsOf(_) => {
                let t = if contents.len() > 0 { contents[0] } else { Seq::empty() };
                let rest = if contents.len() > 0 { contents.drop_first() } else { contents };
                steps_well_ordered(encode_utf8(t), steps.drop_first(), rest)
            },
        }
    }
}

pub open spec fn texts_view(v: Seq<String>) -> Seq<Seq<char>> {
    v.map_values(|s: String| s@)
}

/// The text of a path after the pending changes, from its current text
/// `before` and the steps that [`WorkspaceTx::preview_plan`] gives for it;
/// `contents` holds the current texts of the files that its `ContentsOf`
/// steps name, in order.
pub fn preview_after(before: String, steps: &Vec<PreviewStep>, contents: &Vec<String>) -> (r: Result<
    String,
    ToolError,
>)
    requires
        steps_well_ordered(encode_utf8(before@), steps_view(steps@), texts_view(contents@)),
    ensures
        match run_steps(encode_utf8(before@), steps_view(steps@), texts_view(contents@)) {
            Ok(nb) => r is Ok && encode_utf8(r->Ok_0@) == nb,
            Err(e) => r is Err && r->Err_0@ == e,
        },
{
    let ghost sv = steps_view(steps@);
    let ghost cv = texts_view(contents@);
    let ghost goal = run_steps(encode_utf8(before@), sv, cv);
    let mut text = before.clone();
    let mut i: usize = 0;
    let mut c: usize = 0;
    assert(sv.subrange(0, sv.len() as int) =~= sv);
    assert(cv.subrange(0, cv.len() as int) =~= cv);
    while i < steps.len()
        invariant
            0 <= i <= steps@.len(),
            0 <= c <= contents@.len(),
            sv == steps_view(steps@),
            cv == texts_view(contents@),
            goal == run_steps(encode_utf8(before@), sv, cv),
            run_steps(encode_utf8(text@), sv.subrange(i as int, sv.len() as int), cv.subrange(c as int, cv.len() as int))
                == goal,
            steps_well_ordered(
                encode_utf8(text@),
                sv.subrange(i as int, sv.len() as int),
                cv.subrange(c as int, cv.len() as int),
            ),
        decreases steps@.len() - i,
    {
        let ghost rest = sv.subrange(i as int, sv.len() as int);
        let ghost crest = cv.subrange(c as int, cv.len() as int);
        assert(rest[0] == steps@[i as int]@);
        assert(rest.drop_first() =~= sv.subrange(i + 1, sv.len() as int));
        match &steps[i] {
            PreviewStep::Edit(e) => {
                assert(rest[0] == StepView::Edit(e@));
                match apply_edit_to_string(&mut text, e) {
                    Ok(()) => {},
                    Err(err) => {
                        return Err(err);
                    },
                }
            },
            PreviewStep::ContentsOf(p) => {
                assert(rest[0] == StepView::ContentsOf(p@));
                if c < contents.len() {
                    text = contents[c].clone();
                    assert(crest[0] == contents@[c as int]@);
                    assert(crest.drop_first() =~= cv.subrange(c + 1, cv.len() as int));
                    c = c + 1;
                } else {
                    text = String::new();
                    assert(crest.len() == 0);
                }
            },
        }
        i = i + 1;
    }
    proof {
        assert(sv.subrange(i as int, sv.len() as int).len() == 0);
    }
    Ok(text)
}

} // verus!
