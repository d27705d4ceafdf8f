//! The workspace task list (`.ide/tasks.md`): the entries, and what the
//! task tools do to them. Reading, parsing and rendering the file is the
//! caller's work.

use vstd::prelude::*;

use crate::provider::types::str_eq;
use crate::tools::error::{ToolError, ToolErrorView};

verus! {

#[derive(Debug, Clone, Copy, PartialEq, Eq, Structural)]
pub enum TaskStatus {
    Open,
    InProgress,
    Done,
    Cancelled,
}

/// One task of the list.
#[derive(Debug)]
pub struct Task {
    pub id: String,
    pub summary: String,
    pub status: TaskStatus,
    pub notes: Option<String>,
}

pub struct TaskView {
    pub id: Seq<char>,
    pub summary: Seq<char>,
    pub status: TaskStatus,
    pub notes: Option<Seq<char>>,
}

impl View for Task {
    type V = TaskView;

    open spec fn view(&self) -> TaskView {
        TaskView {
            id: self.id@,
            summary: self.summary@,
            status: self.status,
            notes: match self.notes {
                Some(n) => Some(n@),
                None => None,
            },
        }
    }
}

pub open spec fn tasks_view(v: Seq<Task>) -> Seq<TaskView> {
    v.map_values(|t: Task| t@)
}

/// Index of the first task with this id.
#[verifier::opaque]
pub open spec fn first_with_id(t: Seq<TaskView>, id: Seq<char>) -> Option<int> {
    if exists|i: int| 0 <= i < t.len() && t[i].id == id {
        Some(choose|i: int| 0 <= i < t.len() && t[i].id == id && forall|j: int| 0 <= j < i ==> t[j].id != id)
    } else {
        None
    }
}

proof fn lemma_first_some(t: Seq<TaskView>, id: Seq<char>, i: int)
    requires
        0 <= i < t.len(),
        t[i].id == id,
        forall|j: int| 0 <= j < i ==> t[j].id != id,
    ensures
        first_with_id(t, id) == Some(i),
{
    reveal(first_with_id);
    let k = choose|k: int| 0 <= k < t.len() && t[k].id == id && forall|j: int| 0 <= j < k ==> t[j].id != id;
    if k < i {
        assert(t[k].id != id);
    } else if k > i {
        assert(t[i].id != id);
    }
}

proof fn lemma_first_none(t: Seq<TaskView>, id: Seq<char>)
    requires
        forall|j: int| 0 <= j < t.len() ==> t[j].id != id,
    ensures
        first_with_id(t, id) is None,
{
    reveal(first_with_id);
}

/// The status a tool input names: `open`, `in_progress` (or `inProgress`),
/// `done`, `cancelled` (or `canceled`).
pub open spec fn status_named(s: Seq<char>) -> Option<TaskStatus> {
    if s == "open"@ {
        Some(TaskStatus::Open)
    } else if s == "in_progress"@ || s == "inProgress"@ {
        Some(TaskStatus::InProgress)
    } else if s == "done"@ {
        Some(TaskStatus::Done)
    } else if s == "cancelled"@ || s == "canceled"@ {
        Some(TaskStatus::Cancelled)
    } else {
        None
    }
}

pub fn parse_status(s: &str) -> (r: Result<TaskStatus, ToolError>)
    ensures
        match status_named(s@) {
            Some(st) => r is Ok && r->Ok_0 == st,
            None => r is Err && r->Err_0@ == ToolErrorView::Message(
                "status: open | in_progress | done | cancelled"@,
            ),
        },
{
    if str_eq(s, "open") {
        Ok(TaskStatus::Open)
    } else if str_eq(s, "in_progress") || str_eq(s, "inProgress") {
        Ok(TaskStatus::InProgress)
    } else if str_eq(s, "done") {
        Ok(TaskStatus::Done)
    } else if str_eq(s, "cancelled") || str_eq(s, "canceled") {
        Ok(TaskStatus::Cancelled)
    } else {
        Err(ToolError::msg("status: open | in_progress | done | cancelled".to_owned()))
    }
}

/// Index of the first task with id `id`.
pub fn find_task(entries: &Vec<Task>, id: &str) -> (r: Option<usize>)
    ensures
        match r {
            Some(i) => i < entries@.len() && first_with_id(tasks_view(entries@), id@) == Some(
                i as int,
            ),
            None => first_with_id(tasks_view(entries@), id@) is None,
        },
{
    let ghost t = tasks_view(entries@);
    let mut i: usize = 0;
    while i < entries.len()
        invariant
            0 <= i <= entries@.len(),
            t == tasks_view(entries@),
            forall|j: int| 0 <= j < i ==> t[j].id != id@,
        decreases entries@.len() - i,
    {
        if str_eq(entries[i].id.as_str(), id) {
            proof {
                lemma_first_some(t, id@, i as int);
            }
            return Some(i);
        }
        i = i + 1;
    }
    proof {
        lemma_first_none(t, id@);
    }
    None
}

/// `t` with task `i` given a new status and notes.
pub open spec fn with_task(t: Seq<TaskView>, i: int, status: TaskStatus, notes: Option<Seq<char>>) -> Seq<TaskView> {
    t.update(i, TaskView { id: t[i].id, summary: t[i].summary, status, notes })
}

fn set_task(entries: &mut Vec<Task>, i: usize, status: TaskStatus, notes: Option<String>)
    requires
        i < old(entries)@.len(),
    ensures
        tasks_view(final(entries)@) == with_task(
            tasks_view(old(entries)@),
            i as int,
            status,
            match notes {
                Some(n) => Some(n@),
                None => None,
            },
        ),
{
    let mut t = entries.remove(i);
    t.status = status;
    t.notes = notes;
    entries.insert(i, t);
    assert(tasks_view(entries@) =~= with_task(
        tasks_view(old(entries)@),
        i as int,
        status,
        match notes {
            Some(n) => Some(n@),
            None => None,
        },
    ));
}

fn unknown_id(id: &String) -> (r: ToolError)
    ensures
        r@ == ToolErrorView::Message("unknown task id "@ + id@),
{
    let mut s = "unknown task id ".to_owned();
    s.append(id.as_str());
    ToolError::msg(s)
}

/// Input of `complete_task`.
pub struct CompleteTaskInput {
    pub id: String,
}

/// Marks a task done.
pub struct CompleteTaskTool;

impl CompleteTaskTool {
    pub fn name(&self) -> (r: &'static str)
        ensures
            r@ == "complete_task"@,
    {
        "complete_task"
    }

    pub fn description(&self) -> (r: &'static str)
        ensures
            r@ == "Mark a task done by id in `.ide/tasks.md`."@,
    {
        "Mark a task done by id in `.ide/tasks.md`."
    }

    /// Marks the first task with the input's id done.
    pub fn apply(&self, p: &CompleteTaskInput, entries: &mut Vec<Task>) -> (r: Result<(), ToolError>)
        ensures
            match first_with_id(tasks_view(old(entries)@), p.id@) {
                None => r is Err && r->Err_0@ == ToolErrorView::Message("unknown task id "@ + p.id@)
                    && tasks_view(final(entries)@) == tasks_view(old(entries)@),
                Some(i) => r is Ok && tasks_view(final(entries)@) == with_task(
                    tasks_view(old(entries)@),
                    i,
                    TaskStatus::Done,
                    tasks_view(old(entries)@)[i].notes,
                ),
            },
    {
        match find_task(entries, p.id.as_str()) {
            None => Err(unknown_id(&p.id)),
            Some(i) => {
                let notes = match &entries[i].notes {
                    Some(n) => Some(n.clone()),
                    None => None,
                };
                set_task(entries, i, TaskStatus::Done, notes);
                Ok(())
            },
        }
    }
}

/// Input of `update_task`.
pub struct UpdateTaskInput {
    pub id: String,
    pub status: Option<String>,
    pub notes: Option<String>,
}

/// The notes an `update_task` call leaves: unchanged when absent, cleared
/// when empty.
pub open spec fn updated_notes(old_notes: Option<Seq<char>>, notes: Option<Seq<char>>) -> Option<Seq<char>> {
    match notes {
        None => old_notes,
        Some(n) => if n.len() == 0 { None } else { Some(n) },
    }
}

/// Updates a task's status and/or notes.
pub struct UpdateTaskTool;

impl UpdateTaskTool {
    pub fn name(&self) -> (r: &'static str)
        ensures
            r@ == "update_task"@,
    {
        "update_task"
    }

    pub fn description(&self) -> (r: &'static str)
        ensures
            r@ == "Update task status and/or notes by id."@,
    {
        "Update task status and/or notes by id."
    }

    /// Updates the first task with the input's id.
    pub fn apply(&self, p: UpdateTaskInput, entries: &mut Vec<Task>) -> (r: Result<(), ToolError>)
        ensures
            match first_with_id(tasks_view(old(entries)@), p.id@) {
                None => r is Err && r->Err_0@ == ToolErrorView::Message("unknown task id "@ + p.id@)
                    && tasks_view(final(entries)@) == tasks_view(old(entries)@),
                Some(i) => {
                    let old_t = tasks_view(old(entries)@)[i];
                    match p.status {
                        Some(s) if status_named(s@) is None => r is Err && r->Err_0@
                            == ToolErrorView::Message(
                            "status: open | in_progress | done | cancelled"@,
                        ),
                        _ => r is Ok && tasks_view(final(entries)@) == with_task(
                            tasks_view(old(entries)@),
                            i,
                            match p.status {
                                Some(s) => status_named(s@).unwrap(),
                                None => old_t.status,
                            },
                            updated_notes(
                                old_t.notes,
                                match p.notes {
                                    Some(n) => Some(n@),
                                    None => None,
                                },
                            ),
                        ),
                    }
                },
            },
    {
        match find_task(entries, p.id.as_str()) {
            None => Err(unknown_id(&p.id)),
            Some(i) => {
                let status = match &p.status {
                    Some(st) => parse_status(st.as_str())?,
                    None => entries[i].status,
                };
                let notes = match p.notes {
                    Some(n) => if n.as_str().is_empty() {
                        None
                    } else {
                        Some(n)
                    },
                    None => match &entries[i].notes {
                        Some(n) => Some(n.clone()),
                        None => None,
                    },
                };
                set_task(entries, i, status, notes);
                Ok(())
            },
        }
    }
}

/// Input of `add_task`.
pub struct AddTaskInput {
    pub summary: String,
}

/// Appends an open task.
pub struct AddTaskTool;

impl AddTaskTool {
    pub fn name(&self) -> (r: &'static str)
        ensures
            r@ == "add_task"@,
    {
        "add_task"
    }

    pub fn description(&self) -> (r: &'static str)
        ensures
            r@ == "Append an open task to `.ide/tasks.md`."@,
    {
        "Append an open task to `.ide/tasks.md`."
    }

    /// Appends an open task with the given fresh `id`.
    pub fn apply(&self, p: AddTaskInput, id: String, entries: &mut Vec<Task>)
        ensures
            tasks_view(final(entries)@) == tasks_view(old(entries)@).push(
                TaskView { id: id@, summary: p.summary@, status: TaskStatus::Open, notes: None },
            ),
    {
        entries.push(Task { id, summary: p.summary, status: TaskStatus::Open, notes: None });
        assert(tasks_view(entries@) =~= tasks_view(old(entries)@).push(
            TaskView { id: id@, summary: p.summary@, status: TaskStatus::Open, notes: None },
        ));
    }
}

/// Input of `list_tasks` (no fields).
pub struct ListTasksInput {}

/// Lists the task list.
pub struct ListTasksTool;

impl ListTasksTool {
    pub fn name(&self) -> (r: &'static str)
        ensures
            r@ == "list_tasks"@,
    {
        "list_tasks"
    }

    pub fn description(&self) -> (r: &'static str)
        ensures
            r@ == "List tasks from `.ide/tasks.md` (JSON array)."@,
    {
        "List tasks from `.ide/tasks.md` (JSON array)."
    }
}

/// The statuses the editor's own `update_task` accepts.
pub open spec fn direct_status_named(s: Seq<char>) -> Option<TaskStatus> {
    if s == "open"@ {
        Some(TaskStatus::Open)
    } else if s == "in_progress"@ {
        Some(TaskStatus::InProgress)
    } else if s == "done"@ {
        Some(TaskStatus::Done)
    } else if s == "cancelled"@ {
        Some(TaskStatus::Cancelled)
    } else {
        None
    }
}

fn direct_status(s: &str) -> (r: Option<TaskStatus>)
    ensures
        r == direct_status_named(s@),
{
    if str_eq(s, "open") {
        Some(TaskStatus::Open)
    } else if str_eq(s, "in_progress") {
        Some(TaskStatus::InProgress)
    } else if str_eq(s, "done") {
        Some(TaskStatus::Done)
    } else if str_eq(s, "cancelled") {
        Some(TaskStatus::Cancelled)
    } else {
        None
    }
}

/// What the editor's own `list_tasks` answers for an empty list.
pub fn no_tasks_text() -> (r: &'static str)
    ensures
        r@ == "No tasks found. Use add_task to create one."@,
{
    "No tasks found. Use add_task to create one."
}

pub open spec fn task_not_found_text(id: Seq<char>) -> Seq<char> {
    "Task `"@ + id + "` not found"@
}

fn task_message(head: &str, id: &str, summary: &str) -> (r: String)
    ensures
        r@ == head@ + id@ + "` — "@ + summary@,
{
    let mut s = head.to_owned();
    s.append(id);
    s.append("` — ");
    s.append(summary);
    s
}

fn not_found(id: &str) -> (r: (String, bool))
    ensures
        r.0@ == task_not_found_text(id@),
        r.1,
{
    let mut s = "Task `".to_owned();
    s.append(id);
    s.append("` not found");
    (s, true)
}

/// The editor's own `add_task`: appends an open task with the fresh `id`.
pub fn direct_add_task(entries: &mut Vec<Task>, id: String, summary: String, notes: Option<String>) -> (r:
    String)
    ensures
        tasks_view(final(entries)@) == tasks_view(old(entries)@).push(
            TaskView {
                id: id@,
                summary: summary@,
                status: TaskStatus::Open,
                notes: match notes {
                    Some(n) => Some(n@),
                    None => None,
                },
            },
        ),
        r@ == "Added task `"@ + id@ + "` — "@ + summary@,
{
    let msg = task_message("Added task `", id.as_str(), summary.as_str());
    entries.push(Task { id, summary, status: TaskStatus::Open, notes });
    assert(tasks_view(entries@) =~= tasks_view(old(entries)@).push(entries@.last()@));
    msg
}

/// The editor's own `complete_task`: the answer and whether it is an error.
pub fn direct_complete_task(entries: &mut Vec<Task>, id: &str) -> (r: (String, bool))
    ensures
        match first_with_id(tasks_view(old(entries)@), id@) {
            None => r.1 && r.0@ == task_not_found_text(id@) && tasks_view(final(entries)@)
                == tasks_view(old(entries)@),
            Some(i) => !r.1 && tasks_view(final(entries)@) == with_task(
                tasks_view(old(entries)@),
                i,
                TaskStatus::Done,
                tasks_view(old(entries)@)[i].notes,
            ) && r.0@ == "Completed task `"@ + id@ + "` — "@ + tasks_view(old(entries)@)[i].summary,
        },
{
    match find_task(entries, id) {
        None => not_found(id),
        Some(i) => {
            let notes = match &entries[i].notes {
                Some(n) => Some(n.clone()),
                None => None,
            };
            let summary = entries[i].summary.clone();
            set_task(entries, i, TaskStatus::Done, notes);
            let msg = task_message("Completed task `", id, summary.as_str());
            (msg, false)
        },
    }
}

/// The editor's own `update_task`: sets the named status and the notes
/// that are given; an unknown status changes nothing.
pub fn direct_update_task(entries: &mut Vec<Task>, id: &str, status: Option<&str>, notes: Option<String>) -> (r:
    (String, bool))
    ensures
        match first_with_id(tasks_view(old(entries)@), id@) {
            None => r.1 && r.0@ == task_not_found_text(id@) && tasks_view(final(entries)@)
                == tasks_view(old(entries)@),
            Some(i) => {
                let old_t = tasks_view(old(entries)@)[i];
                match status {
                    Some(s) if direct_status_named(s@) is None => r.1 && r.0@ == "Unknown status '"@
                        + s@ + "'"@ && tasks_view(final(entries)@) == tasks_view(old(entries)@),
                    _ => !r.1 && r.0@ == "Updated task `"@ + id@ + "` — "@ + old_t.summary
                        && tasks_view(final(entries)@) == with_task(
                        tasks_view(old(entries)@),
                        i,
                        match status {
                            Some(s) => direct_status_named(s@).unwrap(),
                            None => old_t.status,
                        },
                        match notes {
                            Some(n) => Some(n@),
                            None => old_t.notes,
                        },
                    ),
                }
            },
        },
{
    match find_task(entries, id) {
        None => not_found(id),
        Some(i) => {
            let st = match status {
                Some(s) => match direct_status(s) {
                    Some(t) => t,
                    None => {
                        let mut m = "Unknown status '".to_owned();
                        m.append(s);
                        m.append("'");
                        return (m, true);
                    },
                },
                None => entries[i].status,
            };
            let new_notes = match notes {
                Some(n) => Some(n),
                None => match &entries[i].notes {
                    Some(n) => Some(n.clone()),
                    None => None,
                },
            };
            let summary = entries[i].summary.clone();
            set_task(entries, i, st, new_notes);
            let msg = task_message("Updated task `", id, summary.as_str());
            (msg, false)
        },
    }
}

proof fn lemma_first_exists(t: Seq<TaskView>, id: Seq<char>, k: int)
    requires
        0 <= k < t.len(),
        t[k].id == id,
    ensures
        exists|m: int| 0 <= m < t.len() && t[m].id == id && forall|j: int| 0 <= j < m ==> t[j].id != id,
    decreases k,
{
    if exists|j: int| 0 <= j < k && t[j].id == id {
        let j = choose|j: int| 0 <= j < k && t[j].id == id;
        lemma_first_exists(t, id, j);
    }
}

proof fn lemma_first_with_id_found(t: Seq<TaskView>, id: Seq<char>, i: int)
    requires
        first_with_id(t, id) == Some(i),
    ensures
        0 <= i < t.len(),
        t[i].id == id,
        forall|j: int| 0 <= j < i ==> t[j].id != id,
{
    reveal(first_with_id);
    let k = choose|k: int| 0 <= k < t.len() && t[k].id == id;
    lemma_first_exists(t, id, k);
}

/// A successful `update_task` changes only the first task with the given id,
/// and in it only what the call gives: the status when one is named, the
/// notes when they are given (cleared when given empty). A call without
/// notes keeps the task's notes; one without a status keeps its status; the
/// id, the summary, the other tasks and their order stay as they were.
pub proof fn law_update_task_changes_only_what_is_given(
    t: Seq<TaskView>,
    id: Seq<char>,
    status: Option<Seq<char>>,
    notes: Option<Seq<char>>,
    i: int,
)
    requires
        first_with_id(t, id) == Some(i),
        status matches Some(s) ==> status_named(s) is Some,
    ensures
        ({
            let after = with_task(
                t,
                i,
                match status {
                    Some(s) => status_named(s).unwrap(),
                    None => t[i].status,
                },
                updated_notes(t[i].notes, notes),
            );
            &&& after.len() == t.len()
            &&& forall|j: int| 0 <= j < t.len() && j != i ==> after[j] == t[j]
            &&& after[i].id == id
            &&& after[i].summary == t[i].summary
            &&& status is None ==> after[i].status == t[i].status
            &&& status matches Some(s) ==> after[i].status == status_named(s).unwrap()
            &&& notes is None ==> after[i].notes == t[i].notes
            &&& notes matches Some(n) ==> (if n.len() == 0 {
                after[i].notes is None
            } else {
                after[i].notes == Some(n)
            })
        }),
{
    lemma_first_with_id_found(t, id, i);
}

/// The editor's own `update_task` likewise changes only the first task with
/// the id: a call without notes keeps its notes, one without a status keeps
/// its status, and everything else stays as it was.
pub proof fn law_direct_update_task_changes_only_what_is_given(
    t: Seq<TaskView>,
    id: Seq<char>,
    status: Option<Seq<char>>,
    notes: Option<Seq<char>>,
    i: int,
)
    requires
        first_with_id(t, id) == Some(i),
        status matches Some(s) ==> direct_status_named(s) is Some,
    ensures
        ({
            let after = with_task(
                t,
                i,
                match status {
                    Some(s) => direct_status_named(s).unwrap(),
                    None => t[i].status,
                },
                match notes {
                    Some(n) => Some(n),
                    None => t[i].notes,
                },
            );
            &&& after.len() == t.len()
            &&& forall|j: int| 0 <= j < t.len() && j != i ==> after[j] == t[j]
            &&& after[i].id == id
            &&& after[i].summary == t[i].summary
            &&& status is None ==> after[i].status == t[i].status
            &&& notes is None ==> after[i].notes == t[i].notes
            &&& notes matches Some(n) ==> after[i].notes == Some(n)
        }),
{
    lemma_first_with_id_found(t, id, i);
}

/// Completing a task marks the first task with the id done and keeps its
/// id, summary and notes; the other tasks stay as they were.
pub proof fn law_complete_task_keeps_notes(t: Seq<TaskView>, id: Seq<char>, i: int)
    requires
        first_with_id(t, id) == Some(i),
    ensures
        ({
            let after = with_task(t, i, TaskStatus::Done, t[i].notes);
            &&& after.len() == t.len()
            &&& forall|j: int| 0 <= j < t.len() && j != i ==> after[j] == t[j]
            &&& after[i] == TaskView { status: TaskStatus::Done, ..t[i] }
            &&& after[i].id == id
        }),
{
    lemma_first_with_id_found(t, id, i);
}

} // verus!
