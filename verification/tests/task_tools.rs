use ide_agent::tools::direct::{missing_field, skill_load_failure, skills_unavailable};
use ide_agent::tools::metadata::{
    append_stamped_note, no_sidecar_hint, note_written_text, ReadMetadataTool, WriteMetadataNoteTool,
};
use ide_agent::tools::tasks::{
    direct_add_task, direct_complete_task, direct_update_task, find_task, no_tasks_text, parse_status,
    AddTaskInput, AddTaskTool, CompleteTaskInput, CompleteTaskTool, Task, TaskStatus, UpdateTaskInput,
    UpdateTaskTool,
};
use ide_agent::tools::transaction::{PendingChange, WorkspaceTx};

fn task(id: &str, summary: &str) -> Task {
    Task { id: id.into(), summary: summary.into(), status: TaskStatus::Open, notes: None }
}

#[test]
fn empty_workspace_has_no_tasks() {
    let entries: Vec<Task> = Vec::new();
    assert!(entries.is_empty());
    let out = no_tasks_text();
    assert!(out.contains("No tasks"), "{out}");
}

#[test]
fn add_then_list() {
    let mut entries = Vec::new();
    let add = direct_add_task(&mut entries, "ab12cd34".into(), "Write auth tests".into(), None);
    assert!(add.contains("Write auth tests"), "{add}");
    assert_eq!(add, "Added task `ab12cd34` — Write auth tests");
    assert_eq!(entries.len(), 1);
    assert_eq!(entries[0].summary, "Write auth tests");
    assert_eq!(entries[0].status, TaskStatus::Open);
}

#[test]
fn complete_task_marks_done() {
    let mut entries = Vec::new();
    direct_add_task(&mut entries, "id1".into(), "Fix login bug".into(), Some("n".into()));
    let (out, err) = direct_complete_task(&mut entries, "id1");
    assert!(!err, "{out}");
    assert_eq!(out, "Completed task `id1` — Fix login bug");
    assert_eq!(entries[0].status, TaskStatus::Done);
    assert_eq!(entries[0].notes.as_deref(), Some("n"));
}

#[test]
fn update_task_status_and_notes() {
    let mut entries = Vec::new();
    direct_add_task(&mut entries, "id1".into(), "Refactor auth".into(), None);
    let (out, err) =
        direct_update_task(&mut entries, "id1", Some("in_progress"), Some("Blocked on PR #42".into()));
    assert!(!err, "{out}");
    assert_eq!(entries[0].status, TaskStatus::InProgress);
    assert!(entries[0].notes.as_deref().unwrap().contains("PR #42"));
    let (out, err) = direct_update_task(&mut entries, "id1", Some("later"), Some("x".into()));
    assert!(err);
    assert_eq!(out, "Unknown status 'later'");
    assert!(entries[0].notes.as_deref().unwrap().contains("PR #42"));
}

#[test]
fn complete_nonexistent_returns_error() {
    let mut entries = vec![task("a", "s")];
    let (out, err) = direct_complete_task(&mut entries, "ghost");
    assert!(err, "{out}");
    assert!(out.contains("not found"), "{out}");
    assert_eq!(out, "Task `ghost` not found");
    assert_eq!(entries[0].status, TaskStatus::Open);
}

#[test]
fn status_names() {
    assert_eq!(parse_status("open").unwrap(), TaskStatus::Open);
    assert_eq!(parse_status("inProgress").unwrap(), TaskStatus::InProgress);
    assert_eq!(parse_status("canceled").unwrap(), TaskStatus::Cancelled);
    assert_eq!(parse_status("nope").unwrap_err().text(), "status: open | in_progress | done | cancelled");
}

#[test]
fn task_tools_on_entries() {
    let mut entries = vec![task("a", "first"), task("b", "second"), task("a", "dup")];
    assert_eq!(find_task(&entries, "a"), Some(0));
    assert_eq!(find_task(&entries, "z"), None);
    CompleteTaskTool.apply(&CompleteTaskInput { id: "b".into() }, &mut entries).unwrap();
    assert_eq!(entries[1].status, TaskStatus::Done);
    let e = CompleteTaskTool.apply(&CompleteTaskInput { id: "q".into() }, &mut entries).unwrap_err();
    assert_eq!(e.text(), "unknown task id q");
    UpdateTaskTool
        .apply(UpdateTaskInput { id: "a".into(), status: Some("done".into()), notes: Some("x".into()) }, &mut entries)
        .unwrap();
    assert_eq!(entries[0].status, TaskStatus::Done);
    assert_eq!(entries[0].notes.as_deref(), Some("x"));
    assert_eq!(entries[2].status, TaskStatus::Open);
    UpdateTaskTool
        .apply(UpdateTaskInput { id: "a".into(), status: None, notes: Some(String::new()) }, &mut entries)
        .unwrap();
    assert_eq!(entries[0].notes, None);
    AddTaskTool.apply(AddTaskInput { summary: "new".into() }, "c".into(), &mut entries);
    assert_eq!(entries.len(), 4);
    assert_eq!(entries[3].id, "c");
}

#[test]
fn read_missing_returns_hint() {
    let out = no_sidecar_hint("/ws/src/main.rs");
    assert!(out.contains("No sidecar"), "{out}");
    assert_eq!(out, "No sidecar found for /ws/src/main.rs. Use write_metadata_note to create one.");
}

#[test]
fn multiple_notes_accumulate() {
    let mut notes = String::new();
    append_stamped_note(&mut notes, "2024-01-01T00:00:00Z", "first");
    append_stamped_note(&mut notes, "2024-01-02T00:00:00Z", "second");
    assert!(notes.contains("first") && notes.contains("second"), "{notes}");
    assert_eq!(notes, "[2024-01-01T00:00:00Z] first\n[2024-01-02T00:00:00Z] second");
    assert_eq!(note_written_text("/ws/a.ts"), "Wrote metadata note for /ws/a.ts");
}

#[test]
fn metadata_note_tool_appends_trimmed() {
    let tool = WriteMetadataNoteTool;
    let mut notes = String::new();
    tool.append_note(&mut notes, "  first  ");
    tool.append_note(&mut notes, "second\n");
    assert_eq!(notes, "first\n\nsecond");
    assert_eq!(tool.name(), "write_metadata_note");
    assert_eq!(tool.new_sidecar_source(), "manual");
    assert_eq!(ReadMetadataTool.name(), "read_metadata");
    assert_eq!(ReadMetadataTool.skeleton_source(), "skeleton");
}

#[test]
fn metadata_note_tool_stages_upsert() {
    let mut tx = WorkspaceTx::new("/ws".into());
    let tool = WriteMetadataNoteTool;
    let m = tool.finish("/ws/.ide/meta/a.md".into(), "# md".into(), &mut tx, true);
    assert_eq!(m, "Would write /ws/.ide/meta/a.md.");
    assert!(tx.pending_changes().is_empty());
    let m = tool.finish("/ws/.ide/meta/a.md".into(), "# md".into(), &mut tx, false);
    assert_eq!(m, "Staged metadata note upsert.");
    assert!(matches!(
        &tx.pending_changes()[0],
        PendingChange::UpsertFile { path, contents } if path == "/ws/.ide/meta/a.md" && contents == "# md"
    ));
}

#[test]
fn list_skills_no_registry_returns_error() {
    let (out, err) = skills_unavailable();
    assert!(err, "{out}");
    assert_eq!(out, "Skill registry not available");
}

#[test]
fn skill_and_field_errors() {
    let (out, err) = skill_load_failure("system-info", "missing");
    assert!(err);
    assert_eq!(out, "Cannot load skill 'system-info': missing");
    let (out, err) = missing_field("name");
    assert!(err);
    assert_eq!(out, "Missing required field 'name'");
}

#[test]
fn load_skill_no_registry_returns_error() {
    let (out, err) = skills_unavailable();
    assert!(err, "{out}");
}
