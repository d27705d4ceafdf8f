use ide_agent::tools::explore::{FindFilesInput, FindFilesTool};
use ide_agent::tools::config::{RunShellInput, ShellSection, ToolConfig};
use ide_agent::tools::edit::{
    insert_byte_before_line, line_replacement_span, preview_range_msg, AppendToInput, AppendToTool,
    EditLinesInput, EditLinesTool, InsertAtInput, InsertAtTool,
};
use ide_agent::tools::error::ToolError;
use ide_agent::tools::explore::{ReadFileInput, ReadFileTool};
use ide_agent::tools::file_ops::{
    CreateFileInput, CreateFileTool, DeleteFileInput, DeleteFileTool, MoveFileInput, MoveFileTool,
};
use ide_agent::tools::lines::{count_newlines, line_to_byte};
use ide_agent::tools::path::{canonical_under_workspace, check_under_root, path_starts_with, split_resolved};
use ide_agent::tools::registry::{unknown_tool, RegisteredTool, ToolRegistry};
use ide_agent::tools::skills::{ListSkillsTool, LoadSkillReferenceTool, LoadSkillTool};
use ide_agent::tools::explore::{DirRow, GrepTool, ListDirectoryInput, ListDirectoryTool, SearchEvent, SearchHit, WalkEntry};
use ide_agent::tools::replace::{ReplaceInFileInput, ReplaceInFileTool};
use ide_agent::tools::shell::{
    capture_len, direct_shell_check, direct_shell_report, first_word, first_word_allowed,
    shell_summary, RunShellTool, MAX_CAPTURE,
};
use ide_agent::tools::transaction::{
    apply_edit_to_string, check_apply, preview_after, BufferEdit, PendingChange, PreviewStep, WorkspaceTx,
};

fn root() -> Result<String, ToolError> {
    Ok("/ws".to_string())
}

#[test]
fn rejects_parent_escape() {
    let r = canonical_under_workspace(root(), "../../etc/passwd");
    assert!(matches!(r, Err(ToolError::PathEscape(_))));
}

#[test]
fn path_rejects_absolute_outside() {
    let r = canonical_under_workspace(root(), "/etc/passwd");
    assert!(matches!(r, Err(ToolError::PathEscape(ref p)) if p == "/etc/passwd"));
}

#[test]
fn accepts_normal_relative() {
    let p = canonical_under_workspace(root(), "src/main.rs").unwrap();
    assert_eq!(p, "/ws/src/main.rs");
    assert!(path_starts_with(&p, "/ws"));
}

#[test]
fn resolves_dots_and_trims() {
    assert_eq!(canonical_under_workspace(root(), "  a/./b/../c.txt ").unwrap(), "/ws/a/c.txt");
    assert!(matches!(canonical_under_workspace(root(), "a/../../x"), Err(ToolError::PathEscape(_))));
    assert!(matches!(canonical_under_workspace(root(), "   "), Err(ToolError::Message(ref m)) if m == "empty path"));
    let bad_root: Result<String, ToolError> = Err(ToolError::InvalidPath("gone".to_string()));
    assert!(matches!(canonical_under_workspace(bad_root, "a"), Err(ToolError::InvalidPath(_))));
}

#[test]
fn path_prefix_is_by_component() {
    assert!(path_starts_with("/ws/a", "/ws"));
    assert!(!path_starts_with("/wsx/a", "/ws"));
    assert!(path_starts_with("/ws//a/", "/ws/"));
}

#[test]
fn as_defs_sorted_and_nonempty() {
    let reg = ToolRegistry::new_default(ToolConfig::default(), false);
    let defs = reg.as_defs();
    assert_eq!(defs.len(), 18);
    let mut names: Vec<_> = defs.iter().map(|d| d.name.as_str()).collect();
    let sorted = names.clone();
    names.sort();
    assert_eq!(names, sorted);
}

#[test]
fn skill_tools_fold_in_when_registry_provided() {
    let reg = ToolRegistry::new_default(ToolConfig::default(), true);
    let defs = reg.as_defs();
    assert_eq!(defs.len(), 21);
    let names: Vec<_> = defs.iter().map(|d| d.name.as_str()).collect();
    assert!(names.contains(&"load_skill"));
    assert!(names.contains(&"list_skills"));
    assert!(names.contains(&"load_skill_reference"));
}

#[test]
fn unknown_registered_tool_error() {
    let e = unknown_tool("frobnicate");
    assert_eq!(e.text(), "unknown tool: frobnicate");
}

#[test]
fn multi_tool_sequence_rollbacks() {
    let mut tx = WorkspaceTx::new("/ws".to_string());
    let text = "line1\nline2\n";
    InsertAtTool
        .invoke(
            InsertAtInput { path: "src/a.rs".into(), line: 2, content: "// hi\n".into() },
            "/ws/src/a.rs".into(),
            text,
            &mut tx,
            false,
        )
        .unwrap();
    AppendToTool
        .invoke(
            AppendToInput { path: "src/a.rs".into(), content: "tail".into() },
            "/ws/src/a.rs".into(),
            text,
            &mut tx,
            false,
        )
        .unwrap();
    assert_eq!(tx.pending_changes().len(), 2);
    match &tx.pending_changes()[0] {
        PendingChange::EditBuffer { edit: BufferEdit::InsertAt { byte_offset, .. }, .. } => {
            assert_eq!(*byte_offset, 6)
        }
        other => panic!("unexpected {other:?}"),
    }
    tx.rollback_all();
    assert_eq!(tx.pending_changes().len(), 0);
}

#[test]
fn ten_staged_invokes_then_rollback() {
    let mut tx = WorkspaceTx::new("/ws".to_string());
    for i in 1..=10 {
        AppendToTool
            .invoke(
                AppendToInput { path: format!("t{i}.txt"), content: format!("-{i}") },
                format!("/ws/t{i}.txt"),
                "hello\n",
                &mut tx,
                false,
            )
            .unwrap();
    }
    assert_eq!(tx.pending_changes().len(), 10);
    tx.rollback_all();
    assert!(tx.pending_changes().is_empty());
}

#[test]
fn append_adds_newline_when_missing() {
    let mut tx = WorkspaceTx::new("/ws".to_string());
    let msg = AppendToTool
        .invoke(
            AppendToInput { path: "f".into(), content: "x".into() },
            "/ws/f".into(),
            "abc",
            &mut tx,
            true,
        )
        .unwrap();
    assert_eq!(msg, "Will append 2 bytes at EOF (offset 3).");
    assert!(tx.pending_changes().is_empty());
}

#[test]
fn edit_lines_stages_replace_and_previews() {
    let mut tx = WorkspaceTx::new("/ws".to_string());
    let text = "a\nb\nc\n";
    let msg = EditLinesTool
        .invoke(
            EditLinesInput { path: "f".into(), start_line: 2, end_line: 2, new_content: "B\n".into() },
            "/ws/f".into(),
            text,
            &mut tx,
            true,
        )
        .unwrap();
    assert_eq!(msg, "Will replace lines 2-2 (1 lines, 2 bytes) with new content (2 bytes).");
    let msg = EditLinesTool
        .invoke(
            EditLinesInput { path: "f".into(), start_line: 2, end_line: 2, new_content: "B\n".into() },
            "/ws/f".into(),
            text,
            &mut tx,
            false,
        )
        .unwrap();
    assert_eq!(msg, "Staged replace for lines 2-2.");
    let mut s = text.to_string();
    match &tx.pending_changes()[0] {
        PendingChange::EditBuffer { edit, .. } => apply_edit_to_string(&mut s, edit).unwrap(),
        other => panic!("unexpected {other:?}"),
    }
    assert_eq!(s, "a\nB\nc\n");
}

#[test]
fn edit_lines_errors() {
    let mut tx = WorkspaceTx::new("/ws".to_string());
    let e = EditLinesTool
        .invoke(
            EditLinesInput { path: "f".into(), start_line: 0, end_line: 2, new_content: String::new() },
            "/ws/f".into(),
            "a\n",
            &mut tx,
            false,
        )
        .unwrap_err();
    assert_eq!(e.text(), "invalid line range (use 1-based inclusive lines)");
    let e = EditLinesTool
        .invoke(
            EditLinesInput { path: "f".into(), start_line: 5, end_line: 6, new_content: String::new() },
            "/ws/f".into(),
            "a\n",
            &mut tx,
            false,
        )
        .unwrap_err();
    assert_eq!(e.text(), "editor core: line index 4 is past the end of the text");
    assert!(tx.pending_changes().is_empty());
}

#[test]
fn line_positions() {
    assert_eq!(line_to_byte("ab\ncd\n", 0), Some(0));
    assert_eq!(line_to_byte("ab\ncd\n", 1), Some(3));
    assert_eq!(line_to_byte("ab\ncd\n", 2), Some(6));
    assert_eq!(line_to_byte("ab\ncd\n", 3), None);
    assert_eq!(count_newlines("ab\ncd\n"), 2);
    assert_eq!(line_replacement_span("ab\ncd\nef", 2, 9).unwrap(), (3, 8));
    assert_eq!(line_replacement_span("ab\ncd\nef", 1, 1).unwrap(), (0, 3));
    assert_eq!(insert_byte_before_line("ab\ncd", 2).unwrap(), 3);
    assert!(insert_byte_before_line("ab", 0).is_err());
    assert_eq!(
        preview_range_msg(4, 7, 3, 1),
        "Will replace lines 3-1 (1 lines, 4 bytes) with new content (7 bytes)."
    );
}

#[test]
fn insert_at_multibyte_text_stays_on_boundaries() {
    let mut tx = WorkspaceTx::new("/ws".to_string());
    let text = "é\nü\n";
    InsertAtTool
        .invoke(
            InsertAtInput { path: "f".into(), line: 2, content: "x\n".into() },
            "/ws/f".into(),
            text,
            &mut tx,
            false,
        )
        .unwrap();
    let mut s = text.to_string();
    match &tx.pending_changes()[0] {
        PendingChange::EditBuffer { edit, .. } => apply_edit_to_string(&mut s, edit).unwrap(),
        other => panic!("unexpected {other:?}"),
    }
    assert_eq!(s, "é\nx\nü\n");
}

#[test]
fn apply_edit_rejects_non_boundary() {
    let mut s = "é".to_string();
    let e = apply_edit_to_string(&mut s, &BufferEdit::InsertAt { byte_offset: 1, text: "x".into() })
        .unwrap_err();
    assert_eq!(e.text(), "insert offset not on UTF-8 boundary");
    assert_eq!(s, "é");
    let e = apply_edit_to_string(
        &mut s,
        &BufferEdit::ReplaceRange { start_byte: 0, end_byte: 1, new_text: "x".into() },
    )
    .unwrap_err();
    assert_eq!(e.text(), "edit byte offsets not on UTF-8 boundaries");
    apply_edit_to_string(&mut s, &BufferEdit::FullReplace { new_text: "z".into() }).unwrap();
    assert_eq!(s, "z");
}

#[test]
fn create_delete_move_decisions() {
    let mut tx = WorkspaceTx::new("/ws".to_string());
    let e = CreateFileTool
        .invoke(
            CreateFileInput { path: "a".into(), content: "x".into() },
            "/ws/a".into(),
            true,
            &mut tx,
            false,
        )
        .unwrap_err();
    assert_eq!(e.text(), "/ws/a already exists");
    let m = CreateFileTool
        .invoke(
            CreateFileInput { path: "a".into(), content: "xyz".into() },
            "/ws/a".into(),
            false,
            &mut tx,
            true,
        )
        .unwrap();
    assert_eq!(m, "Will create /ws/a (3 bytes).");
    let m = CreateFileTool
        .invoke(
            CreateFileInput { path: "a".into(), content: "xyz".into() },
            "/ws/a".into(),
            false,
            &mut tx,
            false,
        )
        .unwrap();
    assert_eq!(m, "Staged create_file.");
    let e = DeleteFileTool
        .invoke(DeleteFileInput { path: "b".into() }, "/ws/b".into(), false, None, &mut tx, false)
        .unwrap_err();
    assert_eq!(e.text(), "/ws/b does not exist");
    let m = DeleteFileTool
        .invoke(
            DeleteFileInput { path: "b".into() },
            "/ws/b".into(),
            true,
            Some("12345".into()),
            &mut tx,
            true,
        )
        .unwrap();
    assert_eq!(m, "Will delete /ws/b (5 bytes).");
    let m = MoveFileTool
        .invoke(
            MoveFileInput { from: "a".into(), to: "c".into() },
            "/ws/a".into(),
            "/ws/c".into(),
            true,
            false,
            &mut tx,
            true,
        )
        .unwrap();
    assert_eq!(m, "Will move /ws/a -> /ws/c.");
    let e = MoveFileTool
        .invoke(
            MoveFileInput { from: "a".into(), to: "c".into() },
            "/ws/a".into(),
            "/ws/c".into(),
            true,
            true,
            &mut tx,
            false,
        )
        .unwrap_err();
    assert_eq!(e.text(), "/ws/c already exists");
    MoveFileTool
        .invoke(
            MoveFileInput { from: "a".into(), to: "c".into() },
            "/ws/a".into(),
            "/ws/c".into(),
            true,
            false,
            &mut tx,
            false,
        )
        .unwrap();
    assert_eq!(tx.pending_changes().len(), 2);
}

#[test]
fn commit_selected_partitions_queue() {
    let mut tx = WorkspaceTx::new("/ws".to_string());
    for i in 0..4 {
        tx.stage_change(PendingChange::UpsertFile { path: format!("/ws/f{i}"), contents: String::new() });
    }
    let mut run = tx.commit_selected(&[2, 0, 9]);
    let mut paths: Vec<String> = Vec::new();
    while let Some(c) = run.next_change() {
        match c {
            PendingChange::UpsertFile { path, .. } => paths.push(path.clone()),
            _ => unreachable!(),
        }
        run.record(Ok(()));
    }
    assert!(run.finish().is_ok());
    assert_eq!(paths, vec!["/ws/f0".to_string(), "/ws/f2".to_string()]);
    assert_eq!(tx.pending_changes().len(), 2);
    let mut rest = tx.commit_all();
    let mut n = 0;
    while rest.next_change().is_some() {
        n += 1;
        rest.record(Ok(()));
    }
    assert_eq!(n, 2);
    assert!(rest.finish().is_ok());
    assert!(tx.pending_changes().is_empty());
    assert_eq!(tx.workspace_root(), "/ws");
}

#[test]
fn preview_plan_groups_by_path() {
    let mut tx = WorkspaceTx::new("/ws".to_string());
    tx.stage_change(PendingChange::EditBuffer {
        path: "/ws/a".into(),
        edit: BufferEdit::InsertAt { byte_offset: 0, text: "x".into() },
    });
    tx.stage_change(PendingChange::MoveFile { from: "/ws/a".into(), to: "/ws/b".into() });
    tx.stage_change(PendingChange::UpsertFile { path: "/ws/a".into(), contents: "new".into() });
    let plan = tx.preview_plan();
    let paths: Vec<&str> = plan.iter().map(|p| p.path.as_str()).collect();
    assert_eq!(paths, vec!["/ws/a", "/ws/b"]);
    assert_eq!(plan[0].steps.len(), 3);
    assert_eq!(plan[1].steps.len(), 1);
    assert!(matches!(&plan[1].steps[0], PreviewStep::ContentsOf(p) if p == "/ws/a"));
}

#[test]
fn replace_in_file_plans() {
    let mut tx = WorkspaceTx::new("/ws".to_string());
    let target = || Ok(("/ws/f".to_string(), "foo bar foo".to_string()));
    let input = |occ: Option<u32>| ReplaceInFileInput {
        path: "f".into(),
        old_text: "foo".into(),
        new_text: "X".into(),
        occurrence: occ,
    };
    let m = ReplaceInFileTool.invoke(input(None), target(), &mut tx, true).unwrap();
    assert_eq!(m, "Will replace bytes 0-3 (one occurrence).");
    let m = ReplaceInFileTool.invoke(input(Some(1)), target(), &mut tx, true).unwrap();
    assert_eq!(m, "Will replace bytes 0-3 (one occurrence).");
    let e = ReplaceInFileTool.invoke(input(Some(3)), target(), &mut tx, false).unwrap_err();
    assert_eq!(e.text(), "occurrence 3 out of range (2 matches)");
    let m = ReplaceInFileTool.invoke(input(Some(2)), target(), &mut tx, true).unwrap();
    assert_eq!(m, "Will replace bytes 8-11 (one occurrence).");
    let m = ReplaceInFileTool.invoke(input(Some(0)), target(), &mut tx, true).unwrap();
    assert_eq!(m, "Will replace all 2 occurrences (3 bytes each).");
    let m = ReplaceInFileTool.invoke(input(Some(0)), target(), &mut tx, false).unwrap();
    assert_eq!(m, "Staged replace of all 2 occurrences.");
    match &tx.pending_changes()[0] {
        PendingChange::EditBuffer { edit: BufferEdit::FullReplace { new_text }, .. } => {
            assert_eq!(new_text, "X bar X")
        }
        other => panic!("unexpected {other:?}"),
    }
    let e = ReplaceInFileTool
        .invoke(
            ReplaceInFileInput { path: "f".into(), old_text: "zz".into(), new_text: "y".into(), occurrence: None },
            target(),
            &mut tx,
            false,
        )
        .unwrap_err();
    assert_eq!(e.text(), "old_text not found — use grep to locate the exact snippet first.");
    let e = ReplaceInFileTool
        .invoke(
            ReplaceInFileInput { path: "f".into(), old_text: String::new(), new_text: "y".into(), occurrence: None },
            target(),
            &mut tx,
            false,
        )
        .unwrap_err();
    assert_eq!(e.text(), "old_text must not be empty");
}

#[test]
fn read_file_ranges() {
    let out = ReadFileTool
        .invoke(
            ReadFileInput { path: " f\"x ".into(), start_line: Some(2), end_line: Some(9) },
            "/ws/f".into(),
            "a\nb\nc",
        )
        .unwrap();
    assert_eq!(out, "<file path=\"f'x\" lines=\"2-3\">\nb\nc\n</file>");
    let (body, s, e) = ReadFileTool::extract("one\ntwo\n", None, None).unwrap();
    assert_eq!((body.as_str(), s, e), ("one\ntwo\n", 1, 3));
    let big = "x".repeat(1_048_577);
    let e = ReadFileTool
        .invoke(ReadFileInput { path: "big".into(), start_line: None, end_line: None }, "/ws/big".into(), &big)
        .unwrap_err();
    assert_eq!(e.text(), "file too large (max 1048576 bytes): \"/ws/big\"");
}

#[test]
fn shell_allow_list() {
    let tool = RunShellTool::new(ToolConfig {
        shell: ShellSection { enabled: true, allowed_prefixes: vec!["cargo".into(), " git ".into()] },
    });
    assert!(tool.is_allowed("cargo"));
    assert!(tool.is_allowed("  cargo test"));
    assert!(tool.is_allowed("git status"));
    assert!(!tool.is_allowed("cargox"));
    assert!(!tool.is_allowed("rm -rf /"));
    assert!(!tool.is_allowed("   "));
    let input = RunShellInput { command: "cargo build".into(), cwd: None, timeout_seconds: Some(0) };
    assert_eq!(tool.plan(&input).unwrap(), 1);
    let input = RunShellInput { command: "cargo build".into(), cwd: None, timeout_seconds: None };
    assert_eq!(tool.plan(&input).unwrap(), 30);
    let input = RunShellInput { command: "ls".into(), cwd: None, timeout_seconds: None };
    let e = tool.plan(&input).unwrap_err();
    assert_eq!(
        e.text(),
        "shell disabled or command not allowed: command not allowed by prefix whitelist: [\"cargo\", \" git \"]"
    );
    assert!(tool.ensure_enabled().is_ok());
}

#[test]
fn shell_disabled_by_default_config() {
    let cfg = ToolConfig::default();
    assert!(!cfg.shell.enabled);
    assert_eq!(cfg.shell.allowed_prefixes.len(), 10);
    let tool = RunShellTool::new(cfg);
    let e = tool.ensure_enabled().unwrap_err();
    assert_eq!(
        e.text(),
        "shell disabled or command not allowed: shell tool is disabled; set [shell] enabled = true in `.ide/tools.toml`"
    );
}

#[test]
fn shell_output_summary() {
    let (s, err) = shell_summary(Some(0), "out", "err");
    assert_eq!(s, "exit=Some(0)\n--- stdout ---\nout\n--- stderr ---\nerr");
    assert!(!err);
    let (s, err) = shell_summary(Some(-2), "", "");
    assert!(s.starts_with("exit=Some(-2)\n"));
    assert!(err);
    assert!(shell_summary(None, "", "").1);
    assert_eq!(capture_len(5), 5);
    assert_eq!(capture_len(MAX_CAPTURE + 7), MAX_CAPTURE);
}

#[test]
fn disabled_by_default() {
    let (out, err) = match direct_shell_check(&ToolConfig::default(), "echo hi", "/tmp/ws") {
        Err(m) => (m, true),
        Ok(()) => (String::new(), false),
    };
    assert!(err, "{out}");
    assert!(out.contains("disabled"), "{out}");
    assert!(out.starts_with("Shell tool is disabled. To enable it, edit /tmp/ws/.ide/tools.toml:\n\n[shell]\n"));
}

#[test]
fn disallowed_prefix_rejected() {
    let cfg = ToolConfig { shell: ShellSection { enabled: true, allowed_prefixes: vec!["npm".into()] } };
    let out = direct_shell_check(&cfg, "rm -rf /", "/ws").unwrap_err();
    assert!(out.contains("not in the allowed list"), "{out}");
    assert_eq!(
        out,
        "Command prefix 'rm' is not in the allowed list. Add it to .ide/tools.toml under [shell] allowed_prefixes."
    );
    assert!(direct_shell_check(&cfg, "  npm install", "/ws").is_ok());
}

#[test]
fn first_word_matches_split_whitespace() {
    for s in ["", "  ", "echo hi", "\tnpm\ninstall", "x"] {
        let w: String = first_word(s).into_iter().collect();
        assert_eq!(w, s.split_whitespace().next().unwrap_or(""));
    }
    assert!(first_word_allowed("echo hi", &vec!["echo".to_string()]));
    assert!(!first_word_allowed("echoes hi", &vec!["echo".to_string()]));
}

#[test]
fn direct_shell_report_caps_streams() {
    let out = "a".repeat(60_000);
    let r = direct_shell_report(Some(0), &out, "warn");
    assert!(r.starts_with("exit_code: 0\nstdout:\n"));
    assert!(r.ends_with("\nstderr:\nwarn"));
    assert_eq!(r.len(), "exit_code: 0\nstdout:\n".len() + 50_000 + "\nstderr:\nwarn".len());
    assert_eq!(direct_shell_report(None, "o", "e"), "exit_code: -1\nstdout:\no\nstderr:\ne");
}

#[test]
fn find_files_uses_glob_set() {
    let cands = vec!["src/main.rs".to_string(), "build.sh".to_string(), "lib.rs".to_string()];
    let (summary, found) =
        FindFilesTool.invoke(FindFilesInput { pattern: "**/*.rs".into() }, cands).unwrap();
    assert_eq!(found, vec!["src/main.rs".to_string(), "lib.rs".to_string()]);
    assert_eq!(summary, "2 matches (cap 500)");
    let e = FindFilesTool.invoke(FindFilesInput { pattern: "a[".into() }, vec![]).unwrap_err();
    assert!(e.text().starts_with("invalid glob: "), "{}", e.text());
    let many: Vec<String> = (0..600).map(|i| format!("f{i}.rs")).collect();
    let (summary, found) = FindFilesTool.invoke(FindFilesInput { pattern: "*.rs".into() }, many).unwrap();
    assert_eq!(found.len(), 500);
    assert_eq!(found[499], "f499.rs");
    assert_eq!(summary, "500 matches (cap 500)");
}

#[test]
fn transaction_resolves_under_its_root() {
    let tx = WorkspaceTx::new("/ws".to_string());
    assert_eq!(tx.canonical_path("a/../b.txt").unwrap(), "/ws/b.txt");
    assert!(matches!(tx.canonical_path("../x"), Err(ToolError::PathEscape(_))));
    assert!(matches!(tx.canonical_path(""), Err(ToolError::Message(_))));
}

#[test]
fn apply_refuses_existing_targets() {
    let create = PendingChange::WriteNewFile { path: "/ws/a.txt".into(), contents: "x".into() };
    assert!(check_apply(&create, false).is_ok());
    match check_apply(&create, true) {
        Err(ToolError::Message(m)) => assert_eq!(m, "create_file: /ws/a.txt exists"),
        other => panic!("unexpected {other:?}"),
    }
    let mv = PendingChange::MoveFile { from: "/ws/a".into(), to: "/ws/b".into() };
    assert!(check_apply(&mv, false).is_ok());
    match check_apply(&mv, true) {
        Err(ToolError::Message(m)) => assert_eq!(m, "move_file: destination /ws/b already exists"),
        other => panic!("unexpected {other:?}"),
    }
    let up = PendingChange::UpsertFile { path: "/ws/a.txt".into(), contents: "x".into() };
    assert!(check_apply(&up, true).is_ok());
}

#[test]
fn registry_defs_carry_descriptions_and_schemas() {
    let reg = ToolRegistry::new_default(ToolConfig::default(), false);
    let defs = reg.as_defs();
    assert_eq!(defs[0].name, "add_task");
    assert_eq!(defs[0].description, "Append an open task to `.ide/tasks.md`.");
    let rf = defs.iter().find(|d| d.name == "read_file").unwrap();
    let schema: serde_json::Value = serde_json::from_str(&rf.input_schema).unwrap();
    assert_eq!(schema["required"][0], "path");
    assert_eq!(schema["properties"]["startLine"]["type"], "integer");
    for d in &defs {
        let v: serde_json::Value = serde_json::from_str(&d.input_schema).unwrap();
        assert_eq!(v["type"], "object");
    }
    assert_eq!(reg.tool_names().len(), 18);
    assert!(!reg.run_shell().name().is_empty());
}

fn walk(path: &str, name: &str, is_dir: bool, ignored: bool, size: Option<u64>) -> WalkEntry {
    WalkEntry { path: path.into(), name: name.into(), is_dir, ignored, size }
}

#[test]
fn list_directory_rows_skip_root_and_ignored() {
    let t = ListDirectoryTool;
    let entries = vec![
        walk("/ws/src", "src", true, false, Some(4096)),
        walk("/ws/src/a.rs", "a.rs", false, false, Some(12)),
        walk("/ws/src/target", "target", true, true, None),
        walk("/ws/src/b.rs", "b.rs", false, false, None),
        walk("/ws/src/", "src", true, false, None),
    ];
    let (summary, rows): (String, Vec<DirRow>) = t.invoke("/ws/src".into(), true, entries).unwrap();
    assert_eq!(summary, "2 entries");
    assert_eq!(rows.len(), 2);
    assert_eq!((rows[0].name.as_str(), rows[0].kind.as_str(), rows[0].size), ("a.rs", "file", 12));
    assert_eq!((rows[1].path.as_str(), rows[1].size), ("/ws/src/b.rs", 0));
    match t.invoke("/ws/x.txt".into(), false, vec![]) {
        Err(ToolError::Message(m)) => assert_eq!(m, "not a directory: /ws/x.txt"),
        other => panic!("unexpected {other:?}"),
    }
}

#[test]
fn list_directory_walk_depth() {
    let t = ListDirectoryTool;
    let p = |recursive, max_depth| ListDirectoryInput { path: ".".into(), recursive, max_depth };
    assert_eq!(t.walk_depth(&p(false, Some(5))), Some(1));
    assert_eq!(t.walk_depth(&p(true, Some(2))), Some(3));
    assert_eq!(t.walk_depth(&p(true, Some(u32::MAX))), Some(u32::MAX as usize));
    assert_eq!(t.walk_depth(&p(true, None)), None);
}

fn hit(path: &str, line: usize, col: usize, content: &str) -> SearchEvent {
    SearchEvent::Match(SearchHit { path: path.into(), line, col_start: col, line_content: content.into() })
}

#[test]
fn grep_rows_are_one_based_and_scoped() {
    let t = GrepTool;
    let events = vec![
        hit("/ws/src/a.rs", 0, 4, "fn main() {}"),
        SearchEvent::Progress,
        hit("/ws/docs/b.md", 2, 0, "main"),
        hit("/ws/src/c.rs", 9, 1, " main"),
        SearchEvent::Done,
        hit("/ws/src/late.rs", 0, 0, "main"),
    ];
    let (summary, rows) = t.invoke(Some("/ws/src".into()), events).unwrap();
    assert_eq!(summary, "2 matches");
    assert_eq!((rows[0].line, rows[0].column), (1, 5));
    assert_eq!(rows[1].path, "/ws/src/c.rs");
    assert_eq!((rows[1].line, rows[1].column, rows[1].content.as_str()), (10, 2, " main"));
    let (all, _) = t.invoke(None, vec![hit("/a", 0, 0, "x"), hit("/b", 1, 1, "y")]).unwrap();
    assert_eq!(all, "2 matches");
    match t.invoke(None, vec![hit("/a", 0, 0, "x"), SearchEvent::Error("bad regex".into())]) {
        Err(ToolError::Search(e)) => assert_eq!(e, "bad regex"),
        other => panic!("unexpected {other:?}"),
    }
}

#[test]
fn skill_tools_pass_registry_answers_on() {
    let ok = LoadSkillTool.invoke(Ok("# Skill body".into()));
    assert_eq!((ok.content.as_str(), ok.is_error), ("# Skill body", false));
    let err = LoadSkillReferenceTool.invoke(Err("no such file".into()));
    assert_eq!((err.content.as_str(), err.is_error), ("no such file", true));
    let cat = ListSkillsTool.invoke("<available_skills></available_skills>".into());
    assert!(!cat.is_error);
    assert_eq!(LoadSkillTool.name(), "load_skill");
}

#[test]
fn preview_after_applies_steps_in_order() {
    let mut tx = WorkspaceTx::new("/ws".to_string());
    tx.stage_change(PendingChange::EditBuffer {
        path: "/ws/a".into(),
        edit: BufferEdit::InsertAt { byte_offset: 0, text: "x".into() },
    });
    tx.stage_change(PendingChange::MoveFile { from: "/ws/a".into(), to: "/ws/b".into() });
    let plan = tx.preview_plan();
    let a = preview_after("abc".into(), &plan[0].steps, &vec![]).unwrap();
    assert_eq!(a, "");
    let b = preview_after(String::new(), &plan[1].steps, &vec!["abc".to_string()]).unwrap();
    assert_eq!(b, "abc");
    let b_unread = preview_after("old".into(), &plan[1].steps, &vec![]).unwrap();
    assert_eq!(b_unread, "");
    let only_edit = vec![PreviewStep::Edit(BufferEdit::InsertAt { byte_offset: 1, text: "Z".into() })];
    assert_eq!(preview_after("ab".into(), &only_edit, &vec![]).unwrap(), "aZb");
    match preview_after("é".into(), &only_edit, &vec![]) {
        Err(ToolError::Message(m)) => assert_eq!(m, "insert offset not on UTF-8 boundary"),
        other => panic!("unexpected {other:?}"),
    }
}

#[test]
fn accepts_new_file_under_existing_dir() {
    let root = "/tmp/ws".to_string();
    let p = canonical_under_workspace(Ok(root.clone()), "a/new.txt").unwrap();
    assert_eq!(p.rsplit('/').next().unwrap(), "new.txt");
    assert!(path_starts_with(&p, &root));
}

#[test]
fn replace_first_match_by_default_stages_one_edit() {
    let mut tx = WorkspaceTx::new("/ws".to_string());
    let input = ReplaceInFileInput {
        path: "code.rs".into(),
        old_text: "foo".into(),
        new_text: "bar".into(),
        occurrence: Some(1),
    };
    let target = Ok(("/ws/code.rs".to_string(), "foo foo foo\n".to_string()));
    ReplaceInFileTool.invoke(input, target, &mut tx, false).unwrap();
    assert_eq!(tx.pending_changes().len(), 1);
    match &tx.pending_changes()[0] {
        PendingChange::EditBuffer { path, edit: BufferEdit::ReplaceRange { start_byte, end_byte, new_text } } => {
            assert_eq!((path.as_str(), *start_byte, *end_byte, new_text.as_str()), ("/ws/code.rs", 0, 3, "bar"));
        }
        other => panic!("unexpected {other:?}"),
    }
}

#[test]
fn read_file_empty_and_past_end() {
    let (body, s, e) = ReadFileTool::extract("", None, None).unwrap();
    assert_eq!((body.as_str(), s, e), ("", 1, 1));
    match ReadFileTool::extract("a\nb", Some(5), None) {
        Err(ToolError::Message(m)) => assert_eq!(m, "start_line past end of file"),
        other => panic!("unexpected {other:?}"),
    }
    let (body, s, e) = ReadFileTool::extract("a\nb\nc", Some(2), Some(9)).unwrap();
    assert_eq!((body.as_str(), s, e), ("b\nc", 2, 3));
}

#[test]
fn rejects_symlink_to_path_outside_workspace() {
    // `ws/leak` links to `outside_secret.txt` beside the workspace: the
    // lexical resolution stays inside, the canonical prefix does not.
    let root = "/tmp/t/ws".to_string();
    let lexical = canonical_under_workspace(Ok(root.clone()), "leak").unwrap();
    assert_eq!(lexical, "/tmp/t/ws/leak");
    let r = check_under_root(&root, "leak", "/tmp/t/outside_secret.txt", &vec![]);
    assert!(matches!(r, Err(ToolError::PathEscape(ref p)) if p == "leak"), "expected PathEscape, got {r:?}");
}

#[test]
fn canonical_prefix_joined_with_missing_rest() {
    let (head, rest) = split_resolved("/tmp/t/ws/a/new.txt", 4);
    assert_eq!(head, "/tmp/t/ws/a");
    assert_eq!(rest, vec!["new.txt".to_string()]);
    let (head0, rest0) = split_resolved("/x/y", 0);
    assert_eq!((head0.as_str(), rest0.len()), ("/", 2));
    let ok = check_under_root("/tmp/t/ws", "a/new.txt", "/tmp/t/ws/a", &rest).unwrap();
    assert_eq!(ok, "/tmp/t/ws/a/new.txt");
    assert_eq!(check_under_root("/tmp/t/ws", "a", "/tmp/t/ws/a", &vec![]).unwrap(), "/tmp/t/ws/a");
    assert_eq!(check_under_root("/", "x", "/", &vec!["x".to_string()]).unwrap(), "/x");
}

#[test]
fn commit_stops_at_first_failure() {
    let mut tx = WorkspaceTx::new("/ws".to_string());
    for i in 0..4 {
        tx.stage_change(PendingChange::UpsertFile { path: format!("/ws/f{i}"), contents: String::new() });
    }
    let mut run = tx.commit_all();
    assert!(tx.pending_changes().is_empty());
    let mut offered = Vec::new();
    while let Some(c) = run.next_change() {
        if let PendingChange::UpsertFile { path, .. } = c {
            offered.push(path.clone());
        }
        if offered.len() == 2 {
            run.record(Err(ToolError::msg("disk full".to_string())));
        } else {
            run.record(Ok(()));
        }
    }
    assert_eq!(offered, vec!["/ws/f0".to_string(), "/ws/f1".to_string()]);
    match run.finish() {
        Err(ToolError::Message(m)) => assert_eq!(m, "disk full"),
        other => panic!("unexpected {other:?}"),
    }
    assert!(tx.pending_changes().is_empty());
    let mut none = tx.commit_selected(&[]);
    assert!(none.next_change().is_none());
    assert!(none.finish().is_ok());
}

#[test]
fn registry_dispatches_by_name() {
    let plain = ToolRegistry::new_default(ToolConfig::default(), false);
    assert_eq!(plain.tool_named("grep").unwrap(), RegisteredTool::Grep);
    assert_eq!(plain.tool_named("run_shell").unwrap(), RegisteredTool::RunShell);
    match plain.tool_named("load_skill") {
        Err(ToolError::Message(m)) => assert_eq!(m, "unknown tool: load_skill"),
        other => panic!("unexpected {other:?}"),
    }
    let skilled = ToolRegistry::new_default(ToolConfig::default(), true);
    assert_eq!(skilled.tool_named("load_skill").unwrap(), RegisteredTool::LoadSkill);
    assert!(skilled.tool_named("frobnicate").is_err());
}
