use ide_agent::tools::direct::recursive_listing;
use ide_agent::tools::direct::{
    direct_tool_named, directory_listing, edit_lines_in_text, edit_lines_range, find_files_glob,
    find_files_report, grep_file_lines, grep_report, insert_lines_in_text, lines_of,
    read_file_report, replace_occurrence_in_text, text_contains, unknown_tool_message, DirectTool,
    ReplaceFailure,
};

fn text_of(lines: &[Vec<char>]) -> Vec<String> {
    lines.iter().map(|l| l.iter().collect()).collect()
}

#[test]
fn edit_lines_replaces_range() {
    let out = edit_lines_in_text("a\nb\nc\nd\n", 2, 3, "X\nY").unwrap();
    assert_eq!(out, "a\nX\nY\nd\n");
}

#[test]
fn edit_lines_without_final_newline_keeps_none() {
    assert_eq!(edit_lines_in_text("a\nb", 1, 1, "z").unwrap(), "z\nb");
}

#[test]
fn edit_lines_past_end_is_refused() {
    let err = edit_lines_in_text("a\nb\n", 2, 5, "x").unwrap_err();
    assert_eq!(err, "end_line 5 > file length 2");
}

#[test]
fn edit_lines_range_checks_bounds() {
    assert_eq!(edit_lines_range(Some(2), Some(3)), Ok((2, 3)));
    assert_eq!(
        edit_lines_range(Some(0), Some(3)),
        Err("'start_line' must be a positive integer".to_string())
    );
    assert_eq!(
        edit_lines_range(None, Some(3)),
        Err("'start_line' must be a positive integer".to_string())
    );
    assert_eq!(edit_lines_range(Some(4), Some(3)), Err("'end_line' must be >= start_line".to_string()));
    assert_eq!(edit_lines_range(Some(4), None), Err("'end_line' must be >= start_line".to_string()));
}

#[test]
fn insert_lines_before_and_past_end() {
    let (t, n) = insert_lines_in_text("a\nb\n", 2, "x\ny");
    assert_eq!(t, "a\nx\ny\nb\n");
    assert_eq!(n, 2);
    let (t, n) = insert_lines_in_text("a\nb", 9, "z");
    assert_eq!(t, "a\nb\nz");
    assert_eq!(n, 1);
}

#[test]
fn lines_match_std_lines() {
    for s in ["", "a", "a\n", "a\r\nb\r\n", "\n\nx", "a\rb\n"] {
        let ours = text_of(&lines_of(s));
        let std: Vec<String> = s.lines().map(|l| l.to_string()).collect();
        assert_eq!(ours, std, "{s:?}");
    }
}

#[test]
fn replace_first_occurrence() {
    assert_eq!(replace_occurrence_in_text("foo foo foo\n", "foo", "bar", 1).ok().unwrap(), "bar foo foo\n");
}

#[test]
fn replace_all_occurrences() {
    assert_eq!(replace_occurrence_in_text("foo foo foo\n", "foo", "baz", 0).ok().unwrap(), "baz baz baz\n");
}

#[test]
fn replace_second_occurrence() {
    assert_eq!(replace_occurrence_in_text("ab ab ab", "ab", "X", 2).ok().unwrap(), "ab X ab");
}

#[test]
fn replace_missing_text_or_occurrence() {
    assert!(matches!(replace_occurrence_in_text("abc", "zz", "y", 1), Err(ReplaceFailure::NotFound)));
    assert!(matches!(
        replace_occurrence_in_text("ab ab", "ab", "y", 3),
        Err(ReplaceFailure::MissingOccurrence { found: 2 })
    ));
}

#[test]
fn replace_matches_std_replace_for_all() {
    for (h, n, r) in [("aaa", "aa", "b"), ("xyx", "x", "zz"), ("abc", "", "-")] {
        assert_eq!(replace_occurrence_in_text(h, n, r, 0).ok().unwrap(), h.replace(n, r));
    }
}

#[test]
fn known_tools_dispatch() {
    for (name, tool) in [
        ("read_file", DirectTool::ReadFile),
        ("list_directory", DirectTool::ListDirectory),
        ("find_files", DirectTool::FindFiles),
        ("grep", DirectTool::Grep),
        ("list_tasks", DirectTool::ListTasks),
        ("list_skills", DirectTool::ListSkills),
        ("run_shell", DirectTool::RunShell),
        ("update_task", DirectTool::UpdateTask),
    ] {
        assert_eq!(direct_tool_named(name), Some(tool));
    }
}

#[test]
fn unknown_tool_returns_error_message() {
    assert_eq!(direct_tool_named("nonexistent"), None);
    let out = unknown_tool_message("nonexistent");
    assert!(out.starts_with("Unknown tool:"), "{out}");
    assert_eq!(out, "Unknown tool: nonexistent");
}

#[test]
fn read_file_ok() {
    let out = read_file_report("f.txt", "hello\nworld\n");
    assert!(out.contains("hello"));
    assert_eq!(out, "File: f.txt (2 lines)\n---\nhello\nworld\n");
}

#[test]
fn list_directory_shows_files() {
    let out = directory_listing("/d", vec!["b.rs".to_string(), "a.rs".to_string(), "sub/".to_string()]);
    assert!(out.contains("a.rs") && out.contains("b.rs"));
    assert_eq!(out, "a.rs\nb.rs\nsub/");
    assert_eq!(directory_listing("/d", vec![]), "/d is empty");
}

#[test]
fn find_files_pattern_and_report() {
    assert_eq!(find_files_glob("*.rs", true), "**/*.rs");
    assert_eq!(find_files_glob("**/*.rs", true), "**/*.rs");
    assert_eq!(find_files_glob("*.rs", false), "*.rs");
    let out = find_files_report("**/*.rs", vec!["src/main.rs".to_string(), "lib.rs".to_string()]);
    assert_eq!(out, "lib.rs\nsrc/main.rs");
    assert_eq!(find_files_report("*.x", vec![]), "No files match '*.x'");
    let many: Vec<String> = (0..250).map(|i| format!("f{i:03}.rs")).collect();
    let out = find_files_report("*", many);
    assert_eq!(out.lines().count(), 200);
    assert!(out.starts_with("f000.rs\n"));
}

#[test]
fn grep_finds_pattern() {
    let lines: Vec<String> =
        "fn main() {\n  println!(\"hello\");\n}\n".lines().map(|l| l.to_string()).collect();
    let out = grep_file_lines("code.rs", &lines, "println", 2);
    let report = grep_report("println", out.clone());
    assert!(report.contains("println"));
    assert_eq!(
        out,
        vec![
            "code.rs:2".to_string(),
            "    1: fn main() {".to_string(),
            ">   2:   println!(\"hello\");".to_string(),
            "    3: }".to_string(),
            String::new(),
        ]
    );
    assert_eq!(grep_report("zzz", vec![]), "No matches for 'zzz'");
}

#[test]
fn grep_resumes_after_context() {
    let lines: Vec<String> = ["x", "x", "y", "x"].iter().map(|s| s.to_string()).collect();
    let out = grep_file_lines("f", &lines, "x", 0);
    assert_eq!(
        out,
        vec!["f:1", ">   1: x", "", "f:2", ">   2: x", "", "f:4", ">   4: x", ""]
            .into_iter()
            .map(String::from)
            .collect::<Vec<_>>()
    );
    let out = grep_file_lines("f", &lines, "x", 1);
    assert_eq!(out[0], "f:1");
    assert_eq!(out.len(), 4 + 4);
}

#[test]
fn contains_matches_std() {
    for (h, n) in [("hello", "ll"), ("hello", ""), ("", ""), ("abc", "abcd"), ("aab", "ab")] {
        assert_eq!(text_contains(h, n), h.contains(n), "{h:?} {n:?}");
    }
}

#[test]
fn recursive_listing_keeps_walk_order() {
    let out = recursive_listing("/d", vec!["a/".into(), "a/x.rs".into(), "a-b".into(), "target/ (skipped)".into()]);
    assert_eq!(out, "a/\na/x.rs\na-b\ntarget/ (skipped)");
    assert_eq!(recursive_listing("/d", vec![]), "/d is empty");
}

const KNOWN_TOOLS: &[(&str, &str)] = &[
    ("read_file", r#"{"path":"dummy.txt"}"#),
    ("list_directory", r#"{"path":"."}"#),
    ("find_files", r#"{"pattern":"*.txt"}"#),
    ("grep", r#"{"pattern":"hello"}"#),
    ("list_tasks", r#"{}"#),
    ("list_skills", r#"{}"#),
    ("run_shell", r#"{"command":"echo x"}"#),
];

#[test]
fn all_known_tools_dispatch_without_unknown_error() {
    for (name, input) in KNOWN_TOOLS {
        assert!(serde_json::from_str::<serde_json::Value>(input).is_ok());
        assert!(direct_tool_named(name).is_some(), "tool '{name}' was not dispatched");
    }
}

#[test]
fn replace_with_empty_old_text_prepends() {
    assert_eq!(replace_occurrence_in_text("abc", "", "X", 3).ok().unwrap(), "Xabc");
    assert_eq!(replace_occurrence_in_text("abc", "", "X", 1).ok().unwrap(), "Xabc");
}
