use ide_agent::editor::metrics::{push_duration, sorted_copy, HeapSample, MetricsCollector, FRAME_WINDOW};
use ide_agent::editor::perf::build_10mb_corpus;
use ide_agent::editor::session::{
    initial_file, load_mode, parse_cli, paths_equal, restore_cursor_byte, split_file_vs_folder_arg,
    CliAction, LoadMode, ASYNC_LOAD_MIN_BYTES,
};
use ide_agent::editor::skills_state::set_skill_enabled;
use ide_agent::editor::text_field::{is_typed_text, TextField};

fn args(a: &[&str]) -> Vec<String> {
    a.iter().map(|s| s.to_string()).collect()
}

#[test]
fn set_skill_enabled_round_trips_disable_list() {
    let mut disabled: Vec<String> = Vec::new();
    set_skill_enabled(&mut disabled, "using-git", false);
    assert!(disabled.iter().any(|n| n == "using-git"));
    set_skill_enabled(&mut disabled, "using-git", false);
    assert_eq!(disabled.len(), 1);
    set_skill_enabled(&mut disabled, "using-git", true);
    assert!(!disabled.iter().any(|n| n == "using-git"));
}

#[test]
fn cli_parsing() {
    assert!(matches!(parse_cli(args(&["index", "build", "x"])), CliAction::Index(ref v) if v.len() == 2));
    assert!(matches!(parse_cli(args(&["--dev-hud", "-h"])), CliAction::Help));
    assert!(matches!(parse_cli(args(&["a.rs", "--bogus"])), CliAction::UnknownOption(ref o) if o == "--bogus"));
    assert!(matches!(parse_cli(args(&["--dry-run", "x"])), CliAction::DryRun));
    assert!(matches!(parse_cli(args(&["--perf-smoke"])), CliAction::PerfSmoke));
    match parse_cli(args(&["--dev-hud", "--log-json", "src/main.rs", "other"])) {
        CliAction::Open { path, dev_hud } => {
            assert_eq!(path.as_deref(), Some("src/main.rs"));
            assert!(dev_hud);
        }
        _ => panic!("expected Open"),
    }
    assert!(matches!(parse_cli(Vec::new()), CliAction::Open { path: None, dev_hud: false }));
}

#[test]
fn smoke_dry_run_exits_zero() {
    assert!(matches!(parse_cli(args(&["--dry-run"])), CliAction::DryRun));
}

#[test]
fn path_equality_like_std() {
    for (a, b) in [("/a/b", "/a//b/"), ("a/./b", "a/b"), ("./a", "a"), ("/a", "a"), ("a/b", "a/c")] {
        assert_eq!(paths_equal(a, b), std::path::Path::new(a) == std::path::Path::new(b), "{a} {b}");
    }
}

#[test]
fn cursor_restore() {
    assert_eq!(restore_cursor_byte(Some("/x.rs"), Some("/x.rs"), Some(42), 100), 42);
    assert_eq!(restore_cursor_byte(Some("/x.rs"), Some("/x.rs"), Some(420), 100), 100);
    assert_eq!(restore_cursor_byte(Some("/y.rs"), Some("/x.rs"), Some(42), 100), 0);
    assert_eq!(restore_cursor_byte(None, None, Some(3), 10), 3);
    assert_eq!(restore_cursor_byte(None, Some("/x.rs"), Some(3), 10), 0);
    assert_eq!(restore_cursor_byte(Some("/x.rs"), Some("/x.rs"), None, 10), 0);
}

#[test]
fn startup_choices() {
    assert_eq!(split_file_vs_folder_arg(None, false, None), (None, None));
    assert_eq!(split_file_vs_folder_arg(Some("/ws".into()), true, None), (None, Some("/ws".into())));
    assert_eq!(
        split_file_vs_folder_arg(Some("/ws/a.rs".into()), false, Some("/ws".into())),
        (Some("/ws/a.rs".into()), Some("/ws".into()))
    );
    assert_eq!(load_mode(ASYNC_LOAD_MIN_BYTES), LoadMode::Deferred);
    assert_eq!(load_mode(ASYNC_LOAD_MIN_BYTES - 1), LoadMode::Immediate);
    assert_eq!(initial_file(Some("a.rs"), Some("/b.rs"), true).as_deref(), Some("a.rs"));
    assert_eq!(initial_file(None, Some("/b.rs"), true).as_deref(), Some("/b.rs"));
    assert_eq!(initial_file(None, Some("/b.rs"), false), None);
    assert_eq!(initial_file(Some("--dev-hud"), None, true), None);
}

#[test]
fn frame_window_keeps_last_frames() {
    let mut q = Vec::new();
    for i in 0..(FRAME_WINDOW as u64 + 5) {
        push_duration(&mut q, i);
    }
    assert_eq!(q.len(), FRAME_WINDOW);
    assert_eq!(q[0], 5);
    assert_eq!(*q.last().unwrap(), FRAME_WINDOW as u64 + 4);
    assert_eq!(sorted_copy(&vec![3, 1, 2, 1]), vec![1, 1, 2, 3]);
}

#[test]
fn collector_samples_heap_once_a_second() {
    let mut m = MetricsCollector::new(20_000_000_000);
    assert!(m.record_frame(1, 2, 3, 20_000_000_000));
    m.set_heap(HeapSample { resident_bytes: 1024 });
    assert!(!m.record_frame(4, 5, 9, 20_500_000_000));
    assert!(m.record_frame(4, 5, 6, 21_000_000_000));
    assert_eq!(m.frame_times(), &vec![3, 9, 6]);
    assert_eq!(m.sorted_frame_times(), vec![3, 6, 9]);
    assert_eq!((m.last_prepare(), m.last_submit()), (4, 5));
    assert_eq!(m.last_heap().unwrap().resident_bytes, 1024);
}

#[test]
fn percentile_order_of_sorted_frames() {
    let mut m = MetricsCollector::new(0);
    for i in 1..=50u64 {
        m.record_frame(i * 50, i * 50, i * 100, 0);
    }
    let v = m.sorted_frame_times();
    let p50 = v[(v.len() - 1) / 2];
    let p99 = v[v.len() - 1];
    assert!(p99 >= p50);
}

#[test]
fn text_field_editing() {
    let mut f = TextField::new();
    f.insert_str("héllo");
    assert_eq!(f.text(), "héllo");
    assert_eq!(f.cursor(), 6);
    f.move_left();
    f.move_left();
    f.move_left();
    f.move_left();
    assert_eq!(f.cursor(), 1);
    f.backspace();
    assert_eq!(f.text(), "éllo");
    assert_eq!(f.cursor(), 0);
    f.delete_forward();
    assert_eq!(f.text(), "llo");
    f.move_end();
    assert_eq!(f.cursor(), 3);
    f.insert_str("\nab");
    f.move_home();
    assert_eq!(f.cursor(), 4);
    f.move_right();
    assert_eq!(f.cursor(), 5);
    f.clear();
    assert_eq!((f.text(), f.cursor()), ("", 0));
    let g = TextField::with_text("xyz".into());
    assert_eq!(g.cursor(), 3);
    assert!(is_typed_text("a"));
    assert!(!is_typed_text(""));
    assert!(!is_typed_text("\u{8}"));
}

#[test]
fn corpus_is_ten_mebibytes() {
    let c = build_10mb_corpus();
    assert!(c.len() >= 10 * 1024 * 1024);
    assert!(c.len() - 65 < 10 * 1024 * 1024);
    assert!(c.starts_with("0123456789abcdef"));
}

#[test]
fn typing_then_backspace_restores() {
    for c in ["a", "é", "€", "😀"] {
        let mut f = TextField::with_text("xü".into());
        f.move_left();
        let before = (f.text().to_string(), f.cursor());
        f.insert_str(c);
        f.backspace();
        assert_eq!((f.text().to_string(), f.cursor()), before, "{c}");
    }
}

#[test]
fn smoke_test_dry_run_exits_zero() {
    assert!(matches!(parse_cli(args(&["--dry-run"])), CliAction::DryRun));
}
