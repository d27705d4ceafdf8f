use ide_agent::editor::git_paths::{is_git_ref_like, path_inside_dot_git};

#[test]
fn dot_git_detection_matches_internals() {
    assert!(path_inside_dot_git("/ws/.git/HEAD"));
    assert!(path_inside_dot_git("/ws/.git/refs/heads/main"));
    assert!(path_inside_dot_git(".git/index"));
    assert!(!path_inside_dot_git("/ws/src/main.rs"));
    assert!(!path_inside_dot_git("/ws/.gitignore"));
}

#[test]
fn ref_like_gates_head_refs_and_packed_refs() {
    assert!(is_git_ref_like("/ws/.git/HEAD"));
    assert!(is_git_ref_like("/ws/.git/packed-refs"));
    assert!(is_git_ref_like("/ws/.git/refs/heads/main"));
    assert!(is_git_ref_like("/ws/.git/refs/remotes/origin/HEAD"));
    assert!(!is_git_ref_like("/ws/.git/index"));
    assert!(!is_git_ref_like("/ws/.git/index.lock"));
    assert!(!is_git_ref_like("/ws/.git/objects/ab/cdef"));
    assert!(!is_git_ref_like("/ws/src/main.rs"));
}

#[test]
fn ref_like_paths_are_inside_dot_git() {
    for p in ["/ws/.git/HEAD", "//ws//.git//./refs/x", ".git/packed-refs"] {
        assert!(is_git_ref_like(p));
        assert!(path_inside_dot_git(p));
    }
}
