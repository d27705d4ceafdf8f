use ide_agent::glob::{glob_match, wildcard_match};

#[test]
fn glob_double_star_matches_nested() {
    assert!(glob_match("**/*.rs", "src/main.rs"));
    assert!(glob_match("**/*.rs", "a/b/c.rs"));
    assert!(!glob_match("**/*.rs", "src/main.ts"));
}

#[test]
fn wildcard_question_mark_and_star() {
    assert!(wildcard_match("a?c", "abc"));
    assert!(wildcard_match("*.rs", "main.rs"));
    assert!(!wildcard_match("*.rs", "main.ts"));
    assert!(wildcard_match("**", ""));
}
