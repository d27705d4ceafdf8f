use ide_agent::order::{sort_strings, str_lt};
use ide_agent::search::{match_byte_indices, match_char_indices, replace_all_chars};
use ide_agent::text::{
    chars_of, is_blank, join_range, push_decimal, push_signed, replace_char_exec, split_chars,
    starts_with_chars, trim_chars,
};

fn cs(s: &str) -> Vec<char> {
    s.chars().collect()
}

#[test]
fn split_and_join_round_trip() {
    let parts = split_chars(&cs("a,,b,"), ',');
    let strs: Vec<String> = parts.iter().map(|p| p.iter().collect()).collect();
    assert_eq!(strs, vec!["a", "", "b", ""]);
    let joined: String = join_range(&parts, 0, parts.len(), ',').into_iter().collect();
    assert_eq!(joined, "a,,b,");
    let mid: String = join_range(&parts, 1, 3, '-').into_iter().collect();
    assert_eq!(mid, "-b");
}

#[test]
fn trim_matches_std() {
    for s in ["", "  x ", "\t\na b\r\n", "   ", "é "] {
        let t: String = trim_chars(&cs(s)).into_iter().collect();
        assert_eq!(t, s.trim());
        assert_eq!(is_blank(s), s.trim().is_empty());
    }
}

#[test]
fn decimal_rendering() {
    let mut s = String::from("n=");
    push_decimal(&mut s, 0);
    push_decimal(&mut s, 1234567890123);
    assert_eq!(s, "n=01234567890123");
    let mut s = String::new();
    push_signed(&mut s, -42);
    push_signed(&mut s, i32::MIN);
    assert_eq!(s, format!("-42{}", i32::MIN));
}

#[test]
fn char_helpers() {
    assert_eq!(chars_of("añb"), vec!['a', 'ñ', 'b']);
    let r: String = replace_char_exec(&cs("a\"b\""), '"', '\'').into_iter().collect();
    assert_eq!(r, "a'b'");
    assert!(starts_with_chars(&cs("**/x"), &cs("**/")));
    assert!(!starts_with_chars(&cs("*"), &cs("**")));
}

#[test]
fn string_order_and_sort() {
    assert!(str_lt("a", "b"));
    assert!(str_lt("ab", "b"));
    assert!(str_lt("a", "ab"));
    assert!(!str_lt("b", "b"));
    let v = sort_strings(vec!["pear".into(), "apple".into(), "Zed".into(), "apple".into()]);
    assert_eq!(v, vec!["Zed", "apple", "apple", "pear"]);
}

#[test]
fn matching_and_replacing() {
    assert_eq!(match_byte_indices(b"aaaa", b"aa"), vec![0, 2]);
    assert_eq!(match_byte_indices(b"abc", b"d"), Vec::<usize>::new());
    assert_eq!(match_char_indices(&cs("xéxé"), &cs("é")), vec![1, 3]);
    let out: String = replace_all_chars(&cs("aaa"), &cs("aa"), &cs("b")).into_iter().collect();
    assert_eq!(out, "aaa".replace("aa", "b"));
}
