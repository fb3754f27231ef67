use theguardian_rss_bot::text::{
    chars_of, contains_exec, decimal_exec, replace_all_exec, string_of, trim_end_char_exec,
    trimmed,
};

fn s(v: &Vec<char>) -> String {
    string_of(v)
}

#[test]
fn trim_removes_unicode_white_space_at_both_ends() {
    let v = chars_of("\u{3000}\t  hello world \r\n\u{a0}");
    assert_eq!(s(&trimmed(&v)), "hello world");
    assert_eq!(s(&trimmed(&chars_of("   "))), "");
    assert_eq!(s(&trimmed(&chars_of("x"))), "x");
}

#[test]
fn trim_twice_is_trim_once() {
    let once = trimmed(&chars_of("  a b  "));
    let twice = trimmed(&once);
    assert_eq!(s(&once), s(&twice));
}

#[test]
fn replace_is_left_to_right_without_overlap() {
    let r = replace_all_exec(&chars_of("aaaa"), &chars_of("aa"), &chars_of("b"));
    assert_eq!(s(&r), "bb");
    let r = replace_all_exec(&chars_of("aabb"), &chars_of("ab"), &chars_of(""));
    assert_eq!(s(&r), "ab");
    let r = replace_all_exec(&chars_of("libsql://x/libsql://y"), &chars_of("libsql://"), &chars_of("https://"));
    assert_eq!(s(&r), "https://x/https://y");
    assert_eq!("libsql://x/libsql://y".replace("libsql://", "https://"), "https://x/https://y");
}

#[test]
fn contains_finds_patterns() {
    assert!(contains_exec(&chars_of("Read more... here"), &chars_of("Read more...")));
    assert!(!contains_exec(&chars_of("Read more.."), &chars_of("Read more...")));
    assert!(contains_exec(&chars_of(""), &chars_of("")));
}

#[test]
fn trailing_slashes_are_removed() {
    assert_eq!(s(&trim_end_char_exec(&chars_of("https://a.b///"), '/')), "https://a.b");
    assert_eq!(s(&trim_end_char_exec(&chars_of("///"), '/')), "");
}

#[test]
fn decimal_matches_to_string() {
    for n in [0usize, 7, 10, 42, 1000, 123456789] {
        assert_eq!(s(&decimal_exec(n)), n.to_string());
    }
}
