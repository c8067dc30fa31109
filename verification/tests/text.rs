use container_detect::text::{find_char, rfind_char, trim, trim_end_quotes};

#[test]
fn trim_removes_both_ends() {
    assert_eq!(trim("  wsl \n"), "wsl");
    assert_eq!(trim("wsl"), "wsl");
    assert_eq!(trim(""), "");
    assert_eq!(trim(" \t\r\n"), "");
    assert_eq!(trim("a b"), "a b");
}

#[test]
fn trim_handles_unicode_whitespace() {
    assert_eq!(trim("\u{a0}name\u{3000}"), "name");
}

#[test]
fn trim_end_quotes_removes_every_trailing_quote() {
    assert_eq!(trim_end_quotes("abc\"\""), "abc");
    assert_eq!(trim_end_quotes("abc"), "abc");
    assert_eq!(trim_end_quotes("\"abc\""), "\"abc");
    assert_eq!(trim_end_quotes(""), "");
}

#[test]
fn find_char_returns_first_occurrence() {
    assert_eq!(find_char("a/b/c", '/'), Some(1));
    assert_eq!(find_char("abc", '/'), None);
    assert_eq!(find_char("", '/'), None);
}

#[test]
fn rfind_char_returns_last_occurrence() {
    assert_eq!(rfind_char("a/b/c", '/'), Some(3));
    assert_eq!(rfind_char("abc", '/'), None);
    assert_eq!(rfind_char("/", '/'), Some(0));
}
