use mailcross::strutil::{
    contains_sub, dec_string, eq_ignore_ascii, find_char, find_sub, has_prefix, split_lines,
    str_eq, trim,
};

#[test]
fn decimal_rendering_is_exact() {
    assert_eq!(dec_string(0), "0");
    assert_eq!(dec_string(7), "7");
    assert_eq!(dec_string(10), "10");
    assert_eq!(dec_string(305), "305");
    assert_eq!(dec_string(1_000_000), "1000000");
    assert_eq!(dec_string(usize::MAX), usize::MAX.to_string());
}

#[test]
fn trim_strips_surrounding_whitespace_only() {
    assert_eq!(trim("  hello  "), "hello");
    assert_eq!(trim("\t x y \r\n"), "x y");
    assert_eq!(trim(""), "");
    assert_eq!(trim("   "), "");
    assert_eq!(trim("none"), "none");
}

#[test]
fn split_lines_keeps_empty_segments() {
    assert_eq!(split_lines("a\nb\nc"), vec!["a", "b", "c"]);
    assert_eq!(split_lines("one"), vec!["one"]);
    assert_eq!(split_lines("end\n"), vec!["end", ""]);
    assert_eq!(split_lines(""), vec![""]);
    assert_eq!(split_lines("a\n\nb"), vec!["a", "", "b"]);
}

#[test]
fn substring_search() {
    assert!(contains_sub("hello world", "lo wo"));
    assert!(!contains_sub("hello", "world"));
    assert!(contains_sub("anything", ""));
    assert_eq!(find_sub("abcabc", "bc"), Some(1));
    assert_eq!(find_sub("abc", "zz"), None);
    assert_eq!(find_char("a:b:c", ':'), Some(1));
    assert_eq!(find_char("abc", ':'), None);
}

#[test]
fn prefix_and_equality() {
    assert!(has_prefix("Re: hello", "Re: "));
    assert!(!has_prefix("hello", "Re: "));
    assert!(str_eq("same", "same"));
    assert!(!str_eq("same", "Same"));
    assert!(eq_ignore_ascii("INBOX", "inbox"));
    assert!(eq_ignore_ascii("Sent Items", "SENT ITEMS"));
    assert!(!eq_ignore_ascii("inbox", "inbo"));
    assert!(!eq_ignore_ascii("spam", "junk"));
}
