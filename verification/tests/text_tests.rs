use port_sentinel::text::{
    split_on_char, split_text_lines, split_whitespace_tokens, str_contains, str_ends_with,
    str_eq, str_is_blank, str_starts_with, u64_to_string,
};

#[test]
fn tokens_split_on_runs_of_whitespace() {
    let toks = split_whitespace_tokens("  nginx   1234\tTCP  *:80 ");
    assert_eq!(toks, vec!["nginx", "1234", "TCP", "*:80"]);
}

#[test]
fn tokens_of_empty_and_blank_strings() {
    assert!(split_whitespace_tokens("").is_empty());
    assert!(split_whitespace_tokens(" \t  ").is_empty());
}

#[test]
fn split_on_pipe_keeps_empty_fields() {
    assert_eq!(split_on_char("a|b||c", '|'), vec!["a", "b", "", "c"]);
    assert_eq!(split_on_char("", '|'), vec![""]);
    assert_eq!(split_on_char("|", '|'), vec!["", ""]);
}

#[test]
fn lines_split_like_the_standard_library() {
    assert_eq!(split_text_lines("a\nb\nc"), vec!["a", "b", "c"]);
    assert_eq!(split_text_lines("a\nb\n"), vec!["a", "b"]);
    assert_eq!(split_text_lines("a\r\nb"), vec!["a", "b"]);
    assert_eq!(split_text_lines(""), Vec::<String>::new());
    assert_eq!(split_text_lines("\n"), vec![""]);
    assert_eq!(split_text_lines("a\n\nb"), vec!["a", "", "b"]);
    // a carriage return not followed by a line feed stays
    assert_eq!(split_text_lines("x\r"), vec!["x\r"]);
}

#[test]
fn substring_search_and_affixes() {
    assert!(str_contains("hello world", "lo wo"));
    assert!(str_contains("abc", ""));
    assert!(!str_contains("abc", "abcd"));
    assert!(!str_contains("abab", "aba2"));
    assert!(str_starts_with("/var/log/syslog", "/var/log"));
    assert!(!str_starts_with("/var", "/var/log"));
    assert!(str_ends_with("app.log", ".log"));
    assert!(!str_ends_with("app.log2", ".log"));
}

#[test]
fn string_equality_and_blankness() {
    assert!(str_eq("abc", "abc"));
    assert!(!str_eq("abc", "abd"));
    assert!(!str_eq("abc", "ab"));
    assert!(str_is_blank(""));
    assert!(str_is_blank(" \t\r\n"));
    assert!(!str_is_blank(" x "));
}

#[test]
fn decimal_rendering() {
    assert_eq!(u64_to_string(0), "0");
    assert_eq!(u64_to_string(7), "7");
    assert_eq!(u64_to_string(42), "42");
    assert_eq!(u64_to_string(5000), "5000");
    assert_eq!(u64_to_string(u64::MAX), "18446744073709551615");
}
