use jenkins_cli::text::{chars_of, decimal_string, equal_text, join_strings, parse_u32, split_chars, split_lines};

#[test]
fn decimal_round_trip() {
    assert_eq!(decimal_string(0), "0");
    assert_eq!(decimal_string(7), "7");
    assert_eq!(decimal_string(4294967295), "4294967295");
    assert_eq!(parse_u32("4294967295"), Some(4294967295));
    assert_eq!(parse_u32("0042"), Some(42));
    assert_eq!(parse_u32("+4"), None);
    assert_eq!(parse_u32(""), None);
}

#[test]
fn split_and_join() {
    let v = chars_of("a%2Fb%2F%2Fc");
    let sep = chars_of("%2F");
    let parts = split_chars(&v, &sep);
    assert_eq!(parts, vec!["a", "b", "", "c"]);
    assert_eq!(join_strings(&parts, "/job/"), "a/job/b/job//job/c");
    assert_eq!(split_lines("a\r\nb\n"), vec!["a", "b"]);
    assert!(split_lines("").is_empty());
    assert!(equal_text("ü", "ü"));
    assert!(!equal_text("true", "True"));
}
