use dockctl::text::eq_ignore_case;
use dockctl::text::parse_u16;
use dockctl::text::split_str;
use dockctl::text::str_eq;
use dockctl::text::u16_to_string;

#[test]
fn split_keeps_empty_segments() {
    assert_eq!(
        split_str("a;;b", ';'),
        vec!["a".to_string(), "".to_string(), "b".to_string()]
    );
}

#[test]
fn split_of_empty_string_is_one_empty_segment() {
    assert_eq!(split_str("", ';'), vec!["".to_string()]);
}

#[test]
fn split_without_separator_is_whole_string() {
    assert_eq!(split_str("abc", '/'), vec!["abc".to_string()]);
}

#[test]
fn split_with_trailing_separator() {
    assert_eq!(split_str("a;", ';'), vec!["a".to_string(), "".to_string()]);
}

#[test]
fn parse_u16_accepts_decimal_and_plus() {
    assert_eq!(parse_u16("0"), Some(0));
    assert_eq!(parse_u16("6379"), Some(6379));
    assert_eq!(parse_u16("65535"), Some(65535));
    assert_eq!(parse_u16("+80"), Some(80));
}

#[test]
fn parse_u16_rejects_bad_input() {
    assert_eq!(parse_u16(""), None);
    assert_eq!(parse_u16("+"), None);
    assert_eq!(parse_u16("65536"), None);
    assert_eq!(parse_u16("999999999999999999999"), None);
    assert_eq!(parse_u16("1a"), None);
    assert_eq!(parse_u16("-1"), None);
    assert_eq!(parse_u16(" 1"), None);
}

#[test]
fn parse_u16_matches_std_parse() {
    for text in ["0", "6379", "65535", "65536", "+80", "", "1a", "-1", "007"] {
        assert_eq!(parse_u16(text), text.parse::<u16>().ok(), "input {:?}", text);
    }
}

#[test]
fn u16_to_string_renders_decimal() {
    assert_eq!(u16_to_string(0), "0");
    assert_eq!(u16_to_string(7), "7");
    assert_eq!(u16_to_string(6379), "6379");
    assert_eq!(u16_to_string(65535), "65535");
}

#[test]
fn eq_ignore_case_folds_ascii_only() {
    assert!(eq_ignore_case("TcP", "tcp"));
    assert!(eq_ignore_case("", ""));
    assert!(!eq_ignore_case("tcp", "udp"));
    assert!(!eq_ignore_case("tcp", "tcpx"));
}

#[test]
fn str_eq_is_exact() {
    assert!(str_eq("abc", "abc"));
    assert!(!str_eq("abc", "Abc"));
    assert!(!str_eq("abc", "ab"));
}
