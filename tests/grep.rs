use rcli::filter::{decimal_string, record_for_line};
use rcli::lines::split_lines;
use rcli::{find_matches, GrepError, MatchConfig};

fn plain(content: &str, pattern: &str) -> Vec<String> {
    find_matches(content, pattern, false, false, false, false).unwrap()
}

fn cfg(case_insensitive: bool, line_numbers: bool, only_matching: bool, invert_match: bool) -> MatchConfig {
    MatchConfig { case_insensitive, line_numbers, only_matching, invert_match }
}

#[test]
fn find_content_in_file() {
    let out = plain("A test\nActual content\nMore content\nAnother test", "test");
    assert_eq!(out.join("\n"), "A test\nAnother test");
}

#[test]
fn an_empty_str() {
    let out = plain("", "test");
    assert!(out.is_empty());
}

#[test]
fn case_insensitive_search() {
    let out = find_matches("Some Text\nsome text\nAnother Text", "some", true, false, false, false).unwrap();
    assert_eq!(out.join("\n"), "Some Text\nsome text");
}

#[test]
fn print_line_numbers() {
    let out = find_matches("first line\nrelevant line\nlast line", "line", false, true, false, false).unwrap();
    assert!(out.contains(&"2:relevant line".to_string()));
    assert_eq!(out, vec!["1:first line", "2:relevant line", "3:last line"]);
}

#[test]
fn only_matching_part_of_line() {
    let out = find_matches("line with the secret code 12345", "secret code", false, false, true, false).unwrap();
    assert_eq!(out, vec!["secret code"]);
}

#[test]
fn invert_match() {
    let out = find_matches("line one\nline two\nsomething else", "line", false, false, false, true).unwrap();
    assert_eq!(out, vec!["something else"]);
}

#[test]
fn case_sensitive_by_default() {
    let out = plain("Some Text\nsome text\nAnother Text", "some");
    assert_eq!(out, vec!["some text"]);
}

#[test]
fn pattern_is_a_regular_expression() {
    let out = plain("abc123\nno digits\n42", r"\d+$");
    assert_eq!(out, vec!["abc123", "42"]);
    let only = find_matches("abc123\nno digits\n42", r"\d+", false, false, true, false).unwrap();
    assert_eq!(only, vec!["123", "42"]);
}

#[test]
fn invalid_pattern_is_an_error() {
    let r = find_matches("a\nb", "(unclosed", false, false, false, false);
    assert!(matches!(r, Err(GrepError::InvalidPattern(_))));
}

#[test]
fn invalid_pattern_on_empty_content_is_an_error() {
    let r = find_matches("", "[", false, false, false, false);
    assert!(r.is_err());
}

#[test]
fn empty_pattern_passes_nonempty_lines() {
    let out = plain("one\n\ntwo\nthree\n", "");
    assert_eq!(out, vec!["one", "two", "three"]);
}

#[test]
fn empty_pattern_inverted_writes_nothing() {
    let out = find_matches("one\n\ntwo", "", false, true, true, true).unwrap();
    assert!(out.is_empty());
    let out = find_matches("one\n\ntwo", "", false, false, false, true).unwrap();
    assert!(out.is_empty());
}

#[test]
fn empty_pattern_only_matching_writes_nothing() {
    let out = find_matches("one\ntwo", "", false, false, true, false).unwrap();
    assert!(out.is_empty());
}

#[test]
fn empty_lines_are_never_written() {
    let out = find_matches("x\n\ny", "x", false, false, false, true).unwrap();
    assert_eq!(out, vec!["y"]);
    let out = find_matches("a\n\nb", "a*", false, false, false, false).unwrap();
    assert_eq!(out, vec!["a", "b"]);
}

#[test]
fn empty_match_is_suppressed_in_only_matching() {
    let out = find_matches("bbb\naab", "a*", false, false, true, false).unwrap();
    assert_eq!(out, vec!["aa"]);
}

#[test]
fn inverted_only_matching_writes_nothing() {
    let out = find_matches("line one\nsomething else", "line", false, false, true, true).unwrap();
    assert!(out.is_empty());
}

#[test]
fn only_matching_with_numbers() {
    let out = find_matches("x\nfoo bar\nbaz foo", "fo+", false, true, true, false).unwrap();
    assert_eq!(out, vec!["2:foo", "3:foo"]);
}

#[test]
fn only_matching_is_a_substring_of_its_line() {
    let content = "Alpha beta\ngamma BETA delta";
    let out = find_matches(content, "beta", true, false, true, false).unwrap();
    assert_eq!(out, vec!["beta", "BETA"]);
    let lines: Vec<&str> = content.lines().collect();
    assert!(lines[0].contains(out[0].as_str()));
    assert!(lines[1].contains(out[1].as_str()));
}

#[test]
fn numbers_have_several_digits() {
    let content = "a\nb\nc\nd\ne\nf\ng\nh\ni\nj\nk hit\nl";
    let out = find_matches(content, "hit", false, true, false, false).unwrap();
    assert_eq!(out, vec!["11:k hit"]);
}

#[test]
fn numbers_count_skipped_lines() {
    let out = find_matches("x\n\nx", "x", false, true, false, false).unwrap();
    assert_eq!(out, vec!["1:x", "3:x"]);
}

#[test]
fn crlf_line_endings_are_removed() {
    let out = plain("one match\r\ntwo\r\nmatch three\r\n", "match");
    assert_eq!(out, vec!["one match", "match three"]);
    let out = plain("end\r", "end");
    assert_eq!(out, vec!["end\r"]);
}

#[test]
fn same_inputs_same_output() {
    let content = "alpha\nbeta\ngamma\nalphabet";
    let first = find_matches(content, "alpha", false, true, false, false).unwrap();
    let second = find_matches(content, "alpha", false, true, false, false).unwrap();
    assert_eq!(first, second);
    assert_eq!(first, vec!["1:alpha", "4:alphabet"]);
}

#[test]
fn non_ascii_lines() {
    let out = find_matches("Grüße\nκόσμε\nstraße", "ß", false, true, false, false).unwrap();
    assert_eq!(out, vec!["1:Grüße", "3:straße"]);
    let out = find_matches("Grüße", "ü.", false, false, true, false).unwrap();
    assert_eq!(out, vec!["üß"]);
}

#[test]
fn split_lines_follows_line_terminators() {
    assert_eq!(split_lines(""), Vec::<&str>::new());
    assert_eq!(split_lines("a"), vec!["a"]);
    assert_eq!(split_lines("a\n"), vec!["a"]);
    assert_eq!(split_lines("a\n\n"), vec!["a", ""]);
    assert_eq!(split_lines("\n"), vec![""]);
    assert_eq!(split_lines("a\r\nb\r\n"), vec!["a", "b"]);
    assert_eq!(split_lines("a\r\r\nb\r"), vec!["a\r", "b\r"]);
}

#[test]
fn decimal_string_formats() {
    assert_eq!(decimal_string(0), "0");
    assert_eq!(decimal_string(7), "7");
    assert_eq!(decimal_string(10), "10");
    assert_eq!(decimal_string(1234567890), "1234567890");
    assert_eq!(decimal_string(usize::MAX), usize::MAX.to_string());
}

#[test]
fn record_for_line_selection() {
    let c = cfg(false, false, false, false);
    assert_eq!(record_for_line("abc", 0, true, None, c), Some("abc".to_string()));
    assert_eq!(record_for_line("abc", 0, false, None, c), None);
    assert_eq!(record_for_line("", 0, true, None, c), None);
    let inv = cfg(false, false, false, true);
    assert_eq!(record_for_line("abc", 0, false, None, inv), Some("abc".to_string()));
    assert_eq!(record_for_line("abc", 0, true, None, inv), None);
}

#[test]
fn record_for_line_rendering() {
    let numbered = cfg(false, true, false, false);
    assert_eq!(record_for_line("abc", 41, true, None, numbered), Some("42:abc".to_string()));
    let only = cfg(false, false, true, false);
    assert_eq!(record_for_line("abc", 0, true, Some("b"), only), Some("b".to_string()));
    assert_eq!(record_for_line("abc", 0, true, Some(""), only), None);
    assert_eq!(record_for_line("abc", 0, true, None, only), None);
    let both = cfg(false, true, true, false);
    assert_eq!(record_for_line("abc", 2, true, Some("bc"), both), Some("3:bc".to_string()));
}
