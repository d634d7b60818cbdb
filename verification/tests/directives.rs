use test_driver::test_configuration::{override_code, parse_return_directive, split_lines};
use test_driver::text::contains_bytes;

fn parse(line: &[u8]) -> Option<i32> {
    parse_return_directive(&line.to_vec())
}

#[test]
fn plain_directive_is_read() {
    assert_eq!(parse(b"// RETURN: 5"), Some(5));
}

#[test]
fn directive_after_code_is_read() {
    assert_eq!(parse(b"int main() {} // RETURN: 42"), Some(42));
}

#[test]
fn extra_spaces_are_allowed() {
    assert_eq!(parse(b"//   RETURN:   123"), Some(123));
}

#[test]
fn missing_space_after_slashes_is_no_directive() {
    assert_eq!(parse(b"//RETURN: 5"), None);
}

#[test]
fn missing_space_after_keyword_is_no_directive() {
    assert_eq!(parse(b"// RETURN:5"), None);
}

#[test]
fn trailing_text_is_no_directive() {
    assert_eq!(parse(b"// RETURN: 5 "), None);
    assert_eq!(parse(b"// RETURN: 5x"), None);
}

#[test]
fn no_digits_is_no_directive() {
    assert_eq!(parse(b"// RETURN: "), None);
    assert_eq!(parse(b"// RETURN:"), None);
}

#[test]
fn value_too_large_for_an_exit_code_is_ignored() {
    assert_eq!(parse(b"// RETURN: 2147483647"), Some(2147483647));
    assert_eq!(parse(b"// RETURN: 2147483648"), None);
    assert_eq!(parse(b"// RETURN: 99999999999999999999"), None);
}

#[test]
fn last_directive_wins() {
    // Two directives in one file: the second value applies.
    let source = b"int x; // RETURN: 1\nint y; // RETURN: 2\n".to_vec();
    assert_eq!(override_code(&source, 0), 2);
}

#[test]
fn directory_code_stands_without_directive() {
    let source = b"int main() { return 0; }\n".to_vec();
    assert_eq!(override_code(&source, 7), 7);
}

#[test]
fn override_beats_directory_code() {
    let source = b"int main() {}\n// RETURN: 3\n".to_vec();
    assert_eq!(override_code(&source, 1), 3);
}

#[test]
fn carriage_returns_are_stripped_before_matching() {
    let source = b"// RETURN: 9\r\n".to_vec();
    assert_eq!(override_code(&source, 0), 9);
}

#[test]
fn split_lines_matches_line_reader() {
    let lines = split_lines(&b"a\nb\r\nc".to_vec());
    let texts: Vec<&[u8]> = lines.iter().map(|l| l.as_slice()).collect();
    assert_eq!(texts, vec![b"a" as &[u8], b"b", b"c"]);
    assert_eq!(split_lines(&b"".to_vec()).len(), 0);
    let one = split_lines(&b"x\n".to_vec());
    assert_eq!(one.len(), 1);
    assert_eq!(one[0].as_slice(), b"x");
}

#[test]
fn substring_search_finds_needles() {
    assert!(contains_bytes(&b"mcc: fatal error: no input files".to_vec(), &b"fatal error".to_vec()));
    assert!(!contains_bytes(&b"all good".to_vec(), &b"fatal".to_vec()));
    assert!(contains_bytes(&b"abc".to_vec(), &b"".to_vec()));
    assert!(contains_bytes(&b"".to_vec(), &b"".to_vec()));
    assert!(!contains_bytes(&b"ab".to_vec(), &b"abc".to_vec()));
}
