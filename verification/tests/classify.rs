use newline_lint::classify::{
    breaks_rule, contains_nul, ends_with_newline, is_binary, is_crlf, sample, CR, LF, SAMPLE_SIZE,
};

fn filled(len: usize, byte: u8) -> Vec<u8> {
    let mut bytes = Vec::new();
    bytes.resize(len, byte);
    bytes
}

#[test]
fn sample_size_is_one_kibibyte() {
    assert_eq!(SAMPLE_SIZE, 1024);
    assert_eq!(CR, b'\r');
    assert_eq!(LF, b'\n');
}

#[test]
fn sample_keeps_short_content_whole() {
    assert_eq!(sample(b"hello", 1024), b"hello");
    assert_eq!(sample(b"", 1024), b"");
    assert_eq!(sample(b"hello", 5), b"hello");
}

#[test]
fn sample_cuts_long_content() {
    assert_eq!(sample(b"hello", 3), b"hel");
    assert_eq!(sample(b"hello", 0), b"");
    let long = filled(3000, b'x');
    assert_eq!(sample(&long, SAMPLE_SIZE).len(), 1024);
}

#[test]
fn plain_text_is_not_binary() {
    assert!(!is_binary(b"hello"));
    assert!(!is_binary(b"hello\n"));
    assert!(!is_binary("Simple UTF-8 string \u{2614}".as_bytes()));
}

#[test]
fn empty_sample_is_not_binary() {
    assert!(!is_binary(b""));
}

#[test]
fn nul_byte_makes_binary() {
    assert!(is_binary(b"he\0llo"));
    assert!(is_binary(b"\0"));
    assert!(is_binary(b"\xFF\xE0\x00\x10\x4A\x46\x49\x46\x00"));
}

#[test]
fn nul_byte_at_the_end_of_the_sample_makes_binary() {
    let mut bytes = filled(1024, b'a');
    bytes[1023] = 0;
    assert!(is_binary(&bytes));
}

#[test]
fn nul_byte_after_the_sample_is_not_seen() {
    let mut bytes = filled(2048, b'a');
    bytes[1024] = 0;
    assert!(!is_binary(&bytes));
    bytes[2047] = 0;
    assert!(!is_binary(&bytes));
}

#[test]
fn nul_byte_makes_binary_behind_a_byte_order_mark() {
    assert!(is_binary(b"\xFE\xFF\x00\x41"));
    assert!(is_binary(b"\xFF\xFEh\x00i\x00"));
    assert!(is_binary(b"\xFE\xFF\x00h\x00i"));
    assert!(is_binary(b"\xFF\xFE\x00\x00h\x00\x00\x00"));
    assert!(is_binary(b"\x00\x00\xFE\xFF\x00\x00\x00h"));
    assert!(is_binary(b"\xEF\xBB\xBFa\x00b"));
}

#[test]
fn byte_order_mark_without_nul_byte_means_text() {
    assert!(!is_binary(b"\xEF\xBB\xBFhello"));
    assert!(!is_binary(b"\xFF\xFEhi"));
    assert!(!is_binary(b"\xFE\xFFhi"));
    assert!(!is_binary(b"\xEF\xBB\xBF"));
}

#[test]
fn byte_order_mark_hides_a_magic_number() {
    assert!(!is_binary(b"\xEF\xBB\xBF%PDF-1.4"));
}

#[test]
fn contains_nul_finds_a_nul_byte_anywhere() {
    assert!(contains_nul(b"\0"));
    assert!(contains_nul(b"abc\0"));
    assert!(contains_nul(b"\0abc"));
    let mut long = filled(3000, b'a');
    long[2999] = 0;
    assert!(contains_nul(&long));
}

#[test]
fn contains_nul_finds_nothing_in_text() {
    assert!(!contains_nul(b""));
    assert!(!contains_nul(b"hello\n"));
    assert!(!contains_nul(&filled(3000, 1)));
}

#[test]
fn text_without_final_line_feed_breaks_the_rule() {
    assert!(breaks_rule(b"hello", b'o'));
    assert!(breaks_rule(b"line1\r\nline2", b'2'));
    assert!(breaks_rule(b"hello\r", b'\r'));
    assert!(breaks_rule(b"", b'x'));
}

#[test]
fn final_line_feed_keeps_the_rule() {
    assert!(!breaks_rule(b"hello\n", b'\n'));
    assert!(!breaks_rule(b"hello", b'\n'));
}

#[test]
fn binary_start_keeps_the_rule() {
    assert!(!breaks_rule(b"ab\0cd", b'd'));
    assert!(!breaks_rule(b"\xFE\xFF\x00\x41", b'\x41'));
    assert!(!breaks_rule(b"%PDF-1.4", b'4'));
    assert!(!breaks_rule(b"ab\0cd\n", b'\n'));
}

#[test]
fn breaks_rule_goes_by_the_sample_only() {
    let mut long = filled(2000, b'a');
    long[1024] = 0;
    assert!(breaks_rule(&long, b'a'));
    long[1023] = 0;
    assert!(!breaks_rule(&long, b'a'));
}

#[test]
fn magic_numbers_make_binary() {
    assert!(is_binary(b"%PDF-1.4 and so on"));
    assert!(is_binary(b"%PDF"));
    assert!(is_binary(b"\x89PNG\r\n"));
    assert!(!is_binary(b"%PD"));
    assert!(!is_binary(b" %PDF"));
}

#[test]
fn crlf_pair_is_found() {
    assert!(is_crlf(b"line1\r\nline2"));
    assert!(is_crlf(b"\r\n"));
    assert!(is_crlf(b"a\nb\r\n"));
}

#[test]
fn no_crlf_pair_is_not_found() {
    assert!(!is_crlf(b""));
    assert!(!is_crlf(b"\r"));
    assert!(!is_crlf(b"\n"));
    assert!(!is_crlf(b"line1\nline2\n"));
    assert!(!is_crlf(b"\n\r"));
    assert!(!is_crlf(b"\r \n"));
}

#[test]
fn crlf_pair_at_the_end_of_the_sample_is_found() {
    let mut bytes = filled(2000, b'a');
    bytes[1022] = b'\r';
    bytes[1023] = b'\n';
    assert!(is_crlf(&bytes));
}

#[test]
fn crlf_pair_across_the_end_of_the_sample_is_not_found() {
    let mut bytes = filled(2000, b'a');
    bytes[1023] = b'\r';
    bytes[1024] = b'\n';
    assert!(!is_crlf(&bytes));
}

#[test]
fn crlf_pair_after_the_sample_is_not_found() {
    let mut bytes = filled(2000, b'a');
    bytes[1500] = b'\r';
    bytes[1501] = b'\n';
    assert!(!is_crlf(&bytes));
}

#[test]
fn line_feed_at_the_end_is_a_newline() {
    assert!(ends_with_newline(b"hello\n"));
    assert!(ends_with_newline(b"\n"));
    assert!(ends_with_newline(b"hello\r\n"));
}

#[test]
fn other_last_bytes_are_no_newline() {
    assert!(!ends_with_newline(b"hello"));
    assert!(!ends_with_newline(b"hello\r"));
    assert!(!ends_with_newline(b"hello\n "));
    assert!(!ends_with_newline(b"\0"));
}
