use television_preview::strings::{
    count_printable_ascii_characters, is_mostly_printable_ascii, next_char_boundary,
    prev_char_boundary, preprocess_line, replace_non_printable, shrink_with_ellipsis,
    slice_at_char_boundaries, slice_up_to_char_boundary, try_parse_utf8_char, MAX_LINE_LENGTH,
};

fn check_next_char_boundary(input: &str, start: usize, expected: usize) {
    assert_eq!(next_char_boundary(input, start), expected);
}

fn check_previous_char_boundary(input: &str, start: usize, expected: usize) {
    assert_eq!(prev_char_boundary(input, start), expected);
}

fn check_slice_at_char_boundaries(input: &str, start: usize, end: usize, expected: &str) {
    assert_eq!(slice_at_char_boundaries(input, start, end), expected);
}

fn check_replace_non_printable(input: &str, expected: &str) {
    assert_eq!(replace_non_printable(input.as_bytes(), 2), expected);
}

fn check_preprocess_line(input: &str, expected: &str) {
    assert_eq!(preprocess_line(input), expected);
}

#[test]
fn test_next_char_boundary_ascii() {
    check_next_char_boundary("Hello, World!", 0, 0);
    check_next_char_boundary("Hello, World!", 1, 1);
    check_next_char_boundary("Hello, World!", 13, 13);
    check_next_char_boundary("Hello, World!", 30, 13);
}

#[test]
fn test_next_char_boundary_emoji() {
    check_next_char_boundary("👋🌍!", 0, 0);
    check_next_char_boundary("👋🌍!", 1, 4);
    check_next_char_boundary("👋🌍!", 4, 4);
    check_next_char_boundary("👋🌍!", 8, 8);
    check_next_char_boundary("👋🌍!", 7, 8);
}

#[test]
fn test_previous_char_boundary_ascii() {
    check_previous_char_boundary("Hello, World!", 0, 0);
    check_previous_char_boundary("Hello, World!", 1, 1);
    check_previous_char_boundary("Hello, World!", 5, 5);
}

#[test]
fn test_previous_char_boundary_emoji() {
    check_previous_char_boundary("👋🌍!", 0, 0);
    check_previous_char_boundary("👋🌍!", 4, 4);
    check_previous_char_boundary("👋🌍!", 6, 4);
    check_previous_char_boundary("👋🌍!", 8, 8);
}

#[test]
fn test_slice_at_char_boundaries_ascii() {
    check_slice_at_char_boundaries("Hello, World!", 0, 0, "");
    check_slice_at_char_boundaries("Hello, World!", 0, 1, "H");
    check_slice_at_char_boundaries("Hello, World!", 0, 13, "Hello, World!");
    check_slice_at_char_boundaries("Hello, World!", 0, 30, "");
}

#[test]
fn test_slice_at_char_boundaries_emoji() {
    check_slice_at_char_boundaries("👋🌍!", 0, 0, "");
    check_slice_at_char_boundaries("👋🌍!", 0, 4, "👋");
    check_slice_at_char_boundaries("👋🌍!", 0, 8, "👋🌍");
    check_slice_at_char_boundaries("👋🌍!", 0, 7, "👋🌍");
    check_slice_at_char_boundaries("👋🌍!", 0, 9, "👋🌍!");
}

#[test]
fn test_replace_non_printable_ascii() {
    check_replace_non_printable("Hello, World!", "Hello, World!");
}

#[test]
fn test_replace_non_printable_tab() {
    check_replace_non_printable("Hello\tWorld!", "Hello  World!");
    check_replace_non_printable("\t-- AND\n", "  -- AND")
}

#[test]
fn test_replace_non_printable_line_feed() {
    check_replace_non_printable("Hello\nWorld!", "HelloWorld!");
}

#[test]
fn test_replace_non_printable_null() {
    check_replace_non_printable("Hello\x00World!", "Hello␀World!");
    check_replace_non_printable("Hello World!\0", "Hello World!␀");
}

#[test]
fn test_replace_non_printable_delete() {
    check_replace_non_printable("Hello\x7FWorld!", "Hello␀World!");
}

#[test]
fn test_replace_non_printable_bom() {
    check_replace_non_printable("Hello\u{FEFF}World!", "HelloWorld!");
}

#[test]
fn test_replace_non_printable_start_txt() {
    check_replace_non_printable("\u{C0}\u{EC}\x02", "\u{C0}\u{EC}\u{2400}");
}

#[test]
fn test_preprocess_line_cases() {
    check_preprocess_line("Hello, World!", "Hello, World!");
    check_preprocess_line("Hello, World!\n", "Hello, World!");
    check_preprocess_line("Hello, World!\x00", "Hello, World!");
    check_preprocess_line("Hello, World!\x7F", "Hello, World!␀");
    check_preprocess_line("Hello, World!\u{FEFF}", "Hello, World!");
    check_preprocess_line(&"a".repeat(400), &"a".repeat(300));
}

#[test]
fn printable_ascii_counts() {
    assert_eq!(count_printable_ascii_characters(b"Hello, World!"), 13);
    assert_eq!(count_printable_ascii_characters(b"Hello, World!\x00"), 13);
    assert_eq!(
        count_printable_ascii_characters(
            b"\x00\x01\x02\x03\x04\x05\x06\x07\x08\x09\x0A\x0B\x0C\x0D\x0E\x0F"
        ),
        0
    );
    assert_eq!(count_printable_ascii_characters(b""), 0);
    assert_eq!(count_printable_ascii_characters(b" ~\x7F\x1F"), 2);
}

#[test]
fn printable_threshold_is_strict() {
    assert!(is_mostly_printable_ascii(b"Hello, World!"));
    assert!(!is_mostly_printable_ascii(b""));
    // exactly seven printable bytes out of ten is not above the threshold
    assert!(!is_mostly_printable_ascii(b"abcdefg\x00\x00\x00"));
    assert!(is_mostly_printable_ascii(b"abcdefgh\x00\x00"));
    assert!(!is_mostly_printable_ascii(b"\x00\x01\x02\x03\x04\x05\x06\x07\x08a"));
}

#[test]
fn sanitizing_printable_ascii_twice_changes_nothing() {
    let once = replace_non_printable(b"fn main() { let x = 1; }", 4);
    let twice = replace_non_printable(once.as_bytes(), 4);
    assert_eq!(once, "fn main() { let x = 1; }");
    assert_eq!(twice, once);
}

#[test]
fn undecodable_bytes_become_hex_escapes() {
    assert_eq!(replace_non_printable(b"a\xFFb", 4), "a\\xFFb");
    assert_eq!(replace_non_printable(b"\xE2\x82", 4), "\\xE2\\x82");
    assert_eq!(replace_non_printable(b"\x80", 4), "\\x80");
    // an overlong encoding of '/' is not a character
    assert_eq!(replace_non_printable(b"\xC0\xAF", 4), "\\xC0\\xAF");
}

#[test]
fn wide_characters_and_c1_controls_become_the_placeholder() {
    assert_eq!(replace_non_printable("é€".as_bytes(), 4), "é␀");
    assert_eq!(replace_non_printable("\u{85}\u{700}\u{701}".as_bytes(), 4), "␀\u{700}␀");
    assert_eq!(replace_non_printable(b"\t", 3), "   ");
    assert_eq!(replace_non_printable(b"\t", 0), "");
}

#[test]
fn decoding_one_character() {
    assert_eq!(try_parse_utf8_char(b"abc"), Some(('a', 1)));
    assert_eq!(try_parse_utf8_char("éa".as_bytes()), Some(('é', 2)));
    assert_eq!(try_parse_utf8_char("€".as_bytes()), Some(('€', 3)));
    assert_eq!(try_parse_utf8_char("👋".as_bytes()), Some(('👋', 4)));
    assert_eq!(try_parse_utf8_char(b""), None);
    assert_eq!(try_parse_utf8_char(b"\xF0\x9F\x91"), None);
    // a surrogate is not a character
    assert_eq!(try_parse_utf8_char(b"\xED\xA0\x80"), None);
}

#[test]
fn long_printable_line_is_cut_to_the_maximum() {
    let line = "x".repeat(400);
    let processed = preprocess_line(&line);
    assert_eq!(processed.chars().count(), MAX_LINE_LENGTH);
}

#[test]
fn long_line_is_cut_at_a_character_boundary() {
    let line = format!("{}é{}", "a".repeat(299), "b".repeat(10));
    // the cut falls inside 'é', which is kept whole
    assert_eq!(preprocess_line(&line), format!("{}é", "a".repeat(299)));
    assert_eq!(preprocess_line("abc\r\n\0"), "abc");
    assert_eq!(preprocess_line("a\tb"), "a    b");
}

#[test]
fn slicing_out_of_range_gives_nothing() {
    assert_eq!(slice_at_char_boundaries("Hello", 3, 2), "");
    assert_eq!(slice_at_char_boundaries("Hello", 6, 6), "");
    assert_eq!(slice_at_char_boundaries("Hello", 0, 6), "");
    assert_eq!(slice_at_char_boundaries("👋🌍!", 5, 6), "🌍");
    assert_eq!(prev_char_boundary("Hello", 100), 5);
}

#[test]
fn slicing_up_to_a_boundary() {
    assert_eq!(slice_up_to_char_boundary("Hello, World!", 0), "");
    assert_eq!(slice_up_to_char_boundary("Hello, World!", 1), "H");
    assert_eq!(slice_up_to_char_boundary("Hello, World!", 13), "Hello, World!");
    assert_eq!(slice_up_to_char_boundary("👋\n🌍!", 1), "👋");
    assert_eq!(slice_up_to_char_boundary("👋\n🌍!", 7), "👋\n🌍");
}

#[test]
fn shrinking_keeps_both_ends() {
    assert_eq!(shrink_with_ellipsis("Hello, World!", 13), "Hello, World!");
    assert_eq!(shrink_with_ellipsis("Hello, World!", 6), "H…!");
    assert_eq!(shrink_with_ellipsis("Hello, World!", 2), "…");
    assert_eq!(shrink_with_ellipsis("abcdefghijklmnopqrst", 10), "abc…rst");
}
